//! Properties of the ledger that relate several operations, proved over the
//! transitions that the operations' contracts are stated in.

use vstd::prelude::*;

use crate::ledger::{
    ledger_wf, spec_begin_transit, spec_empty_ledger, spec_on_initialize, spec_shipment_delivered,
    spec_shipment_received, LedgerState,
};
use crate::types::{AccountId, BlockNumber, Coords, Error, Event, MAX_DELIVERED_LOG};

verus! {

/// An identifier can enter transit only while no record is stored under it:
/// once `begin_transit(k, ..)` has succeeded, a second `begin_transit(k, ..)`
/// fails with `DuplicateShipment` and changes nothing, and neither hand-over
/// operation removes the record, so this lasts until `k` is pruned.
pub proof fn lemma_begin_transit_unique(
    st: LedgerState,
    k: u64,
    first_origin: AccountId,
    first_shipped_by: AccountId,
    first_at: Coords,
    first_destination: u64,
    origin: AccountId,
    shipped_by: AccountId,
    at: Coords,
    destination: u64,
)
    ensures
        ({
            let (st1, r1) = spec_begin_transit(
                st,
                first_origin,
                k,
                first_shipped_by,
                first_at,
                first_destination,
            );
            r1 is Ok ==> spec_begin_transit(st1, origin, k, shipped_by, at, destination) == (
                st1,
                Err::<Event, Error>(Error::DuplicateShipment),
            )
        }),
        st.shipments.contains_key(k) ==> spec_begin_transit(
            st,
            origin,
            k,
            shipped_by,
            at,
            destination,
        ) == (st, Err::<Event, Error>(Error::DuplicateShipment)),
        st.shipments.contains_key(k) ==> spec_shipment_received(
            st,
            origin,
            k,
            at,
        ).0.shipments.contains_key(k),
        st.shipments.contains_key(k) ==> spec_shipment_delivered(
            st,
            origin,
            k,
            at,
        ).0.shipments.contains_key(k),
{
}

/// A delivered shipment is final: every later `shipment_received` or
/// `shipment_delivered` on it fails with `ShipmentNotInTransit` and changes
/// nothing.
pub proof fn lemma_delivered_is_final(st: LedgerState, k: u64, origin: AccountId, at: Coords)
    requires
        st.shipments.contains_key(k),
        st.shipments[k].delivered,
    ensures
        spec_shipment_received(st, origin, k, at) == (
            st,
            Err::<Event, Error>(Error::ShipmentNotInTransit),
        ),
        spec_shipment_delivered(st, origin, k, at) == (
            st,
            Err::<Event, Error>(Error::ShipmentNotInTransit),
        ),
{
}

/// The `delivered` flag never goes back to false: after any operation a
/// delivered shipment is either still stored and delivered, or pruned.
pub proof fn lemma_delivered_flag_monotonic(
    st: LedgerState,
    k: u64,
    origin: AccountId,
    shipped_by: AccountId,
    at: Coords,
    destination: u64,
    id: u64,
    n: BlockNumber,
)
    requires
        st.shipments.contains_key(k),
        st.shipments[k].delivered,
    ensures
        ({
            let nt = spec_begin_transit(st, origin, id, shipped_by, at, destination).0;
            nt.shipments.contains_key(k) && nt.shipments[k].delivered
        }),
        ({
            let nt = spec_shipment_received(st, origin, id, at).0;
            nt.shipments.contains_key(k) && nt.shipments[k].delivered
        }),
        ({
            let nt = spec_shipment_delivered(st, origin, id, at).0;
            nt.shipments.contains_key(k) && nt.shipments[k].delivered
        }),
        ({
            let nt = spec_on_initialize(st, n);
            nt.shipments.contains_key(k) ==> nt.shipments[k].delivered
        }),
{
}

/// With the delivery log full, delivering a shipment in transit fails with
/// `DeliveredLogOverflow` and leaves the whole ledger, that shipment's
/// record included, as it was.
pub proof fn lemma_full_log_rejects_delivery(st: LedgerState, k: u64, origin: AccountId, at: Coords)
    requires
        st.log.len() == MAX_DELIVERED_LOG,
        st.shipments.contains_key(k),
        !st.shipments[k].delivered,
    ensures
        spec_shipment_delivered(st, origin, k, at) == (
            st,
            Err::<Event, Error>(Error::DeliveredLogOverflow),
        ),
        spec_shipment_delivered(st, origin, k, at).0.shipments[k] == st.shipments[k],
        !spec_shipment_delivered(st, origin, k, at).0.shipments[k].delivered,
{
}

/// After the maintenance hook no identifier that was in the delivery log is
/// stored any more, the log is empty, and every other record is kept as it
/// was.
pub proof fn lemma_prune_complete(st: LedgerState, n: BlockNumber)
    ensures
        forall|i: int|
            0 <= i < st.log.len() ==> !spec_on_initialize(st, n).shipments.contains_key(
                #[trigger] st.log[i],
            ),
        spec_on_initialize(st, n).log.len() == 0,
        forall|k: u64|
            st.shipments.contains_key(k) && !st.log.contains(k) ==> #[trigger] spec_on_initialize(
                st,
                n,
            ).shipments.get(k) == st.shipments.get(k),
{
    assert forall|i: int| 0 <= i < st.log.len() implies !spec_on_initialize(
        st,
        n,
    ).shipments.contains_key(#[trigger] st.log[i]) by {
        assert(st.log.to_set().contains(st.log[i]));
    }
}

/// A lookup of an identifier that was never entered, or that has been
/// pruned, finds nothing; absence is the only answer given.
pub proof fn lemma_lookup_miss(st: LedgerState, n: BlockNumber, k: u64)
    ensures
        spec_empty_ledger().shipments.get(k) is None,
        st.log.contains(k) ==> spec_on_initialize(st, n).shipments.get(k) is None,
{
}

/// Every successful hand-over stamps the record with the current block,
/// which is no earlier than the stamp it replaces.
pub proof fn lemma_received_on_advances(st: LedgerState, k: u64, origin: AccountId, at: Coords)
    requires
        ledger_wf(st),
        st.shipments.contains_key(k),
    ensures
        spec_shipment_received(st, origin, k, at).1 is Ok ==> {
            let s = spec_shipment_received(st, origin, k, at).0.shipments[k];
            s.received_on == st.now && st.shipments[k].received_on <= s.received_on
        },
        spec_shipment_delivered(st, origin, k, at).1 is Ok ==> {
            let s = spec_shipment_delivered(st, origin, k, at).0.shipments[k];
            s.received_on == st.now && st.shipments[k].received_on <= s.received_on
        },
{
}

} // verus!
