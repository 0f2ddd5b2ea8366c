use std::collections::HashMap;
use vstd::prelude::*;

use crate::types::{
    spec_hand_over, spec_new_shipment, AccountId, BlockNumber, Coords, Error, Event, Shipment,
    MAX_DELIVERED_LOG,
};

verus! {

broadcast use vstd::std_specs::hash::group_hash_axioms;

/// What the ledger holds, as mathematical values: the records by identifier,
/// the identifiers queued for pruning in order of delivery, and the number
/// of the current block.
pub struct LedgerState {
    pub shipments: Map<u64, Shipment>,
    pub log: Seq<u64>,
    pub now: BlockNumber,
}

/// The ledger's invariant.
///
/// The log stays within its bound and holds no identifier twice; each record
/// is stored under its own identifier and was stamped no later than the
/// current block; an identifier is in the log exactly when its record is
/// stored and delivered.
pub open spec fn ledger_wf(st: LedgerState) -> bool {
    &&& st.log.len() <= MAX_DELIVERED_LOG
    &&& st.log.no_duplicates()
    &&& forall|k: u64| #[trigger]
        st.shipments.contains_key(k) ==> st.shipments[k].id == k && st.shipments[k].received_on
            <= st.now
    &&& forall|i: int|
        0 <= i < st.log.len() ==> st.shipments.contains_key(#[trigger] st.log[i])
            && st.shipments[st.log[i]].delivered
    &&& forall|k: u64| #[trigger]
        st.shipments.contains_key(k) && st.shipments[k].delivered ==> st.log.contains(k)
}

/// The ledger before any operation, at block 0.
pub open spec fn spec_empty_ledger() -> LedgerState {
    LedgerState { shipments: Map::empty(), log: Seq::empty(), now: 0 }
}

/// Entering a shipment into transit, by `origin`.
pub open spec fn spec_begin_transit(
    st: LedgerState,
    origin: AccountId,
    id: u64,
    shipped_by: AccountId,
    at: Coords,
    destination: u64,
) -> (LedgerState, Result<Event, Error>) {
    if st.shipments.contains_key(id) {
        (st, Err(Error::DuplicateShipment))
    } else {
        (
            LedgerState {
                shipments: st.shipments.insert(
                    id,
                    spec_new_shipment(id, shipped_by, origin, at, destination, st.now),
                ),
                ..st
            },
            Ok(Event::ShipmentReceived { shipment_id: id, received_by: origin, received_at: at }),
        )
    }
}

/// A hand-over of a shipment in transit to `origin`.
pub open spec fn spec_shipment_received(
    st: LedgerState,
    origin: AccountId,
    id: u64,
    at: Coords,
) -> (LedgerState, Result<Event, Error>) {
    if !st.shipments.contains_key(id) {
        (st, Err(Error::ShipmentDoesNotExist))
    } else if st.shipments[id].delivered {
        (st, Err(Error::ShipmentNotInTransit))
    } else {
        (
            LedgerState {
                shipments: st.shipments.insert(
                    id,
                    spec_hand_over(st.shipments[id], origin, at, st.now),
                ),
                ..st
            },
            Ok(Event::ShipmentReceived { shipment_id: id, received_by: origin, received_at: at }),
        )
    }
}

/// The final hand-over of a shipment in transit to `origin`, which queues it
/// for pruning. Nothing changes when the log is full.
pub open spec fn spec_shipment_delivered(
    st: LedgerState,
    origin: AccountId,
    id: u64,
    at: Coords,
) -> (LedgerState, Result<Event, Error>) {
    if !st.shipments.contains_key(id) {
        (st, Err(Error::ShipmentDoesNotExist))
    } else if st.shipments[id].delivered {
        (st, Err(Error::ShipmentNotInTransit))
    } else if st.log.len() >= MAX_DELIVERED_LOG {
        (st, Err(Error::DeliveredLogOverflow))
    } else {
        (
            LedgerState {
                shipments: st.shipments.insert(
                    id,
                    Shipment { delivered: true, ..spec_hand_over(st.shipments[id], origin, at, st.now) },
                ),
                log: st.log.push(id),
                ..st
            },
            Ok(Event::ShipmentDelivered { shipment_id: id }),
        )
    }
}

/// The maintenance hook of block `n`: every record named in the log is
/// removed, the log is emptied and the current block becomes `n`.
pub open spec fn spec_on_initialize(st: LedgerState, n: BlockNumber) -> LedgerState {
    LedgerState { shipments: st.shipments.remove_keys(st.log.to_set()), log: Seq::empty(), now: n }
}

/// The shipment ledger and its delivery log.
pub struct Pallet {
    shipments: HashMap<u64, Shipment>,
    delivered_log: Vec<u64>,
    block_number: BlockNumber,
}

impl View for Pallet {
    type V = LedgerState;

    closed spec fn view(&self) -> LedgerState {
        LedgerState {
            shipments: self.shipments@,
            log: self.delivered_log@,
            now: self.block_number,
        }
    }
}

impl Pallet {
    /// An empty ledger at block 0.
    pub fn new() -> (r: Pallet)
        ensures
            r@ == spec_empty_ledger(),
            ledger_wf(r@),
    {
        let r = Pallet { shipments: HashMap::new(), delivered_log: Vec::new(), block_number: 0 };
        assert(r@.shipments =~= Map::empty());
        r
    }

    /// The number of the current block.
    pub fn block_number(&self) -> (r: BlockNumber)
        ensures
            r == self@.now,
    {
        self.block_number
    }

    /// The record stored under `shipment_id`, or `None` when there is none.
    pub fn shipment(&self, shipment_id: u64) -> (r: Option<Shipment>)
        ensures
            r == self@.shipments.get(shipment_id),
    {
        match self.shipments.get(&shipment_id) {
            Some(s) => Some(*s),
            None => None,
        }
    }

    /// The identifiers queued for pruning, in order of delivery.
    pub fn delivered_log(&self) -> (r: Vec<u64>)
        ensures
            r@ == self@.log,
    {
        let mut r: Vec<u64> = Vec::new();
        let mut i: usize = 0;
        while i < self.delivered_log.len()
            invariant
                i <= self.delivered_log@.len(),
                r@ == self.delivered_log@.subrange(0, i as int),
            decreases self.delivered_log@.len() - i,
        {
            r.push(self.delivered_log[i]);
            i += 1;
            assert(r@ =~= self.delivered_log@.subrange(0, i as int));
        }
        assert(r@ =~= self.delivered_log@);
        r
    }
    /// Enters shipment `shipment_id` into transit, sent by `shipped_by` and
    /// now held by the caller `origin` at `received_at`.
    pub fn begin_transit(
        &mut self,
        origin: AccountId,
        shipment_id: u64,
        shipped_by: AccountId,
        received_at: Coords,
        destination: u64,
    ) -> (r: Result<Event, Error>)
        requires
            ledger_wf(old(self)@),
        ensures
            ledger_wf(final(self)@),
            (final(self)@, r) == spec_begin_transit(
                old(self)@,
                origin,
                shipment_id,
                shipped_by,
                received_at,
                destination,
            ),
    {
        if self.shipments.contains_key(&shipment_id) {
            return Err(Error::DuplicateShipment);
        }
        let s = Shipment::new(
            shipment_id,
            shipped_by,
            origin,
            received_at,
            destination,
            self.block_number,
        );
        self.shipments.insert(shipment_id, s);
        proof {
            let st = old(self)@;
            let nt = self@;
            assert forall|i: int| 0 <= i < st.log.len() implies st.log[i] != shipment_id by {
                assert(st.shipments.contains_key(st.log[i]));
            }
            assert forall|k: u64| #[trigger] nt.shipments.contains_key(k) implies nt.shipments[k].id
                == k && nt.shipments[k].received_on <= nt.now by {
                if k != shipment_id {
                    assert(st.shipments.contains_key(k));
                }
            }
            assert forall|k: u64| #[trigger]
                nt.shipments.contains_key(k) && nt.shipments[k].delivered implies nt.log.contains(
                k,
            ) by {
                assert(st.shipments.contains_key(k));
            }
        }
        Ok(Event::ShipmentReceived { shipment_id, received_by: origin, received_at })
    }

    /// Hands shipment `shipment_id`, still in transit, over to the caller
    /// `origin` at `received_at`.
    pub fn shipment_received(
        &mut self,
        origin: AccountId,
        shipment_id: u64,
        received_at: Coords,
    ) -> (r: Result<Event, Error>)
        requires
            ledger_wf(old(self)@),
        ensures
            ledger_wf(final(self)@),
            (final(self)@, r) == spec_shipment_received(
                old(self)@,
                origin,
                shipment_id,
                received_at,
            ),
    {
        let found = self.shipment(shipment_id);
        match found {
            None => Err(Error::ShipmentDoesNotExist),
            Some(s) => {
                if s.delivered {
                    return Err(Error::ShipmentNotInTransit);
                }
                let mut u = s;
                u.received_by = origin;
                u.received_at = received_at;
                u.received_on = self.block_number;
                self.shipments.insert(shipment_id, u);
                proof {
                    let st = old(self)@;
                    assert forall|i: int| 0 <= i < st.log.len() implies st.log[i]
                        != shipment_id by {
                        assert(st.shipments.contains_key(st.log[i]));
                    }
                }
                Ok(Event::ShipmentReceived { shipment_id, received_by: origin, received_at })
            },
        }
    }

    /// Hands shipment `shipment_id`, still in transit, over to the caller
    /// `origin` at `received_at` for the last time, and queues it for
    /// pruning. When the log is full the call is rejected as a whole.
    pub fn shipment_delivered(
        &mut self,
        origin: AccountId,
        shipment_id: u64,
        received_at: Coords,
    ) -> (r: Result<Event, Error>)
        requires
            ledger_wf(old(self)@),
        ensures
            ledger_wf(final(self)@),
            (final(self)@, r) == spec_shipment_delivered(
                old(self)@,
                origin,
                shipment_id,
                received_at,
            ),
    {
        let found = self.shipment(shipment_id);
        match found {
            None => Err(Error::ShipmentDoesNotExist),
            Some(s) => {
                if s.delivered {
                    return Err(Error::ShipmentNotInTransit);
                }
                if self.delivered_log.len() >= MAX_DELIVERED_LOG {
                    return Err(Error::DeliveredLogOverflow);
                }
                let mut u = s;
                u.received_by = origin;
                u.received_at = received_at;
                u.received_on = self.block_number;
                u.delivered = true;
                self.shipments.insert(shipment_id, u);
                self.delivered_log.push(shipment_id);
                proof {
                    let st = old(self)@;
                    let nt = self@;
                    assert forall|i: int| 0 <= i < st.log.len() implies st.log[i]
                        != shipment_id by {
                        assert(st.shipments.contains_key(st.log[i]));
                    }
                    assert forall|i: int| 0 <= i < nt.log.len() implies nt.shipments.contains_key(
                        #[trigger] nt.log[i],
                    ) && nt.shipments[nt.log[i]].delivered by {
                        if i < st.log.len() {
                            assert(nt.log[i] == st.log[i]);
                        }
                    }
                    assert forall|k: u64| #[trigger]
                        nt.shipments.contains_key(k) && nt.shipments[k].delivered implies nt.log.contains(
                        k,
                    ) by {
                        if k == shipment_id {
                            assert(nt.log[st.log.len() as int] == k);
                        } else {
                            let j = choose|j: int| 0 <= j < st.log.len() && st.log[j] == k;
                            assert(nt.log[j] == k);
                        }
                    }
                }
                Ok(Event::ShipmentDelivered { shipment_id })
            },
        }
    }

    /// The maintenance hook, run once at the start of block `n` before any
    /// other operation of that block: removes every record named in the
    /// delivery log, then empties the log.
    pub fn on_initialize(&mut self, n: BlockNumber)
        requires
            ledger_wf(old(self)@),
            old(self)@.now <= n,
        ensures
            ledger_wf(final(self)@),
            final(self)@ == spec_on_initialize(old(self)@, n),
    {
        let mut i: usize = 0;
        while i < self.delivered_log.len()
            invariant
                i <= self.delivered_log@.len(),
                self.delivered_log@ == old(self)@.log,
                self.block_number == old(self)@.now,
                self.shipments@ == old(self)@.shipments.remove_keys(
                    self.delivered_log@.subrange(0, i as int).to_set(),
                ),
            decreases self.delivered_log@.len() - i,
        {
            let id = self.delivered_log[i];
            self.shipments.remove(&id);
            proof {
                let log = self.delivered_log@;
                assert(log.subrange(0, i + 1).to_set() =~= log.subrange(0, i as int).to_set().insert(
                    id,
                )) by {
                    assert(log.subrange(0, i + 1) =~= log.subrange(0, i as int).push(id));
                    log.subrange(0, i as int).lemma_push_to_set_commute(id);
                }
                assert(self.shipments@ =~= old(self)@.shipments.remove_keys(
                    log.subrange(0, i + 1).to_set(),
                ));
            }
            i += 1;
        }
        proof {
            assert(self.delivered_log@.subrange(0, i as int) =~= self.delivered_log@);
        }
        self.delivered_log.clear();
        self.block_number = n;
        proof {
            let st = old(self)@;
            let nt = self@;
            assert forall|k: u64| #[trigger] nt.shipments.contains_key(k) implies !nt.shipments[k].delivered by {
                assert(!st.log.to_set().contains(k));
                assert(st.shipments.contains_key(k));
            }
        }
    }
}


} // verus!
