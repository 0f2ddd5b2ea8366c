use vstd::prelude::*;

verus! {

/// Identity of an authenticated account, as resolved by the host.
pub type AccountId = u64;

/// Logical time: the number of the block in which a transition is recorded.
pub type BlockNumber = u64;

/// Largest number of identifiers the delivery log holds between two prunes.
pub const MAX_DELIVERED_LOG: usize = 100;

/// A reported location. Any pair of values is accepted.
#[derive(Clone, Copy, Debug, PartialEq, Eq, Structural)]
pub struct Coords {
    pub lat: u32,
    pub lng: u32,
}

impl Coords {
    pub fn new(lat: u32, lng: u32) -> (r: Coords)
        ensures
            r.lat == lat,
            r.lng == lng,
    {
        Coords { lat, lng }
    }
}

/// The record the ledger keeps for one shipment.
#[derive(Clone, Copy, Debug, PartialEq, Eq, Structural)]
pub struct Shipment {
    pub id: u64,
    pub shipped_by: AccountId,
    pub received_by: AccountId,
    pub received_at: Coords,
    pub received_on: BlockNumber,
    pub destination: u64,
    pub delivered: bool,
}

/// The record that a new shipment starts with: in transit, held by `received_by`.
pub open spec fn spec_new_shipment(
    id: u64,
    shipped_by: AccountId,
    received_by: AccountId,
    received_at: Coords,
    destination: u64,
    received_on: BlockNumber,
) -> Shipment {
    Shipment {
        id,
        shipped_by,
        received_by,
        received_at,
        received_on,
        destination,
        delivered: false,
    }
}

/// The record `s` after a hand-over to `by` at `at` in block `on`; every
/// other field is kept.
pub open spec fn spec_hand_over(s: Shipment, by: AccountId, at: Coords, on: BlockNumber) -> Shipment {
    Shipment { received_by: by, received_at: at, received_on: on, ..s }
}

impl Shipment {
    /// A shipment that has just entered transit in block `received_on`.
    pub fn new(
        shipment_id: u64,
        shipped_by: AccountId,
        received_by: AccountId,
        received_at: Coords,
        destination: u64,
        received_on: BlockNumber,
    ) -> (r: Shipment)
        ensures
            r == spec_new_shipment(
                shipment_id,
                shipped_by,
                received_by,
                received_at,
                destination,
                received_on,
            ),
    {
        Shipment {
            id: shipment_id,
            shipped_by,
            received_by,
            received_at,
            received_on,
            destination,
            delivered: false,
        }
    }
}

/// Notifications announced after a successful operation.
#[derive(Clone, Copy, Debug, PartialEq, Eq, Structural)]
pub enum Event {
    ShipmentReceived { shipment_id: u64, received_by: AccountId, received_at: Coords },
    ShipmentDelivered { shipment_id: u64 },
}

/// Why an operation was rejected. A rejected operation changes nothing.
#[derive(Clone, Copy, Debug, PartialEq, Eq, Structural)]
pub enum Error {
    /// No shipment is recorded under the identifier.
    ShipmentDoesNotExist,
    /// A shipment is already recorded under the identifier.
    DuplicateShipment,
    /// The shipment has been delivered and can no longer change.
    ShipmentNotInTransit,
    /// The delivery log is full until the next prune.
    DeliveredLogOverflow,
}

} // verus!
