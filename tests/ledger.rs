use logistics::{Coords, Error, Event, Pallet, Shipment, MAX_DELIVERED_LOG};

const A: u64 = 10;
const B: u64 = 11;
const C: u64 = 12;
const D: u64 = 13;

fn fill_log(p: &mut Pallet, first_id: u64) {
    for i in 0..MAX_DELIVERED_LOG as u64 {
        p.begin_transit(B, first_id + i, A, Coords::new(0, 0), 1).unwrap();
        p.shipment_delivered(C, first_id + i, Coords::new(1, 1)).unwrap();
    }
}

#[test]
fn full_lifecycle_scenario() {
    let mut p = Pallet::new();
    let r = p.begin_transit(B, 1, A, Coords::new(10, 20), 99);
    assert_eq!(
        r,
        Ok(Event::ShipmentReceived { shipment_id: 1, received_by: B, received_at: Coords::new(10, 20) })
    );
    let s = p.shipment(1).unwrap();
    assert_eq!(s.shipped_by, A);
    assert_eq!(s.received_by, B);
    assert!(!s.delivered);

    let r = p.shipment_received(C, 1, Coords::new(11, 21));
    assert_eq!(
        r,
        Ok(Event::ShipmentReceived { shipment_id: 1, received_by: C, received_at: Coords::new(11, 21) })
    );
    let s = p.shipment(1).unwrap();
    assert_eq!(s.received_by, C);
    assert_eq!(s.received_at, Coords::new(11, 21));

    let r = p.shipment_delivered(D, 1, Coords::new(12, 22));
    assert_eq!(r, Ok(Event::ShipmentDelivered { shipment_id: 1 }));
    assert!(p.shipment(1).unwrap().delivered);
    assert_eq!(p.delivered_log(), vec![1]);

    assert_eq!(p.shipment_received(C, 1, Coords::new(13, 23)), Err(Error::ShipmentNotInTransit));

    p.on_initialize(1);
    assert_eq!(p.shipment(1), None);
    assert_eq!(p.delivered_log(), Vec::<u64>::new());
}

#[test]
fn full_log_rejects_delivery_scenario() {
    let mut p = Pallet::new();
    fill_log(&mut p, 1000);
    assert_eq!(p.delivered_log().len(), 100);
    p.begin_transit(B, 5, A, Coords::new(3, 4), 7).unwrap();
    let before = p.shipment(5).unwrap();
    assert_eq!(p.shipment_delivered(D, 5, Coords::new(9, 9)), Err(Error::DeliveredLogOverflow));
    let after = p.shipment(5).unwrap();
    assert!(!after.delivered);
    assert_eq!(after, before);
    assert_eq!(after.received_by, B);
    assert_eq!(after.received_at, Coords::new(3, 4));
    assert_eq!(p.delivered_log().len(), 100);
}

#[test]
fn full_log_clears_after_prune() {
    let mut p = Pallet::new();
    fill_log(&mut p, 1000);
    p.begin_transit(B, 5, A, Coords::new(3, 4), 7).unwrap();
    p.on_initialize(1);
    assert!(p.delivered_log().is_empty());
    assert_eq!(p.shipment(1000), None);
    assert_eq!(p.shipment(1099), None);
    assert_eq!(p.shipment_delivered(D, 5, Coords::new(9, 9)), Ok(Event::ShipmentDelivered { shipment_id: 5 }));
}

#[test]
fn duplicate_begin_transit_is_rejected() {
    let mut p = Pallet::new();
    p.begin_transit(B, 3, A, Coords::new(1, 2), 50).unwrap();
    let before = p.shipment(3).unwrap();
    assert_eq!(p.begin_transit(C, 3, D, Coords::new(5, 6), 60), Err(Error::DuplicateShipment));
    assert_eq!(p.shipment(3).unwrap(), before);
}

#[test]
fn duplicate_while_delivered_but_not_pruned() {
    let mut p = Pallet::new();
    p.begin_transit(B, 3, A, Coords::new(1, 2), 50).unwrap();
    p.shipment_delivered(C, 3, Coords::new(1, 2)).unwrap();
    assert_eq!(p.begin_transit(C, 3, D, Coords::new(5, 6), 60), Err(Error::DuplicateShipment));
}

#[test]
fn pruned_identifier_may_be_reused() {
    let mut p = Pallet::new();
    p.begin_transit(B, 3, A, Coords::new(1, 2), 50).unwrap();
    p.shipment_delivered(C, 3, Coords::new(1, 2)).unwrap();
    p.on_initialize(4);
    assert!(p.begin_transit(D, 3, C, Coords::new(7, 8), 61).is_ok());
    let s = p.shipment(3).unwrap();
    assert_eq!(s.received_on, 4);
    assert_eq!(s.destination, 61);
    assert!(!s.delivered);
}

#[test]
fn delivered_shipment_cannot_be_delivered_again() {
    let mut p = Pallet::new();
    p.begin_transit(B, 8, A, Coords::new(1, 2), 50).unwrap();
    p.shipment_delivered(C, 8, Coords::new(3, 4)).unwrap();
    let before = p.shipment(8).unwrap();
    assert_eq!(p.shipment_delivered(D, 8, Coords::new(5, 6)), Err(Error::ShipmentNotInTransit));
    assert_eq!(p.shipment_received(D, 8, Coords::new(5, 6)), Err(Error::ShipmentNotInTransit));
    assert_eq!(p.shipment(8).unwrap(), before);
    assert_eq!(p.delivered_log(), vec![8]);
}

#[test]
fn unknown_shipment_is_reported() {
    let mut p = Pallet::new();
    assert_eq!(p.shipment_received(B, 42, Coords::new(1, 1)), Err(Error::ShipmentDoesNotExist));
    assert_eq!(p.shipment_delivered(B, 42, Coords::new(1, 1)), Err(Error::ShipmentDoesNotExist));
    assert!(p.delivered_log().is_empty());
}

#[test]
fn lookup_miss_is_plain_absence() {
    let mut p = Pallet::new();
    assert_eq!(p.shipment(0), None);
    assert_eq!(p.shipment(u64::MAX), None);
    p.begin_transit(B, 9, A, Coords::new(1, 1), 2).unwrap();
    p.shipment_delivered(C, 9, Coords::new(1, 1)).unwrap();
    p.on_initialize(1);
    assert_eq!(p.shipment(9), None);
    p.on_initialize(2);
    assert_eq!(p.shipment(9), None);
}

#[test]
fn prune_keeps_shipments_in_transit() {
    let mut p = Pallet::new();
    p.begin_transit(B, 1, A, Coords::new(1, 1), 2).unwrap();
    p.begin_transit(B, 2, A, Coords::new(2, 2), 3).unwrap();
    p.begin_transit(B, 3, A, Coords::new(3, 3), 4).unwrap();
    p.shipment_delivered(C, 3, Coords::new(0, 0)).unwrap();
    p.shipment_delivered(C, 1, Coords::new(0, 0)).unwrap();
    assert_eq!(p.delivered_log(), vec![3, 1]);
    let kept = p.shipment(2).unwrap();
    p.on_initialize(5);
    assert_eq!(p.shipment(1), None);
    assert_eq!(p.shipment(3), None);
    assert_eq!(p.shipment(2), Some(kept));
    assert_eq!(p.block_number(), 5);
}

#[test]
fn received_on_follows_the_block() {
    let mut p = Pallet::new();
    assert_eq!(p.block_number(), 0);
    p.begin_transit(B, 1, A, Coords::new(1, 1), 2).unwrap();
    assert_eq!(p.shipment(1).unwrap().received_on, 0);
    p.on_initialize(7);
    p.shipment_received(C, 1, Coords::new(2, 2)).unwrap();
    assert_eq!(p.shipment(1).unwrap().received_on, 7);
    p.on_initialize(9);
    p.shipment_delivered(D, 1, Coords::new(3, 3)).unwrap();
    let s = p.shipment(1).unwrap();
    assert_eq!(s.received_on, 9);
    assert_eq!(s.received_by, D);
    assert_eq!(s.shipped_by, A);
    assert_eq!(s.destination, 2);
}

#[test]
fn extreme_coordinates_are_accepted() {
    let mut p = Pallet::new();
    let at = Coords::new(u32::MAX, 0);
    assert!(p.begin_transit(B, u64::MAX, A, at, u64::MAX).is_ok());
    assert_eq!(p.shipment(u64::MAX).unwrap().received_at, at);
}

#[test]
fn new_shipment_record() {
    let s = Shipment::new(4, A, B, Coords::new(5, 6), 77, 3);
    assert_eq!(s.id, 4);
    assert_eq!(s.shipped_by, A);
    assert_eq!(s.received_by, B);
    assert_eq!(s.received_at, Coords::new(5, 6));
    assert_eq!(s.received_on, 3);
    assert_eq!(s.destination, 77);
    assert!(!s.delivered);
    let c = Coords::new(1, 2);
    assert_eq!((c.lat, c.lng), (1, 2));
}
