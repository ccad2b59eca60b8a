use spaceport::cargo::CargoStatus;
use spaceport::table::{CargoTable, CargoTextInfoRequest, StoreError};

fn status_of(table: &CargoTable, id: u128) -> CargoStatus {
    table.get_by_id(id).unwrap().status
}

#[test]
fn deliver_moves_shipping_cargo_past_transit_time() {
    let mut table = CargoTable::new();
    table.create(1, 0, 10, 1).unwrap();
    table.create(2, 50_000, 10, 1).unwrap();
    let moved = table.deliver(60_001);
    assert_eq!(moved, vec![1u128]);
    assert_eq!(status_of(&table, 1), CargoStatus::Delivered);
    assert_eq!(status_of(&table, 2), CargoStatus::Shipping);
}

#[test]
fn deliver_keeps_cargo_exactly_at_transit_time() {
    let mut table = CargoTable::new();
    table.create(1, 0, 10, 1).unwrap();
    assert!(table.deliver(60_000).is_empty());
    assert_eq!(status_of(&table, 1), CargoStatus::Shipping);
}

#[test]
fn deliver_sweeps_every_elapsed_cargo_after_a_late_tick() {
    let mut table = CargoTable::new();
    for id in 0..5u128 {
        table.create(id, (id as i64) * 1_000, 10, 2).unwrap();
    }
    let moved = table.deliver(1_000_000);
    assert_eq!(moved, vec![0u128, 1, 2, 3, 4]);
}

#[test]
fn launch_moves_delivered_and_counts_them() {
    let mut table = CargoTable::new();
    table.create(1, 0, 10, 1).unwrap();
    table.create(2, 0, 10, 1).unwrap();
    table.create(3, 100_000, 10, 1).unwrap();
    table.deliver(70_000);
    assert_eq!(table.launch(), 2);
    assert_eq!(status_of(&table, 1), CargoStatus::Launched);
    assert_eq!(status_of(&table, 2), CargoStatus::Launched);
    assert_eq!(status_of(&table, 3), CargoStatus::Shipping);
}

#[test]
fn launch_never_takes_shipping_cargo_to_launched() {
    let mut table = CargoTable::new();
    table.create(1, 0, 10, 1).unwrap();
    assert_eq!(table.launch(), 0);
    assert_eq!(status_of(&table, 1), CargoStatus::Shipping);
}

#[test]
fn statuses_only_move_forward() {
    let mut table = CargoTable::new();
    table.create(1, 0, 10, 1).unwrap();
    let mut seen = vec![status_of(&table, 1)];
    table.launch();
    seen.push(status_of(&table, 1));
    table.deliver(100_000);
    seen.push(status_of(&table, 1));
    table.deliver(200_000);
    seen.push(status_of(&table, 1));
    table.launch();
    seen.push(status_of(&table, 1));
    table.deliver(300_000);
    seen.push(status_of(&table, 1));
    assert_eq!(
        seen,
        vec![
            CargoStatus::Shipping,
            CargoStatus::Shipping,
            CargoStatus::Delivered,
            CargoStatus::Delivered,
            CargoStatus::Launched,
            CargoStatus::Launched,
        ]
    );
}

#[test]
fn second_sweep_is_a_no_op() {
    let mut table = CargoTable::new();
    table.create(1, 0, 10, 1).unwrap();
    table.create(2, 10, 10, 1).unwrap();
    assert_eq!(table.deliver(90_000).len(), 2);
    assert!(table.deliver(90_000).is_empty());
    assert_eq!(table.launch(), 2);
    assert_eq!(table.launch(), 0);
}

#[test]
fn claim_is_exclusive() {
    let mut table = CargoTable::new();
    table.create(7, 0, 10, 1).unwrap();
    assert!(table.claim_pending(7));
    assert!(!table.claim_pending(7));
    assert!(table.get_by_id(7).unwrap().pending);
}

#[test]
fn claim_of_unknown_id_fails() {
    let mut table = CargoTable::new();
    assert!(!table.claim_pending(7));
}

#[test]
fn release_makes_cargo_claimable_again() {
    let mut table = CargoTable::new();
    table.create(7, 0, 10, 1).unwrap();
    assert!(table.claim_pending(7));
    assert!(table.set_pending_by_id(7, false));
    assert!(table.claim_pending(7));
    assert!(!table.set_pending_by_id(8, false));
}

#[test]
fn undocumented_lists_only_unclaimed_cargo_without_text() {
    let mut table = CargoTable::new();
    table.create(1, 0, 10, 1).unwrap();
    table.create(2, 0, 10, 1).unwrap();
    table.create(3, 0, 10, 1).unwrap();
    table.claim_pending(2);
    table
        .update_text_info(CargoTextInfoRequest {
            id: 3,
            name: "Beta".to_string(),
            description: "A dull cargo".to_string(),
        })
        .unwrap();
    assert_eq!(table.get_un_docs(), vec![1u128]);
}

#[test]
fn create_refuses_duplicate_id() {
    let mut table = CargoTable::new();
    let c = table.create(1, 5, 10, 3).unwrap();
    assert_eq!(c.status, CargoStatus::Shipping);
    assert!(!c.pending);
    assert!(c.name.is_none());
    assert_eq!(table.create(1, 6, 10, 3).err(), Some(StoreError::DuplicateId));
    assert_eq!(table.len(), 1);
}

#[test]
fn update_text_info_of_unknown_id_is_not_found() {
    let mut table = CargoTable::new();
    let r = table.update_text_info(CargoTextInfoRequest {
        id: 9,
        name: "x".to_string(),
        description: "y".to_string(),
    });
    assert_eq!(r, Err(StoreError::NotFound));
}

#[test]
fn get_today_lists_cargo_created_after_day_start() {
    let mut table = CargoTable::new();
    table.create(1, 100, 10, 1).unwrap();
    table.create(2, 200, 10, 1).unwrap();
    table.create(3, 300, 10, 1).unwrap();
    let ids: Vec<u128> = table.get_today(200).iter().map(|c| c.id).collect();
    assert_eq!(ids, vec![3u128]);
}

#[test]
fn sweep_claims_each_undocumented_cargo_once() {
    let mut table = CargoTable::new();
    table.create(1, 0, 10, 1).unwrap();
    table.create(2, 0, 10, 1).unwrap();
    table.create(3, 0, 10, 1).unwrap();
    assert!(table.claim_pending(2));
    assert_eq!(table.claim_undocumented(), vec![1u128, 3]);
    assert!(table.claim_undocumented().is_empty());
    assert!(table.get_by_id(1).unwrap().pending);
    assert!(table.get_by_id(3).unwrap().pending);
}

#[test]
fn setting_pending_is_a_compare_and_set() {
    let mut table = CargoTable::new();
    table.create(7, 0, 10, 1).unwrap();
    assert!(table.set_pending_by_id(7, true));
    assert!(!table.set_pending_by_id(7, true));
    assert!(!table.claim_pending(7));
    assert!(table.get_by_id(7).unwrap().pending);
    assert!(!table.set_pending_by_id(8, true));
    assert!(table.set_pending_by_id(7, false));
    assert!(table.set_pending_by_id(7, true));
}

#[test]
fn release_all_claims_clears_every_pending_flag() {
    let mut table = CargoTable::new();
    table.create(1, 0, 10, 1).unwrap();
    table.create(2, 0, 10, 1).unwrap();
    assert_eq!(table.claim_undocumented(), vec![1u128, 2]);
    table.release_all_claims();
    assert!(!table.get_by_id(1).unwrap().pending);
    assert!(!table.get_by_id(2).unwrap().pending);
    assert_eq!(table.get_un_docs(), vec![1u128, 2]);
}

#[test]
fn ids_with_status_lists_matching_cargo() {
    let mut table = CargoTable::new();
    table.create(1, 0, 10, 1).unwrap();
    table.create(2, 100_000, 10, 1).unwrap();
    table.deliver(70_000);
    assert_eq!(table.ids_with_status(CargoStatus::Delivered), vec![1u128]);
    assert_eq!(table.ids_with_status(CargoStatus::Shipping), vec![2u128]);
    assert!(table.ids_with_status(CargoStatus::Launched).is_empty());
}
