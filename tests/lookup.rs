use spaceport::lookup::{get_cargo_by_id, LookupError};
use spaceport::table::CargoTable;

#[test]
fn lookup_by_id_text() {
    let mut table = CargoTable::new();
    let id: u128 = 0xa1a2a3a4b1b2c1c2d1d2d3d4d5d6d7d8;
    table.create(id, 0, 10, 1).unwrap();
    let c = get_cargo_by_id(&table, "a1a2a3a4-b1b2-c1c2-d1d2-d3d4d5d6d7d8").unwrap();
    assert_eq!(c.id, id);
    assert_eq!(
        get_cargo_by_id(&table, "550e8400-e29b-41d4-a716-446655440000").err(),
        Some(LookupError::NotFound)
    );
    assert_eq!(get_cargo_by_id(&table, "not-a-uuid").err(), Some(LookupError::InvalidId));
}
