//! Finding a cargo by the text form of its id.
use vstd::prelude::*;
use crate::cargo::Cargo;
use crate::table::{CargoTable, has_id};

verus! {

/// The 128-bit value of the UUID that a text spells, if it spells one.
pub uninterp spec fn uuid_of(s: Seq<char>) -> Option<u128>;

/// Relies on uuid::Uuid::parse_str, read as a 128-bit value with
/// uuid::Uuid::as_u128: the result depends on the text alone.
#[verifier::external_body]
fn parse_uuid(s: &str) -> (r: Option<u128>)
    ensures
        r == uuid_of(s@),
{
    uuid::Uuid::parse_str(s).ok().map(|u| u.as_u128())
}

/// Why a lookup by id text failed.
#[derive(Clone, Copy, Debug, PartialEq, Eq, Structural)]
pub enum LookupError {
    /// The text is not a UUID.
    InvalidId,
    /// No cargo has the id.
    NotFound,
}

/// The cargo for an already parsed id: `None` stands for a text that was
/// not a UUID.
pub fn lookup_parsed(table: &CargoTable, parsed: Option<u128>) -> (r: Result<Cargo, LookupError>)
    requires
        table.wf(),
    ensures
        match parsed {
            None => r == Err::<Cargo, LookupError>(LookupError::InvalidId),
            Some(id) => if has_id(table@, id) {
                r.is_ok() && r.unwrap()@.id == id && table@.contains(r.unwrap()@)
            } else {
                r == Err::<Cargo, LookupError>(LookupError::NotFound)
            },
        },
{
    match parsed {
        None => Err(LookupError::InvalidId),
        Some(id) => match table.get_by_id(id) {
            Some(c) => Ok(c),
            None => Err(LookupError::NotFound),
        },
    }
}

/// The cargo whose id the text spells.
pub fn get_cargo_by_id(table: &CargoTable, id_text: &str) -> (r: Result<Cargo, LookupError>)
    requires
        table.wf(),
    ensures
        match uuid_of(id_text@) {
            None => r == Err::<Cargo, LookupError>(LookupError::InvalidId),
            Some(id) => if has_id(table@, id) {
                r.is_ok() && r.unwrap()@.id == id && table@.contains(r.unwrap()@)
            } else {
                r == Err::<Cargo, LookupError>(LookupError::NotFound)
            },
        },
{
    lookup_parsed(table, parse_uuid(id_text))
}

} // verus!
