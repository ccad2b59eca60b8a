//! The cargo record and its lifecycle status.
use vstd::prelude::*;

verus! {

/// Minimum transit time before a shipped cargo counts as delivered, in
/// milliseconds.
pub const DELIVERY_DELAY_MS: i64 = 60000;

/// Where a cargo stands in its lifecycle.
#[derive(Clone, Copy, Debug, PartialEq, Eq, Structural)]
pub enum CargoStatus {
    Shipping,
    Delivered,
    Launched,
}

impl CargoStatus {
    /// The order of the lifecycle: shipping < delivered < launched.
    pub open spec fn rank(self) -> int {
        match self {
            CargoStatus::Shipping => 0,
            CargoStatus::Delivered => 1,
            CargoStatus::Launched => 2,
        }
    }
}

/// A cargo as the contracts see it: its text fields as character sequences.
pub struct CargoRow {
    pub id: u128,
    pub created_at: i64,
    pub paint_time: i32,
    pub cargo_type: u32,
    pub status: CargoStatus,
    pub name: Option<Seq<char>>,
    pub description: Option<Seq<char>>,
    pub pending: bool,
}

/// A tracked cargo. `id` is the 128-bit value of its UUID, `created_at` the
/// creation time in milliseconds since the Unix epoch, `cargo_type` the code
/// of its category.
pub struct Cargo {
    pub id: u128,
    pub created_at: i64,
    pub paint_time: i32,
    pub cargo_type: u32,
    pub status: CargoStatus,
    pub name: Option<String>,
    pub description: Option<String>,
    pub pending: bool,
}

/// The characters of an optional text.
pub open spec fn text_view(t: Option<String>) -> Option<Seq<char>> {
    match t {
        Some(s) => Some(s@),
        None => None,
    }
}

impl View for Cargo {
    type V = CargoRow;

    open spec fn view(&self) -> CargoRow {
        CargoRow {
            id: self.id,
            created_at: self.created_at,
            paint_time: self.paint_time,
            cargo_type: self.cargo_type,
            status: self.status,
            name: text_view(self.name),
            description: text_view(self.description),
            pending: self.pending,
        }
    }
}

/// A copy of an optional text.
pub fn copy_text(t: &Option<String>) -> (r: Option<String>)
    ensures
        text_view(r) == text_view(*t),
{
    match t {
        Some(s) => Some(s.clone()),
        None => None,
    }
}

impl Cargo {
    /// A new cargo as intake creates it: shipping, unclaimed, without text.
    pub fn new(id: u128, created_at: i64, paint_time: i32, cargo_type: u32) -> (r: Cargo)
        ensures
            r@ == fresh_row(id, created_at, paint_time, cargo_type),
    {
        Cargo {
            id,
            created_at,
            paint_time,
            cargo_type,
            status: CargoStatus::Shipping,
            name: None,
            description: None,
            pending: false,
        }
    }

    /// A copy of this cargo.
    pub fn duplicate(&self) -> (r: Cargo)
        ensures
            r@ == self@,
    {
        Cargo {
            id: self.id,
            created_at: self.created_at,
            paint_time: self.paint_time,
            cargo_type: self.cargo_type,
            status: self.status,
            name: copy_text(&self.name),
            description: copy_text(&self.description),
            pending: self.pending,
        }
    }

    /// Whether the cargo has been shipping long enough, as of `now`, to be
    /// delivered.
    pub fn is_due_for_delivery(&self, now: i64) -> (r: bool)
        ensures
            r == due_for_delivery(self@, now),
    {
        self.status == CargoStatus::Shipping && (self.created_at as i128) < (now as i128)
            - (DELIVERY_DELAY_MS as i128)
    }

    /// Whether the cargo still waits for its name and description and no
    /// enrichment holds it.
    pub fn is_undocumented(&self) -> (r: bool)
        ensures
            r == undocumented(self@),
    {
        self.name.is_none() && self.description.is_none() && !self.pending
    }
}

/// The record intake creates.
pub open spec fn fresh_row(id: u128, created_at: i64, paint_time: i32, cargo_type: u32) -> CargoRow {
    CargoRow {
        id,
        created_at,
        paint_time,
        cargo_type,
        status: CargoStatus::Shipping,
        name: None,
        description: None,
        pending: false,
    }
}

/// Shipping, and created before `now` less the transit time.
pub open spec fn due_for_delivery(c: CargoRow, now: i64) -> bool {
    c.status == CargoStatus::Shipping && c.created_at < now - DELIVERY_DELAY_MS
}

/// Without name and description, and not claimed.
pub open spec fn undocumented(c: CargoRow) -> bool {
    c.name.is_none() && c.description.is_none() && !c.pending
}

} // verus!
