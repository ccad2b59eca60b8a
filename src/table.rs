//! The state store: the table of cargo records, with the conditional bulk
//! updates that drive the lifecycle and the compare-and-set claim that guards
//! enrichment.
use vstd::prelude::*;
use crate::cargo::{
    Cargo, CargoRow, CargoStatus, DELIVERY_DELAY_MS, due_for_delivery, undocumented, fresh_row,
};

verus! {

/// The row after a delivery sweep at `now`.
pub open spec fn deliver_row(c: CargoRow, now: i64) -> CargoRow {
    if due_for_delivery(c, now) {
        CargoRow { status: CargoStatus::Delivered, ..c }
    } else {
        c
    }
}

/// The table after a delivery sweep at `now`.
pub open spec fn deliver_rows(rows: Seq<CargoRow>, now: i64) -> Seq<CargoRow> {
    rows.map_values(|c: CargoRow| deliver_row(c, now))
}

/// The ids a delivery sweep at `now` moves, in table order.
pub open spec fn delivered_ids(rows: Seq<CargoRow>, now: i64) -> Seq<u128>
    decreases rows.len(),
{
    if rows.len() == 0 {
        Seq::empty()
    } else {
        let p = delivered_ids(rows.drop_last(), now);
        if due_for_delivery(rows.last(), now) {
            p.push(rows.last().id)
        } else {
            p
        }
    }
}

/// The row after a launch.
pub open spec fn launch_row(c: CargoRow) -> CargoRow {
    if c.status == CargoStatus::Delivered {
        CargoRow { status: CargoStatus::Launched, ..c }
    } else {
        c
    }
}

/// The table after a launch.
pub open spec fn launch_rows(rows: Seq<CargoRow>) -> Seq<CargoRow> {
    rows.map_values(|c: CargoRow| launch_row(c))
}

/// How many rows are delivered.
pub open spec fn count_delivered(rows: Seq<CargoRow>) -> nat
    decreases rows.len(),
{
    if rows.len() == 0 {
        0
    } else {
        count_delivered(rows.drop_last()) + if rows.last().status == CargoStatus::Delivered {
            1nat
        } else {
            0nat
        }
    }
}

/// The ids of the rows that wait for enrichment, in table order.
pub open spec fn undocumented_ids(rows: Seq<CargoRow>) -> Seq<u128>
    decreases rows.len(),
{
    if rows.len() == 0 {
        Seq::empty()
    } else {
        let p = undocumented_ids(rows.drop_last());
        if undocumented(rows.last()) {
            p.push(rows.last().id)
        } else {
            p
        }
    }
}

/// The rows created after `start`, in table order.
pub open spec fn created_after(rows: Seq<CargoRow>, start: i64) -> Seq<CargoRow>
    decreases rows.len(),
{
    if rows.len() == 0 {
        Seq::empty()
    } else {
        let p = created_after(rows.drop_last(), start);
        if rows.last().created_at > start {
            p.push(rows.last())
        } else {
            p
        }
    }
}

/// The table once every row that waits for enrichment is claimed.
pub open spec fn claim_undocumented_rows(rows: Seq<CargoRow>) -> Seq<CargoRow> {
    rows.map_values(
        |c: CargoRow|
            if undocumented(c) {
                CargoRow { pending: true, ..c }
            } else {
                c
            },
    )
}

/// The table with every claim released.
pub open spec fn release_rows(rows: Seq<CargoRow>) -> Seq<CargoRow> {
    rows.map_values(|c: CargoRow| CargoRow { pending: false, ..c })
}

/// The ids of the rows with this status, in table order.
pub open spec fn status_ids(rows: Seq<CargoRow>, status: CargoStatus) -> Seq<u128>
    decreases rows.len(),
{
    if rows.len() == 0 {
        Seq::empty()
    } else {
        let p = status_ids(rows.drop_last(), status);
        if rows.last().status == status {
            p.push(rows.last().id)
        } else {
            p
        }
    }
}

/// Some row has this id.
pub open spec fn has_id(rows: Seq<CargoRow>, id: u128) -> bool {
    exists|i: int| 0 <= i < rows.len() && rows[i].id == id
}

/// Some row has this id and is not claimed.
pub open spec fn claimable(rows: Seq<CargoRow>, id: u128) -> bool {
    exists|i: int| 0 <= i < rows.len() && rows[i].id == id && !rows[i].pending
}

/// No two rows share an id.
pub open spec fn ids_unique(rows: Seq<CargoRow>) -> bool {
    forall|i: int, j: int|
        0 <= i < rows.len() && 0 <= j < rows.len() && i != j ==> rows[i].id != rows[j].id
}

/// The table with the pending flag of row `id` set to `v`.
pub open spec fn with_pending(rows: Seq<CargoRow>, id: u128, v: bool) -> Seq<CargoRow> {
    rows.map_values(
        |c: CargoRow|
            if c.id == id {
                CargoRow { pending: v, ..c }
            } else {
                c
            },
    )
}

/// The table with name and description of row `id` written.
pub open spec fn with_text(
    rows: Seq<CargoRow>,
    id: u128,
    name: Seq<char>,
    description: Seq<char>,
) -> Seq<CargoRow> {
    rows.map_values(
        |c: CargoRow|
            if c.id == id {
                CargoRow { name: Some(name), description: Some(description), ..c }
            } else {
                c
            },
    )
}

/// A request to write the text fields of one cargo.
pub struct CargoTextInfoRequest {
    pub id: u128,
    pub name: String,
    pub description: String,
}

/// Why a store operation was refused.
#[derive(Clone, Copy, Debug, PartialEq, Eq, Structural)]
pub enum StoreError {
    /// No cargo has the id.
    NotFound,
    /// A cargo with the id exists already.
    DuplicateId,
}

/// The table of cargo records; ids are unique.
pub struct CargoTable {
    rows: Vec<Cargo>,
}

impl View for CargoTable {
    type V = Seq<CargoRow>;

    closed spec fn view(&self) -> Seq<CargoRow> {
        self.rows@.map_values(|c: Cargo| c@)
    }
}

impl CargoTable {
    pub open spec fn wf(&self) -> bool {
        ids_unique(self@)
    }

    /// An empty table.
    pub fn new() -> (r: CargoTable)
        ensures
            r.wf(),
            r@ == Seq::<CargoRow>::empty(),
    {
        let r = CargoTable { rows: Vec::new() };
        assert(r@ =~= Seq::<CargoRow>::empty());
        r
    }

    /// The number of records.
    pub fn len(&self) -> (r: usize)
        ensures
            r == self@.len(),
    {
        self.rows.len()
    }

    /// The position of the record with this id.
    fn find_index(&self, id: u128) -> (r: Option<usize>)
        requires
            self.wf(),
        ensures
            match r {
                Some(i) => i < self@.len() && self@[i as int].id == id,
                None => !has_id(self@, id),
            },
    {
        let n = self.rows.len();
        let mut i: usize = 0;
        while i < n
            invariant
                n == self.rows.len(),
                i <= n,
                forall|j: int| 0 <= j < i ==> self@[j].id != id,
            decreases n - i,
        {
            if self.rows[i].id == id {
                return Some(i);
            }
            i = i + 1;
        }
        None
    }

    /// Adds a new cargo as intake creates it: shipping, unclaimed, without
    /// text. Refused when the id is taken.
    pub fn create(&mut self, id: u128, created_at: i64, paint_time: i32, cargo_type: u32) -> (r:
        Result<Cargo, StoreError>)
        requires
            old(self).wf(),
        ensures
            final(self).wf(),
            has_id(old(self)@, id) ==> r == Err::<Cargo, StoreError>(StoreError::DuplicateId)
                && final(self)@ == old(self)@,
            !has_id(old(self)@, id) ==> r.is_ok() && r.unwrap()@ == fresh_row(
                id,
                created_at,
                paint_time,
                cargo_type,
            ) && final(self)@ == old(self)@.push(fresh_row(id, created_at, paint_time, cargo_type)),
    {
        if self.find_index(id).is_some() {
            return Err(StoreError::DuplicateId);
        }
        self.rows.push(Cargo::new(id, created_at, paint_time, cargo_type));
        assert(self@ =~= old(self)@.push(fresh_row(id, created_at, paint_time, cargo_type)));
        Ok(Cargo::new(id, created_at, paint_time, cargo_type))
    }

    /// Adds a record as it stands, for loading a table from storage.
    /// Refused when the id is taken.
    pub fn insert(&mut self, cargo: Cargo) -> (r: Result<(), StoreError>)
        requires
            old(self).wf(),
        ensures
            final(self).wf(),
            has_id(old(self)@, cargo.id) ==> r == Err::<(), StoreError>(StoreError::DuplicateId)
                && final(self)@ == old(self)@,
            !has_id(old(self)@, cargo.id) ==> r == Ok::<(), StoreError>(()) && final(self)@ == old(
                self,
            )@.push(cargo@),
    {
        if self.find_index(cargo.id).is_some() {
            return Err(StoreError::DuplicateId);
        }
        let ghost row = cargo@;
        self.rows.push(cargo);
        assert(self@ =~= old(self)@.push(row));
        Ok(())
    }

    /// A copy of the record with this id.
    pub fn get_by_id(&self, id: u128) -> (r: Option<Cargo>)
        requires
            self.wf(),
        ensures
            r.is_some() == has_id(self@, id),
            r matches Some(c) ==> c@.id == id && self@.contains(c@),
    {
        match self.find_index(id) {
            Some(i) => Some(self.rows[i].duplicate()),
            None => None,
        }
    }

    /// Moves every cargo that is shipping and was created more than the
    /// transit time before `now` to delivered; returns their ids.
    pub fn deliver(&mut self, now: i64) -> (r: Vec<u128>)
        requires
            old(self).wf(),
        ensures
            final(self).wf(),
            final(self)@ == deliver_rows(old(self)@, now),
            r@ == delivered_ids(old(self)@, now),
    {
        let ghost start = self@;
        let mut ids: Vec<u128> = Vec::new();
        let n = self.rows.len();
        let mut i: usize = 0;
        while i < n
            invariant
                n == self.rows.len(),
                start.len() == n,
                i <= n,
                forall|j: int| 0 <= j < i ==> self@[j] == deliver_row(start[j], now),
                forall|j: int| i <= j < n ==> self@[j] == start[j],
                ids@ == delivered_ids(start.subrange(0, i as int), now),
            decreases n - i,
        {
            assert(start.subrange(0, i + 1).drop_last() == start.subrange(0, i as int));
            let ghost before = self.rows@;
            let ghost before_view = self@;
            if self.rows[i].is_due_for_delivery(now) {
                self.rows[i].status = CargoStatus::Delivered;
                ids.push(self.rows[i].id);
            }
            assert(self@[i as int] == deliver_row(start[i as int], now));
            assert forall|j: int| 0 <= j < n && j != i implies self@[j] == before_view[j] by {
                assert(self.rows@[j] == before[j]);
            }
            assert forall|j: int| 0 <= j <= i implies self@[j] == deliver_row(start[j], now) by {
                if j < i {
                    assert(before_view[j] == deliver_row(start[j], now));
                }
            }
            i = i + 1;
        }
        assert(self@ =~= deliver_rows(start, now));
        assert(start.subrange(0, n as int) == start);
        ids
    }

    /// Moves every delivered cargo to launched; returns how many moved.
    pub fn launch(&mut self) -> (r: usize)
        requires
            old(self).wf(),
        ensures
            final(self).wf(),
            final(self)@ == launch_rows(old(self)@),
            r == count_delivered(old(self)@),
    {
        let ghost start = self@;
        let mut count: usize = 0;
        let n = self.rows.len();
        let mut i: usize = 0;
        while i < n
            invariant
                n == self.rows.len(),
                start.len() == n,
                i <= n,
                forall|j: int| 0 <= j < i ==> self@[j] == launch_row(start[j]),
                forall|j: int| i <= j < n ==> self@[j] == start[j],
                count == count_delivered(start.subrange(0, i as int)),
                count <= i,
            decreases n - i,
        {
            assert(start.subrange(0, i + 1).drop_last() == start.subrange(0, i as int));
            let ghost before = self.rows@;
            let ghost before_view = self@;
            if self.rows[i].status == CargoStatus::Delivered {
                self.rows[i].status = CargoStatus::Launched;
                count = count + 1;
            }
            assert(self@[i as int] == launch_row(start[i as int]));
            assert forall|j: int| 0 <= j < n && j != i implies self@[j] == before_view[j] by {
                assert(self.rows@[j] == before[j]);
            }
            assert forall|j: int| 0 <= j <= i implies self@[j] == launch_row(start[j]) by {
                if j < i {
                    assert(before_view[j] == launch_row(start[j]));
                }
            }
            i = i + 1;
        }
        assert(self@ =~= launch_rows(start));
        assert(start.subrange(0, n as int) == start);
        count
    }

    /// The ids of the cargoes without name and description that no
    /// enrichment holds, in table order.
    pub fn get_un_docs(&self) -> (r: Vec<u128>)
        ensures
            r@ == undocumented_ids(self@),
    {
        let mut ids: Vec<u128> = Vec::new();
        let n = self.rows.len();
        let mut i: usize = 0;
        while i < n
            invariant
                n == self.rows.len(),
                i <= n,
                ids@ == undocumented_ids(self@.subrange(0, i as int)),
            decreases n - i,
        {
            assert(self@.subrange(0, i + 1).drop_last() == self@.subrange(0, i as int));
            if self.rows[i].is_undocumented() {
                ids.push(self.rows[i].id);
            }
            i = i + 1;
        }
        assert(self@.subrange(0, n as int) == self@);
        ids
    }

    /// Copies of the cargoes created after `day_start` (milliseconds since
    /// the Unix epoch), in table order.
    pub fn get_today(&self, day_start: i64) -> (r: Vec<Cargo>)
        ensures
            r@.map_values(|c: Cargo| c@) == created_after(self@, day_start),
    {
        let mut found: Vec<Cargo> = Vec::new();
        let n = self.rows.len();
        let mut i: usize = 0;
        while i < n
            invariant
                n == self.rows.len(),
                i <= n,
                found@.map_values(|c: Cargo| c@) == created_after(self@.subrange(0, i as int), day_start),
            decreases n - i,
        {
            assert(self@.subrange(0, i + 1).drop_last() == self@.subrange(0, i as int));
            if self.rows[i].created_at > day_start {
                let ghost before = found@;
                found.push(self.rows[i].duplicate());
                assert(found@.map_values(|c: Cargo| c@) =~= before.map_values(|c: Cargo| c@).push(self@[i as int]));
            }
            i = i + 1;
        }
        assert(self@.subrange(0, n as int) == self@);
        found
    }

    /// The selection and claim of one enrichment sweep, in one step: claims
    /// every cargo without name and description that no enrichment holds,
    /// and returns their ids in table order.
    pub fn claim_undocumented(&mut self) -> (r: Vec<u128>)
        requires
            old(self).wf(),
        ensures
            final(self).wf(),
            final(self)@ == claim_undocumented_rows(old(self)@),
            r@ == undocumented_ids(old(self)@),
    {
        let ghost start = self@;
        let mut ids: Vec<u128> = Vec::new();
        let n = self.rows.len();
        let mut i: usize = 0;
        while i < n
            invariant
                n == self.rows.len(),
                start.len() == n,
                i <= n,
                forall|j: int|
                    0 <= j < i ==> self@[j] == (if undocumented(start[j]) {
                        CargoRow { pending: true, ..start[j] }
                    } else {
                        start[j]
                    }),
                forall|j: int| i <= j < n ==> self@[j] == start[j],
                ids@ == undocumented_ids(start.subrange(0, i as int)),
            decreases n - i,
        {
            assert(start.subrange(0, i + 1).drop_last() == start.subrange(0, i as int));
            let ghost before = self.rows@;
            let ghost before_view = self@;
            if self.rows[i].is_undocumented() {
                self.rows[i].pending = true;
                ids.push(self.rows[i].id);
            }
            assert forall|j: int| 0 <= j < n && j != i implies self@[j] == before_view[j] by {
                assert(self.rows@[j] == before[j]);
            }
            assert forall|j: int|
                0 <= j <= i implies self@[j] == (if undocumented(start[j]) {
                    CargoRow { pending: true, ..start[j] }
                } else {
                    start[j]
                }) by {
                if j < i {
                    assert(before_view[j] == (if undocumented(start[j]) {
                        CargoRow { pending: true, ..start[j] }
                    } else {
                        start[j]
                    }));
                }
            }
            i = i + 1;
        }
        assert(self@ =~= claim_undocumented_rows(start));
        assert(start.subrange(0, n as int) == start);
        ids
    }

    /// Claims the cargo for enrichment: sets its pending flag if and only if
    /// it exists and the flag is clear, in one step. Returns whether the
    /// claim was taken.
    pub fn claim_pending(&mut self, id: u128) -> (r: bool)
        requires
            old(self).wf(),
        ensures
            final(self).wf(),
            r == claimable(old(self)@, id),
            final(self)@ == if r {
                with_pending(old(self)@, id, true)
            } else {
                old(self)@
            },
    {
        match self.find_index(id) {
            Some(i) => {
                if self.rows[i].pending {
                    assert forall|j: int| 0 <= j < self@.len() && self@[j].id == id implies self@[j].pending by {
                        assert(j == i);
                    }
                    false
                } else {
                    let ghost start = self@;
                    self.rows[i].pending = true;
                    assert(self@ =~= with_pending(start, id, true)) by {
                        assert forall|j: int| 0 <= j < start.len() && j != i implies start[j].id != id by {}
                    }
                    true
                }
            },
            None => false,
        }
    }

    /// Sets or clears the pending flag of the cargo with this id. Setting it
    /// is a claim, made by compare-and-set: it succeeds only when the cargo
    /// exists and is not claimed, and returns whether it succeeded. Clearing
    /// it releases the claim and returns whether the cargo exists.
    pub fn set_pending_by_id(&mut self, id: u128, value: bool) -> (r: bool)
        requires
            old(self).wf(),
        ensures
            final(self).wf(),
            value ==> r == claimable(old(self)@, id) && final(self)@ == if r {
                with_pending(old(self)@, id, true)
            } else {
                old(self)@
            },
            !value ==> r == has_id(old(self)@, id) && final(self)@ == with_pending(
                old(self)@,
                id,
                false,
            ),
    {
        if value {
            return self.claim_pending(id);
        }
        let ghost start = self@;
        match self.find_index(id) {
            Some(i) => {
                self.rows[i].pending = false;
                assert(self@ =~= with_pending(start, id, false)) by {
                    assert forall|j: int| 0 <= j < start.len() && j != i implies start[j].id != id by {}
                }
                true
            },
            None => {
                assert(self@ =~= with_pending(start, id, false));
                false
            },
        }
    }

    /// Releases every claim. A claim outlives the process that made it only
    /// through storage, and no enrichment is in flight when a table is
    /// loaded, so every stored claim is stale then.
    pub fn release_all_claims(&mut self)
        requires
            old(self).wf(),
        ensures
            final(self).wf(),
            final(self)@ == release_rows(old(self)@),
    {
        let ghost start = self@;
        let n = self.rows.len();
        let mut i: usize = 0;
        while i < n
            invariant
                n == self.rows.len(),
                start.len() == n,
                i <= n,
                forall|j: int| 0 <= j < i ==> self@[j] == (CargoRow { pending: false, ..start[j] }),
                forall|j: int| i <= j < n ==> self@[j] == start[j],
            decreases n - i,
        {
            let ghost before = self.rows@;
            let ghost before_view = self@;
            self.rows[i].pending = false;
            assert forall|j: int| 0 <= j < n && j != i implies self@[j] == before_view[j] by {
                assert(self.rows@[j] == before[j]);
            }
            assert forall|j: int|
                0 <= j <= i implies self@[j] == (CargoRow { pending: false, ..start[j] }) by {
                if j < i {
                    assert(before_view[j] == (CargoRow { pending: false, ..start[j] }));
                }
            }
            i = i + 1;
        }
        assert(self@ =~= release_rows(start));
    }

    /// The ids of the cargoes with this status, in table order.
    pub fn ids_with_status(&self, status: CargoStatus) -> (r: Vec<u128>)
        ensures
            r@ == status_ids(self@, status),
    {
        let mut ids: Vec<u128> = Vec::new();
        let n = self.rows.len();
        let mut i: usize = 0;
        while i < n
            invariant
                n == self.rows.len(),
                i <= n,
                ids@ == status_ids(self@.subrange(0, i as int), status),
            decreases n - i,
        {
            assert(self@.subrange(0, i + 1).drop_last() == self@.subrange(0, i as int));
            if self.rows[i].status == status {
                ids.push(self.rows[i].id);
            }
            i = i + 1;
        }
        assert(self@.subrange(0, n as int) == self@);
        ids
    }

    /// Writes name and description of the cargo with this id.
    pub fn update_text_info(&mut self, info: CargoTextInfoRequest) -> (r: Result<(), StoreError>)
        requires
            old(self).wf(),
        ensures
            final(self).wf(),
            has_id(old(self)@, info.id) ==> r == Ok::<(), StoreError>(()) && final(self)@
                == with_text(old(self)@, info.id, info.name@, info.description@),
            !has_id(old(self)@, info.id) ==> r == Err::<(), StoreError>(StoreError::NotFound)
                && final(self)@ == old(self)@,
    {
        let ghost start = self@;
        let CargoTextInfoRequest { id, name, description } = info;
        match self.find_index(id) {
            Some(i) => {
                self.rows[i].name = Some(name);
                self.rows[i].description = Some(description);
                assert(self@ =~= with_text(start, id, info.name@, info.description@)) by {
                    assert forall|j: int| 0 <= j < start.len() && j != i implies start[j].id != id by {}
                }
                Ok(())
            },
            None => Err(StoreError::NotFound),
        }
    }
}

/// A delivery sweep at `now` moves every shipping cargo created before `now`
/// less the transit time to delivered.
pub proof fn lemma_deliver_moves_due(rows: Seq<CargoRow>, now: i64)
    ensures
        deliver_rows(rows, now).len() == rows.len(),
        forall|i: int|
            0 <= i < rows.len() && rows[i].status == CargoStatus::Shipping && rows[i].created_at
                < now - DELIVERY_DELAY_MS ==> #[trigger] deliver_rows(rows, now)[i].status
                == CargoStatus::Delivered,
{
}

/// A launch moves every delivered cargo to launched, and neither a launch
/// nor a delivery sweep takes a shipping cargo to launched.
pub proof fn lemma_launch_moves_delivered(rows: Seq<CargoRow>, now: i64)
    ensures
        launch_rows(rows).len() == rows.len(),
        forall|i: int|
            0 <= i < rows.len() && rows[i].status == CargoStatus::Delivered
                ==> #[trigger] launch_rows(rows)[i].status == CargoStatus::Launched,
        forall|i: int|
            0 <= i < rows.len() && rows[i].status == CargoStatus::Shipping
                ==> #[trigger] launch_rows(rows)[i].status == CargoStatus::Shipping,
        forall|i: int|
            0 <= i < rows.len() && rows[i].status == CargoStatus::Shipping
                ==> #[trigger] deliver_rows(rows, now)[i].status != CargoStatus::Launched,
{
}

/// No operation on the table lowers a status in the order shipping <
/// delivered < launched, and none moves a status by more than one step.
pub proof fn lemma_status_monotone(
    rows: Seq<CargoRow>,
    now: i64,
    id: u128,
    v: bool,
    name: Seq<char>,
    description: Seq<char>,
)
    ensures
        forall|i: int|
            0 <= i < rows.len() ==> rows[i].status.rank() <= #[trigger] deliver_rows(
                rows,
                now,
            )[i].status.rank() <= rows[i].status.rank() + 1,
        forall|i: int|
            0 <= i < rows.len() ==> rows[i].status.rank() <= #[trigger] launch_rows(
                rows,
            )[i].status.rank() <= rows[i].status.rank() + 1,
        forall|i: int|
            0 <= i < rows.len() ==> #[trigger] with_pending(rows, id, v)[i].status
                == rows[i].status,
        forall|i: int|
            0 <= i < rows.len() ==> #[trigger] with_text(rows, id, name, description)[i].status
                == rows[i].status,
{
}

proof fn lemma_no_due_no_ids(rows: Seq<CargoRow>, now: i64)
    requires
        forall|i: int| 0 <= i < rows.len() ==> !due_for_delivery(#[trigger] rows[i], now),
    ensures
        delivered_ids(rows, now) == Seq::<u128>::empty(),
    decreases rows.len(),
{
    if rows.len() > 0 {
        lemma_no_due_no_ids(rows.drop_last(), now);
    }
}

proof fn lemma_none_delivered_count(rows: Seq<CargoRow>)
    requires
        forall|i: int| 0 <= i < rows.len() ==> (#[trigger] rows[i]).status != CargoStatus::Delivered,
    ensures
        count_delivered(rows) == 0,
    decreases rows.len(),
{
    if rows.len() > 0 {
        lemma_none_delivered_count(rows.drop_last());
    }
}

/// A second delivery sweep at the same `now`, or a second launch, right
/// after the first changes nothing and reports nothing.
pub proof fn lemma_sweeps_idempotent(rows: Seq<CargoRow>, now: i64)
    ensures
        deliver_rows(deliver_rows(rows, now), now) == deliver_rows(rows, now),
        delivered_ids(deliver_rows(rows, now), now) == Seq::<u128>::empty(),
        launch_rows(launch_rows(rows)) == launch_rows(rows),
        count_delivered(launch_rows(rows)) == 0,
{
    let d = deliver_rows(rows, now);
    assert(deliver_rows(d, now) =~= d);
    assert forall|i: int| 0 <= i < d.len() implies !due_for_delivery(#[trigger] d[i], now) by {}
    lemma_no_due_no_ids(d, now);
    let l = launch_rows(rows);
    assert(launch_rows(l) =~= l);
    assert forall|i: int| 0 <= i < l.len() implies (#[trigger] l[i]).status
        != CargoStatus::Delivered by {}
    lemma_none_delivered_count(l);
}

/// Of two claims on one id, the second never succeeds: once a claim is
/// taken, the id is no longer claimable.
pub proof fn lemma_claim_exclusive(rows: Seq<CargoRow>, id: u128)
    ensures
        !claimable(with_pending(rows, id, true), id),
{
    let w = with_pending(rows, id, true);
    assert forall|i: int| 0 <= i < w.len() && w[i].id == id implies w[i].pending by {}
}

proof fn lemma_none_undocumented(rows: Seq<CargoRow>)
    requires
        forall|i: int| 0 <= i < rows.len() ==> !undocumented(#[trigger] rows[i]),
    ensures
        undocumented_ids(rows) == Seq::<u128>::empty(),
    decreases rows.len(),
{
    if rows.len() > 0 {
        lemma_none_undocumented(rows.drop_last());
    }
}

/// Two enrichment sweeps never claim the same cargo: once a sweep has
/// claimed, a second sweep selects nothing until a claim is released.
pub proof fn lemma_sweep_claims_exclusive(rows: Seq<CargoRow>)
    ensures
        undocumented_ids(claim_undocumented_rows(rows)) == Seq::<u128>::empty(),
{
    let c = claim_undocumented_rows(rows);
    assert forall|i: int| 0 <= i < c.len() implies !undocumented(#[trigger] c[i]) by {}
    lemma_none_undocumented(c);
}

} // verus!
