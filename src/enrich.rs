//! The enrichment of one claimed cargo: what becomes of the table once the
//! asset read and the generator call have answered.
use vstd::prelude::*;
use crate::cargo::CargoRow;
use crate::table::{
    CargoTable, CargoTextInfoRequest, has_id, ids_unique, with_pending, with_text,
};
use crate::text_info::{parse_text, text_info_from_reply};

verus! {

/// What the outside work for one claimed cargo came back with.
pub enum GenerationResult {
    /// The asset store had no asset for the id.
    AssetMissing,
    /// The generator call failed in transport or answered with an error.
    GeneratorFailed,
    /// The text blocks of the generator's reply.
    Reply(Vec<String>),
}

/// How the enrichment of one cargo ended.
#[derive(Clone, Copy, Debug, PartialEq, Eq, Structural)]
pub enum EnrichOutcome {
    /// Name and description were written.
    Enriched,
    AssetMissing,
    GeneratorFailed,
    /// The reply held no text block, or not exactly one delimiter.
    MalformedReply,
    /// The cargo was no longer in the table when the text was written.
    Vanished,
}

/// The name and description an outside result yields, if any.
pub open spec fn generated_text(g: GenerationResult) -> Option<(Seq<char>, Seq<char>)> {
    match g {
        GenerationResult::Reply(blocks) => if blocks@.len() > 0 {
            parse_text(blocks@[0]@)
        } else {
            None
        },
        _ => None,
    }
}

/// The table once the enrichment of `id` has ended: the text is written when
/// there is one, and the claim is released either way.
pub open spec fn finish_rows(
    rows: Seq<CargoRow>,
    id: u128,
    text: Option<(Seq<char>, Seq<char>)>,
) -> Seq<CargoRow> {
    match text {
        Some((name, description)) => with_pending(
            with_text(rows, id, name, description),
            id,
            false,
        ),
        None => with_pending(rows, id, false),
    }
}

/// The outcome reported for an outside result.
pub open spec fn outcome_of(g: GenerationResult, present: bool) -> EnrichOutcome {
    match g {
        GenerationResult::AssetMissing => EnrichOutcome::AssetMissing,
        GenerationResult::GeneratorFailed => EnrichOutcome::GeneratorFailed,
        GenerationResult::Reply(_) => if generated_text(g).is_none() {
            EnrichOutcome::MalformedReply
        } else if present {
            EnrichOutcome::Enriched
        } else {
            EnrichOutcome::Vanished
        },
    }
}

/// Ends the enrichment of the claimed cargo `id`: writes name and
/// description when the reply holds them, and releases the claim in every
/// case, so that a failed cargo stays eligible for the next sweep.
pub fn finish_enrichment(table: &mut CargoTable, id: u128, result: GenerationResult) -> (r:
    EnrichOutcome)
    requires
        old(table).wf(),
    ensures
        final(table).wf(),
        final(table)@ == finish_rows(old(table)@, id, generated_text(result)),
        r == outcome_of(result, has_id(old(table)@, id)),
{
    let ghost start = table@;
    match result {
        GenerationResult::AssetMissing => {
            table.set_pending_by_id(id, false);
            EnrichOutcome::AssetMissing
        },
        GenerationResult::GeneratorFailed => {
            table.set_pending_by_id(id, false);
            EnrichOutcome::GeneratorFailed
        },
        GenerationResult::Reply(blocks) => {
            match text_info_from_reply(&blocks) {
                Ok((name, description)) => {
                    let written = table.update_text_info(
                        CargoTextInfoRequest { id, name, description },
                    );
                    proof {
                        if !has_id(start, id) {
                            assert(with_text(start, id, name@, description@) =~= start);
                        }
                    }
                    table.set_pending_by_id(id, false);
                    match written {
                        Ok(()) => EnrichOutcome::Enriched,
                        Err(_) => EnrichOutcome::Vanished,
                    }
                },
                Err(_) => {
                    table.set_pending_by_id(id, false);
                    EnrichOutcome::MalformedReply
                },
            }
        },
    }
}

/// A failure for one claimed cargo does not keep another cargo claimed in
/// the same sweep from being enriched: whatever ended first, the other ends
/// with its text written and its claim released.
pub proof fn lemma_failure_isolated(
    rows: Seq<CargoRow>,
    failed: u128,
    ok: u128,
    name: Seq<char>,
    description: Seq<char>,
)
    requires
        ids_unique(rows),
        failed != ok,
    ensures
        ({
            let claimed = with_pending(with_pending(rows, failed, true), ok, true);
            let a = finish_rows(
                finish_rows(claimed, failed, None),
                ok,
                Some((name, description)),
            );
            let b = finish_rows(
                finish_rows(claimed, ok, Some((name, description))),
                failed,
                None,
            );
            &&& a == b
            &&& forall|i: int|
                0 <= i < rows.len() && rows[i].id == ok ==> #[trigger] a[i].name == Some(name)
                    && a[i].description == Some(description) && !a[i].pending
            &&& forall|i: int|
                0 <= i < rows.len() && rows[i].id == failed ==> #[trigger] a[i].name
                    == rows[i].name && a[i].description == rows[i].description && !a[i].pending
        }),
{
    let claimed = with_pending(with_pending(rows, failed, true), ok, true);
    let a = finish_rows(finish_rows(claimed, failed, None), ok, Some((name, description)));
    let b = finish_rows(finish_rows(claimed, ok, Some((name, description))), failed, None);
    assert(a =~= b);
}

} // verus!
