use spaceport::enrich::{finish_enrichment, EnrichOutcome, GenerationResult};
use spaceport::table::CargoTable;

fn reply(text: &str) -> GenerationResult {
    GenerationResult::Reply(vec![text.to_string()])
}

#[test]
fn good_reply_writes_text_and_releases_claim() {
    let mut table = CargoTable::new();
    table.create(1, 0, 10, 1).unwrap();
    assert!(table.claim_pending(1));
    let outcome = finish_enrichment(&mut table, 1, reply("Alpha%%%A shiny cargo"));
    assert_eq!(outcome, EnrichOutcome::Enriched);
    let c = table.get_by_id(1).unwrap();
    assert_eq!(c.name.as_deref(), Some("Alpha"));
    assert_eq!(c.description.as_deref(), Some("A shiny cargo"));
    assert!(!c.pending);
    assert!(table.get_un_docs().is_empty());
}

#[test]
fn malformed_reply_releases_claim_without_text() {
    let mut table = CargoTable::new();
    table.create(1, 0, 10, 1).unwrap();
    assert!(table.claim_pending(1));
    let outcome = finish_enrichment(&mut table, 1, reply("no delimiter here"));
    assert_eq!(outcome, EnrichOutcome::MalformedReply);
    let c = table.get_by_id(1).unwrap();
    assert!(c.name.is_none());
    assert!(c.description.is_none());
    assert!(!c.pending);
    assert_eq!(table.get_un_docs(), vec![1u128]);
}

#[test]
fn generator_failure_releases_claim() {
    let mut table = CargoTable::new();
    table.create(1, 0, 10, 1).unwrap();
    table.claim_pending(1);
    assert_eq!(
        finish_enrichment(&mut table, 1, GenerationResult::GeneratorFailed),
        EnrichOutcome::GeneratorFailed
    );
    assert!(!table.get_by_id(1).unwrap().pending);
}

#[test]
fn empty_reply_is_malformed() {
    let mut table = CargoTable::new();
    table.create(1, 0, 10, 1).unwrap();
    table.claim_pending(1);
    assert_eq!(
        finish_enrichment(&mut table, 1, GenerationResult::Reply(vec![])),
        EnrichOutcome::MalformedReply
    );
}

#[test]
fn reply_for_vanished_cargo_is_reported() {
    let mut table = CargoTable::new();
    assert_eq!(
        finish_enrichment(&mut table, 4, reply("a%%%b")),
        EnrichOutcome::Vanished
    );
}

#[test]
fn asset_failure_does_not_block_other_cargo() {
    let mut table = CargoTable::new();
    table.create(1, 0, 10, 1).unwrap();
    table.create(2, 0, 10, 1).unwrap();
    assert!(table.claim_pending(1));
    assert!(table.claim_pending(2));
    assert_eq!(
        finish_enrichment(&mut table, 1, GenerationResult::AssetMissing),
        EnrichOutcome::AssetMissing
    );
    assert_eq!(
        finish_enrichment(&mut table, 2, reply("Alpha%%%A shiny cargo")),
        EnrichOutcome::Enriched
    );
    let ok = table.get_by_id(2).unwrap();
    assert_eq!(ok.name.as_deref(), Some("Alpha"));
    let failed = table.get_by_id(1).unwrap();
    assert!(failed.name.is_none());
    assert!(!failed.pending);
    assert_eq!(table.get_un_docs(), vec![1u128]);
}
