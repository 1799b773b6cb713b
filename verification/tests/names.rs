use freeplay_stats::db::names::normalize_name;
use freeplay_stats::db::{Db, NameCheckOutcome, NameClaimOutcome};

const FREE: NameCheckOutcome = NameCheckOutcome { available: true, owned_by_you: false };
const MINE: NameCheckOutcome = NameCheckOutcome { available: true, owned_by_you: true };
const HELD: NameCheckOutcome = NameCheckOutcome { available: false, owned_by_you: false };

#[test]
fn names_are_unique_whatever_their_case() {
    let mut db = Db::new();
    assert_eq!(db.check_name("Neo", Some("o1")), FREE);
    assert_eq!(db.claim_name_at("Neo", "o1", "t1"), NameClaimOutcome::Claimed);
    assert_eq!(db.claim_name_at("  nEO ", "o2", "t2"), NameClaimOutcome::Taken);
    assert_eq!(db.names.rows.len(), 1);
    assert_eq!(db.names.rows[0].name, "Neo");
    assert_eq!(db.check_name("NEO", Some("o1")), MINE);
    assert_eq!(db.check_name("NEO", Some("o2")), HELD);
    assert_eq!(db.check_name("NEO", None), HELD);
}

#[test]
fn an_own_name_gets_the_new_spelling() {
    let mut db = Db::new();
    db.claim_name_at("Neo", "o1", "t1");
    assert_eq!(db.claim_name_at("NEO\n", "o1", "t2"), NameClaimOutcome::Owned);
    assert_eq!(db.names.rows.len(), 1);
    let row = &db.names.rows[0];
    assert_eq!(row.name_norm, "neo");
    assert_eq!(row.name, "NEO\n");
    assert_eq!(row.claimed_at, "t1");
    assert_eq!(row.updated_at, "t2");
}

#[test]
fn a_new_name_releases_the_one_before() {
    let mut db = Db::new();
    db.claim_name_at("Neo", "o1", "t1");
    db.claim_name_at("Trinity", "o2", "t2");
    assert_eq!(db.claim_name_at("Morpheus", "o1", "t3"), NameClaimOutcome::Claimed);
    assert_eq!(db.check_name("neo", None), FREE);
    assert_eq!(db.check_name("trinity", Some("o2")), MINE);
    assert_eq!(db.check_name("morpheus", Some("o1")), MINE);
    assert_eq!(db.names.rows.len(), 2);
    assert_eq!(db.claim_name_at("neo", "o2", "t4"), NameClaimOutcome::Claimed);
    assert_eq!(db.check_name("trinity", None), FREE);
}

#[test]
fn a_claim_now_carries_the_time_of_the_clock() {
    let mut db = Db::new();
    assert_eq!(db.claim_name("Neo", "o1"), NameClaimOutcome::Claimed);
    let row = &db.names.rows[0];
    assert!(row.claimed_at.ends_with("+00:00"));
    assert_eq!(row.claimed_at, row.updated_at);
}

#[test]
fn normalizing_trims_and_folds_case() {
    assert_eq!(normalize_name("  Neo\t"), "neo");
    assert_eq!(normalize_name("\u{3000}\u{85}A b\u{a0}"), "a b");
    assert_eq!(normalize_name("\u{c4}NNE"), "\u{e4}nne");
    assert_eq!(normalize_name(" \n "), "");
    assert_eq!(normalize_name("a\u{200b}"), "a\u{200b}");
}
