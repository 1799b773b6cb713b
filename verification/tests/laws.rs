use freeplay_stats::db::names::normalize_name;
use freeplay_stats::db::{Db, NameClaimOutcome};
use freeplay_stats::double::Double;
use freeplay_stats::glicko::Rating;
use freeplay_stats::handlers::{ghost_file_name, is_safe_ghost_id, record_match};
use freeplay_stats::models::{MatchResult, ReplayMetaInsert};

fn double(x: f64) -> Double {
    Double { bits: x.to_bits() }
}

fn rating(mu: f64, phi: f64) -> Rating {
    Rating { mu: double(mu), phi: double(phi), sigma: double(0.06) }
}

fn played(room: &str, winner: &str, loser: &str) -> MatchResult {
    MatchResult {
        room_id: room.to_string(),
        winner_id: winner.to_string(),
        loser_id: loser.to_string(),
        winner_score: 2,
        loser_score: 0,
        rom_hash: String::new(),
        winner_username: String::new(),
        loser_username: String::new(),
    }
}

fn counters_are_true(db: &Db) -> bool {
    db.players.rows.iter().all(|p| {
        let won = db.matches.rows.iter().filter(|m| m.winner_id == p.discord_id).count();
        let lost = db.matches.rows.iter().filter(|m| m.loser_id == p.discord_id).count();
        p.wins == won as u64 && p.losses == lost as u64 && p.draws == 0
    })
}

#[test]
fn counters_say_what_the_matches_do() {
    let mut db = Db::new();
    for (room, winner, loser) in
        [("1", "a", "b"), ("2", "b", "c"), ("1", "c", "a"), ("3", "a", "a"), ("4", "c", "b")]
    {
        record_match(&mut db, &played(room, winner, loser), room);
        assert!(counters_are_true(&db));
    }
    db.update_username("a", "alice");
    db.claim_name_at("alice", "a", "t");
    assert!(counters_are_true(&db));
    let outcomes: Vec<Rating> = db.rating_period_plan().iter().map(|p| p.rating).collect();
    assert!(db.close_rating_period_at(&outcomes, "t").is_ok());
    assert!(counters_are_true(&db));
    for m in &db.matches.rows {
        assert!(db.players.find(&m.winner_id).is_some());
        assert!(db.players.find(&m.loser_id).is_some());
    }
}

#[test]
fn a_post_waits_for_the_next_close() {
    let mut db = Db::new();
    record_match(&mut db, &played("1", "a", "b"), "t1");
    let before = db.rating_period_plan();
    assert_eq!(before[0].results.len(), 1);
    record_match(&mut db, &played("2", "a", "c"), "t2");
    let after = db.rating_period_plan();
    assert_eq!(after[0].results.len(), 2);
    assert_eq!(after[0].results[0], before[0].results[0]);
    assert_eq!(after[1].results, before[1].results);
    assert_eq!(after[2].results.len(), 1);
    // Ratings wait.
    assert_eq!(db.get_rating("a"), Ok(Rating::default()));
    // A name does not change what is waiting.
    db.update_username("b", "bob");
    assert_eq!(db.rating_period_plan()[0].results, after[0].results);
}

#[test]
fn a_deviation_at_the_cap_stays() {
    let mut db = Db::new();
    record_match(&mut db, &played("1", "a", "b"), "t1");
    let start = vec![rating(1510.0, 350.0), rating(1490.0, 300.0)];
    assert_eq!(db.close_rating_period_at(&start, "p1"), Ok((1, 2)));
    let grown = vec![rating(1510.0, 350.2), rating(1490.0, 300.2)];
    assert_eq!(db.close_rating_period_at(&grown, "p2"), Ok((0, 1)));
    assert_eq!(db.players.rows[0].updated_at, "p1");
    assert_eq!(db.get_rating("a"), Ok(rating(1510.0, 350.0)));
    assert_eq!(db.get_rating("b"), Ok(rating(1490.0, 300.2)));
}

#[test]
fn an_outcome_concerns_its_player_alone() {
    let start = |other: f64| {
        let mut db = Db::new();
        record_match(&mut db, &played("1", "a", "b"), "t1");
        let outcomes = vec![rating(1510.0, 300.0), rating(other, 200.0)];
        db.close_rating_period_at(&outcomes, "p1").unwrap();
        db.get_rating("a").unwrap()
    };
    assert_eq!(start(1490.0), start(1000.0));
}

#[test]
fn a_posted_match_is_read_back_and_stays() {
    let mut db = Db::new();
    record_match(&mut db, &played("1", "a", "b"), "t1");
    let first = db.get_match_history("b", 1);
    assert_eq!(first[0].room_id, "1");
    assert_eq!(first[0].result, "loss");
    assert_eq!(db.get_leaderboard(10).len(), 2);
    record_match(&mut db, &played("2", "c", "d"), "t2");
    record_match(&mut db, &played("1", "d", "c"), "t3");
    let again = db.get_match_history("b", 10);
    assert_eq!(again.len(), 1);
    assert_eq!(again[0].played_at, "t1");
    assert_eq!(db.get_match_history("d", 10).len(), 1);
}

#[test]
fn a_post_without_names_keeps_names() {
    let mut db = Db::new();
    let mut named = played("1", "a", "b");
    named.winner_username = "alice".to_string();
    named.loser_username = "bob".to_string();
    record_match(&mut db, &named, "t1");
    record_match(&mut db, &played("2", "b", "a"), "t2");
    assert_eq!(db.get_username("a"), Some("alice".to_string()));
    assert_eq!(db.get_username("b"), Some("bob".to_string()));
    // Of two names for one player the loser's stays.
    let mut both = played("3", "c", "c");
    both.winner_username = "first".to_string();
    both.loser_username = "second".to_string();
    record_match(&mut db, &both, "t3");
    assert_eq!(db.get_username("c"), Some("second".to_string()));
}

#[test]
fn reservations_and_files_are_left_alone_by_the_rest() {
    let mut db = Db::new();
    db.claim_name_at("Neo", "o", "t0");
    db.upload_ghost_meta("g", "o", "neo", "rom", "g.ncgh", 1, "t0");
    record_match(&mut db, &played("1", "o", "b"), "t1");
    db.claim_name_at("Trinity", "b", "t2");
    assert_eq!(db.names.rows.len(), 2);
    assert_eq!(db.names.rows[0].name, "Neo");
    assert_eq!(db.list_ghosts("", 50).len(), 1);
    assert_eq!(db.get_player("o").unwrap().matches_played, 1);
}

#[test]
fn safe_ids_have_files_of_their_own() {
    let ids = ["a", "b", "a-", "A", "a_b", "0"];
    for a in ids {
        assert!(is_safe_ghost_id(a));
        let file = ghost_file_name(a);
        assert!(!file.contains('/') && !file.contains('\\') && !file.contains(".."));
        assert!(!file.starts_with('.'));
        for b in ids {
            assert_eq!(a == b, file == ghost_file_name(b));
        }
    }
}

#[test]
fn scores_do_not_count_for_ratings() {
    let plan = |winner_score: u16, loser_score: u16| {
        let mut db = Db::new();
        db.process_result_at("a", "b", winner_score, loser_score, "1", "rom", "t");
        db.rating_period_plan().into_iter().map(|p| p.results).collect::<Vec<_>>()
    };
    assert_eq!(plan(2, 1), plan(10, 0));
}

#[test]
fn a_check_by_nobody_tells_whether_a_claim_is_new() {
    let mut db = Db::new();
    assert!(db.check_name("Neo", None).available);
    assert_eq!(db.claim_name_at(" Neo", "o", "t1"), NameClaimOutcome::Claimed);
    assert!(!db.check_name("Neo", None).available);
    assert_eq!(db.claim_name_at("NEO ", "o", "t2"), NameClaimOutcome::Owned);
    for row in &db.names.rows {
        assert_eq!(row.name_norm, normalize_name(&row.name));
    }
}

#[test]
fn ghosts_and_replays_do_not_touch_each_other() {
    let mut db = Db::new();
    db.upload_ghost_meta("same", "o", "neo", "rom", "g.ncgh", 1, "t0");
    let replay = ReplayMetaInsert {
        replay_id: "same".to_string(),
        discord_id: "o".to_string(),
        username: "neo".to_string(),
        rom_hash: "rom".to_string(),
        filename: "r.ncrp".to_string(),
        p1_name: String::new(),
        p2_name: String::new(),
        p1_score: None,
        p2_score: None,
        winner: String::new(),
        frame_count: 0,
        duration: String::new(),
        recorded_at: String::new(),
        session_id: String::new(),
        completed_games: 0,
        completed_set: false,
    };
    db.upload_replay_meta(&replay, "t1");
    assert_eq!(db.list_ghosts("", 50)[0].filename, "g.ncgh");
    db.upload_ghost_meta("same", "o", "neo", "rom", "h.ncgh", 1, "t2");
    assert_eq!(db.replay_filename("same"), Some("r.ncrp".to_string()));
    db.update_username("o", "trinity");
    assert_eq!(db.list_ghosts("", 50)[0].username, "neo");
}
