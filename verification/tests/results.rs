use axum::http::{HeaderMap, HeaderValue};
use freeplay_stats::db::open::{OpenError, StoredRows};
use freeplay_stats::db::players::DbError;
use freeplay_stats::db::rows::{MatchRow, PlayerRow};
use freeplay_stats::db::Db;
use freeplay_stats::double::Double;
use freeplay_stats::glicko::Rating;
use freeplay_stats::handlers::{
    default_limit, has_room_for, leaderboard, player_history, player_profile, post_result,
    record_match, HistoryQuery, LeaderboardQuery,
};
use freeplay_stats::models::MatchResult;
use freeplay_stats::status::StatusCode;

fn double(x: f64) -> Double {
    Double { bits: x.to_bits() }
}

fn rating(mu: f64, phi: f64, sigma: f64) -> Rating {
    Rating { mu: double(mu), phi: double(phi), sigma: double(sigma) }
}

fn result(room: &str, winner: &str, loser: &str) -> MatchResult {
    MatchResult {
        room_id: room.to_string(),
        winner_id: winner.to_string(),
        loser_id: loser.to_string(),
        winner_score: 2,
        loser_score: 1,
        rom_hash: "rom".to_string(),
        winner_username: String::new(),
        loser_username: String::new(),
    }
}

fn empty_rows() -> StoredRows {
    StoredRows {
        players: vec![],
        matches: vec![],
        periods: vec![],
        ghosts: vec![],
        replays: vec![],
        names: vec![],
    }
}

fn player(id: &str, mu: f64, wins: u64) -> PlayerRow {
    let mut p = PlayerRow::new(id);
    p.rating.mu = double(mu);
    p.wins = wins;
    p
}

fn match_row(room: &str, winner: &str, loser: &str, played_at: &str) -> MatchRow {
    MatchRow {
        room_id: room.to_string(),
        winner_id: winner.to_string(),
        loser_id: loser.to_string(),
        winner_score: 3,
        loser_score: 2,
        rom_hash: String::new(),
        played_at: played_at.to_string(),
        applied_at: None,
    }
}

#[test]
fn new_players_start_at_the_default_rating() {
    let mut db = Db::new();
    let (winner, loser) = db.process_result_at("w", "l", 2, 1, "room", "rom", "t");
    assert_eq!(winner, rating(1500.0, 350.0, 0.06));
    assert_eq!(loser, rating(1500.0, 350.0, 0.06));
    let profile = db.get_player("w").unwrap();
    assert_eq!((profile.wins, profile.losses, profile.draws), (1, 0, 0));
    assert_eq!(profile.matches_played, 1);
    assert_eq!(profile.username, "");
    let profile = db.get_player("l").unwrap();
    assert_eq!((profile.wins, profile.losses, profile.draws), (0, 1, 0));
    let row = &db.matches.rows[0];
    assert_eq!(row.room_id, "room");
    assert_eq!(row.rom_hash, "rom");
    assert_eq!((row.winner_score, row.loser_score), (2, 1));
    assert_eq!(row.played_at, "t");
    assert_eq!(row.applied_at, None);
}

#[test]
fn a_room_is_counted_once() {
    let mut db = Db::new();
    db.process_result_at("w", "l", 2, 1, "room", "rom", "t1");
    db.process_result_at("w", "l", 9, 8, "room", "other", "t2");
    assert_eq!(db.matches.rows.len(), 1);
    assert_eq!(db.matches.rows[0].winner_score, 2);
    assert_eq!(db.matches.rows[0].played_at, "t1");
    assert_eq!(db.get_player("w").unwrap().wins, 1);
    assert_eq!(db.get_player("l").unwrap().losses, 1);
    assert_eq!(db.players.rows[0].updated_at, "t1");
}

#[test]
fn a_repost_with_new_ids_adds_players_but_counts_nothing() {
    let mut db = Db::new();
    db.process_result_at("w", "l", 2, 1, "room", "rom", "t1");
    db.process_result_at("x", "y", 2, 1, "room", "rom", "t2");
    assert_eq!(db.matches.rows.len(), 1);
    assert_eq!(db.players.rows.len(), 4);
    assert_eq!(db.get_player("x").unwrap().matches_played, 0);
    assert_eq!(db.get_player("w").unwrap().wins, 1);
}

#[test]
fn a_player_against_oneself_counts_both() {
    let mut db = Db::new();
    db.process_result_at("p", "p", 2, 1, "room", "rom", "t");
    let profile = db.get_player("p").unwrap();
    assert_eq!((profile.wins, profile.losses, profile.matches_played), (1, 1, 2));
}

#[test]
fn the_time_of_a_result_is_that_of_the_clock() {
    let mut db = Db::new();
    db.process_result("w", "l", 2, 1, "room", "rom");
    let played_at = &db.matches.rows[0].played_at;
    assert!(played_at.ends_with("+00:00"), "{}", played_at);
    assert_eq!(played_at.as_bytes()[10], b'T');
    assert!(played_at.as_str() > "2024");
    let parsed = chrono::DateTime::parse_from_rfc3339(played_at).unwrap();
    let age = chrono::Utc::now().signed_duration_since(parsed);
    assert!(age.num_seconds().abs() < 20);
    assert!([25, 29, 32, 35].contains(&played_at.len()));
}

#[test]
fn counters_near_the_limit_are_noticed() {
    let mut rows = empty_rows();
    rows.players = vec![player("full", 1500.0, u64::MAX - 1), player("room", 1500.0, u64::MAX - 2)];
    let db = Db::open(rows).ok().unwrap();
    assert!(!db.can_count("full"));
    assert!(db.can_count("room"));
    assert!(db.can_count("unknown"));
}

#[test]
fn posting_needs_the_api_key() {
    let mut db = Db::new();
    let mut headers = HeaderMap::new();
    let refused = post_result(&mut db, &headers, "dev", &result("room", "w", "l"));
    assert_eq!(refused.err(), Some(StatusCode::Unauthorized));
    assert_eq!(db.matches.rows.len(), 0);
    assert_eq!(db.players.rows.len(), 0);
    headers.insert("x-api-key", HeaderValue::from_static("dev"));
    let posted = post_result(&mut db, &headers, "dev", &result("room", "w", "l")).ok().unwrap();
    let notice = posted.unwrap();
    assert_eq!(db.matches.rows.len(), 1);
    assert_eq!(notice.winner_name, "w");
    assert_eq!(notice.winner_rating, double(1500.0));
}

#[test]
fn names_of_a_post_are_stored_and_announced() {
    let mut db = Db::new();
    let mut first = result("r1", "w", "l");
    first.winner_username = "alice".to_string();
    let notice = record_match(&mut db, &first, "t1").unwrap();
    assert_eq!(notice.winner_name, "alice");
    assert_eq!(notice.loser_name, "l");
    assert_eq!((notice.winner_score, notice.loser_score), (2, 1));
    assert_eq!(db.get_username("w"), Some("alice".to_string()));
    assert_eq!(db.get_username("l"), None);
    assert_eq!(db.get_username("nobody"), None);

    let notice = record_match(&mut db, &result("r2", "l", "w"), "t2").unwrap();
    assert_eq!(notice.winner_name, "l");
    assert_eq!(notice.loser_name, "alice");

    let mut renamed = result("r3", "w", "l");
    renamed.winner_username = "alicia".to_string();
    record_match(&mut db, &renamed, "t3");
    assert_eq!(db.get_username("w"), Some("alicia".to_string()));
}

#[test]
fn a_second_post_for_a_room_does_nothing() {
    let mut db = Db::new();
    let mut headers = HeaderMap::new();
    headers.insert("x-api-key", HeaderValue::from_static("dev"));
    let mut m = result("room", "w", "l");
    m.winner_username = "alice".to_string();
    m.loser_username = "bob".to_string();
    assert!(record_match(&mut db, &m, "t1").is_some());

    // The same post again.
    assert!(record_match(&mut db, &m, "t2").is_none());
    // Other players and names for the same room.
    let mut other = result("room", "x", "l");
    other.winner_username = "xavier".to_string();
    other.loser_username = "robert".to_string();
    let again = post_result(&mut db, &headers, "dev", &other);
    assert!(again.ok().unwrap().is_none());

    assert_eq!(db.matches.rows.len(), 1);
    assert_eq!(db.matches.rows[0].played_at, "t1");
    assert_eq!(db.players.rows.len(), 2);
    assert_eq!(db.players.rows[0].updated_at, "t1");
    assert_eq!(db.get_player("w").unwrap().matches_played, 1);
    assert_eq!(db.get_username("w"), Some("alice".to_string()));
    assert_eq!(db.get_username("l"), Some("bob".to_string()));
    assert!(db.get_player("x").is_none());
}

#[test]
fn a_post_needs_room_in_the_counters_or_a_recorded_room() {
    let mut rows = empty_rows();
    rows.players = vec![player("full", 1500.0, u64::MAX), player("b", 1500.0, 0)];
    rows.matches = vec![match_row("room", "full", "b", "t")];
    let mut db = Db::open(rows).ok().unwrap();
    assert!(!has_room_for(&db, &result("new", "full", "b")));
    assert!(!has_room_for(&db, &result("new", "b", "full")));
    assert!(has_room_for(&db, &result("new", "b", "c")));
    assert!(has_room_for(&db, &result("room", "full", "b")));
    assert!(record_match(&mut db, &result("room", "full", "b"), "t2").is_none());
    assert_eq!(db.get_player("full").unwrap().wins, u64::MAX);
}

#[test]
fn an_unknown_player_cannot_be_renamed_or_read() {
    let mut db = Db::new();
    db.update_username("nobody", "name");
    assert_eq!(db.players.rows.len(), 0);
    assert!(db.get_player("nobody").is_none());
    assert_eq!(db.get_rating("nobody"), Err(DbError::UnknownPlayer));
    assert_eq!(player_profile(&db, "nobody").err(), Some(StatusCode::NotFound));
}

#[test]
fn a_rating_is_read_back() {
    let mut rows = empty_rows();
    rows.players = vec![player("p", 1612.5, 4)];
    let db = Db::open(rows).ok().unwrap();
    assert_eq!(db.get_rating("p"), Ok(rating(1612.5, 350.0, 0.06)));
    let profile = player_profile(&db, "p").ok().unwrap();
    assert_eq!(f64::from_bits(profile.rating.bits), 1612.5);
    assert_eq!(f64::from_bits(profile.deviation.bits), 350.0);
    assert_eq!(f64::from_bits(profile.volatility.bits), 0.06);
    assert_eq!(profile.matches_played, 4);
}

#[test]
fn the_leaderboard_is_descending_and_without_unplaced_players() {
    let mut rows = empty_rows();
    rows.players = vec![
        player("low", -5.5, 1),
        player("unplaced", 3000.0, 0),
        player("high", 1800.25, 2),
        player("middle", 1500.0, 3),
    ];
    let db = Db::open(rows).ok().unwrap();
    let board = leaderboard(&db, &LeaderboardQuery { limit: default_limit() });
    let ids: Vec<&str> = board.entries.iter().map(|e| e.discord_id.as_str()).collect();
    assert_eq!(ids, vec!["high", "middle", "low"]);
    let ranks: Vec<u64> = board.entries.iter().map(|e| e.rank).collect();
    assert_eq!(ranks, vec![1, 2, 3]);
    assert_eq!(board.entries[0].wins, 2);
    assert_eq!(board.entries[0].matches_played, 2);
    let board = leaderboard(&db, &LeaderboardQuery { limit: 0 });
    assert_eq!(board.entries.len(), 1);
    assert_eq!(board.entries[0].discord_id, "high");
    assert_eq!(db.get_leaderboard(0).len(), 0);
}

#[test]
fn a_leaderboard_has_no_more_than_a_hundred_entries() {
    let mut rows = empty_rows();
    for i in 0..150u32 {
        rows.players.push(player(&format!("p{}", i), ((i * 37) % 150) as f64, 1));
    }
    let db = Db::open(rows).ok().unwrap();
    let board = leaderboard(&db, &LeaderboardQuery { limit: 1000 });
    assert_eq!(board.entries.len(), 100);
    let found: Vec<f64> = board.entries.iter().map(|e| f64::from_bits(e.rating.bits)).collect();
    let expected: Vec<f64> = (50..150).rev().map(|i| i as f64).collect();
    assert_eq!(found, expected);
}

#[test]
fn a_history_is_told_from_the_players_side() {
    let mut db = Db::new();
    db.process_result_at("a", "b", 3, 1, "r1", "rom", "2024-01-01");
    db.process_result_at("b", "a", 2, 0, "r2", "rom", "2024-01-03");
    db.process_result_at("a", "c", 5, 4, "r3", "rom", "2024-01-02");
    db.update_username("b", "bob");
    let history = player_history(&db, "a", &HistoryQuery { limit: 50 }).matches;
    let rooms: Vec<&str> = history.iter().map(|m| m.room_id.as_str()).collect();
    assert_eq!(rooms, vec!["r2", "r3", "r1"]);
    assert_eq!(history[0].result, "loss");
    assert_eq!((history[0].our_score, history[0].opponent_score), (0, 2));
    assert_eq!(history[0].opponent_id, "b");
    assert_eq!(history[0].opponent_username, "bob");
    assert_eq!(history[0].played_at, "2024-01-03");
    assert_eq!(history[2].result, "win");
    assert_eq!((history[2].our_score, history[2].opponent_score), (3, 1));
    let mirrored = player_history(&db, "b", &HistoryQuery { limit: 50 }).matches;
    assert_eq!(mirrored.len(), 2);
    assert_eq!(mirrored[0].result, "win");
    assert_eq!((mirrored[0].our_score, mirrored[0].opponent_score), (2, 0));
    assert_eq!(mirrored[0].opponent_id, "a");
    assert_eq!(mirrored[0].opponent_username, "");
    assert_eq!(player_history(&db, "a", &HistoryQuery { limit: 0 }).matches.len(), 1);
    assert_eq!(player_history(&db, "nobody", &HistoryQuery { limit: 9 }).matches.len(), 0);
    assert_eq!(db.get_match_history("a", 2).len(), 2);
}

#[test]
fn stored_rows_are_taken_up() {
    let mut rows = empty_rows();
    rows.players = vec![player("a", 1500.0, 1), player("b", 1500.0, 0)];
    rows.matches = vec![match_row("r1", "a", "b", "t1")];
    let db = Db::open(rows).ok().unwrap();
    assert_eq!(db.players.rows.len(), 2);
    assert_eq!(db.matches.rows[0].room_id, "r1");
    assert_eq!(db.get_match_history("b", 10).len(), 1);
}

#[test]
fn a_match_with_an_unknown_opponent_is_read() {
    let mut rows = empty_rows();
    rows.players = vec![player("a", 1700.0, 1)];
    rows.matches = vec![match_row("r1", "a", "b", "t1")];
    let db = Db::open(rows).ok().unwrap();
    let history = db.get_match_history("a", 10);
    assert_eq!(history[0].opponent_id, "b");
    assert_eq!(history[0].opponent_username, "");
    // An unknown opponent counts with the rating of a new player.
    let plan = db.rating_period_plan();
    assert_eq!(plan.len(), 1);
    assert_eq!(plan[0].results.len(), 1);
    assert_eq!(plan[0].results[0].opponent_mu, double(1500.0));
}

#[test]
fn inconsistent_rows_are_refused() {
    let mut twice = empty_rows();
    twice.players = vec![player("a", 1500.0, 1), player("a", 1500.0, 0)];
    assert_eq!(Db::open(twice).err(), Some(OpenError::Inconsistent));

    let mut room_twice = empty_rows();
    room_twice.players = vec![player("a", 1500.0, 1), player("b", 1500.0, 0)];
    room_twice.matches = vec![match_row("r", "a", "b", "t1"), match_row("r", "b", "a", "t2")];
    assert_eq!(Db::open(room_twice).err(), Some(OpenError::Inconsistent));

    let mut not_a_number = empty_rows();
    not_a_number.players = vec![player("a", f64::NAN, 1)];
    assert_eq!(Db::open(not_a_number).err(), Some(OpenError::Inconsistent));

    let mut too_many = empty_rows();
    let mut p = player("a", 1500.0, u64::MAX);
    p.losses = 1;
    too_many.players = vec![p];
    assert_eq!(Db::open(too_many).err(), Some(OpenError::Inconsistent));
}
