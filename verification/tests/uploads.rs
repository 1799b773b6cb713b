use axum::http::{HeaderMap, HeaderValue};
use freeplay_stats::auth::Claims;
use freeplay_stats::db::open::StoredRows;
use freeplay_stats::db::rows::GhostRow;
use freeplay_stats::db::Db;
use freeplay_stats::handlers::{
    accept_ghost, clean_filename, download_ghost, ghost_file_name, ghost_path, is_safe_ghost_id,
    list_ghosts, store_ghost, GhostUpload,
};
use freeplay_stats::models::{
    default_ghost_limit, default_replay_limit, GhostListQuery, ReplayMetaInsert,
};
use freeplay_stats::status::StatusCode;
use freeplay_stats::uploading::{UploadAction, UploadState};

fn claims() -> Claims {
    Claims { sub: "42".to_string(), username: "alice".to_string(), exp: 1 }
}

fn upload_headers() -> HeaderMap {
    let mut headers = HeaderMap::new();
    headers.insert("X-Freeplay-Ghost-Id", HeaderValue::from_static("g-1_A"));
    headers.insert("X-Freeplay-Discord-Id", HeaderValue::from_static("someone else"));
    headers.insert("X-Freeplay-Username", HeaderValue::from_static("mallory"));
    headers.insert("X-Freeplay-Rom-Hash", HeaderValue::from_static("rom"));
    headers.insert("X-Freeplay-Filename", HeaderValue::from_static("../run\\1.ncgh"));
    headers.insert("X-Freeplay-Frame-Count", HeaderValue::from_static("3600"));
    headers
}

fn upload(id: &str, rom: &str) -> GhostUpload {
    GhostUpload {
        ghost_id: id.to_string(),
        discord_id: "42".to_string(),
        username: "alice".to_string(),
        rom_hash: rom.to_string(),
        filename: format!("{}.ncgh", id),
        frame_count: 7,
    }
}

fn replay(id: &str, rom: &str) -> ReplayMetaInsert {
    ReplayMetaInsert {
        replay_id: id.to_string(),
        discord_id: "42".to_string(),
        username: "alice".to_string(),
        rom_hash: rom.to_string(),
        filename: format!("{}.ncrp", id),
        p1_name: "alice".to_string(),
        p2_name: "bob".to_string(),
        p1_score: Some(3),
        p2_score: None,
        winner: "alice".to_string(),
        frame_count: 1234,
        duration: "1:02".to_string(),
        recorded_at: "then".to_string(),
        session_id: "s".to_string(),
        completed_games: 4,
        completed_set: true,
    }
}

#[test]
fn the_author_of_an_upload_is_the_holder_of_the_token() {
    let accepted = accept_ghost(claims(), &upload_headers(), &[1, 2, 3]).ok().unwrap();
    assert_eq!(accepted.discord_id, "42");
    assert_eq!(accepted.username, "alice");
    assert_eq!(accepted.ghost_id, "g-1_A");
    assert_eq!(accepted.rom_hash, "rom");
    assert_eq!(accepted.filename, "..run1.ncgh");
    assert_eq!(accepted.frame_count, 3600);
}

#[test]
fn missing_headers_read_as_empty() {
    let mut headers = HeaderMap::new();
    headers.insert("x-freeplay-ghost-id", HeaderValue::from_static("g"));
    headers.insert("x-freeplay-rom-hash", HeaderValue::from_bytes(&[0xe4]).unwrap());
    headers.insert("x-freeplay-frame-count", HeaderValue::from_static("many"));
    let accepted = accept_ghost(claims(), &headers, &[1]).ok().unwrap();
    assert_eq!(accepted.rom_hash, "");
    assert_eq!(accepted.filename, "");
    assert_eq!(accepted.frame_count, 0);
}

#[test]
fn the_first_of_two_values_is_read() {
    let mut headers = upload_headers();
    headers.append("x-freeplay-rom-hash", HeaderValue::from_static("second"));
    let accepted = accept_ghost(claims(), &headers, &[1]).ok().unwrap();
    assert_eq!(accepted.rom_hash, "rom");
}

#[test]
fn unsafe_ids_and_empty_bodies_are_refused() {
    assert_eq!(accept_ghost(claims(), &upload_headers(), &[]).err(), Some(StatusCode::BadRequest));
    let mut headers = upload_headers();
    headers.insert("x-freeplay-ghost-id", HeaderValue::from_static("../etc/passwd"));
    assert_eq!(accept_ghost(claims(), &headers, &[1]).err(), Some(StatusCode::BadRequest));
    headers.remove("x-freeplay-ghost-id");
    assert_eq!(accept_ghost(claims(), &headers, &[1]).err(), Some(StatusCode::BadRequest));
}

#[test]
fn safe_ids_are_short_tokens() {
    assert!(is_safe_ghost_id("3f2504e0-4f89-11d3-9a0c-0305e82c3301"));
    assert!(is_safe_ghost_id("A_z-09"));
    assert!(is_safe_ghost_id(&"a".repeat(64)));
    assert!(!is_safe_ghost_id(&"a".repeat(65)));
    assert!(!is_safe_ghost_id(""));
    assert!(!is_safe_ghost_id("a.b"));
    assert!(!is_safe_ghost_id("a/b"));
    assert!(!is_safe_ghost_id("a\\b"));
    assert!(!is_safe_ghost_id("a b"));
    assert!(!is_safe_ghost_id("\u{e4}"));
    assert_eq!(ghost_file_name("g1"), "g1.ncgh.gz");
    assert_eq!(ghost_path("g1"), Ok("ghosts/g1.ncgh.gz".to_string()));
    assert_eq!(ghost_path(".."), Err(StatusCode::BadRequest));
}

#[test]
fn shown_names_are_printable_and_short() {
    assert_eq!(clean_filename("a/b\\c\u{7}d\u{85}e"), "abcde");
    assert_eq!(clean_filename("\u{e4}\u{1f600}"), "\u{e4}\u{1f600}");
    assert_eq!(clean_filename(&"x".repeat(200)), "x".repeat(80));
    let mixed = format!("{}{}", "/".repeat(50), "y".repeat(81));
    assert_eq!(clean_filename(&mixed), "y".repeat(80));
    assert_eq!(clean_filename(""), "");
}

#[test]
fn an_uploaded_ghost_is_listed_and_delivered() {
    let mut db = Db::new();
    store_ghost(&mut db, &upload("g1", "rom"), "t1");
    let listed = list_ghosts(&db, &GhostListQuery { rom_hash: String::new(), limit: 50 }).ghosts;
    assert_eq!(listed.len(), 1);
    assert_eq!(listed[0].ghost_id, "g1");
    assert_eq!(listed[0].discord_id, "42");
    assert_eq!(listed[0].frame_count, 7);
    assert_eq!(listed[0].uploaded_at, "t1");
    let file = download_ghost(&db, "g1", Some(vec![9, 8])).ok().unwrap();
    assert_eq!(file.content_disposition, "attachment; filename=\"g1.ncgh\"");
    assert!(file.gzip);
    assert_eq!(file.data, vec![9, 8]);
    assert_eq!(download_ghost(&db, "g1", None).err(), Some(StatusCode::NotFound));
    assert_eq!(download_ghost(&db, "g2", Some(vec![1])).err(), Some(StatusCode::NotFound));
    assert_eq!(download_ghost(&db, "../g1", Some(vec![1])).err(), Some(StatusCode::BadRequest));
}

#[test]
fn an_old_ghost_is_delivered_from_the_table() {
    let old = GhostRow {
        ghost_id: "old".to_string(),
        discord_id: "1".to_string(),
        username: String::new(),
        rom_hash: "rom".to_string(),
        filename: "old.ncgh".to_string(),
        file_data: vec![5, 6],
        frame_count: 0,
        uploaded_at: "t0".to_string(),
    };
    let mut db = Db::open(StoredRows {
        players: vec![],
        matches: vec![],
        periods: vec![],
        ghosts: vec![old],
        replays: vec![],
        names: vec![],
    })
    .ok()
    .unwrap();
    let file = download_ghost(&db, "old", None).ok().unwrap();
    assert!(!file.gzip);
    assert_eq!(file.data, vec![5, 6]);
    assert_eq!(
        db.download_ghost("old", Some(vec![1])),
        Some(("old.ncgh".to_string(), "gzip".to_string(), vec![1]))
    );
    store_ghost(&mut db, &upload("old", "rom"), "t1");
    assert_eq!(db.ghosts.rows.len(), 1);
    assert_eq!(db.download_ghost("old", None), None);
}

#[test]
fn ghosts_are_listed_newest_first() {
    let mut db = Db::new();
    store_ghost(&mut db, &upload("g1", "x"), "2024-01-02");
    store_ghost(&mut db, &upload("g2", "y"), "2024-01-03");
    store_ghost(&mut db, &upload("g3", "x"), "2024-01-01");
    let ids = |db: &Db, rom: &str, limit: u32| -> Vec<String> {
        db.list_ghosts(rom, limit).into_iter().map(|g| g.ghost_id).collect()
    };
    assert_eq!(ids(&db, "", 50), vec!["g2", "g1", "g3"]);
    assert_eq!(ids(&db, "x", 50), vec!["g1", "g3"]);
    assert_eq!(ids(&db, "", 0), vec!["g2"]);
    assert_eq!(ids(&db, "z", 50), Vec::<String>::new());
    store_ghost(&mut db, &upload("g3", "y"), "2024-01-04");
    assert_eq!(ids(&db, "", 50), vec!["g3", "g2", "g1"]);
    assert_eq!(ids(&db, "x", 50), vec!["g1"]);
    assert_eq!(default_ghost_limit(), 50);
    assert_eq!(default_replay_limit(), 50);
}

#[test]
fn a_list_has_no_more_than_a_hundred_ghosts() {
    let mut db = Db::new();
    for i in 0..120 {
        store_ghost(&mut db, &upload(&format!("g{}", i), "x"), &format!("{:04}", i));
    }
    let listed = db.list_ghosts("x", u32::MAX);
    assert_eq!(listed.len(), 100);
    assert_eq!(listed[0].ghost_id, "g119");
    assert_eq!(listed[99].ghost_id, "g20");
}

#[test]
fn replays_are_stored_listed_and_replaced() {
    let mut db = Db::new();
    db.upload_replay_meta(&replay("r1", "x"), "2024-01-01");
    db.upload_replay_meta(&replay("r2", "y"), "2024-01-02");
    assert_eq!(db.replay_filename("r1"), Some("r1.ncrp".to_string()));
    assert_eq!(db.replay_filename("r9"), None);
    let listed = db.list_replays("", 50);
    assert_eq!(listed.len(), 2);
    assert_eq!(listed[0].replay_id, "r2");
    let r = &listed[1];
    assert_eq!(r.replay_id, "r1");
    assert_eq!(r.url, "");
    assert_eq!((r.p1_name.as_str(), r.p2_name.as_str()), ("alice", "bob"));
    assert_eq!((r.p1_score, r.p2_score), (Some(3), None));
    assert_eq!((r.frame_count, r.completed_games, r.completed_set), (1234, 4, true));
    assert_eq!((r.duration.as_str(), r.recorded_at.as_str()), ("1:02", "then"));
    assert_eq!((r.session_id.as_str(), r.winner.as_str()), ("s", "alice"));
    assert_eq!(r.uploaded_at, "2024-01-01");
    assert_eq!(db.list_replays("x", 50).len(), 1);
    let mut again = replay("r1", "y");
    again.filename = "other.ncrp".to_string();
    db.upload_replay_meta(&again, "2024-01-03");
    assert_eq!(db.replays.rows.len(), 2);
    assert_eq!(db.replay_filename("r1"), Some("other.ncrp".to_string()));
    assert_eq!(db.list_replays("y", 1)[0].replay_id, "r1");
    assert_eq!(db.list_replays("x", 50).len(), 0);
}

#[test]
fn an_upload_is_kept_whole_or_not_at_all() {
    let start = UploadState::start();
    assert_eq!(start.action(), UploadAction::WriteFile);
    assert_eq!(start.answer(), None);

    let unwritten = start.on_outcome(false);
    assert_eq!(unwritten.action(), UploadAction::Answer);
    assert_eq!(unwritten.answer(), Some(Err(StatusCode::InternalServerError)));

    let written = start.on_outcome(true);
    assert_eq!(written.action(), UploadAction::StoreMeta);
    assert_eq!(written.answer(), None);
    let stored = written.on_outcome(true);
    assert_eq!(stored.action(), UploadAction::Answer);
    assert_eq!(stored.answer(), Some(Ok(())));
    assert_eq!(stored.on_outcome(false), stored);

    let unstored = written.on_outcome(false);
    assert_eq!(unstored.action(), UploadAction::RemoveFile);
    for removed in [true, false] {
        let failed = unstored.on_outcome(removed);
        assert_eq!(failed.action(), UploadAction::Answer);
        assert_eq!(failed.answer(), Some(Err(StatusCode::InternalServerError)));
        assert_eq!(failed.on_outcome(true), failed);
    }
}
