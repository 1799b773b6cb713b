//! Requests and their answers.

use crate::auth::{
    check_api_key, header_or_empty, header_value, presented_token, signed_with, token_check,
    verify_jwt, Claims,
};
use crate::clock::{clock_read, is_utc_time, read_clock};
use crate::db::matches::new_match;
use crate::db::rows::GhostView;
use crate::db::{Db, DbView};
use crate::double::Double;
use crate::models::{
    GhostListQuery, GhostListResponse, HistoryResponse, LeaderboardResponse, MatchResult,
    PlayerProfile,
};
use crate::order::{clamp_limit, clamped, is_top};
use crate::status::StatusCode;
use crate::text::{chars_of, parse_u32, parsed_u32};
use axum::http::header::HeaderValue;
use axum::http::HeaderMap;
use vstd::prelude::*;

verus! {

pub struct LeaderboardQuery {
    pub limit: u32,
}

pub struct HistoryQuery {
    pub limit: u32,
}

/// How many entries are listed when the client does not say.
pub fn default_limit() -> (r: u32)
    ensures
        r == 50,
{
    50
}

// ── Results ────────────────────────────────────────────────────────────────

/// What is announced of a recorded match.
pub struct MatchNotice {
    pub winner_name: String,
    pub loser_name: String,
    pub winner_score: u16,
    pub loser_score: u16,
    pub winner_rating: Double,
    pub loser_rating: Double,
}

impl DbView {
    /// The tables after a player's name is refreshed, unless the new name is
    /// empty.
    pub open spec fn after_naming(self, id: Seq<char>, username: Seq<char>) -> DbView {
        if username.len() > 0 {
            self.after_rename(id, username)
        } else {
            self
        }
    }

    /// The tables after a finished match is posted: the result is recorded, and
    /// then the names that came with it are. A second post for a room does
    /// nothing, whatever it says.
    pub open spec fn after_post(self, m: MatchResult, now: Seq<char>) -> DbView {
        if self.has_match(m.room_id@) {
            self
        } else {
            self.after_result(
                new_match(
                    m.room_id@,
                    m.winner_id@,
                    m.loser_id@,
                    m.winner_score,
                    m.loser_score,
                    m.rom_hash@,
                    now,
                ),
            ).after_naming(m.winner_id@, m.winner_username@).after_naming(
                m.loser_id@,
                m.loser_username@,
            )
        }
    }

    /// The name under which a player is announced: the one that came with the
    /// match, else the stored one, else the id.
    pub open spec fn display_name(self, id: Seq<char>, username: Seq<char>) -> Seq<char> {
        if username.len() > 0 {
            username
        } else {
            match self.stored_name(id) {
                Some(name) => name,
                None => id,
            }
        }
    }

    /// Whether a finished match can be recorded: its room has a match already,
    /// or the counters of both players have room for it.
    pub open spec fn can_post(self, m: MatchResult) -> bool {
        self.has_match(m.room_id@) || (self.count_room(m.winner_id@) && self.count_room(m.loser_id@))
    }
}

impl MatchNotice {
    /// Whether the notice announces the match, given the tables after it.
    pub open spec fn announces(&self, m: MatchResult, after: DbView) -> bool {
        &&& self.winner_name@ == after.display_name(m.winner_id@, m.winner_username@)
        &&& self.loser_name@ == after.display_name(m.loser_id@, m.loser_username@)
        &&& self.winner_score == m.winner_score
        &&& self.loser_score == m.loser_score
        &&& self.winner_rating == after.players[m.winner_id@].rating.mu
        &&& self.loser_rating == after.players[m.loser_id@].rating.mu
    }
}

/// The name under which a player is announced.
fn announced_name(db: &Db, id: &String, username: &String) -> (r: String)
    requires
        db.wf(),
    ensures
        r@ == db@.display_name(id@, username@),
{
    if !username.as_str().is_empty() {
        username.clone()
    } else {
        match db.get_username(id.as_str()) {
            Some(name) => name,
            None => id.clone(),
        }
    }
}

/// Whether a finished match can be recorded.
pub fn has_room_for(db: &Db, result: &MatchResult) -> (r: bool)
    requires
        db.wf(),
    ensures
        r == db@.can_post(*result),
{
    db.match_known(result.room_id.as_str()) || (db.can_count(result.winner_id.as_str())
        && db.can_count(result.loser_id.as_str()))
}

/// Record a finished match at a time, and say what is to be announced of it: of a
/// room that has a match already, nothing is recorded and nothing announced.
pub fn record_match(db: &mut Db, result: &MatchResult, now: &str) -> (r: Option<MatchNotice>)
    requires
        old(db).wf(),
        old(db)@.can_post(*result),
    ensures
        final(db).wf(),
        final(db)@ == old(db)@.after_post(*result, now@),
        match r {
            Some(notice) => !old(db)@.has_match(result.room_id@) && notice.announces(
                *result,
                final(db)@,
            ),
            None => old(db)@.has_match(result.room_id@),
        },
{
    if db.match_known(result.room_id.as_str()) {
        return None;
    }
    let (winner_rating, loser_rating) = db.process_result_at(
        result.winner_id.as_str(),
        result.loser_id.as_str(),
        result.winner_score,
        result.loser_score,
        result.room_id.as_str(),
        result.rom_hash.as_str(),
        now,
    );
    if !result.winner_username.as_str().is_empty() {
        db.update_username(result.winner_id.as_str(), result.winner_username.as_str());
    }
    if !result.loser_username.as_str().is_empty() {
        db.update_username(result.loser_id.as_str(), result.loser_username.as_str());
    }
    Some(
        MatchNotice {
            winner_name: announced_name(db, &result.winner_id, &result.winner_username),
            loser_name: announced_name(db, &result.loser_id, &result.loser_username),
            winner_score: result.winner_score,
            loser_score: result.loser_score,
            winner_rating: winner_rating.mu,
            loser_rating: loser_rating.mu,
        },
    )
}

/// Take in a finished match from the signaling server. A request without the
/// API key changes nothing, and neither does a second post for a room.
pub fn post_result(
    db: &mut Db,
    headers: &HeaderMap<HeaderValue>,
    stats_api_key: &str,
    result: &MatchResult,
) -> (r: Result<Option<MatchNotice>, StatusCode>)
    requires
        old(db).wf(),
        header_or_empty(*headers, "X-API-Key"@) == stats_api_key@ ==> old(db)@.can_post(*result),
    ensures
        final(db).wf(),
        match r {
            Ok(notice) => {
                &&& header_or_empty(*headers, "X-API-Key"@) == stats_api_key@
                &&& if old(db)@.has_match(result.room_id@) {
                    notice is None && final(db)@ == old(db)@
                } else {
                    &&& exists|now: Seq<char>|
                        clock_read(now) && is_utc_time(now) && final(db)@ == #[trigger] old(db)@.after_post(*result, now)
                    &&& notice matches Some(n)
                    &&& n.announces(*result, final(db)@)
                }
            },
            Err(e) => {
                &&& e == StatusCode::Unauthorized
                &&& header_or_empty(*headers, "X-API-Key"@) != stats_api_key@
                &&& final(db)@ == old(db)@
            },
        },
{
    match check_api_key(headers, stats_api_key) {
        Err(e) => Err(e),
        Ok(()) => {
            let now = read_clock();
            Ok(record_match(db, result, now.as_str()))
        },
    }
}

// ── Public reads ───────────────────────────────────────────────────────────

/// The leaderboard, with at least 1 and at most 100 entries asked for.
pub fn leaderboard(db: &Db, q: &LeaderboardQuery) -> (r: LeaderboardResponse)
    requires
        db.wf(),
    ensures
        is_top(
            Seq::new(r.entries@.len(), |i: int| r.entries@[i].discord_id@),
            |id: Seq<char>| db@.placed(id),
            |a: Seq<char>, b: Seq<char>| db@.outranks(a, b),
            clamped(q.limit) as nat,
        ),
        forall|i: int|
            0 <= i < r.entries@.len() ==> (#[trigger] r.entries@[i]).shows(
                db@.players[r.entries@[i].discord_id@],
                i + 1,
            ),
{
    LeaderboardResponse { entries: db.get_leaderboard(clamp_limit(q.limit)) }
}

/// A player's profile.
pub fn player_profile(db: &Db, discord_id: &str) -> (r: Result<PlayerProfile, StatusCode>)
    requires
        db.wf(),
    ensures
        match r {
            Ok(profile) => db@.players.contains_key(discord_id@) && profile.describes(
                db@.players[discord_id@],
            ),
            Err(e) => e == StatusCode::NotFound && !db@.players.contains_key(discord_id@),
        },
{
    match db.get_player(discord_id) {
        Some(profile) => Ok(profile),
        None => Err(StatusCode::NotFound),
    }
}

/// A player's recent matches, with at least 1 and at most 100 asked for.
pub fn player_history(db: &Db, discord_id: &str, q: &HistoryQuery) -> (r: HistoryResponse)
    requires
        db.wf(),
    ensures
        is_top(
            Seq::new(r.matches@.len(), |i: int| r.matches@[i].room_id@),
            |room: Seq<char>| db@.played_in(discord_id@, room),
            |a: Seq<char>, b: Seq<char>| db@.later(a, b),
            clamped(q.limit) as nat,
        ),
        forall|i: int|
            0 <= i < r.matches@.len() ==> (#[trigger] r.matches@[i]).tells(
                db@.match_in(r.matches@[i].room_id@),
                discord_id@,
                db@.username_of(r.matches@[i].opponent_id@),
            ),
{
    HistoryResponse { matches: db.get_match_history(discord_id, clamp_limit(q.limit)) }
}

// ── Ghosts ─────────────────────────────────────────────────────────────────

/// A character that may stand in a ghost id.
pub open spec fn is_id_char(c: char) -> bool {
    'a' <= c <= 'z' || 'A' <= c <= 'Z' || '0' <= c <= '9' || c == '-' || c == '_'
}

/// Whether a ghost id can be part of a file name: a short token of letters,
/// digits, hyphens and underscores.
pub open spec fn safe_ghost_id(s: Seq<char>) -> bool {
    0 < s.len() <= 64 && forall|i: int| 0 <= i < s.len() ==> is_id_char(#[trigger] s[i])
}

/// Whether a ghost id is safe to use in a file name.
pub fn is_safe_ghost_id(s: &str) -> (r: bool)
    ensures
        r == safe_ghost_id(s@),
{
    let chars = chars_of(s);
    if chars.len() == 0 || chars.len() > 64 {
        return false;
    }
    let mut i: usize = 0;
    while i < chars.len()
        invariant
            i <= chars.len(),
            chars@ == s@,
            forall|j: int| 0 <= j < i ==> is_id_char(#[trigger] s@[j]),
        decreases chars.len() - i,
    {
        let c = chars[i];
        if !(('a' <= c && c <= 'z') || ('A' <= c && c <= 'Z') || ('0' <= c && c <= '9') || c == '-'
            || c == '_') {
            assert(!is_id_char(s@[i as int]));
            return false;
        }
        i = i + 1;
    }
    true
}

/// The file that a ghost is kept in.
pub open spec fn ghost_file(ghost_id: Seq<char>) -> Seq<char> {
    ghost_id + ".ncgh.gz"@
}

/// The file that a ghost is kept in.
pub fn ghost_file_name(ghost_id: &str) -> (r: String)
    ensures
        r@ == ghost_file(ghost_id@),
{
    let mut name = ghost_id.to_owned();
    name.append(".ncgh.gz");
    name
}

/// A character that is left in a file name that is shown to people: no control
/// character and no path separator.
pub open spec fn is_shown(c: char) -> bool {
    !(c <= '\u{1f}' || '\u{7f}' <= c <= '\u{9f}') && c != '/' && c != '\\'
}

/// The first 80 characters of a file name that can be shown.
pub open spec fn shown_name(s: Seq<char>) -> Seq<char> {
    let kept = s.filter(|c: char| is_shown(c));
    if kept.len() <= 80 {
        kept
    } else {
        kept.take(80)
    }
}

/// The first 80 characters of a file name that can be shown.
pub fn clean_filename(s: &str) -> (r: String)
    ensures
        r@ == shown_name(s@),
{
    let ghost shown = |c: char| is_shown(c);
    let chars = chars_of(s);
    let mut out = String::new();
    let mut count: usize = 0;
    let mut i: usize = 0;
    assert(s@.take(0).filter(shown) =~= Seq::<char>::empty()) by {
        reveal(Seq::filter);
    }
    while i < chars.len()
        invariant
            shown == (|c: char| is_shown(c)),
            i <= chars.len(),
            chars@ == s@,
            count <= 80,
            count == out@.len(),
            out@ == (if s@.take(i as int).filter(shown).len() <= 80 {
                s@.take(i as int).filter(shown)
            } else {
                s@.take(i as int).filter(shown).take(80)
            }),
        decreases chars.len() - i,
    {
        let c = chars[i];
        proof {
            let longer = s@.take(i + 1);
            assert(longer.drop_last() =~= s@.take(i as int));
            assert(longer.last() == c);
            reveal(Seq::filter);
        }
        let control = c <= '\u{1f}' || ('\u{7f}' <= c && c <= '\u{9f}');
        if !control && c != '/' && c != '\\' && count < 80 {
            out.push(c);
            count = count + 1;
        }
        i = i + 1;
    }
    assert(s@.take(i as int) =~= s@);
    out
}

/// A ghost that is to be stored.
pub struct GhostUpload {
    pub ghost_id: String,
    pub discord_id: String,
    pub username: String,
    pub rom_hash: String,
    pub filename: String,
    pub frame_count: u32,
}

/// The number in a header, or 0 if it holds none.
pub open spec fn header_number(headers: HeaderMap<HeaderValue>, name: Seq<char>) -> u32 {
    match parsed_u32(header_or_empty(headers, name)) {
        Some(n) => n,
        None => 0,
    }
}

impl GhostUpload {
    /// Whether the upload is what the headers say, by the holder of a token.
    pub open spec fn comes_from(
        &self,
        headers: HeaderMap<HeaderValue>,
        sub: Seq<char>,
        username: Seq<char>,
    ) -> bool {
        &&& self.discord_id@ == sub
        &&& self.username@ == username
        &&& self.ghost_id@ == header_or_empty(headers, "x-freeplay-ghost-id"@)
        &&& self.rom_hash@ == header_or_empty(headers, "x-freeplay-rom-hash"@)
        &&& self.filename@ == shown_name(header_or_empty(headers, "x-freeplay-filename"@))
        &&& self.frame_count == header_number(headers, "x-freeplay-frame-count"@)
    }

    /// The upload as it is stored; its file is kept elsewhere.
    pub open spec fn stored(&self, uploaded_at: Seq<char>) -> GhostView {
        GhostView {
            ghost_id: self.ghost_id@,
            discord_id: self.discord_id@,
            username: self.username@,
            rom_hash: self.rom_hash@,
            filename: self.filename@,
            file_data: Seq::empty(),
            frame_count: self.frame_count,
            uploaded_at,
        }
    }
}

/// What a token holder's upload comes to. The author is the holder of the token,
/// whatever the headers say. An unsafe id and an empty body are refused.
pub fn accept_ghost(claims: Claims, headers: &HeaderMap<HeaderValue>, body: &[u8]) -> (r: Result<
    GhostUpload,
    StatusCode,
>)
    ensures
        match r {
            Ok(upload) => {
                &&& safe_ghost_id(header_or_empty(*headers, "x-freeplay-ghost-id"@))
                &&& body@.len() > 0
                &&& upload.comes_from(*headers, claims.sub@, claims.username@)
            },
            Err(e) => e == StatusCode::BadRequest && (!safe_ghost_id(
                header_or_empty(*headers, "x-freeplay-ghost-id"@),
            ) || body@.len() == 0),
        },
{
    let ghost_id = header_value(headers, "x-freeplay-ghost-id");
    let rom_hash = header_value(headers, "x-freeplay-rom-hash");
    let filename = header_value(headers, "x-freeplay-filename");
    let frames = header_value(headers, "x-freeplay-frame-count");
    let frame_count: u32 = match parse_u32(frames.as_str()) {
        Some(n) => n,
        None => 0,
    };
    if !is_safe_ghost_id(ghost_id.as_str()) {
        return Err(StatusCode::BadRequest);
    }
    if body.len() == 0 {
        return Err(StatusCode::BadRequest);
    }
    Ok(
        GhostUpload {
            ghost_id,
            discord_id: claims.sub,
            username: claims.username,
            rom_hash,
            filename: clean_filename(filename.as_str()),
            frame_count,
        },
    )
}

/// Take in an upload of a ghost. The request needs a token, and `claims` is what its
/// payload holds, if it holds claims; whether a signed token is accepted depends on
/// the time, too.
pub fn upload_ghost(
    headers: &HeaderMap<HeaderValue>,
    jwt_secret: Option<&str>,
    claims: Option<Claims>,
    body: &[u8],
) -> (r: Result<GhostUpload, StatusCode>)
    ensures
        jwt_secret is None ==> r == Err::<GhostUpload, StatusCode>(StatusCode::ServiceUnavailable),
        jwt_secret is Some && (presented_token(*headers).len() == 0 || claims is None) ==> r
            == Err::<GhostUpload, StatusCode>(StatusCode::Unauthorized),
        jwt_secret is Some ==> match r {
            Ok(upload) => {
                &&& safe_ghost_id(header_or_empty(*headers, "x-freeplay-ghost-id"@))
                &&& body@.len() > 0
                &&& signed_with(presented_token(*headers), jwt_secret->0@)
                &&& claims matches Some(c)
                &&& upload.comes_from(*headers, c.sub@, c.username@)
            },
            Err(e) => {
                ||| e == StatusCode::Unauthorized
                ||| e == StatusCode::BadRequest && (!safe_ghost_id(
                    header_or_empty(*headers, "x-freeplay-ghost-id"@),
                ) || body@.len() == 0) && signed_with(presented_token(*headers), jwt_secret->0@)
                    && claims is Some
            },
        },
        jwt_secret is Some && presented_token(*headers).len() > 0 && claims is Some ==> exists|
            accepted: bool,
        |
            #[trigger] token_check(presented_token(*headers), jwt_secret->0@, accepted) && (
            if !accepted {
                r == Err::<GhostUpload, StatusCode>(StatusCode::Unauthorized)
            } else if !safe_ghost_id(header_or_empty(*headers, "x-freeplay-ghost-id"@))
                || body@.len() == 0 {
                r == Err::<GhostUpload, StatusCode>(StatusCode::BadRequest)
            } else {
                r is Ok && r->Ok_0.comes_from(*headers, claims->0.sub@, claims->0.username@)
            }),
{
    match verify_jwt(headers, jwt_secret, claims) {
        Err(e) => Err(e),
        Ok(claims) => accept_ghost(claims, headers, body),
    }
}

/// Store what is known of an accepted upload, in the place of an earlier upload
/// of the same ghost.
pub fn store_ghost(db: &mut Db, upload: &GhostUpload, uploaded_at: &str)
    requires
        old(db).wf(),
    ensures
        final(db).wf(),
        final(db)@ == old(db)@.after_ghost(upload.stored(uploaded_at@)),
{
    db.upload_ghost_meta(
        upload.ghost_id.as_str(),
        upload.discord_id.as_str(),
        upload.username.as_str(),
        upload.rom_hash.as_str(),
        upload.filename.as_str(),
        upload.frame_count,
        uploaded_at,
    );
}

/// The newest ghosts.
pub fn list_ghosts(db: &Db, q: &GhostListQuery) -> (r: GhostListResponse)
    requires
        db.wf(),
    ensures
        is_top(
            Seq::new(r.ghosts@.len(), |i: int| r.ghosts@[i].ghost_id@),
            |id: Seq<char>| db@.ghost_listed(q.rom_hash@, id),
            |a: Seq<char>, b: Seq<char>| db@.ghost_newer(a, b),
            clamped(q.limit) as nat,
        ),
        forall|i: int|
            0 <= i < r.ghosts@.len() ==> (#[trigger] r.ghosts@[i]).lists(
                db@.ghosts[r.ghosts@[i].ghost_id@],
            ),
{
    GhostListResponse { ghosts: db.list_ghosts(q.rom_hash.as_str(), q.limit) }
}

/// A ghost file as it is delivered.
pub struct GhostFile {
    pub content_disposition: String,
    /// Whether the bytes are compressed by gzip.
    pub gzip: bool,
    pub data: Vec<u8>,
}

/// How a file is announced to the client that downloads it.
pub open spec fn disposition(filename: Seq<char>) -> Seq<char> {
    "attachment; filename=\""@ + filename + "\""@
}

/// Where the file of a ghost is kept, below the directory for files. A request
/// for an unsafe id is refused before any file is touched.
pub fn ghost_path(ghost_id: &str) -> (r: Result<String, StatusCode>)
    ensures
        match r {
            Ok(path) => safe_ghost_id(ghost_id@) && path@ == "ghosts/"@ + ghost_file(ghost_id@),
            Err(e) => e == StatusCode::BadRequest && !safe_ghost_id(ghost_id@),
        },
{
    if !is_safe_ghost_id(ghost_id) {
        return Err(StatusCode::BadRequest);
    }
    let mut path = "ghosts/".to_owned();
    let file = ghost_file_name(ghost_id);
    path.append(file.as_str());
    Ok(path)
}

/// Deliver a ghost, given the file kept for it, if there is one.
pub fn download_ghost(db: &Db, ghost_id: &str, kept: Option<Vec<u8>>) -> (r: Result<
    GhostFile,
    StatusCode,
>)
    requires
        db.wf(),
    ensures
        ({
            let delivered = db@.ghost_download(
                ghost_id@,
                match kept {
                    Some(bytes) => Some(bytes@),
                    None => None,
                },
            );
            match r {
                Ok(file) => {
                    &&& safe_ghost_id(ghost_id@)
                    &&& delivered matches Some((filename, encoding, data))
                    &&& file.content_disposition@ == disposition(filename)
                    &&& file.gzip == (encoding == "gzip"@)
                    &&& file.data@ == data
                },
                Err(e) => if !safe_ghost_id(ghost_id@) {
                    e == StatusCode::BadRequest
                } else {
                    e == StatusCode::NotFound && delivered is None
                },
            }
        }),
{
    if !is_safe_ghost_id(ghost_id) {
        return Err(StatusCode::BadRequest);
    }
    match db.download_ghost(ghost_id, kept) {
        Some((filename, encoding, data)) => {
            let mut content_disposition = "attachment; filename=\"".to_owned();
            content_disposition.append(filename.as_str());
            content_disposition.append("\"");
            let gzip = encoding == "gzip".to_owned();
            Ok(GhostFile { content_disposition, gzip, data })
        },
        None => Err(StatusCode::NotFound),
    }
}

} // verus!
