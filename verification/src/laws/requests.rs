//! What requests and settings come to.

use crate::auth::{
    first_text, header_fields, header_or_empty, is_header_text_byte, presented_token, token_of,
};
use crate::config::default_db_path;
use crate::db::DbView;
use crate::discord::match_message;
use crate::handlers::{
    disposition, ghost_file, header_number, is_id_char, is_shown, safe_ghost_id, shown_name,
    GhostUpload, MatchNotice,
};
use crate::models::MatchResult;
use crate::rating_period::{report_of, CloseOutcome, PeriodTimer, Report, TickAction, PERIOD_SECS};
use crate::state::{file_in, is_dir_path, is_file_name, is_parent, is_part};
use crate::status::StatusCode;
use crate::text::{ascii_lower, decimal, parsed_u32};
use axum::http::header::HeaderValue;
use axum::http::HeaderMap;
use vstd::prelude::*;

verus! {

// ── Headers and tokens ─────────────────────────────────────────────────────

/// A header says what the first value under its name does, character for byte, if the
/// value is made of visible ASCII, spaces and tabs; else it says nothing.
pub proof fn what_a_header_says(headers: HeaderMap<HeaderValue>, name: Seq<char>, i: int)
    ensures
        ({
            let fields = header_fields(headers);
            let key = ascii_lower(name);
            let said = header_or_empty(headers, name);
            &&& !fields.contains_key(key) ==> said.len() == 0
            &&& fields.contains_key(key) && fields[key].len() > 0 && (forall|j: int|
                0 <= j < fields[key][0].len() ==> (32 <= (#[trigger] fields[key][0][j]) < 127
                    || fields[key][0][j] == 9)) ==> said.len() == fields[key][0].len() && (0 <= i
                < said.len() ==> said[i] == fields[key][0][i] as char)
            &&& fields.contains_key(key) && fields[key].len() > 0 && 0 <= i < fields[key][0].len()
                && !(32 <= fields[key][0][i] < 127 || fields[key][0][i] == 9) ==> said.len() == 0
        }),
{
    let fields = header_fields(headers);
    let key = ascii_lower(name);
    if fields.contains_key(key) && fields[key].len() > 0 {
        if forall|j: int|
            0 <= j < fields[key][0].len() ==> (32 <= (#[trigger] fields[key][0][j]) < 127
                || fields[key][0][j] == 9) {
            assert(forall|j: int|
                0 <= j < fields[key][0].len() ==> is_header_text_byte(#[trigger] fields[key][0][j]));
            assert(first_text(fields, name) is Some);
        }
        if 0 <= i < fields[key][0].len() && !(32 <= fields[key][0][i] < 127 || fields[key][0][i]
            == 9) {
            assert(!is_header_text_byte(fields[key][0][i]));
        }
    }
}

/// The token of a request is what follows `Bearer ` in its `Authorization` header, and
/// there is none after anything else.
pub proof fn token_follows_bearer(token: Seq<char>, other: Seq<char>)
    ensures
        token_of("Bearer "@ + token) == token,
        other.len() < 7 ==> token_of(other).len() == 0,
        forall|i: int|
            0 <= i < 7 && i < other.len() && (#[trigger] other[i]) != seq![
                'B',
                'e',
                'a',
                'r',
                'e',
                'r',
                ' ',
            ][i] ==> token_of(other).len() == 0,
{
    reveal_strlit("Bearer ");
    let scheme = "Bearer "@;
    assert(scheme =~= seq!['B', 'e', 'a', 'r', 'e', 'r', ' ']);
    assert(scheme =~= (scheme + token).subrange(0, 7));
    assert((scheme + token).skip(7) =~= token);
    assert forall|i: int| 0 <= i < 7 && i < other.len() && (#[trigger] other[i]) != scheme[i]
        implies token_of(other).len() == 0 by {
        if scheme.is_prefix_of(other) {
            assert(other.subrange(0, 7)[i] == other[i]);
        }
    }
}

/// The token of a request is read from its `Authorization` header, and without one
/// there is none.
pub proof fn token_is_in_the_header(headers: HeaderMap<HeaderValue>, token: Seq<char>)
    ensures
        header_or_empty(headers, "Authorization"@) == "Bearer "@ + token ==> presented_token(
            headers,
        ) == token,
        header_or_empty(headers, "Authorization"@).len() < 7 ==> presented_token(headers).len()
            == 0,
        presented_token(headers) == token_of(header_or_empty(headers, "Authorization"@)),
{
    token_follows_bearer(token, header_or_empty(headers, "Authorization"@));
}

// ── Posts ──────────────────────────────────────────────────────────────────

/// A player is announced under the name that came with the match, else under the
/// stored one, else under the id.
pub proof fn announced_names(v: DbView, id: Seq<char>, username: Seq<char>)
    ensures
        username.len() > 0 ==> v.display_name(id, username) == username,
        username.len() == 0 && v.players.contains_key(id) && v.players[id].username.len() > 0
            ==> v.display_name(id, username) == v.players[id].username,
        username.len() == 0 && !(v.players.contains_key(id) && v.players[id].username.len() > 0)
            ==> v.display_name(id, username) == id,
{
}

/// A notice holds the scores of the match and the ratings that its players have, each
/// on its own side; a name that came with the match is announced.
pub proof fn notice_columns(n: MatchNotice, m: MatchResult, after: DbView)
    requires
        n.announces(m, after),
    ensures
        n.winner_score == m.winner_score,
        n.loser_score == m.loser_score,
        n.winner_rating == after.players[m.winner_id@].rating.mu,
        n.loser_rating == after.players[m.loser_id@].rating.mu,
        m.winner_username@.len() > 0 ==> n.winner_name@ == m.winner_username@,
        m.loser_username@.len() > 0 ==> n.loser_name@ == m.loser_username@,
        m.winner_username@.len() == 0 && after.players.contains_key(m.winner_id@)
            && after.players[m.winner_id@].username.len() > 0 ==> n.winner_name@
            == after.players[m.winner_id@].username,
        m.loser_username@.len() == 0 && after.players.contains_key(m.loser_id@)
            && after.players[m.loser_id@].username.len() > 0 ==> n.loser_name@
            == after.players[m.loser_id@].username,
        m.winner_username@.len() == 0 && after.players.contains_key(m.winner_id@)
            && after.players[m.winner_id@].username.len() == 0 ==> n.winner_name@ == m.winner_id@,
        m.loser_username@.len() == 0 && after.players.contains_key(m.loser_id@)
            && after.players[m.loser_id@].username.len() == 0 ==> n.loser_name@ == m.loser_id@,
{
}

/// A post can be recorded if its room has a match, or if two more results fit the
/// counters of both players.
pub proof fn what_can_be_posted(v: DbView, m: MatchResult)
    ensures
        v.can_post(m) <==> (exists|i: int|
            0 <= i < v.matches.len() && (#[trigger] v.matches[i]).room_id == m.room_id@) || ((
        v.players.contains_key(m.winner_id@) ==> v.players[m.winner_id@].wins
            + v.players[m.winner_id@].losses + v.players[m.winner_id@].draws
            <= 0xFFFF_FFFF_FFFF_FFFD) && (v.players.contains_key(m.loser_id@)
            ==> v.players[m.loser_id@].wins + v.players[m.loser_id@].losses
            + v.players[m.loser_id@].draws <= 0xFFFF_FFFF_FFFF_FFFD)),
{
}

/// An empty name changes no name, and any other one becomes the stored name of a known
/// player.
pub proof fn naming(v: DbView, id: Seq<char>, username: Seq<char>)
    requires
        v.players.contains_key(id),
    ensures
        username.len() == 0 ==> v.after_naming(id, username) == v,
        username.len() > 0 ==> v.after_naming(id, username) == v.after_rename(id, username),
        username.len() > 0 ==> v.after_naming(id, username).players[id].username == username
            && v.after_naming(id, username).players[id].rating == v.players[id].rating,
{
}

/// The summary of a match names the winner and the loser with their scores in one
/// line, and each with the rating in a line of its own.
pub proof fn summary_has_three_lines(
    winner: Seq<char>,
    loser: Seq<char>,
    winner_score: u16,
    loser_score: u16,
    winner_rating: Seq<char>,
    loser_rating: Seq<char>,
)
    ensures
        ({
            let first = ":trophy: **"@ + winner + "** ("@ + decimal(winner_score as nat)
                + ") beats **"@ + loser + "** ("@ + decimal(loser_score as nat) + ")\n"@;
            let second = winner + ": **"@ + winner_rating + "** rating\n"@;
            let third = loser + ": **"@ + loser_rating + "** rating"@;
            match_message(winner, loser, winner_score, loser_score, winner_rating, loser_rating)
                == first + second + third
        }),
{
    let message = match_message(
        winner,
        loser,
        winner_score,
        loser_score,
        winner_rating,
        loser_rating,
    );
    let first = ":trophy: **"@ + winner + "** ("@ + decimal(winner_score as nat) + ") beats **"@
        + loser + "** ("@ + decimal(loser_score as nat) + ")\n"@;
    let second = winner + ": **"@ + winner_rating + "** rating\n"@;
    let third = loser + ": **"@ + loser_rating + "** rating"@;
    assert(message =~= first + second + third);
}

// ── Ghosts ─────────────────────────────────────────────────────────────────

/// An id is safe exactly if it has 1 to 64 characters, each an ASCII letter, a digit, a
/// hyphen or an underscore.
pub proof fn what_a_safe_id_is(s: Seq<char>)
    ensures
        safe_ghost_id(s) <==> 1 <= s.len() <= 64 && forall|i: int|
            0 <= i < s.len() ==> ('a' <= (#[trigger] s[i]) <= 'z' || 'A' <= s[i] <= 'Z' || '0'
                <= s[i] <= '9' || s[i] == '-' || s[i] == '_'),
{
    if safe_ghost_id(s) {
        assert forall|i: int| 0 <= i < s.len() implies ('a' <= (#[trigger] s[i]) <= 'z' || 'A'
            <= s[i] <= 'Z' || '0' <= s[i] <= '9' || s[i] == '-' || s[i] == '_') by {
            assert(is_id_char(s[i]));
        }
    }
}

/// The file of a ghost is named by its id and `.ncgh.gz`.
pub proof fn ghost_file_is_named_by_the_id(id: Seq<char>, i: int)
    ensures
        ghost_file(id).len() == id.len() + 8,
        0 <= i < id.len() ==> ghost_file(id)[i] == id[i],
        ghost_file(id).skip(id.len() as int) == ".ncgh.gz"@,
{
    reveal_strlit(".ncgh.gz");
    assert(ghost_file(id).skip(id.len() as int) =~= ".ncgh.gz"@);
}

/// A file name of at most 80 characters without control characters and separators is
/// shown as it is, and of a longer one the first 80 characters are.
pub proof fn clean_names_are_shown(s: Seq<char>)
    requires
        forall|i: int|
            0 <= i < s.len() ==> '\u{20}' <= (#[trigger] s[i]) && !('\u{7f}' <= s[i] <= '\u{9f}')
                && s[i] != '/' && s[i] != '\\',
    ensures
        s.len() <= 80 ==> shown_name(s) == s,
        s.len() > 80 ==> shown_name(s) == s.take(80),
{
    nothing_filtered(s);
}

proof fn nothing_filtered(s: Seq<char>)
    requires
        forall|i: int|
            0 <= i < s.len() ==> '\u{20}' <= (#[trigger] s[i]) && !('\u{7f}' <= s[i] <= '\u{9f}')
                && s[i] != '/' && s[i] != '\\',
    ensures
        s.filter(|c: char| is_shown(c)) == s,
    decreases s.len(),
{
    reveal(Seq::filter);
    if s.len() > 0 {
        nothing_filtered(s.drop_last());
        assert(is_shown(s[s.len() - 1]));
        assert(s.drop_last().push(s.last()) =~= s);
    } else {
        assert(s.filter(|c: char| is_shown(c)) =~= s);
    }
}

/// A control character or a separator is never shown: a name is shown the same with and
/// without it.
pub proof fn hidden_characters_are_dropped(before: Seq<char>, c: char, after: Seq<char>)
    requires
        c <= '\u{1f}' || '\u{7f}' <= c <= '\u{9f}' || c == '/' || c == '\\',
    ensures
        shown_name(before.push(c) + after) == shown_name(before + after),
{
    hidden_is_filtered(before, c, after);
}

proof fn hidden_is_filtered(before: Seq<char>, c: char, after: Seq<char>)
    requires
        !is_shown(c),
    ensures
        (before.push(c) + after).filter(|c: char| is_shown(c)) == (before + after).filter(
            |c: char| is_shown(c),
        ),
    decreases after.len(),
{
    reveal(Seq::filter);
    if after.len() == 0 {
        assert(before.push(c) + after =~= before.push(c));
        assert(before + after =~= before);
        assert(before.push(c).drop_last() =~= before);
    } else {
        hidden_is_filtered(before, c, after.drop_last());
        assert((before.push(c) + after).drop_last() =~= before.push(c) + after.drop_last());
        assert((before + after).drop_last() =~= before + after.drop_last());
        assert((before.push(c) + after).last() == after.last());
        assert((before + after).last() == after.last());
    }
}

/// An upload holds what its headers say and who the token says its holder is, and so
/// does what is stored of it.
pub proof fn upload_columns(
    u: GhostUpload,
    headers: HeaderMap<HeaderValue>,
    sub: Seq<char>,
    username: Seq<char>,
    now: Seq<char>,
)
    requires
        u.comes_from(headers, sub, username),
    ensures
        u.stored(now).discord_id == sub,
        u.stored(now).username == username,
        u.stored(now).ghost_id == header_or_empty(headers, "x-freeplay-ghost-id"@),
        u.stored(now).rom_hash == header_or_empty(headers, "x-freeplay-rom-hash"@),
        u.stored(now).filename == shown_name(header_or_empty(headers, "x-freeplay-filename"@)),
        parsed_u32(header_or_empty(headers, "x-freeplay-frame-count"@)) == Some(
            u.stored(now).frame_count,
        ) || (parsed_u32(header_or_empty(headers, "x-freeplay-frame-count"@)) is None && u.stored(
            now,
        ).frame_count == 0),
        u.stored(now).file_data.len() == 0,
        u.stored(now).uploaded_at == now,
        u.discord_id@ == sub,
        u.username@ == username,
        u.ghost_id@ == header_or_empty(headers, "x-freeplay-ghost-id"@),
        u.frame_count == header_number(headers, "x-freeplay-frame-count"@),
{
}

/// What is stored of an upload is the upload, column by column, at the time of it.
pub proof fn stored_upload_columns(u: GhostUpload, now: Seq<char>)
    ensures
        u.stored(now).ghost_id == u.ghost_id@,
        u.stored(now).discord_id == u.discord_id@,
        u.stored(now).username == u.username@,
        u.stored(now).rom_hash == u.rom_hash@,
        u.stored(now).filename == u.filename@,
        u.stored(now).frame_count == u.frame_count,
        u.stored(now).uploaded_at == now,
        u.stored(now).file_data.len() == 0,
{
}

/// A download is announced as an attachment under the name of the file, in quotes.
pub proof fn download_is_named(filename: Seq<char>)
    ensures
        disposition(filename).len() == 22 + filename.len() + 1,
        disposition(filename).take(22) == "attachment; filename=\""@,
        disposition(filename).subrange(22, 22int + filename.len()) == filename,
        disposition(filename).last() == '"',
{
    reveal_strlit("attachment; filename=\"");
    reveal_strlit("\"");
    assert(disposition(filename).take(22) =~= "attachment; filename=\""@);
    assert(disposition(filename).subrange(22, 22int + filename.len()) =~= filename);
}

// ── Settings, status and timer ─────────────────────────────────────────────

/// The database lies in `stats.db` when nothing else is said.
pub proof fn database_path_by_default()
    ensures
        default_db_path() == "stats.db"@,
{
}

/// The numbers of the statuses.
pub proof fn status_numbers()
    ensures
        StatusCode::BadRequest.number() == 400,
        StatusCode::Unauthorized.number() == 401,
        StatusCode::NotFound.number() == 404,
        StatusCode::InternalServerError.number() == 500,
        StatusCode::ServiceUnavailable.number() == 503,
{
}

/// A period is an hour. A timer that has ticked and is not closing calls for a close at
/// its next tick, and is closing from then until the close ends; any other one waits.
pub proof fn timer_steps(t: PeriodTimer)
    ensures
        PERIOD_SECS == 60 * 60,
        !PeriodTimer::fresh().started && !PeriodTimer::fresh().closing,
        t.tick_action() == TickAction::Close <==> t.started && !t.closing,
        t.ticked().started,
        t.ticked().closing == t.started,
        t.ended().started == t.started,
        !t.ended().closing,
{
}

/// A close is reported if it did anything, and an error if it went wrong.
pub proof fn closes_are_reported(matches: usize, players: usize)
    ensures
        report_of(CloseOutcome::Failed) == Report::Error,
        report_of(CloseOutcome::Aborted) == Report::Error,
        matches > 0 || players > 0 ==> report_of(CloseOutcome::Closed { matches, players })
            == Report::Closed,
        matches == 0 && players == 0 ==> report_of(CloseOutcome::Closed { matches, players })
            == Report::Nothing,
{
}

// ── Paths ──────────────────────────────────────────────────────────────────

/// A text of letters, digits, hyphens, underscores and dots is a path of one part, and
/// its parent is the empty path.
pub proof fn one_part_has_the_empty_parent(s: Seq<char>, parent: Option<Seq<char>>)
    requires
        s.len() > 0,
        forall|i: int|
            0 <= i < s.len() ==> ('a' <= (#[trigger] s[i]) <= 'z' || 'A' <= s[i] <= 'Z' || '0'
                <= s[i] <= '9' || s[i] == '-' || s[i] == '_' || s[i] == '.'),
        is_parent(s, parent),
    ensures
        is_part(s),
        parent is Some && parent->0.len() == 0,
{
}

/// A part is a directory, and so is a part in a directory or in the root, unless it is
/// `.`; the parent of a file in a directory is the directory, and that of a file in the
/// root the root.
pub proof fn directories_are_parents(dir: Seq<char>, name: Seq<char>, parent: Option<Seq<char>>)
    requires
        is_part(name),
        name.len() > 1 || name[0] != '.',
    ensures
        is_dir_path(name),
        is_dir_path(file_in(Seq::empty(), name)),
        is_dir_path(dir) ==> is_dir_path(file_in(dir, name)),
        is_dir_path(dir) && is_parent(file_in(dir, name), parent) ==> parent == Some(dir),
        is_parent(file_in(Seq::empty(), name), parent) ==> parent is Some && parent->0.len() == 1
            && parent->0[0] == '/',
{
    reveal_strlit("/");
    assert(name.len() == 1 ==> seq!['.'][0] != name[0]);
    assert(name != seq!['.']);
    assert(is_file_name(name));
    assert(forall|i: int| 0 <= i < name.len() ==> #[trigger] name[i] != '/');
    let rooted = file_in(Seq::empty(), name);
    assert(rooted.len() == name.len() + 1);
    assert(rooted[0] == '/');
    assert(forall|i: int| 1 <= i < rooted.len() ==> #[trigger] rooted[i] == name[i - 1]);
    assert(rooted.last() == name[name.len() - 1]);
    assert forall|i: int| !#[trigger] crate::state::inner_dot_at(rooted, i) by {
        if crate::state::inner_dot_at(rooted, i) && i > 1 {
            assert(rooted[i - 1] == name[i - 2]);
        }
    }
    assert(is_dir_path(rooted));
    if is_dir_path(dir) {
        let path = file_in(dir, name);
        let n = dir.len() as int;
        assert(path.len() == n + 1 + name.len());
        assert(forall|i: int| 0 <= i < n ==> #[trigger] path[i] == dir[i]);
        assert(path[n] == '/');
        assert(forall|i: int| n < i < path.len() ==> #[trigger] path[i] == name[i - n - 1]);
        assert(path.last() == name[name.len() - 1]);
        assert(dir[n - 1] != '/');
        assert forall|i: int, j: int|
            0 <= i < path.len() && j == i + 1 && j < path.len() implies !(#[trigger] path[i] == '/'
            && #[trigger] path[j] == '/') by {
            if j < n {
                assert(!(dir[i] == '/' && dir[j] == '/'));
            }
        }
        assert forall|i: int| !#[trigger] crate::state::inner_dot_at(path, i) by {
            if crate::state::inner_dot_at(path, i) {
                if i < n {
                    assert(!crate::state::inner_dot_at(dir, i));
                    assert(path[i - 1] == dir[i - 1]);
                } else if i > n + 1 {
                    assert(path[i - 1] == name[i - n - 2]);
                }
            }
        }
        assert(is_dir_path(path));
    }
}

} // verus!
