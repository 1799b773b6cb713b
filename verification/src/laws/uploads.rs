//! Uploaded files.

use crate::db::rows::{GhostView, ReplayView};
use crate::db::DbView;
use crate::glicko::Rating;
use crate::handlers::{ghost_file, is_id_char, safe_ghost_id};
use crate::models::MatchResult;
use crate::status::StatusCode;
use crate::uploading::{UploadAction, UploadState};
use vstd::prelude::*;

verus! {

/// What is stored of a ghost is what a later download and list read: the file
/// kept for it comes back under its name, and lists for its ROM and for all
/// take it in.
pub proof fn uploaded_ghost_is_found(v: DbView, g: GhostView, file: Seq<u8>)
    ensures
        ({
            let after = v.after_ghost(g);
            &&& after.ghosts[g.ghost_id] == g
            &&& after.ghost_download(g.ghost_id, Some(file)) == Some((g.filename, "gzip"@, file))
            &&& after.ghost_listed(g.rom_hash, g.ghost_id)
            &&& after.ghost_listed(Seq::empty(), g.ghost_id)
        }),
{
}

/// A later upload of the same ghost takes the place of the earlier one.
pub proof fn last_ghost_upload_wins(v: DbView, first: GhostView, second: GhostView)
    requires
        second.ghost_id == first.ghost_id,
    ensures
        v.after_ghost(first).after_ghost(second) == v.after_ghost(second),
{
    assert(v.after_ghost(first).after_ghost(second).ghosts =~= v.after_ghost(second).ghosts);
}

/// An upload touches no other ghost.
pub proof fn ghost_upload_spares_others(v: DbView, g: GhostView, id: Seq<char>, kept: Option<Seq<u8>>)
    requires
        id != g.ghost_id,
    ensures
        v.after_ghost(g).ghosts.contains_key(id) == v.ghosts.contains_key(id),
        v.after_ghost(g).ghost_download(id, kept) == v.ghost_download(id, kept),
{
}

/// A ghost that nobody uploaded is not delivered, whatever file there is.
pub proof fn unknown_ghost_is_not_delivered(v: DbView, id: Seq<char>, kept: Option<Seq<u8>>)
    requires
        !v.ghosts.contains_key(id),
    ensures
        v.ghost_download(id, kept) is None,
{
}

/// What is stored of a replay is found again, and a later upload of the same
/// replay takes the place of the earlier one.
pub proof fn uploaded_replay_is_found(v: DbView, r: ReplayView, again: ReplayView)
    requires
        again.replay_id == r.replay_id,
    ensures
        v.after_replay(r).replays.contains_key(r.replay_id),
        v.after_replay(r).replays[r.replay_id] == r,
        v.after_replay(r).replay_listed(r.rom_hash, r.replay_id),
        v.after_replay(r).replay_listed(Seq::empty(), r.replay_id),
        v.after_replay(r).after_replay(again) == v.after_replay(again),
{
    assert(v.after_replay(r).after_replay(again).replays =~= v.after_replay(again).replays);
}

/// Nothing but an upload touches what is stored of files.
pub proof fn only_uploads_touch_files(
    v: DbView,
    m: MatchResult,
    outcomes: Map<Seq<char>, Rating>,
    name: Seq<char>,
    id: Seq<char>,
    now: Seq<char>,
)
    ensures
        v.after_post(m, now).ghosts == v.ghosts,
        v.after_post(m, now).replays == v.replays,
        v.after_period(outcomes, now).ghosts == v.ghosts,
        v.after_period(outcomes, now).replays == v.replays,
        v.after_claim(name, id, now).ghosts == v.ghosts,
        v.after_claim(name, id, now).replays == v.replays,
        v.after_rename(id, name).ghosts == v.ghosts,
        v.after_rename(id, name).replays == v.replays,
{
}

/// Ghosts and replays do not touch each other.
pub proof fn ghosts_and_replays_are_apart(v: DbView, g: GhostView, r: ReplayView)
    ensures
        v.after_ghost(g).replays == v.replays,
        v.after_replay(r).ghosts == v.ghosts,
        v.after_ghost(g).after_replay(r) == v.after_replay(r).after_ghost(g),
{
}

/// How far an upload has come after a row of outcomes.
pub open spec fn upload_after(outcomes: Seq<bool>) -> UploadState
    decreases outcomes.len(),
{
    if outcomes.len() == 0 {
        UploadState::Writing
    } else {
        upload_after(outcomes.drop_last()).then_with(outcomes.last())
    }
}

/// An upload is answered after at most three actions, and further outcomes change
/// nothing. It succeeds exactly if the file was written and what is known of it was
/// stored. The file is to be removed exactly if only the second failed.
pub proof fn upload_is_kept_whole(outcomes: Seq<bool>)
    requires
        outcomes.len() >= 3,
    ensures
        upload_after(outcomes).reply() == (if outcomes[0] && outcomes[1] {
            Some(Ok::<(), StatusCode>(()))
        } else {
            Some(Err(StatusCode::InternalServerError))
        }),
        upload_after(outcomes.take(0)).calls_for() == UploadAction::WriteFile,
        upload_after(outcomes.take(1)).calls_for() == (if outcomes[0] {
            UploadAction::StoreMeta
        } else {
            UploadAction::Answer
        }),
        upload_after(outcomes.take(2)).calls_for() == (if outcomes[0] && !outcomes[1] {
            UploadAction::RemoveFile
        } else {
            UploadAction::Answer
        }),
    decreases outcomes.len(),
{
    assert(outcomes.take(1).drop_last() =~= outcomes.take(0));
    assert(outcomes.take(2).drop_last() =~= outcomes.take(1));
    assert(outcomes.take(3).drop_last() =~= outcomes.take(2));
    assert(upload_after(outcomes.take(1)) == UploadState::Writing.then_with(outcomes[0]));
    assert(upload_after(outcomes.take(2)) == upload_after(outcomes.take(1)).then_with(outcomes[1]));
    if outcomes.len() > 3 {
        let before = outcomes.drop_last();
        upload_is_kept_whole(before);
        assert(before.take(1) =~= outcomes.take(1));
        assert(before.take(2) =~= outcomes.take(2));
    } else {
        assert(outcomes.take(3) =~= outcomes);
    }
}

/// The file of a safe id stays in its directory: its name has no path
/// separator, does not begin with a dot, and has no two dots in a row.
pub proof fn safe_ghost_file_stays_put(id: Seq<char>)
    requires
        safe_ghost_id(id),
    ensures
        forall|i: int|
            0 <= i < ghost_file(id).len() ==> (#[trigger] ghost_file(id)[i]) != '/' && ghost_file(
                id,
            )[i] != '\\' && ghost_file(id)[i] != '\0',
        ghost_file(id)[0] != '.',
        forall|i: int, j: int|
            0 <= i < ghost_file(id).len() && j == i + 1 && j < ghost_file(id).len() ==> !(
            #[trigger] ghost_file(id)[i] == '.' && #[trigger] ghost_file(id)[j] == '.'),
{
    reveal_strlit(".ncgh.gz");
    let name = ghost_file(id);
    assert(is_id_char(id[0]));
    assert forall|i: int| 0 <= i < id.len() implies is_id_char(#[trigger] name[i]) by {
        assert(is_id_char(id[i]));
    }
    assert forall|i: int| id.len() <= i < name.len() implies #[trigger] name[i] == ".ncgh.gz"@[i - id.len()] by {
    }
}

/// Different ghosts are kept in different files.
pub proof fn ghost_files_differ(a: Seq<char>, b: Seq<char>)
    requires
        ghost_file(a) == ghost_file(b),
    ensures
        a == b,
{
    reveal_strlit(".ncgh.gz");
    let n = ghost_file(a).len();
    assert(a =~= ghost_file(a).take(n - 8));
    assert(b =~= ghost_file(b).take(n - 8));
}

} // verus!
