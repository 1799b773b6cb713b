//! Ghosts and replays: storing what is known of an upload, and finding it again.

use crate::db::rows::{uploaded_replay, GhostRow, GhostView, ReplayRow, ReplayView};
use crate::db::{Db, DbView};
use crate::models::{GhostEntry, ReplayEntry, ReplayMetaInsert};
use crate::order::{clamp_limit, clamped, is_top, picks_are_top, top, top_agrees, RankKey};
use crate::table::{Row, Table};
use crate::text::text_lt;
use vstd::prelude::*;

verus! {

/// A row that stands for an uploaded file.
pub trait Upload: Row {
    /// The ROM that the file belongs to.
    spec fn rom(&self) -> Seq<char>;

    /// When the file was uploaded.
    spec fn time(&self) -> Seq<char>;

    fn rom_text(&self) -> (r: &String)
        ensures
            r@ == self.rom(),
    ;

    fn time_text(&self) -> (r: &String)
        ensures
            r@ == self.time(),
    ;
}

impl Upload for GhostRow {
    open spec fn rom(&self) -> Seq<char> {
        self.rom_hash@
    }

    open spec fn time(&self) -> Seq<char> {
        self.uploaded_at@
    }

    fn rom_text(&self) -> (r: &String) {
        &self.rom_hash
    }

    fn time_text(&self) -> (r: &String) {
        &self.uploaded_at
    }
}

impl Upload for ReplayRow {
    open spec fn rom(&self) -> Seq<char> {
        self.meta.rom_hash@
    }

    open spec fn time(&self) -> Seq<char> {
        self.uploaded_at@
    }

    fn rom_text(&self) -> (r: &String) {
        &self.meta.rom_hash
    }

    fn time_text(&self) -> (r: &String) {
        &self.uploaded_at
    }
}

/// Whether a list for a ROM, or for every ROM if the hash is empty, takes in an
/// upload for the given one.
pub open spec fn asked_for(wanted: Seq<char>, rom: Seq<char>) -> bool {
    wanted.len() == 0 || rom == wanted
}

/// Positions of the newest uploads for a ROM, the newest first.
fn newest<R: Upload>(table: &Table<R>, rom_hash: &str, limit: u32) -> (r: Vec<usize>)
    requires
        table.wf(),
    ensures
        forall|i: int| 0 <= i < r@.len() ==> (#[trigger] r@[i]) < table.rows@.len(),
        is_top(
            Seq::new(r@.len(), |i: int| table.rows@[r@[i] as int].key()),
            |key: Seq<char>| table.holds(key) && asked_for(rom_hash@, table.rows@[table.position(key)].rom()),
            |a: Seq<char>, b: Seq<char>| text_lt(table.rows@[table.position(b)].time(), table.rows@[table.position(a)].time()),
            limit as nat,
        ),
{
    let all = rom_hash.is_empty();
    let wanted = rom_hash.to_owned();
    let ghost pool = |key: Seq<char>| table.holds(key) && asked_for(rom_hash@, table.rows@[table.position(key)].rom());
    let mut found: Vec<usize> = Vec::new();
    let mut keys: Vec<String> = Vec::new();
    let ghost mut items: Seq<Seq<char>> = Seq::empty();
    let mut n: usize = 0;
    while n < table.rows.len()
        invariant
            table.wf(),
            wanted@ == rom_hash@,
            all == (rom_hash@.len() == 0),
            pool == (|key: Seq<char>| table.holds(key) && asked_for(rom_hash@, table.rows@[table.position(key)].rom())),
            n <= table.rows.len(),
            found@.len() == keys@.len(),
            found@.len() == items.len(),
            found@.len() <= n,
            items.no_duplicates(),
            forall|i: int|
                0 <= i < found@.len() ==> (#[trigger] found@[i]) < n
                    && items[i] == table.rows@[found@[i] as int].key()
                    && keys@[i]@ == table.rows@[found@[i] as int].time(),
            forall|i: int| 0 <= i < items.len() ==> pool(#[trigger] items[i]),
            forall|i: int|
                0 <= i < n && pool((#[trigger] table.rows@[i]).key()) ==> items.contains(
                    table.rows@[i].key(),
                ),
        decreases table.rows.len() - n,
    {
        proof {
            table.row_in_view(n as int);
        }
        let row = &table.rows[n];
        if all || *row.rom_text() == wanted {
            found.push(n);
            keys.push(row.time_text().clone());
            proof {
                let key = table.rows@[n as int].key();
                let before = items;
                items = items.push(key);
                assert forall|i: int| 0 <= i < before.len() implies before[i] != key by {
                    assert(table.rows@[found@[i] as int].key() != table.rows@[n as int].key());
                }
                assert(items[before.len() as int] == key);
                assert forall|i: int| 0 <= i < n + 1 && pool((#[trigger] table.rows@[i]).key())
                    implies items.contains(table.rows@[i].key()) by {
                    if i < n {
                        let j = choose|j: int| 0 <= j < before.len() && before[j] == table.rows@[i].key();
                        assert(items[j] == table.rows@[i].key());
                    }
                }
            }
        }
        n = n + 1;
    }
    let picks = top(&keys, limit);
    let mut out: Vec<usize> = Vec::new();
    let mut k: usize = 0;
    while k < picks.len()
        invariant
            k <= picks.len(),
            out@.len() == k,
            found@.len() == keys@.len(),
            forall|i: int| 0 <= i < picks@.len() ==> #[trigger] picks@[i] < keys@.len(),
            forall|i: int| 0 <= i < k ==> #[trigger] out@[i] == found@[picks@[i] as int],
        decreases picks.len() - k,
    {
        out.push(found[picks[k]]);
        k = k + 1;
    }
    proof {
        let list = Seq::new(out@.len(), |i: int| table.rows@[out@[i] as int].key());
        let later = |a: Seq<char>, b: Seq<char>| text_lt(table.rows@[table.position(b)].time(), table.rows@[table.position(a)].time());
        assert forall|key: Seq<char>| #[trigger] pool(key) implies items.contains(key) by {
            let p = table.position(key);
            assert(table.holds_at(p, key));
            assert(table.rows@[p].key() == key);
        }
        assert forall|i: int, j: int| 0 <= i < items.len() && 0 <= j < items.len() implies later(#[trigger] items[i], #[trigger] items[j])
            == keys@[i].ahead(&keys@[j]) by {
            table.row_in_view(found@[i] as int);
            table.row_in_view(found@[j] as int);
        }
        picks_are_top(items, keys@, picks@, list, pool, later, limit as nat);
    }
    out
}

impl DbView {
    /// The tables after a ghost is uploaded; one of the same id is replaced.
    pub open spec fn after_ghost(self, ghost_row: GhostView) -> DbView {
        DbView { ghosts: self.ghosts.insert(ghost_row.ghost_id, ghost_row), ..self }
    }

    /// The tables after a replay is uploaded; one of the same id is replaced.
    pub open spec fn after_replay(self, replay: ReplayView) -> DbView {
        DbView { replays: self.replays.insert(replay.replay_id, replay), ..self }
    }

    /// Whether a list for a ROM takes in the ghost.
    pub open spec fn ghost_listed(self, rom_hash: Seq<char>, id: Seq<char>) -> bool {
        self.ghosts.contains_key(id) && asked_for(rom_hash, self.ghosts[id].rom_hash)
    }

    /// Whether one ghost was uploaded later than another.
    pub open spec fn ghost_newer(self, a: Seq<char>, b: Seq<char>) -> bool {
        text_lt(self.ghosts[b].uploaded_at, self.ghosts[a].uploaded_at)
    }

    /// Whether a list for a ROM takes in the replay.
    pub open spec fn replay_listed(self, rom_hash: Seq<char>, id: Seq<char>) -> bool {
        self.replays.contains_key(id) && asked_for(rom_hash, self.replays[id].rom_hash)
    }

    /// Whether one replay was uploaded later than another.
    pub open spec fn replay_newer(self, a: Seq<char>, b: Seq<char>) -> bool {
        text_lt(self.replays[b].uploaded_at, self.replays[a].uploaded_at)
    }

    /// What a download of a ghost delivers, given the file kept for it: the
    /// name, the encoding and the bytes. The kept file goes before the one in
    /// the table; a ghost with neither is not delivered.
    pub open spec fn ghost_download(
        self,
        id: Seq<char>,
        kept: Option<Seq<u8>>,
    ) -> Option<(Seq<char>, Seq<char>, Seq<u8>)> {
        if !self.ghosts.contains_key(id) {
            None
        } else {
            let g = self.ghosts[id];
            match kept {
                Some(bytes) => Some((g.filename, "gzip"@, bytes)),
                None => if g.file_data.len() > 0 {
                    Some((g.filename, "raw"@, g.file_data))
                } else {
                    None
                },
            }
        }
    }
}

impl Db {
    /// Store what is known of an uploaded ghost, in the place of an earlier
    /// upload of the same id. The file itself is kept elsewhere.
    pub fn upload_ghost_meta(
        &mut self,
        ghost_id: &str,
        discord_id: &str,
        username: &str,
        rom_hash: &str,
        filename: &str,
        frame_count: u32,
        uploaded_at: &str,
    )
        requires
            old(self).wf(),
        ensures
            final(self).wf(),
            final(self)@ == old(self)@.after_ghost(
                GhostView {
                    ghost_id: ghost_id@,
                    discord_id: discord_id@,
                    username: username@,
                    rom_hash: rom_hash@,
                    filename: filename@,
                    file_data: Seq::empty(),
                    frame_count,
                    uploaded_at: uploaded_at@,
                },
            ),
    {
        let row = GhostRow {
            ghost_id: ghost_id.to_owned(),
            discord_id: discord_id.to_owned(),
            username: username.to_owned(),
            rom_hash: rom_hash.to_owned(),
            filename: filename.to_owned(),
            file_data: Vec::new(),
            frame_count,
            uploaded_at: uploaded_at.to_owned(),
        };
        self.ghosts.put(row);
        assert(self@.players == old(self)@.players);
        assert(self@.matches == old(self)@.matches);
    }

    /// What a download of a ghost delivers: the name, the encoding and the
    /// bytes. `kept` is the compressed file kept for the ghost, if there is one.
    pub fn download_ghost(&self, ghost_id: &str, kept: Option<Vec<u8>>) -> (r: Option<
        (String, String, Vec<u8>),
    >)
        requires
            self.wf(),
        ensures
            match r {
                Some((filename, encoding, data)) => self@.ghost_download(
                    ghost_id@,
                    match kept {
                        Some(bytes) => Some(bytes@),
                        None => None,
                    },
                ) == Some((filename@, encoding@, data@)),
                None => self@.ghost_download(
                    ghost_id@,
                    match kept {
                        Some(bytes) => Some(bytes@),
                        None => None,
                    },
                ) is None,
            },
    {
        match self.ghosts.find(ghost_id) {
            Some(i) => {
                let g = &self.ghosts.rows[i];
                match kept {
                    Some(bytes) => Some((g.filename.clone(), "gzip".to_owned(), bytes)),
                    None => {
                        if g.file_data.len() > 0 {
                            let data = g.file_data.clone();
                            assert(data@ =~= g.file_data@);
                            Some((g.filename.clone(), "raw".to_owned(), data))
                        } else {
                            None
                        }
                    },
                }
            },
            None => None,
        }
    }

    /// The newest ghosts for a ROM, or for all if the hash is empty.
    pub fn list_ghosts(&self, rom_hash: &str, limit: u32) -> (r: Vec<GhostEntry>)
        requires
            self.wf(),
        ensures
            is_top(
                Seq::new(r@.len(), |i: int| r@[i].ghost_id@),
                |id: Seq<char>| self@.ghost_listed(rom_hash@, id),
                |a: Seq<char>, b: Seq<char>| self@.ghost_newer(a, b),
                clamped(limit) as nat,
            ),
            forall|i: int|
                0 <= i < r@.len() ==> (#[trigger] r@[i]).lists(self@.ghosts[r@[i].ghost_id@]),
    {
        let picks = newest(&self.ghosts, rom_hash, clamp_limit(limit));
        let mut out: Vec<GhostEntry> = Vec::new();
        let mut k: usize = 0;
        while k < picks.len()
            invariant
                self.wf(),
                k <= picks.len(),
                out@.len() == k,
                forall|i: int| 0 <= i < picks@.len() ==> (#[trigger] picks@[i]) < self.ghosts.rows@.len(),
                forall|i: int|
                    0 <= i < k ==> (#[trigger] out@[i]).ghost_id@ == self.ghosts.rows@[picks@[i] as int].key()
                        && out@[i].lists(self@.ghosts[out@[i].ghost_id@]),
            decreases picks.len() - k,
        {
            let at = picks[k];
            proof {
                self.ghosts.row_in_view(at as int);
            }
            let g = &self.ghosts.rows[at];
            out.push(
                GhostEntry {
                    ghost_id: g.ghost_id.clone(),
                    discord_id: g.discord_id.clone(),
                    username: g.username.clone(),
                    rom_hash: g.rom_hash.clone(),
                    filename: g.filename.clone(),
                    frame_count: g.frame_count,
                    uploaded_at: g.uploaded_at.clone(),
                },
            );
            k = k + 1;
        }
        proof {
            let listed = Seq::new(picks@.len(), |i: int| self.ghosts.rows@[picks@[i] as int].key());
            let list = Seq::new(out@.len(), |i: int| out@[i].ghost_id@);
            assert(listed =~= list);
            let table = &self.ghosts;
            let pool = |key: Seq<char>| table.holds(key) && asked_for(rom_hash@, table.rows@[table.position(key)].rom());
            let later = |a: Seq<char>, b: Seq<char>| text_lt(table.rows@[table.position(b)].time(), table.rows@[table.position(a)].time());
            assert(is_top(list, pool, later, clamped(limit) as nat));
            top_agrees(
                list,
                pool,
                later,
                |id: Seq<char>| self@.ghost_listed(rom_hash@, id),
                |a: Seq<char>, b: Seq<char>| self@.ghost_newer(a, b),
                clamped(limit) as nat,
            );
        }
        out
    }

    /// Store what is known of an uploaded replay, in the place of an earlier
    /// upload of the same id. The file itself is kept elsewhere.
    pub fn upload_replay_meta(&mut self, replay: &ReplayMetaInsert, uploaded_at: &str)
        requires
            old(self).wf(),
        ensures
            final(self).wf(),
            final(self)@ == old(self)@.after_replay(uploaded_replay(*replay, uploaded_at@)),
    {
        let row = ReplayRow { meta: replay.copy(), uploaded_at: uploaded_at.to_owned() };
        self.replays.put(row);
        assert(self@.players == old(self)@.players);
        assert(self@.matches == old(self)@.matches);
    }

    /// The name of the file of a replay, if the replay is known.
    pub fn replay_filename(&self, replay_id: &str) -> (r: Option<String>)
        requires
            self.wf(),
        ensures
            match r {
                Some(name) => self@.replays.contains_key(replay_id@) && name@
                    == self@.replays[replay_id@].filename,
                None => !self@.replays.contains_key(replay_id@),
            },
    {
        match self.replays.find(replay_id) {
            Some(i) => Some(self.replays.rows[i].meta.filename.clone()),
            None => None,
        }
    }

    /// The newest replays for a ROM, or for all if the hash is empty.
    pub fn list_replays(&self, rom_hash: &str, limit: u32) -> (r: Vec<ReplayEntry>)
        requires
            self.wf(),
        ensures
            is_top(
                Seq::new(r@.len(), |i: int| r@[i].replay_id@),
                |id: Seq<char>| self@.replay_listed(rom_hash@, id),
                |a: Seq<char>, b: Seq<char>| self@.replay_newer(a, b),
                clamped(limit) as nat,
            ),
            forall|i: int|
                0 <= i < r@.len() ==> (#[trigger] r@[i]).lists(self@.replays[r@[i].replay_id@]),
    {
        let picks = newest(&self.replays, rom_hash, clamp_limit(limit));
        let mut out: Vec<ReplayEntry> = Vec::new();
        let mut k: usize = 0;
        while k < picks.len()
            invariant
                self.wf(),
                k <= picks.len(),
                out@.len() == k,
                forall|i: int| 0 <= i < picks@.len() ==> (#[trigger] picks@[i]) < self.replays.rows@.len(),
                forall|i: int|
                    0 <= i < k ==> (#[trigger] out@[i]).replay_id@ == self.replays.rows@[picks@[i] as int].key()
                        && out@[i].lists(self@.replays[out@[i].replay_id@]),
            decreases picks.len() - k,
        {
            let at = picks[k];
            proof {
                self.replays.row_in_view(at as int);
            }
            let row = &self.replays.rows[at];
            let meta = row.meta.copy();
            out.push(
                ReplayEntry {
                    replay_id: meta.replay_id,
                    discord_id: meta.discord_id,
                    username: meta.username,
                    rom_hash: meta.rom_hash,
                    filename: meta.filename,
                    url: String::new(),
                    p1_name: meta.p1_name,
                    p2_name: meta.p2_name,
                    p1_score: meta.p1_score,
                    p2_score: meta.p2_score,
                    winner: meta.winner,
                    frame_count: meta.frame_count,
                    duration: meta.duration,
                    recorded_at: meta.recorded_at,
                    session_id: meta.session_id,
                    completed_games: meta.completed_games,
                    completed_set: meta.completed_set,
                    uploaded_at: row.uploaded_at.clone(),
                },
            );
            k = k + 1;
        }
        proof {
            let listed = Seq::new(picks@.len(), |i: int| self.replays.rows@[picks@[i] as int].key());
            let list = Seq::new(out@.len(), |i: int| out@[i].replay_id@);
            assert(listed =~= list);
            let table = &self.replays;
            let pool = |key: Seq<char>| table.holds(key) && asked_for(rom_hash@, table.rows@[table.position(key)].rom());
            let later = |a: Seq<char>, b: Seq<char>| text_lt(table.rows@[table.position(b)].time(), table.rows@[table.position(a)].time());
            assert(is_top(list, pool, later, clamped(limit) as nat));
            top_agrees(
                list,
                pool,
                later,
                |id: Seq<char>| self@.replay_listed(rom_hash@, id),
                |a: Seq<char>, b: Seq<char>| self@.replay_newer(a, b),
                clamped(limit) as nat,
            );
        }
        out
    }
}

} // verus!
