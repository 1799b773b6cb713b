//! Tables: rows of which no two share a key.

use vstd::hash_map::StringHashMap;
use vstd::prelude::*;

verus! {

/// A row of a table, found again by its key.
pub trait Row: View + Sized {
    spec fn key(&self) -> Seq<char>;

    fn key_text(&self) -> (r: &String)
        ensures
            r@ == self.key(),
    ;
}

/// Rows in the order in which they were stored, with an index that leads from a
/// key to the position of its row.
pub struct Table<R: Row> {
    pub rows: Vec<R>,
    pub index: StringHashMap<usize>,
}

/// No two rows share a key.
pub open spec fn unique_keys<R: Row>(rows: Seq<R>) -> bool {
    forall|i: int, j: int|
        0 <= i < j < rows.len() ==> (#[trigger] rows[i]).key() != (#[trigger] rows[j]).key()
}

/// The index leads from the key of every row to its position, and has no other
/// keys.
pub open spec fn indexes<R: Row>(index: Map<Seq<char>, usize>, rows: Seq<R>) -> bool {
    &&& forall|i: int|
        0 <= i < rows.len() ==> index.contains_key((#[trigger] rows[i]).key())
            && index[rows[i].key()] == i
    &&& forall|key: Seq<char>| #[trigger]
        index.contains_key(key) ==> index[key] < rows.len() && rows[index[key] as int].key() == key
}

impl<R: Row> Table<R> {
    /// No two rows share a key, and the index leads to every row and nowhere
    /// else.
    pub open spec fn wf(&self) -> bool {
        &&& unique_keys(self.rows@)
        &&& indexes(self.index@, self.rows@)
    }

    /// Whether the row at a position has the key.
    pub open spec fn holds_at(&self, i: int, key: Seq<char>) -> bool {
        0 <= i < self.rows@.len() && self.rows@[i].key() == key
    }

    /// Whether some row has the key.
    pub open spec fn holds(&self, key: Seq<char>) -> bool {
        exists|i: int| self.holds_at(i, key)
    }

    /// The position of the row that has the key.
    pub open spec fn position(&self, key: Seq<char>) -> int {
        choose|i: int| self.holds_at(i, key)
    }
}

impl<R: Row> View for Table<R> {
    type V = Map<Seq<char>, R::V>;

    open spec fn view(&self) -> Map<Seq<char>, R::V> {
        Map::new(|key: Seq<char>| self.holds(key), |key: Seq<char>| self.rows@[self.position(key)]@)
    }
}

impl<R: Row> Table<R> {
    /// A row is what the table holds under the row's key.
    pub proof fn row_in_view(&self, i: int)
        requires
            self.wf(),
            0 <= i < self.rows@.len(),
        ensures
            self@.contains_key(self.rows@[i].key()),
            self@[self.rows@[i].key()] == self.rows@[i]@,
            self.position(self.rows@[i].key()) == i,
    {
        let key = self.rows@[i].key();
        assert(self.holds_at(i, key));
        let p = self.position(key);
        assert(self.holds_at(p, key));
        if p < i {
            assert(self.rows@[p].key() != self.rows@[i].key());
        } else if i < p {
            assert(self.rows@[i].key() != self.rows@[p].key());
        }
    }

    /// What the table holds under a key is a row with that key.
    pub proof fn key_in_rows(&self, key: Seq<char>)
        requires
            self.wf(),
            self@.contains_key(key),
        ensures
            self.holds_at(self.position(key), key),
            self@[key] == self.rows@[self.position(key)]@,
    {
        assert(self.holds(key));
    }

    /// A table without rows.
    pub fn new() -> (r: Self)
        ensures
            r.wf(),
            r.rows@.len() == 0,
            r@ == Map::<Seq<char>, R::V>::empty(),
    {
        let r = Table { rows: Vec::new(), index: StringHashMap::new() };
        assert(r@ =~= Map::<Seq<char>, R::V>::empty());
        r
    }

    /// The position of the row that has the key.
    pub fn find(&self, key: &str) -> (r: Option<usize>)
        requires
            self.wf(),
        ensures
            match r {
                Some(i) => {
                    &&& self.holds_at(i as int, key@)
                    &&& i == self.position(key@)
                    &&& self@.contains_key(key@)
                    &&& self@[key@] == self.rows@[i as int]@
                },
                None => !self@.contains_key(key@),
            },
    {
        match self.index.get(key) {
            Some(i) => {
                proof {
                    self.row_in_view(*i as int);
                }
                Some(*i)
            },
            None => {
                proof {
                    if self.holds(key@) {
                        let p = self.position(key@);
                        assert(self.holds_at(p, key@));
                    }
                }
                None
            },
        }
    }

    /// A table of the given rows, unless two of them share a key.
    pub fn from_rows(rows: Vec<R>) -> (r: Option<Self>)
        ensures
            match r {
                Some(table) => table.wf() && table.rows@ == rows@,
                None => !unique_keys(rows@),
            },
    {
        let mut index: StringHashMap<usize> = StringHashMap::new();
        let mut n: usize = 0;
        while n < rows.len()
            invariant
                n <= rows.len(),
                unique_keys(rows@.take(n as int)),
                indexes(index@, rows@.take(n as int)),
            decreases rows.len() - n,
        {
            let key = rows[n].key_text().clone();
            let ghost before = rows@.take(n as int);
            let ghost after = rows@.take(n + 1);
            assert(after =~= before.push(rows@[n as int]));
            if index.contains_key(key.as_str()) {
                proof {
                    let i = index@[key@] as int;
                    assert(rows@[i] == before[i]);
                    assert(rows@[i].key() == rows@[n as int].key());
                }
                return None;
            }
            index.insert(key, n);
            proof {
                assert forall|i: int| 0 <= i < n implies (#[trigger] before[i]).key() != rows@[n as int].key() by {
                    assert(index@.contains_key(before[i].key()));
                }
                assert forall|i: int| 0 <= i < n implies #[trigger] after[i] == before[i] by {
                }
            }
            n = n + 1;
        }
        assert(rows@.take(n as int) =~= rows@);
        Some(Table { rows, index })
    }

    /// Put other rows with the same keys in the place of all rows.
    pub fn replace_all(&mut self, rows: Vec<R>)
        requires
            old(self).wf(),
            rows@.len() == old(self).rows@.len(),
            forall|i: int|
                0 <= i < rows@.len() ==> (#[trigger] rows@[i]).key() == old(self).rows@[i].key(),
        ensures
            final(self).wf(),
            final(self).rows@ == rows@,
    {
        self.rows = rows;
    }

    /// Add a row whose key is not in use.
    pub fn push(&mut self, row: R)
        requires
            old(self).wf(),
            !old(self)@.contains_key(row.key()),
        ensures
            final(self).wf(),
            final(self).rows@ == old(self).rows@.push(row),
            final(self)@ == old(self)@.insert(row.key(), row@),
    {
        let ghost before = *self;
        self.index.insert(row.key_text().clone(), self.rows.len());
        self.rows.push(row);
        proof {
            pushed(before, *self, row);
        }
    }

    /// Put a row in the place of one with the same key.
    pub fn set(&mut self, i: usize, row: R)
        requires
            old(self).wf(),
            old(self).holds_at(i as int, row.key()),
        ensures
            final(self).wf(),
            final(self).rows@ == old(self).rows@.update(i as int, row),
            final(self)@ == old(self)@.insert(row.key(), row@),
    {
        let ghost before = *self;
        self.rows.set(i, row);
        proof {
            replaced(before, *self, i as int, row);
        }
    }

    /// Store a row, in the place of the one with the same key if there is one.
    pub fn put(&mut self, row: R)
        requires
            old(self).wf(),
        ensures
            final(self).wf(),
            final(self)@ == old(self)@.insert(row.key(), row@),
    {
        match self.find(row.key_text().as_str()) {
            Some(i) => self.set(i, row),
            None => self.push(row),
        }
    }
}

proof fn pushed<R: Row>(before: Table<R>, after: Table<R>, row: R)
    requires
        before.wf(),
        !before@.contains_key(row.key()),
        after.rows@ == before.rows@.push(row),
        after.index@ == before.index@.insert(row.key(), before.rows@.len() as usize),
        before.rows@.len() <= usize::MAX,
    ensures
        after.wf(),
        after@ == before@.insert(row.key(), row@),
{
    assert forall|i: int, j: int| 0 <= i < j < after.rows@.len() implies (#[trigger] after.rows@[i]).key() != (
    #[trigger] after.rows@[j]).key() by {
        if j == before.rows@.len() {
            before.row_in_view(i);
        }
    }
    assert forall|i: int| 0 <= i < after.rows@.len() implies after.index@.contains_key((#[trigger] after.rows@[i]).key())
        && after.index@[after.rows@[i].key()] == i by {
        if i < before.rows@.len() {
            before.row_in_view(i);
            assert(after.rows@[i] == before.rows@[i]);
        }
    }
    assert forall|key: Seq<char>| #[trigger] after.index@.contains_key(key) implies after.index@[key] < after.rows@.len()
        && after.rows@[after.index@[key] as int].key() == key by {
        if key != row.key() {
            assert(before.index@.contains_key(key));
        }
    }
    assert forall|key: Seq<char>| #[trigger] after@.contains_key(key) == before@.insert(row.key(), row@).contains_key(key) by {
        if after@.contains_key(key) {
            after.key_in_rows(key);
            let p = after.position(key);
            if p < before.rows@.len() {
                before.row_in_view(p);
            }
        }
        if before@.contains_key(key) {
            before.key_in_rows(key);
            assert(after.rows@[before.position(key)] == before.rows@[before.position(key)]);
            after.row_in_view(before.position(key));
        }
        if key == row.key() {
            after.row_in_view(before.rows@.len() as int);
        }
    }
    assert forall|key: Seq<char>| #[trigger] after@.contains_key(key) implies after@[key] == before@.insert(row.key(), row@)[key] by {
        if key == row.key() {
            after.row_in_view(before.rows@.len() as int);
        } else {
            before.key_in_rows(key);
            assert(after.rows@[before.position(key)] == before.rows@[before.position(key)]);
            after.row_in_view(before.position(key));
        }
    }
    assert(after@ =~= before@.insert(row.key(), row@));
}

proof fn replaced<R: Row>(before: Table<R>, after: Table<R>, at: int, row: R)
    requires
        before.wf(),
        before.holds_at(at, row.key()),
        after.rows@ == before.rows@.update(at, row),
        after.index@ == before.index@,
    ensures
        after.wf(),
        after@ == before@.insert(row.key(), row@),
{
    assert(forall|i: int| 0 <= i < after.rows@.len() ==> (#[trigger] after.rows@[i]).key() == before.rows@[i].key());
    assert forall|key: Seq<char>| #[trigger] after@.contains_key(key) == before@.insert(row.key(), row@).contains_key(key) by {
        if after@.contains_key(key) {
            after.key_in_rows(key);
            before.row_in_view(after.position(key));
        }
        if before@.contains_key(key) {
            before.key_in_rows(key);
            after.row_in_view(before.position(key));
        }
        if key == row.key() {
            after.row_in_view(at);
        }
    }
    assert forall|key: Seq<char>| #[trigger] after@.contains_key(key) implies after@[key] == before@.insert(row.key(), row@)[key] by {
        after.key_in_rows(key);
        before.row_in_view(after.position(key));
        before.row_in_view(at);
        if key == row.key() {
            after.row_in_view(at);
        }
    }
    assert(after@ =~= before@.insert(row.key(), row@));
}

} // verus!
