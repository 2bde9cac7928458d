use crate::types::{DbEntry, DbEntryView, Entry, EntryView};
use vstd::prelude::*;

verus! {

/// No two rows share an id.
pub open spec fn unique_ids(s: Seq<DbEntryView>) -> bool {
    forall|i: int, j: int|
        0 <= i < s.len() && 0 <= j < s.len() && i != j ==> (#[trigger] s[i]).id != (
        #[trigger] s[j]).id
}

/// Rows stand in listing order: most recently created first.
pub open spec fn sorted_newest_first(s: Seq<DbEntryView>) -> bool {
    forall|i: int, j: int|
        0 <= i <= j < s.len() ==> (#[trigger] s[i]).created_at >= (#[trigger] s[j]).created_at
}

/// Some row carries this id.
pub open spec fn contains_id(s: Seq<DbEntryView>, id: u32) -> bool {
    exists|i: int| 0 <= i < s.len() && (#[trigger] s[i]).id == id
}

/// The row a freshly created entry becomes: the user data, the assigned id,
/// and both timestamps set to the insertion time.
pub open spec fn new_row(id: u32, e: EntryView, now: i64) -> DbEntryView {
    DbEntryView { id, url: e.url, title: e.title, notes: e.notes, created_at: now, updated_at: now }
}

/// The row an update turns `row` into: url, title and notes replaced, while
/// id, created_at and updated_at stay as they were. (The stored trigger only
/// fires on insertion, so updated_at is frozen at creation time.)
pub open spec fn updated_row(row: DbEntryView, e: EntryView) -> DbEntryView {
    DbEntryView {
        id: row.id,
        url: e.url,
        title: e.title,
        notes: e.notes,
        created_at: row.created_at,
        updated_at: row.updated_at,
    }
}

/// An in-memory implementation of the entry store's five operations, the
/// interchangeable counterpart of a database-backed one: rows are kept in
/// listing order, ids are unique and assigned from a counter.
pub struct EntryTable {
    pub rows: Vec<DbEntry>,
    pub next_id: u32,
}

impl View for EntryTable {
    type V = Seq<DbEntryView>;

    open spec fn view(&self) -> Seq<DbEntryView> {
        self.rows@.map_values(|e: DbEntry| e@)
    }
}

impl EntryTable {
    /// Well-formedness: ids unique and below the counter, rows sorted by
    /// creation time, newest first.
    pub open spec fn wf(self) -> bool {
        &&& unique_ids(self@)
        &&& sorted_newest_first(self@)
        &&& forall|i: int| 0 <= i < self@.len() ==> (#[trigger] self@[i]).id < self.next_id
        &&& self.next_id >= 1
    }

    /// There is still an id left to assign.
    pub open spec fn id_space_left(self) -> bool {
        self.next_id < u32::MAX
    }

    /// An empty store; ids start at 1.
    pub fn new() -> (t: EntryTable)
        ensures
            t.wf(),
            t@ =~= Seq::<DbEntryView>::empty(),
            t.id_space_left(),
            t.next_id == 1,
    {
        EntryTable { rows: Vec::new(), next_id: 1 }
    }

    /// All entries, most recently created first.
    pub fn list_all(&self) -> (r: &Vec<DbEntry>)
        requires
            self.wf(),
        ensures
            r@.map_values(|e: DbEntry| e@) == self@,
            sorted_newest_first(self@),
    {
        &self.rows
    }

    /// The entry with this id, or `None` when no row carries it. Total: a
    /// missing id is an answer, never an error.
    pub fn get_one(&self, id: u32) -> (r: Option<&DbEntry>)
        requires
            self.wf(),
        ensures
            match r {
                Some(e) => contains_id(self@, id) && e@.id == id && exists|i: int|
                    0 <= i < self@.len() && #[trigger] self@[i] == e@,
                None => !contains_id(self@, id),
            },
    {
        let n = self.rows.len();
        let mut i: usize = 0;
        while i < n && self.rows[i].id != id
            invariant
                0 <= i <= n,
                n == self@.len(),
                self.wf(),
                forall|j: int| 0 <= j < i ==> (#[trigger] self@[j]).id != id,
            decreases n - i,
        {
            i += 1;
        }
        if i < n {
            let e = &self.rows[i];
            assert(self@[i as int] == e@);
            Some(e)
        } else {
            None
        }
    }
    /// Insert a new entry with a fresh id and both timestamps set to `now`.
    /// The row goes in front of every strictly older row, so listing order
    /// is preserved; everything already present is untouched.
    pub fn create(&mut self, e: Entry, now: i64) -> (id: u32)
        requires
            old(self).wf(),
            old(self).id_space_left(),
        ensures
            final(self).wf(),
            final(self).next_id == old(self).next_id + 1,
            id == old(self).next_id,
            !contains_id(old(self)@, id),
            contains_id(final(self)@, id),
            exists|k: int|
                {
                    &&& 0 <= k <= old(self)@.len()
                    &&& #[trigger] final(self)@ == old(self)@.insert(k, new_row(id, e@, now))
                    &&& forall|j: int| 0 <= j < k ==> (#[trigger] old(self)@[j]).created_at >= now
                    &&& k < old(self)@.len() ==> old(self)@[k].created_at < now
                },
    {
        let ghost pre = self@;
        let n = self.rows.len();
        let mut k: usize = 0;
        while k < n && self.rows[k].created_at >= now
            invariant
                0 <= k <= n,
                n == self@.len(),
                *self == *old(self),
                forall|j: int| 0 <= j < k ==> (#[trigger] self@[j]).created_at >= now,
            decreases n - k,
        {
            k += 1;
        }
        let id = self.next_id;
        self.next_id = self.next_id + 1;
        let row = DbEntry {
            id,
            url: e.url,
            title: e.title,
            notes: e.notes,
            created_at: now,
            updated_at: now,
        };
        assert(row@ == new_row(id, e@, now));
        let ghost rows_pre = self.rows@;
        self.rows.insert(k, row);
        proof {
            lemma_view_insert(rows_pre, k as int, row);
            assert(final(self)@ == pre.insert(k as int, new_row(id, e@, now)));
            pre.insert_ensures(k as int, new_row(id, e@, now));
            assert forall|i: int| 0 <= i < pre.len() implies (#[trigger] pre[i]).id < id by {}
            assert(!contains_id(pre, id));
            assert(contains_id(final(self)@, id)) by {
                assert(final(self)@[k as int].id == id);
            }
            assert(final(self).wf()) by {
                let post = final(self)@;
                assert forall|i: int, j: int|
                    0 <= i < post.len() && 0 <= j < post.len() && i != j implies (
                #[trigger] post[i]).id != (#[trigger] post[j]).id by {
                    if i != k && j != k {
                        let i0: int = if i < k { i } else { i - 1 };
                        let j0: int = if j < k { j } else { j - 1 };
                        assert(post[i] == pre[i0] && post[j] == pre[j0]);
                    }
                }
                assert forall|i: int, j: int| 0 <= i <= j < post.len() implies (
                #[trigger] post[i]).created_at >= (#[trigger] post[j]).created_at by {
                    if i != k && j != k {
                        let i0: int = if i < k { i } else { i - 1 };
                        let j0: int = if j < k { j } else { j - 1 };
                        assert(post[i] == pre[i0] && post[j] == pre[j0]);
                    } else if i == k && j != k {
                        assert(post[j] == pre[j - 1]);
                        assert(k <= j - 1 < pre.len());
                        assert(pre[k as int].created_at < now);
                        assert(pre[k as int].created_at >= pre[j - 1].created_at);
                    } else if j == k && i != k {
                        assert(post[i] == pre[i] && pre[i].created_at >= now);
                    }
                }
                assert forall|i: int| 0 <= i < post.len() implies (#[trigger] post[i]).id
                    < final(self).next_id by {
                    if i != k {
                        let i0: int = if i < k { i } else { i - 1 };
                        assert(post[i] == pre[i0]);
                    }
                }
            }
        }
        id
    }

    /// Replace url, title and notes of the row with this id; id, created_at
    /// and updated_at stay as they were. Returns the affected count: 1 when
    /// the row exists, 0 when it does not (and then nothing changes). More
    /// than 1 is impossible here, since ids are unique.
    pub fn update(&mut self, id: u32, e: Entry) -> (n: u64)
        requires
            old(self).wf(),
        ensures
            final(self).wf(),
            final(self).next_id == old(self).next_id,
            n == (if contains_id(old(self)@, id) {
                1u64
            } else {
                0u64
            }),
            contains_id(old(self)@, id) ==> exists|i: int|
                {
                    &&& 0 <= i < old(self)@.len()
                    &&& (#[trigger] old(self)@[i]).id == id
                    &&& final(self)@ == old(self)@.update(i, updated_row(old(self)@[i], e@))
                },
            !contains_id(old(self)@, id) ==> final(self)@ == old(self)@,
    {
        let ghost pre = self@;
        let n = self.rows.len();
        let mut i: usize = 0;
        while i < n && self.rows[i].id != id
            invariant
                0 <= i <= n,
                n == self@.len(),
                *self == *old(self),
                forall|j: int| 0 <= j < i ==> (#[trigger] self@[j]).id != id,
            decreases n - i,
        {
            i += 1;
        }
        if i < n {
            let old_row = self.rows.remove(i);
            let row = DbEntry {
                id: old_row.id,
                url: e.url,
                title: e.title,
                notes: e.notes,
                created_at: old_row.created_at,
                updated_at: old_row.updated_at,
            };
            let ghost rows_mid = self.rows@;
            self.rows.insert(i, row);
            proof {
                lemma_view_remove(rows_mid.insert(i as int, old_row), i as int);
                assert(rows_mid.insert(i as int, old_row).remove(i as int) =~= rows_mid);
                lemma_view_insert(rows_mid, i as int, row);
                assert(row@ == updated_row(pre[i as int], e@));
                assert(final(self)@ =~= pre.update(i as int, updated_row(pre[i as int], e@))) by {
                    pre.remove_ensures(i as int);
                    pre.remove(i as int).insert_ensures(i as int, row@);
                    assert(pre.remove(i as int).insert(i as int, row@) =~= pre.update(
                        i as int,
                        row@,
                    ));
                    assert(final(self)@ == rows_mid.map_values(|x: DbEntry| x@).insert(
                        i as int,
                        row@,
                    ));
                    assert(rows_mid.map_values(|x: DbEntry| x@) =~= pre.remove(i as int)) by {
                        assert(rows_mid =~= self.rows@.remove(i as int).insert(i as int, row).remove(
                            i as int,
                        ));
                    }
                }
                let post = final(self)@;
                assert forall|a: int| 0 <= a < post.len() && a != i implies post[a] == pre[a] by {}
                assert(final(self).wf());
                assert(contains_id(pre, id)) by {
                    assert(pre[i as int].id == id);
                }
            }
            1
        } else {
            proof {
                assert(!contains_id(pre, id));
            }
            0
        }
    }

    /// Remove the row with this id. Returns the affected count: 1 when the
    /// row existed, 0 when it did not (and then nothing changes).
    pub fn delete(&mut self, id: u32) -> (n: u64)
        requires
            old(self).wf(),
        ensures
            final(self).wf(),
            final(self).next_id == old(self).next_id,
            n == (if contains_id(old(self)@, id) {
                1u64
            } else {
                0u64
            }),
            contains_id(old(self)@, id) ==> exists|i: int|
                {
                    &&& 0 <= i < old(self)@.len()
                    &&& (#[trigger] old(self)@[i]).id == id
                    &&& final(self)@ == old(self)@.remove(i)
                },
            !contains_id(old(self)@, id) ==> final(self)@ == old(self)@,
            !contains_id(final(self)@, id),
    {
        let ghost pre = self@;
        let n = self.rows.len();
        let mut i: usize = 0;
        while i < n && self.rows[i].id != id
            invariant
                0 <= i <= n,
                n == self@.len(),
                *self == *old(self),
                forall|j: int| 0 <= j < i ==> (#[trigger] self@[j]).id != id,
            decreases n - i,
        {
            i += 1;
        }
        if i < n {
            let ghost rows_pre = self.rows@;
            self.rows.remove(i);
            proof {
                lemma_view_remove(rows_pre, i as int);
                assert(final(self)@ == pre.remove(i as int));
                pre.remove_ensures(i as int);
                assert(pre[i as int].id == id);
                let post = final(self)@;
                assert(final(self).wf()) by {
                    assert forall|a: int| 0 <= a < post.len() implies post[a] == pre[(if a < i {
                        a
                    } else {
                        a + 1
                    })] by {}
                }
                assert(!contains_id(post, id)) by {
                    if contains_id(post, id) {
                        let a = choose|a: int| 0 <= a < post.len() && (#[trigger] post[a]).id == id;
                        let a0: int = if a < i { a } else { a + 1 };
                        assert(pre[a0].id == id && a0 != i);
                    }
                }
            }
            1
        } else {
            proof {
                assert(!contains_id(pre, id));
            }
            0
        }
    }
}

/// Viewing the rows commutes with inserting one: the model of the vector
/// after an insertion is the model before, with the new row's view inserted
/// at the same place.
proof fn lemma_view_insert(rows: Seq<DbEntry>, k: int, e: DbEntry)
    requires
        0 <= k <= rows.len(),
    ensures
        rows.insert(k, e).map_values(|x: DbEntry| x@) == rows.map_values(|x: DbEntry| x@).insert(
            k,
            e@,
        ),
{
    let lhs = rows.insert(k, e).map_values(|x: DbEntry| x@);
    let rhs = rows.map_values(|x: DbEntry| x@).insert(k, e@);
    rows.insert_ensures(k, e);
    rows.map_values(|x: DbEntry| x@).insert_ensures(k, e@);
    assert forall|i: int| 0 <= i < lhs.len() implies lhs[i] == rhs[i] by {
        if i < k {
            assert(rows.insert(k, e)[i] == rows[i]);
        } else if i == k {
            assert(rows.insert(k, e)[i] == e);
        } else {
            assert(rows.insert(k, e)[i] == rows[i - 1]);
        }
    }
    assert(lhs =~= rhs);
}

/// Viewing the rows commutes with removing one.
proof fn lemma_view_remove(rows: Seq<DbEntry>, k: int)
    requires
        0 <= k < rows.len(),
    ensures
        rows.remove(k).map_values(|x: DbEntry| x@) == rows.map_values(|x: DbEntry| x@).remove(k),
{
    let lhs = rows.remove(k).map_values(|x: DbEntry| x@);
    let rhs = rows.map_values(|x: DbEntry| x@).remove(k);
    rows.remove_ensures(k);
    rows.map_values(|x: DbEntry| x@).remove_ensures(k);
    assert forall|i: int| 0 <= i < lhs.len() implies lhs[i] == rhs[i] by {
        if i < k {
            assert(rows.remove(k)[i] == rows[i]);
        } else {
            assert(rows.remove(k)[i] == rows[i + 1]);
        }
    }
    assert(lhs =~= rhs);
}

} // verus!
