use crate::store::{contains_id, new_row, sorted_newest_first, unique_ids, updated_row};
use crate::types::{DbEntryView, EntryView};
use vstd::prelude::*;

verus! {

/// After a creation, a lookup of the assigned id finds exactly the created
/// row: the given url, title and notes, the fresh id, and both timestamps
/// set to the insertion time. `k` is where the store put the row.
pub proof fn created_entry_is_found(
    pre: Seq<DbEntryView>,
    e: EntryView,
    id: u32,
    now: i64,
    k: int,
)
    requires
        unique_ids(pre),
        !contains_id(pre, id),
        0 <= k <= pre.len(),
    ensures
        ({
            let post = pre.insert(k, new_row(id, e, now));
            &&& contains_id(post, id)
            &&& unique_ids(post)
            &&& forall|j: int|
                0 <= j < post.len() && (#[trigger] post[j]).id == id ==> post[j] == new_row(
                    id,
                    e,
                    now,
                )
        }),
{
    let post = pre.insert(k, new_row(id, e, now));
    pre.insert_ensures(k, new_row(id, e, now));
    assert(post[k].id == id);
    assert forall|j: int| 0 <= j < post.len() && (#[trigger] post[j]).id == id implies post[j]
        == new_row(id, e, now) by {
        if j != k {
            let j0: int = if j < k {
                j
            } else {
                j - 1
            };
            assert(post[j] == pre[j0]);
            assert(pre[j0].id == id);
        }
    }
    assert forall|i: int, j: int|
        0 <= i < post.len() && 0 <= j < post.len() && i != j implies (#[trigger] post[i]).id != (
    #[trigger] post[j]).id by {
        if i != k && j != k {
            let i0: int = if i < k {
                i
            } else {
                i - 1
            };
            let j0: int = if j < k {
                j
            } else {
                j - 1
            };
            assert(post[i] == pre[i0] && post[j] == pre[j0]);
        } else if i == k {
            let j0: int = if j < k {
                j
            } else {
                j - 1
            };
            assert(post[j] == pre[j0]);
        } else {
            let i0: int = if i < k {
                i
            } else {
                i - 1
            };
            assert(post[i] == pre[i0]);
        }
    }
}

/// After deleting the row that carried `id`, a lookup of `id` finds nothing.
pub proof fn deleted_entry_is_gone(pre: Seq<DbEntryView>, i: int)
    requires
        unique_ids(pre),
        0 <= i < pre.len(),
    ensures
        !contains_id(pre.remove(i), pre[i].id),
{
    let id = pre[i].id;
    let post = pre.remove(i);
    pre.remove_ensures(i);
    if contains_id(post, id) {
        let a = choose|a: int| 0 <= a < post.len() && (#[trigger] post[a]).id == id;
        let a0: int = if a < i {
            a
        } else {
            a + 1
        };
        assert(pre[a0].id == id && a0 != i);
    }
}

/// After an update of the row that carries `id`, a lookup of `id` finds a
/// row with the new url, title and notes, while its id, created_at and
/// updated_at are unchanged from before the update.
pub proof fn updated_entry_keeps_identity(pre: Seq<DbEntryView>, i: int, e2: EntryView)
    requires
        unique_ids(pre),
        0 <= i < pre.len(),
    ensures
        ({
            let id = pre[i].id;
            let post = pre.update(i, updated_row(pre[i], e2));
            &&& contains_id(post, id)
            &&& unique_ids(post)
            &&& forall|j: int|
                0 <= j < post.len() && (#[trigger] post[j]).id == id ==> post[j] == updated_row(
                    pre[i],
                    e2,
                )
            &&& updated_row(pre[i], e2).id == pre[i].id
            &&& updated_row(pre[i], e2).created_at == pre[i].created_at
            &&& updated_row(pre[i], e2).updated_at == pre[i].updated_at
            &&& updated_row(pre[i], e2).url == e2.url
            &&& updated_row(pre[i], e2).title == e2.title
            &&& updated_row(pre[i], e2).notes == e2.notes
        }),
{
    let id = pre[i].id;
    let post = pre.update(i, updated_row(pre[i], e2));
    assert(post[i].id == id);
    assert forall|j: int| 0 <= j < post.len() && j != i implies post[j] == pre[j] by {}
}

/// An entry created later than everything present stands first in the
/// listing, and the listing stays ordered newest first. `k` is the position
/// the store chooses: in front of every strictly older row.
pub proof fn newest_entry_stands_first(pre: Seq<DbEntryView>, v: DbEntryView, k: int)
    requires
        sorted_newest_first(pre),
        0 <= k <= pre.len(),
        forall|j: int| 0 <= j < k ==> (#[trigger] pre[j]).created_at >= v.created_at,
        k < pre.len() ==> pre[k].created_at < v.created_at,
        forall|j: int| 0 <= j < pre.len() ==> (#[trigger] pre[j]).created_at < v.created_at,
    ensures
        k == 0,
        pre.insert(k, v)[0] == v,
        sorted_newest_first(pre.insert(k, v)),
{
    if k > 0 {
        assert(pre[0].created_at >= v.created_at);
        assert(pre[0].created_at < v.created_at);
    }
    pre.insert_ensures(k, v);
    let post = pre.insert(0, v);
    assert forall|i: int, j: int| 0 <= i <= j < post.len() implies (#[trigger] post[i]).created_at
        >= (#[trigger] post[j]).created_at by {
        if i != 0 {
            assert(post[i] == pre[i - 1] && post[j] == pre[j - 1]);
        } else if j != 0 {
            assert(post[j] == pre[j - 1]);
        }
    }
}

} // verus!
