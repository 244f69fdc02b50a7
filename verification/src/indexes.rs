//! Append-only, duplicate-suppressing indexes from a user to the project ids
//! they created or invested in. Insertion is membership-tested: an id already
//! present is never appended again, and entries are never removed.

use vstd::prelude::*;
use crate::types::Principal;

verus! {

/// One user's ordered, duplicate-free list of project ids.
pub struct UserIndex {
    pub user: Principal,
    pub ids: Vec<u64>,
}

/// No two entries belong to the same user.
pub open spec fn users_distinct(s: Seq<UserIndex>) -> bool {
    forall|i: int, j: int| 0 <= i < j < s.len() ==> (#[trigger] s[i]).user != (#[trigger] s[j]).user
}

/// Whether `user` has an entry in the index.
pub open spec fn has_user_entry(s: Seq<UserIndex>, user: Principal) -> bool {
    exists|i: int| 0 <= i < s.len() && (#[trigger] s[i]).user == user
}

/// The position of `user`'s entry (meaningful when `has_user_entry` holds
/// and the users are distinct).
pub open spec fn user_entry_index(s: Seq<UserIndex>, user: Principal) -> int {
    choose|i: int| 0 <= i < s.len() && (#[trigger] s[i]).user == user
}

/// The ids recorded for `user`: their entry's list, or empty when the user
/// was never recorded. Reads of an absent user are intentionally tolerant.
pub open spec fn spec_user_ids(s: Seq<UserIndex>, user: Principal) -> Seq<u64> {
    if has_user_entry(s, user) {
        s[user_entry_index(s, user)].ids@
    } else {
        Seq::empty()
    }
}

/// A well-formed id list: every id names an allocated project and no id
/// repeats.
pub open spec fn ids_wf(ids: Seq<u64>, project_count: u64) -> bool {
    &&& forall|a: int| 0 <= a < ids.len() ==> 1 <= #[trigger] ids[a] <= project_count
    &&& forall|a: int, b: int| 0 <= a < b < ids.len() ==> ids[a] != ids[b]
}

/// A well-formed index: one entry per user, every recorded list well-formed.
pub open spec fn index_wf(s: Seq<UserIndex>, project_count: u64) -> bool {
    &&& users_distinct(s)
    &&& forall|u: Principal| ids_wf(#[trigger] spec_user_ids(s, u), project_count)
}

/// With distinct users, an entry holding `user` is the one `spec_user_ids`
/// reads from.
pub proof fn lemma_user_entry_index_is(s: Seq<UserIndex>, user: Principal, i: int)
    requires
        users_distinct(s),
        0 <= i < s.len(),
        s[i].user == user,
    ensures
        has_user_entry(s, user),
        user_entry_index(s, user) == i,
        spec_user_ids(s, user) == s[i].ids@,
{
    assert(has_user_entry(s, user));
    let k = user_entry_index(s, user);
    assert(0 <= k < s.len() && s[k].user == user);
    if k != i {
        if k < i {
            assert(s[k].user != s[i].user);
        } else {
            assert(s[i].user != s[k].user);
        }
        assert(false);
    }
}

/// An appended list holds exactly the old members and the new id.
pub proof fn lemma_push_contains(s: Seq<u64>, x: u64, y: u64)
    ensures
        s.push(x).contains(y) <==> (s.contains(y) || x == y),
{
    if s.push(x).contains(y) {
        let i = choose|i: int| 0 <= i < s.push(x).len() && s.push(x)[i] == y;
        if i < s.len() {
            assert(s[i] == y);
        } else {
            assert(s.push(x)[s.len() as int] == x);
        }
    }
    if s.contains(y) {
        let i = choose|i: int| 0 <= i < s.len() && s[i] == y;
        assert(s.push(x)[i] == y);
    }
    if x == y {
        assert(s.push(x)[s.len() as int] == y);
    }
}

/// Raising the project-count bound keeps an index well-formed.
pub proof fn lemma_index_wf_grow(s: Seq<UserIndex>, old_count: u64, new_count: u64)
    requires
        index_wf(s, old_count),
        old_count <= new_count,
    ensures
        index_wf(s, new_count),
{
    assert forall|u: Principal| ids_wf(#[trigger] spec_user_ids(s, u), new_count) by {
        assert(ids_wf(spec_user_ids(s, u), old_count));
    }
}

/// Finds the position of `user`'s entry, if any.
pub(crate) fn find_user(indexes: &Vec<UserIndex>, user: Principal) -> (r: Option<usize>)
    ensures
        match r {
            Some(i) => i < indexes@.len() && indexes@[i as int].user == user,
            None => !has_user_entry(indexes@, user),
        },
{
    let mut i: usize = 0;
    while i < indexes.len()
        invariant
            i <= indexes@.len(),
            forall|j: int| 0 <= j < i ==> (#[trigger] indexes@[j]).user != user,
        decreases indexes@.len() - i,
    {
        if indexes[i].user == user {
            return Some(i);
        }
        i += 1;
    }
    None
}

/// Whether `id` already stands in the list.
pub(crate) fn ids_contains(ids: &Vec<u64>, id: u64) -> (r: bool)
    ensures
        r == ids@.contains(id),
{
    let mut i: usize = 0;
    while i < ids.len()
        invariant
            i <= ids@.len(),
            forall|j: int| 0 <= j < i ==> ids@[j] != id,
        decreases ids@.len() - i,
    {
        if ids[i] == id {
            assert(ids@[i as int] == id);
            return true;
        }
        i += 1;
    }
    false
}

/// A fresh copy of an id list, handed out by the queries.
pub(crate) fn copy_ids(ids: &Vec<u64>) -> (r: Vec<u64>)
    ensures
        r@ == ids@,
{
    let mut out: Vec<u64> = Vec::new();
    let mut i: usize = 0;
    while i < ids.len()
        invariant
            i <= ids@.len(),
            out@ == ids@.take(i as int),
        decreases ids@.len() - i,
    {
        out.push(ids[i]);
        proof {
            assert(out@ =~= ids@.take(i + 1));
        }
        i += 1;
    }
    proof {
        assert(out@ =~= ids@);
    }
    out
}

/// A mutable borrow of one element of a vector.
pub(crate) fn elem_mut<T>(v: &mut Vec<T>, i: usize) -> (e: &mut T)
    requires
        i < old(v).len(),
    ensures
        *e == old(v)@[i as int],
        final(v)@ == old(v)@.update(i as int, *final(e)),
{
    &mut v[i]
}

/// Membership-tested insertion: appends `id` to `user`'s list (creating the
/// entry on first use) unless the list already holds it, in which case the
/// whole index is left untouched.
pub(crate) fn index_append(indexes: &mut Vec<UserIndex>, user: Principal, id: u64)
    requires
        users_distinct(old(indexes)@),
    ensures
        users_distinct(final(indexes)@),
        spec_user_ids(old(indexes)@, user).contains(id) ==> final(indexes)@ == old(indexes)@,
        !spec_user_ids(old(indexes)@, user).contains(id) ==> {
            &&& spec_user_ids(final(indexes)@, user)
                == spec_user_ids(old(indexes)@, user).push(id)
            &&& forall|u: Principal| u != user
                ==> #[trigger] spec_user_ids(final(indexes)@, u)
                    == spec_user_ids(old(indexes)@, u)
        },
{
    let ghost pre = indexes@;
    match find_user(indexes, user) {
        Some(i) => {
            proof {
                lemma_user_entry_index_is(pre, user, i as int);
            }
            if ids_contains(&indexes[i].ids, id) {
                assert(spec_user_ids(pre, user).contains(id));
            } else {
                let e = elem_mut(indexes, i);
                e.ids.push(id);
                proof {
                    assert(indexes@[i as int].user == user);
                    assert(indexes@[i as int].ids@ == pre[i as int].ids@.push(id));
                    assert(users_distinct(indexes@)) by {
                        assert forall|a: int, b: int| 0 <= a < b < indexes@.len()
                            implies (#[trigger] indexes@[a]).user != (#[trigger] indexes@[b]).user by {
                            assert(indexes@[a].user == pre[a].user);
                            assert(indexes@[b].user == pre[b].user);
                        }
                    }
                    lemma_user_entry_index_is(indexes@, user, i as int);
                    assert forall|u: Principal| u != user
                        implies #[trigger] spec_user_ids(indexes@, u) == spec_user_ids(pre, u) by {
                        lemma_other_users_unaffected(pre, indexes@, u);
                    }
                }
            }
        }
        None => {
            let mut ids: Vec<u64> = Vec::new();
            ids.push(id);
            indexes.push(UserIndex { user, ids });
            proof {
                let n = pre.len() as int;
                assert(indexes@[n].user == user);
                assert(users_distinct(indexes@)) by {
                    assert forall|a: int, b: int| 0 <= a < b < indexes@.len()
                        implies (#[trigger] indexes@[a]).user != (#[trigger] indexes@[b]).user by {
                        if b < n {
                            assert(indexes@[a] == pre[a]);
                            assert(indexes@[b] == pre[b]);
                        } else {
                            assert(indexes@[a] == pre[a]);
                            assert(!has_user_entry(pre, user));
                            assert(pre[a].user != user);
                        }
                    }
                }
                lemma_user_entry_index_is(indexes@, user, n);
                assert(!spec_user_ids(pre, user).contains(id));
                assert(spec_user_ids(indexes@, user) =~= spec_user_ids(pre, user).push(id));
                assert forall|u: Principal| u != user
                    implies #[trigger] spec_user_ids(indexes@, u) == spec_user_ids(pre, u) by {
                    lemma_other_users_unaffected(pre, indexes@, u);
                }
            }
        }
    }
}

/// If every entry of `post` holding user `u` stands unchanged at the same
/// position of `pre` and vice versa, `u`'s recorded ids are the same in both.
proof fn lemma_other_users_unaffected(pre: Seq<UserIndex>, post: Seq<UserIndex>, u: Principal)
    requires
        users_distinct(pre),
        users_distinct(post),
        forall|i: int| 0 <= i < pre.len() && (#[trigger] pre[i]).user == u
            ==> i < post.len() && post[i] == pre[i],
        forall|i: int| 0 <= i < post.len() && (#[trigger] post[i]).user == u
            ==> i < pre.len() && pre[i] == post[i],
    ensures
        spec_user_ids(post, u) == spec_user_ids(pre, u),
{
    if has_user_entry(pre, u) {
        let i = user_entry_index(pre, u);
        assert(0 <= i < pre.len() && pre[i].user == u);
        assert(post[i] == pre[i]);
        lemma_user_entry_index_is(post, u, i);
        assert(spec_user_ids(post, u) == post[i].ids@);
    } else {
        if has_user_entry(post, u) {
            let i = user_entry_index(post, u);
            assert(0 <= i < post.len() && post[i].user == u);
            assert(pre[i] == post[i]);
            assert(has_user_entry(pre, u));
            assert(false);
        }
    }
}

} // verus!
