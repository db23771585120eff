//! The index of recurring tasks: mint tasks as one set, transfer tasks under
//! the account that set them up.
use vstd::prelude::*;

use crate::account::Account;

verus! {

/// The identifier that the scheduling collaborator hands out for a task.
pub type TaskId = u64;

/// A recurring transfer task, indexed under the account that set it up.
#[derive(Debug, Clone)]
pub struct OwnedTask {
    pub owner: Account,
    pub task_id: TaskId,
}

/// Whether `s` holds `id`.
pub open spec fn has_id(s: Seq<TaskId>, id: TaskId) -> bool {
    exists|i: int| 0 <= i < s.len() && s[i] == id
}

/// Whether `owner` has task `id` in `s`.
pub open spec fn owns(s: Seq<OwnedTask>, owner: Seq<u8>, id: TaskId) -> bool {
    exists|i: int| 0 <= i < s.len() && (#[trigger] s[i]).owner@ == owner && s[i].task_id == id
}

/// No identifier is listed twice.
pub open spec fn ids_unique(s: Seq<TaskId>) -> bool {
    forall|i: int, j: int| 0 <= i < s.len() && 0 <= j < s.len() && i != j ==> s[i] != s[j]
}

/// No (owner, task) pair is listed twice.
pub open spec fn owned_unique(s: Seq<OwnedTask>) -> bool {
    forall|i: int, j: int|
        0 <= i < s.len() && 0 <= j < s.len() && i != j ==> !((#[trigger] s[i]).owner@ == (
        #[trigger] s[j]).owner@ && s[i].task_id == s[j].task_id)
}

/// The position of `id` in `ids`, if it is there.
pub fn find_id(ids: &Vec<TaskId>, id: TaskId) -> (r: Option<usize>)
    ensures
        match r {
            Some(i) => i < ids@.len() && ids@[i as int] == id,
            None => !has_id(ids@, id),
        },
{
    let mut i: usize = 0;
    while i < ids.len()
        invariant
            0 <= i <= ids.len(),
            forall|j: int| 0 <= j < i ==> ids@[j] != id,
        decreases ids.len() - i,
    {
        if ids[i] == id {
            return Some(i);
        }
        i += 1;
    }
    None
}

/// Adds `id` to `ids` unless it is already there.
pub fn insert_id(ids: &mut Vec<TaskId>, id: TaskId)
    requires
        ids_unique(old(ids)@),
    ensures
        ids_unique(final(ids)@),
        forall|x: TaskId| has_id(final(ids)@, x) == (has_id(old(ids)@, x) || x == id),
{
    let ghost s0 = ids@;
    if find_id(ids, id).is_none() {
        ids.push(id);
        assert forall|x: TaskId| has_id(ids@, x) == (has_id(s0, x) || x == id) by {
            if has_id(s0, x) {
                let i = choose|i: int| 0 <= i < s0.len() && s0[i] == x;
                assert(ids@[i] == s0[i]);
            }
            if has_id(ids@, x) && x != id {
                let i = choose|i: int| 0 <= i < ids@.len() && ids@[i] == x;
                assert(i < s0.len() && s0[i] == ids@[i]);
            }
            if x == id {
                assert(ids@[s0.len() as int] == id);
            }
        }
    }
}

/// Removes `id` from `ids`; tells whether it was there.
pub fn remove_id(ids: &mut Vec<TaskId>, id: TaskId) -> (r: bool)
    requires
        ids_unique(old(ids)@),
    ensures
        r == has_id(old(ids)@, id),
        !r ==> *final(ids) == *old(ids),
        ids_unique(final(ids)@),
        forall|x: TaskId| has_id(final(ids)@, x) == (has_id(old(ids)@, x) && x != id),
{
    let ghost s0 = ids@;
    match find_id(ids, id) {
        Some(i) => {
            ids.remove(i);
            assert forall|x: TaskId| has_id(ids@, x) == (has_id(s0, x) && x != id) by {
                if has_id(s0, x) && x != id {
                    let k = choose|k: int| 0 <= k < s0.len() && s0[k] == x;
                    let k2 = if k < i { k } else { k - 1 };
                    assert(ids@[k2] == s0[k]);
                }
                if has_id(ids@, x) {
                    let k = choose|k: int| 0 <= k < ids@.len() && ids@[k] == x;
                    let k2 = if k < i { k } else { k + 1 };
                    assert(ids@[k] == s0[k2]);
                }
            }
            assert forall|a: int, b: int|
                0 <= a < ids@.len() && 0 <= b < ids@.len() && a != b implies ids@[a] != ids@[b] by {
                let a2 = if a < i { a } else { a + 1 };
                let b2 = if b < i { b } else { b + 1 };
                assert(ids@[a] == s0[a2] && ids@[b] == s0[b2]);
            }
            true
        },
        None => false,
    }
}

/// The position of `owner`'s task `id`, if it is listed.
pub fn find_owned(tasks: &Vec<OwnedTask>, owner: &Account, id: TaskId) -> (r: Option<usize>)
    ensures
        match r {
            Some(i) => i < tasks@.len() && tasks@[i as int].owner@ == owner@ && tasks@[i as int].task_id
                == id,
            None => !owns(tasks@, owner@, id),
        },
{
    let mut i: usize = 0;
    while i < tasks.len()
        invariant
            0 <= i <= tasks.len(),
            forall|j: int|
                0 <= j < i ==> !((#[trigger] tasks@[j]).owner@ == owner@ && tasks@[j].task_id == id),
        decreases tasks.len() - i,
    {
        if tasks[i].task_id == id && tasks[i].owner.same_as(owner) {
            return Some(i);
        }
        i += 1;
    }
    None
}

/// Lists task `id` under `owner` unless it already is.
pub fn insert_owned(tasks: &mut Vec<OwnedTask>, owner: Account, id: TaskId)
    requires
        owned_unique(old(tasks)@),
    ensures
        owned_unique(final(tasks)@),
        forall|o: Seq<u8>, x: TaskId|
            #[trigger] owns(final(tasks)@, o, x) == (owns(old(tasks)@, o, x) || (o == owner@ && x
                == id)),
{
    let ghost s0 = tasks@;
    if find_owned(tasks, &owner, id).is_none() {
        let ghost ov = owner@;
        tasks.push(OwnedTask { owner, task_id: id });
        let ghost s1 = tasks@;
        assert forall|o: Seq<u8>, x: TaskId|
            #[trigger] owns(s1, o, x) == (owns(s0, o, x) || (o == ov && x == id)) by {
            if owns(s0, o, x) {
                let i = choose|i: int| 0 <= i < s0.len() && (#[trigger] s0[i]).owner@ == o && s0[i].task_id == x;
                assert(s1[i] == s0[i]);
            }
            if owns(s1, o, x) && !(o == ov && x == id) {
                let i = choose|i: int| 0 <= i < s1.len() && (#[trigger] s1[i]).owner@ == o && s1[i].task_id == x;
                assert(i < s0.len() && s0[i] == s1[i]);
            }
            if o == ov && x == id {
                assert(s1[s0.len() as int].owner@ == o);
            }
        }
        assert forall|a: int, b: int|
            0 <= a < s1.len() && 0 <= b < s1.len() && a != b implies !((#[trigger] s1[a]).owner@
            == (#[trigger] s1[b]).owner@ && s1[a].task_id == s1[b].task_id) by {
            if a < s0.len() {
                assert(s1[a] == s0[a]);
            }
            if b < s0.len() {
                assert(s1[b] == s0[b]);
            }
        }
    }
}

/// Removes `owner`'s task `id`; tells whether it was listed.
pub fn remove_owned(tasks: &mut Vec<OwnedTask>, owner: &Account, id: TaskId) -> (r: bool)
    requires
        owned_unique(old(tasks)@),
    ensures
        r == owns(old(tasks)@, owner@, id),
        !r ==> *final(tasks) == *old(tasks),
        owned_unique(final(tasks)@),
        forall|o: Seq<u8>, x: TaskId|
            #[trigger] owns(final(tasks)@, o, x) == (owns(old(tasks)@, o, x) && !(o == owner@ && x
                == id)),
{
    let ghost s0 = tasks@;
    match find_owned(tasks, owner, id) {
        Some(i) => {
            tasks.remove(i);
            let ghost s1 = tasks@;
            assert forall|o: Seq<u8>, x: TaskId|
                #[trigger] owns(s1, o, x) == (owns(s0, o, x) && !(o == owner@ && x == id)) by {
                if owns(s0, o, x) && !(o == owner@ && x == id) {
                    let k = choose|k: int| 0 <= k < s0.len() && (#[trigger] s0[k]).owner@ == o && s0[k].task_id == x;
                    assert(k != i);
                    let k2 = if k < i { k } else { k - 1 };
                    assert(s1[k2] == s0[k]);
                }
                if owns(s1, o, x) {
                    let k = choose|k: int| 0 <= k < s1.len() && (#[trigger] s1[k]).owner@ == o && s1[k].task_id == x;
                    let k2 = if k < i { k } else { k + 1 };
                    assert(s1[k] == s0[k2]);
                    assert(k2 != i);
                }
            }
            assert forall|a: int, b: int|
                0 <= a < s1.len() && 0 <= b < s1.len() && a != b implies !((#[trigger] s1[a]).owner@
                == (#[trigger] s1[b]).owner@ && s1[a].task_id == s1[b].task_id) by {
                let a2 = if a < i { a } else { a + 1 };
                let b2 = if b < i { b } else { b + 1 };
                assert(s1[a] == s0[a2] && s1[b] == s0[b2]);
            }
            true
        },
        None => false,
    }
}

/// The identifiers of the tasks listed under `owner`.
pub fn ids_of_owner(tasks: &Vec<OwnedTask>, owner: &Account) -> (r: Vec<TaskId>)
    requires
        owned_unique(tasks@),
    ensures
        forall|x: TaskId| has_id(r@, x) == owns(tasks@, owner@, x),
        ids_unique(r@),
{
    let mut out: Vec<TaskId> = Vec::new();
    let mut i: usize = 0;
    while i < tasks.len()
        invariant
            0 <= i <= tasks.len(),
            forall|x: TaskId| has_id(out@, x) == (exists|j: int| 0 <= j < i && (#[trigger] tasks@[j]).owner@ == owner@ && tasks@[j].task_id == x),
            ids_unique(out@),
            owned_unique(tasks@),
        decreases tasks.len() - i,
    {
        let ghost o0 = out@;
        if tasks[i].owner.same_as(owner) {
            let ghost id = tasks@[i as int].task_id;
            assert(!has_id(o0, id)) by {
                if has_id(o0, id) {
                    let j = choose|j: int| 0 <= j < i && (#[trigger] tasks@[j]).owner@ == owner@ && tasks@[j].task_id == id;
                    assert(tasks@[j].owner@ == tasks@[i as int].owner@);
                    assert(j != i);
                }
            }
            out.push(tasks[i].task_id);
            assert forall|a: int, b: int|
                0 <= a < out@.len() && 0 <= b < out@.len() && a != b implies out@[a] != out@[b] by {
                if a < o0.len() {
                    assert(out@[a] == o0[a]);
                }
                if b < o0.len() {
                    assert(out@[b] == o0[b]);
                }
                if a == o0.len() {
                    assert(!has_id(o0, out@[a]));
                }
                if b == o0.len() {
                    assert(!has_id(o0, out@[b]));
                }
            }
        }
        assert forall|x: TaskId| has_id(out@, x) == (exists|j: int| 0 <= j < i + 1 && (#[trigger] tasks@[j]).owner@ == owner@ && tasks@[j].task_id == x) by {
            if has_id(o0, x) {
                let k = choose|k: int| 0 <= k < o0.len() && o0[k] == x;
                assert(out@[k] == o0[k]);
            }
            if has_id(out@, x) {
                let k = choose|k: int| 0 <= k < out@.len() && out@[k] == x;
                if k < o0.len() {
                    assert(out@[k] == o0[k]);
                }
            }
            if tasks@[i as int].owner@ == owner@ && tasks@[i as int].task_id == x {
                assert(out@[o0.len() as int] == x);
            }
        }
        i += 1;
    }
    out
}

} // verus!
