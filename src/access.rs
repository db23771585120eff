//! Roles: each is a set of accounts, and a caller passes a role's guard
//! exactly when it is one of them.
use vstd::prelude::*;

use crate::account::Account;

verus! {

/// The accounts that hold one role. An empty set can never be satisfied by
/// an external caller.
pub type Controllers = Vec<Account>;

/// Whether `who` is one of the accounts in `set`.
pub open spec fn holds_role(set: Seq<Account>, who: Seq<u8>) -> bool {
    exists|i: int| 0 <= i < set.len() && (#[trigger] set[i])@ == who
}

/// The identities of a role's accounts, in order.
pub open spec fn identities(set: Seq<Account>) -> Seq<Seq<u8>> {
    set.map_values(|a: Account| a@)
}

/// Whether `caller` belongs to the role held by `controllers`.
pub fn is_controller(controllers: &Controllers, caller: &Account) -> (r: bool)
    ensures
        r == holds_role(controllers@, caller@),
{
    let mut i: usize = 0;
    while i < controllers.len()
        invariant
            0 <= i <= controllers.len(),
            forall|j: int| 0 <= j < i ==> (#[trigger] controllers@[j])@ != caller@,
        decreases controllers.len() - i,
    {
        if controllers[i].same_as(caller) {
            return true;
        }
        i += 1;
    }
    false
}

/// Whether `caller` is the hosting process itself: the only identity that
/// satisfies the reserved self role.
pub fn is_self(caller: &Account, own_id: &Account) -> (r: bool)
    ensures
        r == (caller@ == own_id@),
{
    caller.same_as(own_id)
}

/// A copy of a role's accounts with the same identities in the same order.
pub fn copy_controllers(controllers: &Controllers) -> (r: Controllers)
    ensures
        identities(r@) == identities(controllers@),
{
    let mut out: Vec<Account> = Vec::new();
    let mut i: usize = 0;
    while i < controllers.len()
        invariant
            0 <= i <= controllers.len(),
            out@.len() == i,
            forall|j: int| 0 <= j < i ==> (#[trigger] out@[j])@ == controllers@[j]@,
        decreases controllers.len() - i,
    {
        out.push(controllers[i].duplicate());
        i += 1;
    }
    assert(identities(out@) =~= identities(controllers@));
    out
}

/// A role held by `controller` alone, or by nobody.
pub fn single_controller(controller: &Option<Account>) -> (r: Controllers)
    ensures
        match controller {
            Some(c) => identities(r@) == seq![c@],
            None => r@.len() == 0,
        },
{
    match controller {
        Some(c) => {
            let v = vec![c.duplicate()];
            assert(identities(v@) =~= seq![c@]);
            v
        },
        None => Vec::new(),
    }
}

} // verus!
