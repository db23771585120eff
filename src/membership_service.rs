//! The registry's entry points for external callers: role guards and
//! batches, where every account of a batch is tried on its own.
use vstd::prelude::*;

use crate::access::{copy_controllers, holds_role, identities, is_controller, Controllers};
use crate::account::Account;
use crate::membership::{
    listed, ControllerList, ControllerType, ControllersUpdateEvent, Error, MembershipStatus,
    MembershipStatusUpdateEvent, MembershipToken, TotalVotingPowerUpdateEvent,
    VotingPowerUpdateEvent,
};

verus! {

/// Whether identity `who` occurs among the first `n` accounts of `s`.
pub open spec fn named_among_first(s: Seq<Account>, n: int, who: Seq<u8>) -> bool {
    exists|j: int| 0 <= j < n && (#[trigger] s[j])@ == who
}

/// The accounts that hold role `kind`.
pub open spec fn role_accounts(c: ControllerList, kind: ControllerType) -> Controllers {
    match kind {
        ControllerType::Issue => c.issue_controllers,
        ControllerType::Revoke => c.revoke_controllers,
        ControllerType::EventListeners => c.event_listeners_controllers,
    }
}

/// The roles other than `kind` are as in `b`.
pub open spec fn other_roles_kept(a: ControllerList, b: ControllerList, kind: ControllerType) -> bool {
    &&& kind != ControllerType::Issue ==> a.issue_controllers == b.issue_controllers
    &&& kind != ControllerType::Revoke ==> a.revoke_controllers == b.revoke_controllers
    &&& kind != ControllerType::EventListeners ==> a.event_listeners_controllers
        == b.event_listeners_controllers
}

/// Offers membership to each of `principals` on behalf of `caller`, who must
/// hold the issue role. Each account is tried on its own; the results are
/// in the order of the accounts.
pub fn issue_memberships(token: &mut MembershipToken, caller: &Account, principals: Vec<Account>) -> (r:
    Result<Vec<Result<MembershipStatusUpdateEvent, Error>>, Error>)
    requires
        old(token).wf(),
    ensures
        final(token).wf(),
        final(token).controllers == old(token).controllers,
        !holds_role(old(token).controllers.issue_controllers@, caller@) <==> r == Err::<
            Vec<Result<MembershipStatusUpdateEvent, Error>>,
            Error,
        >(Error::AccessDenied),
        r matches Err(e) ==> e == Error::AccessDenied,
        r is Err ==> *final(token) == *old(token),
        r matches Ok(rs) ==> {
            &&& rs@.len() == principals@.len()
            &&& final(token).members == old(token).members
            &&& forall|w: Seq<u8>| #[trigger]
                final(token).pending(w) == (old(token).pending(w) || (listed(principals@, w)
                    && !old(token).member(w)))
            &&& forall|k: int| 0 <= k < rs@.len() ==> match #[trigger] rs@[k] {
                Ok(ev) => ev.member@ == principals@[k]@ && ev.new_status == MembershipStatus::Issued
                    && !old(token).member(principals@[k]@) && !old(token).pending(principals@[k]@)
                    && !named_among_first(principals@, k, principals@[k]@),
                Err(e) => e == Error::AlreadyIsAMember,
            }
            &&& forall|k: int|
                0 <= k < rs@.len() ==> (#[trigger] rs@[k] is Ok <==> (!old(token).member(
                    principals@[k]@,
                ) && !old(token).pending(principals@[k]@) && !named_among_first(
                    principals@,
                    k,
                    principals@[k]@,
                )))
        },
{
    if !is_controller(&token.controllers.issue_controllers, caller) {
        return Err(Error::AccessDenied);
    }
    let ghost t0 = *token;
    let ghost orig = principals@;
    let mut rest = principals;
    let mut results: Vec<Result<MembershipStatusUpdateEvent, Error>> = Vec::new();
    let n = rest.len();
    let mut i: usize = 0;
    while i < n
        invariant
            token.wf(),
            token.controllers == t0.controllers,
            token.members == t0.members,
            n == orig.len(),
            0 <= i <= n,
            rest@ == orig.subrange(i as int, n as int),
            results@.len() == i,
            forall|w: Seq<u8>| #[trigger]
                token.pending(w) == (t0.pending(w) || (named_among_first(orig, i as int, w)
                    && !t0.member(w))),
            forall|k: int| 0 <= k < i ==> match #[trigger] results@[k] {
                Ok(ev) => ev.member@ == orig[k]@ && ev.new_status == MembershipStatus::Issued
                    && !t0.member(orig[k]@) && !t0.pending(orig[k]@)
                    && !named_among_first(orig, k, orig[k]@),
                Err(e) => e == Error::AlreadyIsAMember,
            },
            forall|k: int|
                0 <= k < i ==> (#[trigger] results@[k] is Ok <==> (!t0.member(orig[k]@) && !t0.pending(
                    orig[k]@,
                ) && !named_among_first(orig, k, orig[k]@))),
        decreases n - i,
    {
        let to = rest.remove(0);
        assert(to == orig[i as int]);
        let ghost t1 = *token;
        let res = token.issue_membership(to);
        let ghost ok = res is Ok;
        proof {
            if ok {
                assert(token.members == t1.members);
            } else {
                assert(*token == t1);
            }
            if res is Ok {
                if named_among_first(orig, i as int, orig[i as int]@) {
                    assert(t1.pending(orig[i as int]@) || t0.member(orig[i as int]@));
                }
            }
        }
        results.push(res);
        assert forall|w: Seq<u8>| #[trigger]
            token.pending(w) == (t0.pending(w) || (named_among_first(orig, i + 1, w)
                && !t0.member(w))) by {
            assert(t1.pending(w) == (t0.pending(w) || (named_among_first(orig, i as int, w)
                && !t0.member(w))));
            if ok {
                assert(token.pending(w) == (t1.pending(w) || w == orig[i as int]@));
                if w == orig[i as int]@ {
                    assert(!t1.member(w));
                }
            } else if w == orig[i as int]@ {
                assert(t1.member(w) || t1.pending(w));
                if t1.pending(w) {
                    assert(listed(t1.pending_members@, w));
                    assert(!t1.member(w));
                }
            }
            if named_among_first(orig, i as int, w) {
                let j = choose|j: int| 0 <= j < i && (#[trigger] orig[j])@ == w;
                assert(named_among_first(orig, i + 1, w));
            }
            if named_among_first(orig, i + 1, w) && !named_among_first(orig, i as int, w) {
                assert(orig[i as int]@ == w);
            }
            if w == orig[i as int]@ {
                assert(named_among_first(orig, i + 1, w));
            }
        }
        assert(rest@ =~= orig.subrange(i + 1, n as int));
        i += 1;
    }
    assert forall|w: Seq<u8>| named_among_first(orig, n as int, w) == listed(orig, w) by {}
    Ok(results)
}

/// Ends the membership of each of `principals` on behalf of `caller`, who
/// must hold the revoke role. Each account is tried on its own; the results
/// are in the order of the accounts.
pub fn revoke_memberships(token: &mut MembershipToken, caller: &Account, principals: Vec<Account>) -> (r:
    Result<
        Vec<
            Result<
                (MembershipStatusUpdateEvent, TotalVotingPowerUpdateEvent, VotingPowerUpdateEvent),
                Error,
            >,
        >,
        Error,
    >)
    requires
        old(token).wf(),
    ensures
        final(token).wf(),
        final(token).controllers == old(token).controllers,
        !holds_role(old(token).controllers.revoke_controllers@, caller@) <==> r is Err,
        r matches Err(e) ==> e == Error::AccessDenied,
        r is Err ==> *final(token) == *old(token),
        r matches Ok(rs) ==> {
            &&& rs@.len() == principals@.len()
            &&& final(token).pending_members == old(token).pending_members
            &&& forall|w: Seq<u8>| #[trigger]
                final(token).member(w) == (old(token).member(w) && !listed(principals@, w))
            &&& forall|k: int| 0 <= k < rs@.len() ==> match #[trigger] rs@[k] {
                Ok((m, t, v)) => m.member@ == principals@[k]@ && m.new_status
                    == MembershipStatus::Revoked && v.voter@ == principals@[k]@
                    && v.new_voting_power == 0 && old(token).member(principals@[k]@)
                    && !named_among_first(principals@, k, principals@[k]@),
                Err(e) => e == Error::IsNotAMember,
            }
            &&& forall|k: int|
                0 <= k < rs@.len() ==> (#[trigger] rs@[k] is Ok <==> (old(token).member(
                    principals@[k]@,
                ) && !named_among_first(principals@, k, principals@[k]@)))
        },
{
    if !is_controller(&token.controllers.revoke_controllers, caller) {
        return Err(Error::AccessDenied);
    }
    let ghost t0 = *token;
    let ghost orig = principals@;
    let mut rest = principals;
    let mut results: Vec<
        Result<
            (MembershipStatusUpdateEvent, TotalVotingPowerUpdateEvent, VotingPowerUpdateEvent),
            Error,
        >,
    > = Vec::new();
    let n = rest.len();
    let mut i: usize = 0;
    while i < n
        invariant
            token.wf(),
            token.controllers == t0.controllers,
            token.pending_members == t0.pending_members,
            n == orig.len(),
            0 <= i <= n,
            rest@ == orig.subrange(i as int, n as int),
            results@.len() == i,
            forall|w: Seq<u8>| #[trigger]
                token.member(w) == (t0.member(w) && !named_among_first(orig, i as int, w)),
            forall|k: int| 0 <= k < i ==> match #[trigger] results@[k] {
                Ok((m, t, v)) => m.member@ == orig[k]@ && m.new_status == MembershipStatus::Revoked
                    && v.voter@ == orig[k]@ && v.new_voting_power == 0 && t0.member(orig[k]@)
                    && !named_among_first(orig, k, orig[k]@),
                Err(e) => e == Error::IsNotAMember,
            },
            forall|k: int|
                0 <= k < i ==> (#[trigger] results@[k] is Ok <==> (t0.member(orig[k]@)
                    && !named_among_first(orig, k, orig[k]@))),
        decreases n - i,
    {
        let from = rest.remove(0);
        assert(from == orig[i as int]);
        let ghost t1 = *token;
        let res = token.revoke_membership(from);
        let ghost ok = res is Ok;
        proof {
            if !ok {
                assert(*token == t1);
            }
        }
        results.push(res);
        assert forall|w: Seq<u8>| #[trigger]
            token.member(w) == (t0.member(w) && !named_among_first(orig, i + 1, w)) by {
            assert(t1.member(w) == (t0.member(w) && !named_among_first(orig, i as int, w)));
            if ok {
                assert(token.member(w) == (t1.member(w) && w != orig[i as int]@));
            } else if w == orig[i as int]@ {
                assert(!t1.member(w));
            }
            if named_among_first(orig, i as int, w) {
                let j = choose|j: int| 0 <= j < i && (#[trigger] orig[j])@ == w;
                assert(named_among_first(orig, i + 1, w));
            }
            if named_among_first(orig, i + 1, w) && !named_among_first(orig, i as int, w) {
                assert(orig[i as int]@ == w);
            }
            if w == orig[i as int]@ {
                assert(named_among_first(orig, i + 1, w));
            }
        }
        assert(rest@ =~= orig.subrange(i + 1, n as int));
        i += 1;
    }
    assert forall|w: Seq<u8>| named_among_first(orig, n as int, w) == listed(orig, w) by {}
    Ok(results)
}

/// Gives role `kind` the accounts `new_controllers` on behalf of `caller`,
/// who must hold that same role. An empty set locks the role for good.
/// Returns the previous accounts and the event to emit.
pub fn update_controllers_as(
    token: &mut MembershipToken,
    caller: &Account,
    kind: ControllerType,
    new_controllers: Controllers,
) -> (r: Result<(Controllers, ControllersUpdateEvent), Error>)
    requires
        old(token).wf(),
    ensures
        final(token).wf(),
        !holds_role(role_accounts(old(token).controllers, kind)@, caller@) <==> r == Err::<
            (Controllers, ControllersUpdateEvent),
            Error,
        >(Error::AccessDenied),
        r matches Err(e) ==> e == Error::AccessDenied,
        r is Err ==> *final(token) == *old(token),
        r matches Ok((prev, ev)) ==> {
            &&& prev == role_accounts(old(token).controllers, kind)
            &&& role_accounts(final(token).controllers, kind) == new_controllers
            &&& other_roles_kept(final(token).controllers, old(token).controllers, kind)
            &&& final(token).pending_members == old(token).pending_members
            &&& final(token).members == old(token).members
            &&& ev.kind == kind
            &&& identities(ev.old_controllers@) == identities(prev@)
            &&& identities(ev.new_controllers@) == identities(new_controllers@)
        },
{
    let allowed = match kind {
        ControllerType::Issue => is_controller(&token.controllers.issue_controllers, caller),
        ControllerType::Revoke => is_controller(&token.controllers.revoke_controllers, caller),
        ControllerType::EventListeners => is_controller(
            &token.controllers.event_listeners_controllers,
            caller,
        ),
    };
    if !allowed {
        return Err(Error::AccessDenied);
    }
    let announced = copy_controllers(&new_controllers);
    let prev = match kind {
        ControllerType::Issue => token.update_issue_controllers(new_controllers),
        ControllerType::Revoke => token.update_revoke_controllers(new_controllers),
        ControllerType::EventListeners => token.update_event_listeners_controllers(new_controllers),
    };
    let old_controllers = copy_controllers(&prev);
    Ok((prev, ControllersUpdateEvent { kind, old_controllers, new_controllers: announced }))
}

} // verus!
