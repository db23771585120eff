//! The membership registry: an account goes from unlisted to pending to
//! member and back to unlisted, or from pending back to unlisted.
use vstd::prelude::*;

use crate::access::{copy_controllers, identities, single_controller, Controllers};
use crate::account::Account;

verus! {

/// Why a registry operation was refused.
#[derive(Debug, Clone, Copy, PartialEq, Eq, Structural)]
pub enum Error {
    AlreadyIsAMember,
    IsNotAMember,
    AccessDenied,
    ForbiddenOperation,
}

impl Error {
    /// The variant's name.
    pub fn name(&self) -> (r: String)
        ensures
            r@ == match *self {
                Error::AlreadyIsAMember => "AlreadyIsAMember"@,
                Error::IsNotAMember => "IsNotAMember"@,
                Error::AccessDenied => "AccessDenied"@,
                Error::ForbiddenOperation => "ForbiddenOperation"@,
            },
    {
        match self {
            Error::AlreadyIsAMember => String::from_str("AlreadyIsAMember"),
            Error::IsNotAMember => String::from_str("IsNotAMember"),
            Error::AccessDenied => String::from_str("AccessDenied"),
            Error::ForbiddenOperation => String::from_str("ForbiddenOperation"),
        }
    }
}

/// The step of the membership life cycle that an event reports.
#[derive(Debug, Clone, Copy, PartialEq, Eq, Structural)]
pub enum MembershipStatus {
    Issued,
    Revoked,
    Accepted,
    Declined,
}

/// The roles of the registry.
#[derive(Debug, Clone, Copy, PartialEq, Eq, Structural)]
pub enum ControllerType {
    Issue,
    Revoke,
    EventListeners,
}

/// The accounts that hold each role of the registry.
#[derive(Debug, Clone)]
pub struct ControllerList {
    pub issue_controllers: Controllers,
    pub revoke_controllers: Controllers,
    pub event_listeners_controllers: Controllers,
}

impl ControllerList {
    /// Every role held by `controller` alone, or by nobody.
    pub fn single(controller: Option<Account>) -> (r: ControllerList)
        ensures
            match controller {
                Some(c) => {
                    &&& identities(r.issue_controllers@) == seq![c@]
                    &&& identities(r.revoke_controllers@) == seq![c@]
                    &&& identities(r.event_listeners_controllers@) == seq![c@]
                },
                None => {
                    &&& r.issue_controllers@.len() == 0
                    &&& r.revoke_controllers@.len() == 0
                    &&& r.event_listeners_controllers@.len() == 0
                },
            },
    {
        ControllerList {
            issue_controllers: single_controller(&controller),
            revoke_controllers: single_controller(&controller),
            event_listeners_controllers: single_controller(&controller),
        }
    }

    /// Every role held by the same accounts, `controllers`.
    pub fn uniform(controllers: &Controllers) -> (r: ControllerList)
        ensures
            identities(r.issue_controllers@) == identities(controllers@),
            identities(r.revoke_controllers@) == identities(controllers@),
            identities(r.event_listeners_controllers@) == identities(controllers@),
    {
        ControllerList {
            issue_controllers: copy_controllers(controllers),
            revoke_controllers: copy_controllers(controllers),
            event_listeners_controllers: copy_controllers(controllers),
        }
    }
}

/// `member` moved to `new_status`.
#[derive(Debug)]
pub struct MembershipStatusUpdateEvent {
    pub member: Account,
    pub new_status: MembershipStatus,
}

/// The voting power of one account: 1 for a member, 0 otherwise.
#[derive(Debug)]
pub struct VotingPowerUpdateEvent {
    pub voter: Account,
    pub new_voting_power: u64,
}

/// The total voting power: the number of members.
#[derive(Debug)]
pub struct TotalVotingPowerUpdateEvent {
    pub new_total_voting_power: u64,
}

/// A role of the registry was given a new set of accounts in place of the
/// old one.
#[derive(Debug)]
pub struct ControllersUpdateEvent {
    pub kind: ControllerType,
    pub old_controllers: Controllers,
    pub new_controllers: Controllers,
}

/// Whether identity `who` is listed in `s`.
pub open spec fn listed(s: Seq<Account>, who: Seq<u8>) -> bool {
    exists|i: int| 0 <= i < s.len() && (#[trigger] s[i])@ == who
}

/// No identity is listed twice.
pub open spec fn listed_once(s: Seq<Account>) -> bool {
    forall|i: int, j: int|
        0 <= i < s.len() && 0 <= j < s.len() && i != j ==> (#[trigger] s[i])@ != (#[trigger] s[j])@
}

fn find_listed(s: &Vec<Account>, who: &Account) -> (r: Option<usize>)
    ensures
        match r {
            Some(i) => i < s@.len() && s@[i as int]@ == who@,
            None => !listed(s@, who@),
        },
{
    let mut i: usize = 0;
    while i < s.len()
        invariant
            0 <= i <= s.len(),
            forall|j: int| 0 <= j < i ==> (#[trigger] s@[j])@ != who@,
        decreases s.len() - i,
    {
        if s[i].same_as(who) {
            return Some(i);
        }
        i += 1;
    }
    None
}

fn add_listed(s: &mut Vec<Account>, who: Account)
    requires
        listed_once(old(s)@),
        !listed(old(s)@, who@),
    ensures
        listed_once(final(s)@),
        final(s)@.len() == old(s)@.len() + 1,
        forall|w: Seq<u8>| #[trigger] listed(final(s)@, w) == (listed(old(s)@, w) || w == who@),
{
    let ghost s0 = s@;
    let ghost wv = who@;
    s.push(who);
    let ghost s1 = s@;
    assert forall|w: Seq<u8>| #[trigger] listed(s1, w) == (listed(s0, w) || w == wv) by {
        if listed(s0, w) {
            let i = choose|i: int| 0 <= i < s0.len() && (#[trigger] s0[i])@ == w;
            assert(s1[i] == s0[i]);
        }
        if listed(s1, w) && w != wv {
            let i = choose|i: int| 0 <= i < s1.len() && (#[trigger] s1[i])@ == w;
            assert(i < s0.len() && s1[i] == s0[i]);
        }
        if w == wv {
            assert(s1[s0.len() as int]@ == w);
        }
    }
    assert forall|a: int, b: int|
        0 <= a < s1.len() && 0 <= b < s1.len() && a != b implies (#[trigger] s1[a])@ != (
        #[trigger] s1[b])@ by {
        if a < s0.len() {
            assert(s1[a] == s0[a]);
        }
        if b < s0.len() {
            assert(s1[b] == s0[b]);
        }
        if a == s0.len() {
            assert(!listed(s0, wv));
            assert(s0[b] == s1[b]);
        }
        if b == s0.len() {
            assert(!listed(s0, wv));
            assert(s0[a] == s1[a]);
        }
    }
}

fn remove_listed(s: &mut Vec<Account>, i: usize)
    requires
        listed_once(old(s)@),
        i < old(s)@.len(),
    ensures
        listed_once(final(s)@),
        final(s)@.len() + 1 == old(s)@.len(),
        forall|w: Seq<u8>| #[trigger]
            listed(final(s)@, w) == (listed(old(s)@, w) && w != old(s)@[i as int]@),
{
    let ghost s0 = s@;
    s.remove(i);
    let ghost s1 = s@;
    assert forall|w: Seq<u8>| #[trigger] listed(s1, w) == (listed(s0, w) && w != s0[i as int]@) by {
        if listed(s0, w) && w != s0[i as int]@ {
            let k = choose|k: int| 0 <= k < s0.len() && (#[trigger] s0[k])@ == w;
            let k2 = if k < i { k } else { k - 1 };
            assert(s1[k2] == s0[k]);
        }
        if listed(s1, w) {
            let k = choose|k: int| 0 <= k < s1.len() && (#[trigger] s1[k])@ == w;
            let k2 = if k < i { k } else { k + 1 };
            assert(s1[k] == s0[k2]);
        }
    }
    assert forall|a: int, b: int|
        0 <= a < s1.len() && 0 <= b < s1.len() && a != b implies (#[trigger] s1[a])@ != (
        #[trigger] s1[b])@ by {
        let a2 = if a < i { a } else { a + 1 };
        let b2 = if b < i { b } else { b + 1 };
        assert(s1[a] == s0[a2] && s1[b] == s0[b2]);
    }
}

/// The registry: pending and accepted members, and the roles that govern it.
#[derive(Debug)]
pub struct MembershipToken {
    pub pending_members: Vec<Account>,
    pub members: Vec<Account>,
    pub controllers: ControllerList,
}

impl MembershipToken {
    /// Each set lists an identity at most once, and no identity is both
    /// pending and a member.
    pub open spec fn wf(&self) -> bool {
        &&& listed_once(self.pending_members@)
        &&& listed_once(self.members@)
        &&& forall|w: Seq<u8>| #[trigger]
            listed(self.pending_members@, w) ==> !listed(self.members@, w)
    }

    pub open spec fn member(&self, who: Seq<u8>) -> bool {
        listed(self.members@, who)
    }

    pub open spec fn pending(&self, who: Seq<u8>) -> bool {
        listed(self.pending_members@, who)
    }

    /// An empty registry governed by `controllers`.
    pub fn new(controllers: ControllerList) -> (r: MembershipToken)
        ensures
            r.wf(),
            r.pending_members@.len() == 0,
            r.members@.len() == 0,
            r.controllers == controllers,
    {
        MembershipToken { pending_members: Vec::new(), members: Vec::new(), controllers }
    }

    pub fn is_member(&self, holder: &Account) -> (r: bool)
        ensures
            r == self.member(holder@),
    {
        find_listed(&self.members, holder).is_some()
    }

    pub fn is_pending_member(&self, holder: &Account) -> (r: bool)
        ensures
            r == self.pending(holder@),
    {
        find_listed(&self.pending_members, holder).is_some()
    }

    /// The number of members.
    pub fn get_total_members(&self) -> (r: usize)
        ensures
            r == self.members@.len(),
    {
        self.members.len()
    }

    /// Offers membership to `to`, which becomes pending.
    pub fn issue_membership(&mut self, to: Account) -> (r: Result<MembershipStatusUpdateEvent, Error>)
        requires
            old(self).wf(),
        ensures
            final(self).wf(),
            final(self).controllers == old(self).controllers,
            (old(self).member(to@) || old(self).pending(to@)) <==> r == Err::<
                MembershipStatusUpdateEvent,
                Error,
            >(Error::AlreadyIsAMember),
            r matches Err(e) ==> e == Error::AlreadyIsAMember,
            r is Err ==> *final(self) == *old(self),
            r matches Ok(ev) ==> {
                &&& final(self).members == old(self).members
                &&& forall|w: Seq<u8>| #[trigger]
                    final(self).pending(w) == (old(self).pending(w) || w == to@)
                &&& ev.member@ == to@ && ev.new_status == MembershipStatus::Issued
            },
    {
        if find_listed(&self.members, &to).is_some() || find_listed(&self.pending_members, &to).is_some() {
            return Err(Error::AlreadyIsAMember);
        }
        let member = to.duplicate();
        add_listed(&mut self.pending_members, to);
        Ok(MembershipStatusUpdateEvent { member, new_status: MembershipStatus::Issued })
    }

    /// `caller` takes up the membership offered to it.
    pub fn accept_membership(&mut self, caller: Account) -> (r: Result<
        (MembershipStatusUpdateEvent, TotalVotingPowerUpdateEvent, VotingPowerUpdateEvent),
        Error,
    >)
        requires
            old(self).wf(),
        ensures
            final(self).wf(),
            final(self).controllers == old(self).controllers,
            !old(self).pending(caller@) <==> r == Err::<
                (MembershipStatusUpdateEvent, TotalVotingPowerUpdateEvent, VotingPowerUpdateEvent),
                Error,
            >(Error::IsNotAMember),
            r matches Err(e) ==> e == Error::IsNotAMember,
            r is Err ==> *final(self) == *old(self),
            r matches Ok((m, t, v)) ==> {
                &&& forall|w: Seq<u8>| #[trigger]
                    final(self).pending(w) == (old(self).pending(w) && w != caller@)
                &&& forall|w: Seq<u8>| #[trigger]
                    final(self).member(w) == (old(self).member(w) || w == caller@)
                &&& final(self).members@.len() == old(self).members@.len() + 1
                &&& m.member@ == caller@ && m.new_status == MembershipStatus::Accepted
                &&& t.new_total_voting_power == final(self).members@.len()
                &&& v.voter@ == caller@ && v.new_voting_power == 1
            },
    {
        match find_listed(&self.pending_members, &caller) {
            None => Err(Error::IsNotAMember),
            Some(i) => {
                assert(listed(self.pending_members@, caller@));
                remove_listed(&mut self.pending_members, i);
                let member = caller.duplicate();
                let voter = caller.duplicate();
                add_listed(&mut self.members, caller);
                let total = self.members.len() as u64;
                Ok(
                    (
                        MembershipStatusUpdateEvent { member, new_status: MembershipStatus::Accepted },
                        TotalVotingPowerUpdateEvent { new_total_voting_power: total },
                        VotingPowerUpdateEvent { voter, new_voting_power: 1 },
                    ),
                )
            },
        }
    }

    /// `caller` turns down the membership offered to it.
    pub fn decline_membership(&mut self, caller: Account) -> (r: Result<
        MembershipStatusUpdateEvent,
        Error,
    >)
        requires
            old(self).wf(),
        ensures
            final(self).wf(),
            final(self).controllers == old(self).controllers,
            !old(self).pending(caller@) <==> r == Err::<MembershipStatusUpdateEvent, Error>(
                Error::IsNotAMember,
            ),
            r matches Err(e) ==> e == Error::IsNotAMember,
            r is Err ==> *final(self) == *old(self),
            r matches Ok(ev) ==> {
                &&& final(self).members == old(self).members
                &&& forall|w: Seq<u8>| #[trigger]
                    final(self).pending(w) == (old(self).pending(w) && w != caller@)
                &&& ev.member@ == caller@ && ev.new_status == MembershipStatus::Declined
            },
    {
        match find_listed(&self.pending_members, &caller) {
            None => Err(Error::IsNotAMember),
            Some(i) => {
                remove_listed(&mut self.pending_members, i);
                Ok(MembershipStatusUpdateEvent { member: caller, new_status: MembershipStatus::Declined })
            },
        }
    }

    /// Ends the membership of `from`.
    pub fn revoke_membership(&mut self, from: Account) -> (r: Result<
        (MembershipStatusUpdateEvent, TotalVotingPowerUpdateEvent, VotingPowerUpdateEvent),
        Error,
    >)
        requires
            old(self).wf(),
        ensures
            final(self).wf(),
            final(self).controllers == old(self).controllers,
            !old(self).member(from@) <==> r == Err::<
                (MembershipStatusUpdateEvent, TotalVotingPowerUpdateEvent, VotingPowerUpdateEvent),
                Error,
            >(Error::IsNotAMember),
            r matches Err(e) ==> e == Error::IsNotAMember,
            r is Err ==> *final(self) == *old(self),
            r matches Ok((m, t, v)) ==> {
                &&& final(self).pending_members == old(self).pending_members
                &&& forall|w: Seq<u8>| #[trigger]
                    final(self).member(w) == (old(self).member(w) && w != from@)
                &&& final(self).members@.len() + 1 == old(self).members@.len()
                &&& m.member@ == from@ && m.new_status == MembershipStatus::Revoked
                &&& t.new_total_voting_power == final(self).members@.len()
                &&& v.voter@ == from@ && v.new_voting_power == 0
            },
    {
        match find_listed(&self.members, &from) {
            None => Err(Error::IsNotAMember),
            Some(i) => {
                remove_listed(&mut self.members, i);
                let total = self.members.len() as u64;
                let voter = from.duplicate();
                Ok(
                    (
                        MembershipStatusUpdateEvent { member: from, new_status: MembershipStatus::Revoked },
                        TotalVotingPowerUpdateEvent { new_total_voting_power: total },
                        VotingPowerUpdateEvent { voter, new_voting_power: 0 },
                    ),
                )
            },
        }
    }

    /// Replaces the accounts of the issue role; returns the previous ones.
    pub fn update_issue_controllers(&mut self, new_issue_controllers: Controllers) -> (r: Controllers)
        ensures
            r == old(self).controllers.issue_controllers,
            final(self).controllers.issue_controllers == new_issue_controllers,
            final(self).controllers.revoke_controllers == old(self).controllers.revoke_controllers,
            final(self).controllers.event_listeners_controllers
                == old(self).controllers.event_listeners_controllers,
            final(self).pending_members == old(self).pending_members,
            final(self).members == old(self).members,
    {
        let mut c = new_issue_controllers;
        std::mem::swap(&mut self.controllers.issue_controllers, &mut c);
        c
    }

    /// Replaces the accounts of the revoke role; returns the previous ones.
    pub fn update_revoke_controllers(&mut self, new_revoke_controllers: Controllers) -> (r: Controllers)
        ensures
            r == old(self).controllers.revoke_controllers,
            final(self).controllers.revoke_controllers == new_revoke_controllers,
            final(self).controllers.issue_controllers == old(self).controllers.issue_controllers,
            final(self).controllers.event_listeners_controllers
                == old(self).controllers.event_listeners_controllers,
            final(self).pending_members == old(self).pending_members,
            final(self).members == old(self).members,
    {
        let mut c = new_revoke_controllers;
        std::mem::swap(&mut self.controllers.revoke_controllers, &mut c);
        c
    }

    /// Replaces the accounts of the listener-management role; returns the
    /// previous ones.
    pub fn update_event_listeners_controllers(
        &mut self,
        new_event_listeners_controllers: Controllers,
    ) -> (r: Controllers)
        ensures
            r == old(self).controllers.event_listeners_controllers,
            final(self).controllers.event_listeners_controllers == new_event_listeners_controllers,
            final(self).controllers.issue_controllers == old(self).controllers.issue_controllers,
            final(self).controllers.revoke_controllers == old(self).controllers.revoke_controllers,
            final(self).pending_members == old(self).pending_members,
            final(self).members == old(self).members,
    {
        let mut c = new_event_listeners_controllers;
        std::mem::swap(&mut self.controllers.event_listeners_controllers, &mut c);
        c
    }
}

} // verus!
