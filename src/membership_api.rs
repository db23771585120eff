//! Request and response shapes of the registry's entry points.
use vstd::prelude::*;

use crate::access::{copy_controllers, identities, Controllers};
use crate::account::Account;
use crate::ledger_api::outcome_summary;
use crate::membership::{ControllerList, Error, MembershipToken};

verus! {

/// The arguments of a registry's creation: optionally the accounts that hold
/// every role. Without them the creator holds them all.
#[derive(Debug)]
pub struct InitRequest {
    pub default_controllers: Option<Controllers>,
}

#[derive(Debug)]
pub struct IsMemberRequest {
    pub prin: Account,
}

#[derive(Debug, Clone, Copy, PartialEq, Eq, Structural)]
pub struct IsMemberResponse {
    pub is_member: bool,
}

#[derive(Debug, Clone, Copy, PartialEq, Eq, Structural)]
pub struct GetTotalMembersResponse {
    pub total_members: u64,
}

#[derive(Debug)]
pub struct IssueRevokeMembershipsRequest {
    pub principals: Vec<Account>,
}

/// For each account of an issue or revoke request, whether it succeeded.
#[derive(Debug)]
pub struct IssueRevokeMembershipsResponse {
    pub results: Vec<Result<(), Error>>,
}

/// Whether an accept or decline succeeded.
#[derive(Debug)]
pub struct AcceptDeclineMembershipResponse {
    pub result: Result<(), Error>,
}

#[derive(Debug)]
pub struct UpdateControllerRequest {
    pub new_controllers: Controllers,
}

#[derive(Debug)]
pub struct UpdateControllerResponse {
    pub old_controllers: Controllers,
}

#[derive(Debug)]
pub struct GetControllersResponse {
    pub controllers: ControllerList,
}

/// The accounts of every role, in order.
pub fn get_controllers(token: &MembershipToken) -> (r: GetControllersResponse)
    ensures
        identities(r.controllers.issue_controllers@) == identities(token.controllers.issue_controllers@),
        identities(r.controllers.revoke_controllers@) == identities(token.controllers.revoke_controllers@),
        identities(r.controllers.event_listeners_controllers@) == identities(
            token.controllers.event_listeners_controllers@,
        ),
{
    GetControllersResponse {
        controllers: ControllerList {
            issue_controllers: copy_controllers(&token.controllers.issue_controllers),
            revoke_controllers: copy_controllers(&token.controllers.revoke_controllers),
            event_listeners_controllers: copy_controllers(
                &token.controllers.event_listeners_controllers,
            ),
        },
    }
}

/// The registry that `caller` creates with `request`.
pub fn init(caller: &Account, request: &InitRequest) -> (r: MembershipToken)
    ensures
        r.wf(),
        r.pending_members@.len() == 0,
        r.members@.len() == 0,
        match request.default_controllers {
            Some(c) => {
                &&& identities(r.controllers.issue_controllers@) == identities(c@)
                &&& identities(r.controllers.revoke_controllers@) == identities(c@)
                &&& identities(r.controllers.event_listeners_controllers@) == identities(c@)
            },
            None => {
                &&& identities(r.controllers.issue_controllers@) == seq![caller@]
                &&& identities(r.controllers.revoke_controllers@) == seq![caller@]
                &&& identities(r.controllers.event_listeners_controllers@) == seq![caller@]
            },
        },
{
    let controllers = match &request.default_controllers {
        Some(c) => ControllerList::uniform(c),
        None => ControllerList::single(Some(caller.duplicate())),
    };
    MembershipToken::new(controllers)
}

pub fn is_member(token: &MembershipToken, request: &IsMemberRequest) -> (r: IsMemberResponse)
    ensures
        r.is_member == token.member(request.prin@),
{
    IsMemberResponse { is_member: token.is_member(&request.prin) }
}

/// Whether the account of `request` has a pending offer; the answer is
/// carried in the same response shape as `is_member`.
pub fn is_pending_member(token: &MembershipToken, request: &IsMemberRequest) -> (r: IsMemberResponse)
    ensures
        r.is_member == token.pending(request.prin@),
{
    IsMemberResponse { is_member: token.is_pending_member(&request.prin) }
}

pub fn get_total_members(token: &MembershipToken) -> (r: GetTotalMembersResponse)
    ensures
        r.total_members == token.members@.len(),
{
    GetTotalMembersResponse { total_members: token.get_total_members() as u64 }
}

impl IssueRevokeMembershipsResponse {
    /// Whether each account's operation succeeded, and with which error it
    /// failed.
    pub fn from_outcomes<T>(outcomes: &Vec<Result<T, Error>>) -> (r: IssueRevokeMembershipsResponse)
        ensures
            r.results@.len() == outcomes@.len(),
            forall|k: int| 0 <= k < outcomes@.len() ==> match #[trigger] outcomes@[k] {
                Ok(_) => r.results@[k] == Ok::<(), Error>(()),
                Err(e) => r.results@[k] == Err::<(), Error>(e),
            },
    {
        IssueRevokeMembershipsResponse { results: outcome_summary(outcomes) }
    }
}

impl AcceptDeclineMembershipResponse {
    /// Whether the operation succeeded, and with which error it failed.
    pub fn from_outcome<T>(outcome: &Result<T, Error>) -> (r: AcceptDeclineMembershipResponse)
        ensures
            match outcome {
                Ok(_) => r.result == Ok::<(), Error>(()),
                Err(e) => r.result == Err::<(), Error>(*e),
            },
    {
        let result = match outcome {
            Ok(_) => Ok(()),
            Err(e) => Err(*e),
        };
        AcceptDeclineMembershipResponse { result }
    }
}

} // verus!
