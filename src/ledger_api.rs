//! Request and response shapes of the ledger's entry points.
use vstd::prelude::*;

use crate::access::{copy_controllers, holds_role, identities, Controllers};
use crate::account::Account;
use crate::ledger::{
    is_account, ControllerList, CurrencyToken, Error, InfoUpdateEvent, TokenInfo, TokenMoveEvent,
    TotalSupplyUpdateEvent, VotingPowerUpdateEvent,
};
use crate::ledger_service::{copy_info, update_info_as, TransferEntry};
use crate::tasks::TaskId;

verus! {

/// The arguments of a ledger's creation: its metadata, and optionally the
/// accounts that hold every role. Without them the creator holds them all.
#[derive(Debug)]
pub struct InitRequest {
    pub info: TokenInfo,
    pub default_controllers: Option<Controllers>,
}

/// The arguments of a ledger's creation whose creator holds every role.
#[derive(Debug)]
pub struct CurrencyTokenInitRequest {
    pub info: TokenInfo,
}

#[derive(Debug)]
pub struct GetBalanceOfRequest {
    pub account_owner: Account,
}

#[derive(Debug, Clone, Copy, PartialEq, Eq, Structural)]
pub struct GetBalanceOfResponse {
    pub balance: u64,
}

#[derive(Debug, Clone, Copy, PartialEq, Eq, Structural)]
pub struct GetTotalSupplyResponse {
    pub total_supply: u64,
}

#[derive(Debug)]
pub struct GetInfoResponse {
    pub info: TokenInfo,
}

#[derive(Debug)]
pub struct UpdateInfoRequest {
    pub new_info: TokenInfo,
}

#[derive(Debug)]
pub struct UpdateInfoResponse {
    pub old_info: TokenInfo,
}

#[derive(Debug)]
pub struct BurnRequest {
    pub qty: u64,
    pub event_payload: Option<Vec<u8>>,
}

#[derive(Debug)]
pub struct TransferRequest {
    pub entries: Vec<TransferEntry>,
}

/// For each entry of a mint or transfer request, whether it succeeded.
#[derive(Debug)]
pub struct TransferResponse {
    pub results: Vec<Result<(), Error>>,
}

#[derive(Debug)]
pub struct DequeueRecurrentTaskRequest {
    pub task_ids: Vec<TaskId>,
}

/// For each identifier of a cancellation request, whether that task was
/// cancelled.
#[derive(Debug)]
pub struct DequeueRecurrentTaskResponse {
    pub succeed: Vec<bool>,
}

#[derive(Debug)]
pub struct GetControllersResponse {
    pub controllers: ControllerList,
}

#[derive(Debug)]
pub struct UpdateControllersRequest {
    pub new_controllers: Controllers,
}

#[derive(Debug)]
pub struct UpdateControllersResponse {
    pub old_controllers: Controllers,
}

/// The accounts of every role, in order.
pub fn get_controllers(token: &CurrencyToken) -> (r: GetControllersResponse)
    ensures
        identities(r.controllers.mint_controllers@) == identities(token.controllers.mint_controllers@),
        identities(r.controllers.info_controllers@) == identities(token.controllers.info_controllers@),
        identities(r.controllers.event_listeners_controllers@) == identities(
            token.controllers.event_listeners_controllers@,
        ),
{
    GetControllersResponse {
        controllers: ControllerList {
            mint_controllers: copy_controllers(&token.controllers.mint_controllers),
            info_controllers: copy_controllers(&token.controllers.info_controllers),
            event_listeners_controllers: copy_controllers(
                &token.controllers.event_listeners_controllers,
            ),
        },
    }
}

/// The ledger that `caller` creates with `request`.
pub fn init(caller: &Account, request: InitRequest) -> (r: CurrencyToken)
    ensures
        r.wf(),
        r.balances@.len() == 0,
        r.total_supply == 0,
        r.info == request.info,
        r.recurrent_mint_tasks@.len() == 0,
        r.recurrent_transfer_tasks@.len() == 0,
        match request.default_controllers {
            Some(c) => {
                &&& identities(r.controllers.mint_controllers@) == identities(c@)
                &&& identities(r.controllers.info_controllers@) == identities(c@)
                &&& identities(r.controllers.event_listeners_controllers@) == identities(c@)
            },
            None => {
                &&& identities(r.controllers.mint_controllers@) == seq![caller@]
                &&& identities(r.controllers.info_controllers@) == seq![caller@]
                &&& identities(r.controllers.event_listeners_controllers@) == seq![caller@]
            },
        },
{
    let controllers = match &request.default_controllers {
        Some(c) => ControllerList::uniform(c),
        None => ControllerList::single(Some(caller.duplicate())),
    };
    CurrencyToken::new(request.info, controllers)
}

impl CurrencyTokenInitRequest {
    /// The same creation, with the creator holding every role.
    pub fn into_init_request(self) -> (r: InitRequest)
        ensures
            r.info == self.info,
            r.default_controllers is None,
    {
        InitRequest { info: self.info, default_controllers: None }
    }
}

pub fn get_balance_of(token: &CurrencyToken, request: &GetBalanceOfRequest) -> (r: GetBalanceOfResponse)
    requires
        token.wf(),
    ensures
        r.balance == token.balance(request.account_owner@),
{
    GetBalanceOfResponse { balance: token.balance_of(&request.account_owner) }
}

pub fn get_total_supply(token: &CurrencyToken) -> (r: GetTotalSupplyResponse)
    ensures
        r.total_supply == token.total_supply,
{
    GetTotalSupplyResponse { total_supply: token.total_supply }
}

pub fn get_info(token: &CurrencyToken) -> (r: GetInfoResponse)
    ensures
        r.info.name@ == token.info.name@,
        r.info.symbol@ == token.info.symbol@,
        r.info.decimals == token.info.decimals,
{
    GetInfoResponse { info: copy_info(&token.info) }
}

/// Replaces the metadata on behalf of `caller`, who must hold the info role.
pub fn update_info(token: &mut CurrencyToken, caller: &Account, request: UpdateInfoRequest) -> (r: Result<
    (UpdateInfoResponse, InfoUpdateEvent),
    Error,
>)
    requires
        old(token).wf(),
    ensures
        final(token).wf(),
        !holds_role(old(token).controllers.info_controllers@, caller@) <==> r is Err,
        r matches Err(e) ==> e == Error::AccessDenied,
        r is Err ==> *final(token) == *old(token),
        r matches Ok((resp, ev)) ==> {
            &&& resp.old_info == old(token).info
            &&& final(token).info == request.new_info
            &&& final(token).balances == old(token).balances
            &&& final(token).total_supply == old(token).total_supply
            &&& final(token).controllers == old(token).controllers
            &&& final(token).recurrent_mint_tasks == old(token).recurrent_mint_tasks
            &&& final(token).recurrent_transfer_tasks == old(token).recurrent_transfer_tasks
            &&& ev.new_info.name@ == request.new_info.name@
            &&& ev.new_info.symbol@ == request.new_info.symbol@
            &&& ev.new_info.decimals == request.new_info.decimals
        },
{
    match update_info_as(token, caller, request.new_info) {
        Ok((old_info, ev)) => Ok((UpdateInfoResponse { old_info }, ev)),
        Err(e) => Err(e),
    }
}

/// Burns `request.qty` of `caller`'s own units. On success returns the
/// events in the order they are emitted: the move, the caller's balance,
/// the total supply.
pub fn burn(token: &mut CurrencyToken, caller: &Account, request: BurnRequest) -> (r: Result<
    (TokenMoveEvent, VotingPowerUpdateEvent, TotalSupplyUpdateEvent),
    Error,
>)
    requires
        old(token).wf(),
    ensures
        final(token).wf(),
        request.qty == 0 ==> r == Err::<
            (TokenMoveEvent, VotingPowerUpdateEvent, TotalSupplyUpdateEvent),
            Error,
        >(Error::ZeroQuantity),
        request.qty > 0 && request.qty > old(token).balance(caller@) ==> r == Err::<
            (TokenMoveEvent, VotingPowerUpdateEvent, TotalSupplyUpdateEvent),
            Error,
        >(Error::InsufficientBalance),
        r is Err ==> *final(token) == *old(token),
        r is Ok <==> (0 < request.qty <= old(token).balance(caller@)),
        r matches Ok((m, v, s)) ==> {
            &&& final(token).same_but_ledger(old(token))
            &&& final(token).total_supply == old(token).total_supply - request.qty
            &&& forall|w: Seq<u8>| #[trigger]
                final(token).balance(w) == if w == caller@ {
                    old(token).balance(w) - request.qty
                } else {
                    old(token).balance(w) as int
                }
            &&& is_account(m.from, caller@) && m.to is None && m.qty == request.qty
                && m.payload == request.event_payload
            &&& v.voter@ == caller@ && v.new_voting_power == final(token).balance(caller@)
            &&& s.new_total_supply == final(token).total_supply
        },
{
    match token.burn(caller.duplicate(), request.qty, request.event_payload) {
        Ok((m, v)) => Ok((m, v, TotalSupplyUpdateEvent { new_total_supply: token.total_supply })),
        Err(e) => Err(e),
    }
}

impl TransferResponse {
    /// Whether each entry succeeded, and with which error it failed.
    pub fn from_outcomes<T>(outcomes: &Vec<Result<T, Error>>) -> (r: TransferResponse)
        ensures
            r.results@.len() == outcomes@.len(),
            forall|k: int| 0 <= k < outcomes@.len() ==> match #[trigger] outcomes@[k] {
                Ok(_) => r.results@[k] == Ok::<(), Error>(()),
                Err(e) => r.results@[k] == Err::<(), Error>(e),
            },
    {
        TransferResponse { results: outcome_summary(outcomes) }
    }
}

/// Whether each outcome succeeded, and with which error it failed.
pub fn outcome_summary<T, E: Copy>(outcomes: &Vec<Result<T, E>>) -> (r: Vec<Result<(), E>>)
    ensures
        r@.len() == outcomes@.len(),
        forall|k: int| 0 <= k < outcomes@.len() ==> match #[trigger] outcomes@[k] {
            Ok(_) => r@[k] == Ok::<(), E>(()),
            Err(e) => r@[k] == Err::<(), E>(e),
        },
{
    let mut out: Vec<Result<(), E>> = Vec::new();
    let mut i: usize = 0;
    while i < outcomes.len()
        invariant
            0 <= i <= outcomes.len(),
            out@.len() == i,
            forall|k: int| 0 <= k < i ==> match #[trigger] outcomes@[k] {
                Ok(_) => out@[k] == Ok::<(), E>(()),
                Err(e) => out@[k] == Err::<(), E>(e),
            },
        decreases outcomes.len() - i,
    {
        let item = match &outcomes[i] {
            Ok(_) => Ok(()),
            Err(e) => Err(*e),
        };
        out.push(item);
        i += 1;
    }
    out
}

} // verus!
