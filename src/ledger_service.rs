//! The ledger's entry points for external callers: role guards, batches and
//! recurring tasks. A batch tries every entry on its own, so the ledger ends
//! up reflecting exactly the entries that succeeded. The events of one entry
//! come in a fixed order: the move first, then the sender's balance, then
//! the receiver's.
use vstd::prelude::*;

use crate::access::{copy_controllers, holds_role, identities, is_controller, is_self, Controllers};
use crate::account::Account;
use crate::ledger::{
    is_account, ControllerList, ControllerType, ControllersUpdateEvent, CurrencyToken, Error,
    InfoUpdateEvent, TokenInfo, TokenMoveEvent, TotalSupplyUpdateEvent, VotingPowerUpdateEvent,
};
use crate::tasks::{has_id, owns, TaskId};

verus! {

/// How many times a recurring task fires.
#[derive(Debug, Clone, Copy, PartialEq, Eq, Structural)]
pub enum Iterations {
    Infinite,
    Exact(u64),
}

/// When a recurring task first fires and how often it fires again; handed
/// to the scheduling collaborator untouched.
#[derive(Debug, Clone, Copy, PartialEq, Eq, Structural)]
pub struct SchedulingOptions {
    pub delay_nano: u64,
    pub interval_nano: u64,
    pub iterations: Iterations,
}

/// One entry of a mint or transfer request.
#[derive(Debug)]
pub struct TransferEntry {
    pub to: Account,
    pub qty: u64,
    pub event_payload: Option<Vec<u8>>,
    pub recurrence: Option<SchedulingOptions>,
}

/// A transfer that fires again and again.
#[derive(Debug)]
pub struct RecurrentTransferTask {
    pub from: Account,
    pub to: Account,
    pub qty: u64,
    pub event_payload: Option<Vec<u8>>,
}

/// A mint that fires again and again.
#[derive(Debug)]
pub struct RecurrentMintTask {
    pub to: Account,
    pub qty: u64,
    pub event_payload: Option<Vec<u8>>,
}

/// What a recurring task does when it fires.
#[derive(Debug)]
pub enum CronTask {
    RecurrentTransfer(RecurrentTransferTask),
    RecurrentMint(RecurrentMintTask),
}

/// A task to hand to the scheduling collaborator, and when to fire it.
#[derive(Debug)]
pub struct ScheduleRequest {
    pub task: CronTask,
    pub options: SchedulingOptions,
}

/// The events of one successful mint entry, in the order they are emitted
/// (the move, the receiver's balance, the total supply),
/// and the task to schedule when the entry asked for recurrence.
#[derive(Debug)]
pub struct MintOutcome {
    pub moved: TokenMoveEvent,
    pub power: VotingPowerUpdateEvent,
    pub supply: TotalSupplyUpdateEvent,
    pub schedule: Option<ScheduleRequest>,
}

/// The events of one successful transfer entry, in the order they are
/// emitted, and the task to schedule when the entry asked for recurrence.
#[derive(Debug)]
pub struct TransferOutcome {
    pub moved: TokenMoveEvent,
    pub from_power: VotingPowerUpdateEvent,
    pub to_power: VotingPowerUpdateEvent,
    pub schedule: Option<ScheduleRequest>,
}

/// The events of a recurring task that fired successfully.
#[derive(Debug)]
pub enum FiredEvents {
    Minted(TokenMoveEvent, VotingPowerUpdateEvent, TotalSupplyUpdateEvent),
    Transferred(TokenMoveEvent, VotingPowerUpdateEvent, VotingPowerUpdateEvent),
}

/// The bytes of a payload, if there is one.
pub open spec fn payload_bytes(p: Option<Vec<u8>>) -> Option<Seq<u8>> {
    match p {
        Some(v) => Some(v@),
        None => None,
    }
}

fn copy_payload(p: &Option<Vec<u8>>) -> (r: Option<Vec<u8>>)
    ensures
        payload_bytes(r) == payload_bytes(*p),
{
    match p {
        Some(v) => {
            let mut out: Vec<u8> = Vec::new();
            let mut i: usize = 0;
            while i < v.len()
                invariant
                    0 <= i <= v.len(),
                    out@ =~= v@.subrange(0, i as int),
                decreases v.len() - i,
            {
                out.push(v[i]);
                i += 1;
            }
            assert(out@ =~= v@);
            Some(out)
        },
        None => None,
    }
}

/// The accounts that hold role `kind`.
pub open spec fn role_accounts(c: ControllerList, kind: ControllerType) -> Controllers {
    match kind {
        ControllerType::Mint => c.mint_controllers,
        ControllerType::Info => c.info_controllers,
        ControllerType::EventListeners => c.event_listeners_controllers,
    }
}

/// The roles other than `kind` are as in `b`.
pub open spec fn other_roles_kept(a: ControllerList, b: ControllerList, kind: ControllerType) -> bool {
    &&& kind != ControllerType::Mint ==> a.mint_controllers == b.mint_controllers
    &&& kind != ControllerType::Info ==> a.info_controllers == b.info_controllers
    &&& kind != ControllerType::EventListeners ==> a.event_listeners_controllers
        == b.event_listeners_controllers
}

/// `s` is what `recurrence` asks to schedule: nothing without a recurrence;
/// otherwise, with the same options, a mint (when `is_mint`) or a transfer
/// task that carries `from`, `to`, `qty` and `payload`.
pub open spec fn schedule_fits(
    recurrence: Option<SchedulingOptions>,
    s: Option<ScheduleRequest>,
    is_mint: bool,
    from: Seq<u8>,
    to: Seq<u8>,
    qty: u64,
    payload: Option<Seq<u8>>,
) -> bool {
    match recurrence {
        None => s is None,
        Some(opts) => s matches Some(req) && req.options == opts && if is_mint {
            req.task matches CronTask::RecurrentMint(t) && t.to@ == to && t.qty == qty
                && payload_bytes(t.event_payload) == payload
        } else {
            req.task matches CronTask::RecurrentTransfer(t) && t.from@ == from && t.to@ == to
                && t.qty == qty && payload_bytes(t.event_payload) == payload
        },
    }
}

/// `r` is a result that minting entry `e` may give.
pub open spec fn mint_result_fits(e: TransferEntry, r: Result<MintOutcome, Error>) -> bool {
    &&& e.qty == 0 ==> r == Err::<MintOutcome, Error>(Error::ZeroQuantity)
    &&& r matches Err(err) ==> (err == Error::ZeroQuantity || err == Error::SupplyOverflow)
    &&& r matches Ok(o) ==> {
        &&& o.moved.from is None && is_account(o.moved.to, e.to@) && o.moved.qty == e.qty
        &&& o.moved.payload == e.event_payload
        &&& o.power.voter@ == e.to@
        &&& schedule_fits(e.recurrence, o.schedule, true, seq![], e.to@, e.qty, payload_bytes(e.event_payload))
    }
}

/// `r` is a result that transferring entry `e` from `from` may give.
pub open spec fn transfer_result_fits(
    from: Seq<u8>,
    e: TransferEntry,
    r: Result<TransferOutcome, Error>,
) -> bool {
    &&& e.qty == 0 ==> r == Err::<TransferOutcome, Error>(Error::ZeroQuantity)
    &&& r matches Err(err) ==> (err == Error::ZeroQuantity || err == Error::InsufficientBalance)
    &&& r matches Ok(o) ==> {
        &&& is_account(o.moved.from, from) && is_account(o.moved.to, e.to@) && o.moved.qty == e.qty
        &&& o.moved.payload == e.event_payload
        &&& o.from_power.voter@ == from && o.to_power.voter@ == e.to@
        &&& schedule_fits(e.recurrence, o.schedule, false, from, e.to@, e.qty, payload_bytes(e.event_payload))
    }
}

/// The units created by the successful entries among `rs`.
pub open spec fn minted_total(rs: Seq<Result<MintOutcome, Error>>) -> nat
    decreases rs.len(),
{
    if rs.len() == 0 {
        0
    } else {
        minted_total(rs.drop_last()) + match rs.last() {
            Ok(o) => o.moved.qty as nat,
            Err(_) => 0,
        }
    }
}

/// The units created for `w` by the successful entries among `rs`.
pub open spec fn minted_to(rs: Seq<Result<MintOutcome, Error>>, w: Seq<u8>) -> nat
    decreases rs.len(),
{
    if rs.len() == 0 {
        0
    } else {
        minted_to(rs.drop_last(), w) + match rs.last() {
            Ok(o) => if is_account(o.moved.to, w) {
                o.moved.qty as nat
            } else {
                0
            },
            Err(_) => 0,
        }
    }
}

/// The units that the successful entries among `rs` took from `from` and
/// gave to another account.
pub open spec fn sent_total(rs: Seq<Result<TransferOutcome, Error>>, from: Seq<u8>) -> nat
    decreases rs.len(),
{
    if rs.len() == 0 {
        0
    } else {
        sent_total(rs.drop_last(), from) + match rs.last() {
            Ok(o) => if !is_account(o.moved.to, from) {
                o.moved.qty as nat
            } else {
                0
            },
            Err(_) => 0,
        }
    }
}

/// The units that the successful entries among `rs` gave to `w`, when `w` is
/// not the sender `from`.
pub open spec fn received_total(rs: Seq<Result<TransferOutcome, Error>>, from: Seq<u8>, w: Seq<u8>) -> nat
    decreases rs.len(),
{
    if rs.len() == 0 {
        0
    } else {
        received_total(rs.drop_last(), from, w) + match rs.last() {
            Ok(o) => if is_account(o.moved.to, w) && w != from {
                o.moved.qty as nat
            } else {
                0
            },
            Err(_) => 0,
        }
    }
}

/// The balance of `w` once the successful entries among `rs`, sent by
/// `from`, have been applied to `token`.
pub open spec fn balance_after(
    token: CurrencyToken,
    rs: Seq<Result<TransferOutcome, Error>>,
    from: Seq<u8>,
    w: Seq<u8>,
) -> int {
    token.balance(w) + received_total(rs, from, w) - if w == from {
        sent_total(rs, from)
    } else {
        0
    }
}

proof fn lemma_sender_receives_nothing(rs: Seq<Result<TransferOutcome, Error>>, from: Seq<u8>)
    ensures
        received_total(rs, from, from) == 0,
    decreases rs.len(),
{
    if rs.len() > 0 {
        lemma_sender_receives_nothing(rs.drop_last(), from);
    }
}

/// Mints one entry; on success also says what to schedule when the entry
/// asks for recurrence.
pub fn mint_entry(token: &mut CurrencyToken, entry: TransferEntry) -> (r: Result<MintOutcome, Error>)
    requires
        old(token).wf(),
    ensures
        final(token).wf(),
        final(token).same_but_ledger(old(token)),
        mint_result_fits(entry, r),
        r is Err ==> *final(token) == *old(token),
        r is Ok <==> (entry.qty > 0 && old(token).total_supply + entry.qty <= u64::MAX),
        final(token).total_supply == old(token).total_supply + match r {
            Ok(o) => o.moved.qty as nat,
            Err(_) => 0,
        },
        r is Ok ==> forall|w: Seq<u8>| #[trigger]
            final(token).balance(w) == if w == entry.to@ {
                old(token).balance(w) + entry.qty
            } else {
                old(token).balance(w) as int
            },
        r matches Ok(o) ==> o.power.new_voting_power == final(token).balance(entry.to@)
            && o.supply.new_total_supply == final(token).total_supply,
{
    let TransferEntry { to, qty, event_payload, recurrence } = entry;
    let schedule = match recurrence {
        Some(options) => Some(
            ScheduleRequest {
                task: CronTask::RecurrentMint(
                    RecurrentMintTask {
                        to: to.duplicate(),
                        qty,
                        event_payload: copy_payload(&event_payload),
                    },
                ),
                options,
            },
        ),
        None => None,
    };
    match token.mint(to, qty, event_payload) {
        Ok((moved, power)) => {
            let supply = TotalSupplyUpdateEvent { new_total_supply: token.total_supply };
            Ok(MintOutcome { moved, power, supply, schedule })
        },
        Err(err) => Err(err),
    }
}

/// Transfers one entry from `from`; on success also says what to schedule
/// when the entry asks for recurrence.
pub fn transfer_entry(token: &mut CurrencyToken, from: &Account, entry: TransferEntry) -> (r: Result<
    TransferOutcome,
    Error,
>)
    requires
        old(token).wf(),
    ensures
        final(token).wf(),
        final(token).same_but_ledger(old(token)),
        final(token).total_supply == old(token).total_supply,
        transfer_result_fits(from@, entry, r),
        r is Err ==> *final(token) == *old(token),
        r is Ok <==> (0 < entry.qty <= old(token).balance(from@)),
        r is Ok ==> forall|w: Seq<u8>| #[trigger]
            final(token).balance(w) == if w == from@ && w != entry.to@ {
                old(token).balance(w) - entry.qty
            } else if w == entry.to@ && w != from@ {
                old(token).balance(w) + entry.qty
            } else {
                old(token).balance(w) as int
            },
        r matches Ok(o) ==> o.from_power.new_voting_power == final(token).balance(from@)
            && o.to_power.new_voting_power == final(token).balance(entry.to@),
{
    let TransferEntry { to, qty, event_payload, recurrence } = entry;
    let schedule = match recurrence {
        Some(options) => Some(
            ScheduleRequest {
                task: CronTask::RecurrentTransfer(
                    RecurrentTransferTask {
                        from: from.duplicate(),
                        to: to.duplicate(),
                        qty,
                        event_payload: copy_payload(&event_payload),
                    },
                ),
                options,
            },
        ),
        None => None,
    };
    match token.transfer(from.duplicate(), to, qty, event_payload) {
        Ok((moved, from_power, to_power)) => Ok(
            TransferOutcome { moved, from_power, to_power, schedule },
        ),
        Err(err) => Err(err),
    }
}

/// Mints every entry on behalf of `caller`, who must hold the mint role.
/// Each entry is tried on its own and stands or falls alone; the results are
/// in the order of the entries.
pub fn mint_entries(token: &mut CurrencyToken, caller: &Account, entries: Vec<TransferEntry>) -> (r:
    Result<Vec<Result<MintOutcome, Error>>, Error>)
    requires
        old(token).wf(),
    ensures
        final(token).wf(),
        !holds_role(old(token).controllers.mint_controllers@, caller@) <==> r == Err::<
            Vec<Result<MintOutcome, Error>>,
            Error,
        >(Error::AccessDenied),
        r matches Err(e) ==> e == Error::AccessDenied,
        r is Err ==> *final(token) == *old(token),
        r matches Ok(rs) ==> {
            &&& rs@.len() == entries@.len()
            &&& final(token).same_but_ledger(old(token))
            &&& final(token).total_supply == old(token).total_supply + minted_total(rs@)
            &&& forall|w: Seq<u8>| #[trigger]
                final(token).balance(w) == old(token).balance(w) + minted_to(rs@, w)
            &&& forall|k: int| 0 <= k < rs@.len() ==> mint_result_fits(entries@[k], #[trigger] rs@[k])
            &&& forall|k: int|
                0 <= k < rs@.len() ==> (#[trigger] rs@[k] is Ok <==> (entries@[k].qty > 0
                    && old(token).total_supply + minted_total(rs@.subrange(0, k)) + entries@[k].qty
                    <= u64::MAX))
            &&& forall|k: int|
                0 <= k < rs@.len() ==> (#[trigger] rs@[k] matches Ok(o) ==> o.power.new_voting_power
                    == old(token).balance(entries@[k].to@) + minted_to(
                    rs@.subrange(0, k + 1),
                    entries@[k].to@,
                ) && o.supply.new_total_supply == old(token).total_supply + minted_total(
                    rs@.subrange(0, k + 1),
                ))
        },
{
    if !is_controller(&token.controllers.mint_controllers, caller) {
        return Err(Error::AccessDenied);
    }
    let ghost orig = entries@;
    let ghost t0 = *token;
    let mut rest = entries;
    let mut results: Vec<Result<MintOutcome, Error>> = Vec::new();
    let n = rest.len();
    let mut i: usize = 0;
    while i < n
        invariant
            token.wf(),
            token.same_but_ledger(&t0),
            n == orig.len(),
            0 <= i <= n,
            rest@ == orig.subrange(i as int, n as int),
            results@.len() == i,
            token.total_supply == t0.total_supply + minted_total(results@),
            forall|w: Seq<u8>| #[trigger] token.balance(w) == t0.balance(w) + minted_to(results@, w),
            forall|k: int| 0 <= k < i ==> mint_result_fits(orig[k], #[trigger] results@[k]),
            forall|k: int|
                0 <= k < i ==> (#[trigger] results@[k] is Ok <==> (orig[k].qty > 0
                    && t0.total_supply + minted_total(results@.subrange(0, k)) + orig[k].qty
                    <= u64::MAX)),
            forall|k: int|
                0 <= k < i ==> (#[trigger] results@[k] matches Ok(o) ==> o.power.new_voting_power
                    == t0.balance(orig[k].to@) + minted_to(results@.subrange(0, k + 1), orig[k].to@)
                    && o.supply.new_total_supply == t0.total_supply + minted_total(
                    results@.subrange(0, k + 1),
                )),
        decreases n - i,
    {
        let entry = rest.remove(0);
        assert(entry == orig[i as int]);
        let ghost before = results@;
        let ghost t1 = *token;
        let res = mint_entry(token, entry);
        results.push(res);
        assert(results@.drop_last() =~= before);
        assert(results@.subrange(0, i as int) =~= before);
        assert(results@.subrange(0, i + 1) =~= results@);
        assert forall|k: int| 0 <= k <= i implies results@.subrange(0, k) =~= before.subrange(0, k) by {}
        assert forall|w: Seq<u8>| #[trigger] token.balance(w) == t0.balance(w) + minted_to(results@, w) by {
            assert(t1.balance(w) == t0.balance(w) + minted_to(before, w));
        }
        assert(rest@ =~= orig.subrange(i + 1, n as int));
        i += 1;
    }
    Ok(results)
}

/// Transfers every entry from `caller`'s balance. Each entry is tried on its
/// own and stands or falls alone; the results are in the order of the
/// entries.
pub fn transfer_entries(token: &mut CurrencyToken, caller: &Account, entries: Vec<TransferEntry>) -> (r:
    Vec<Result<TransferOutcome, Error>>)
    requires
        old(token).wf(),
    ensures
        final(token).wf(),
        final(token).same_but_ledger(old(token)),
        final(token).total_supply == old(token).total_supply,
        r@.len() == entries@.len(),
        forall|k: int| 0 <= k < r@.len() ==> transfer_result_fits(caller@, entries@[k], #[trigger] r@[k]),
        forall|k: int|
            0 <= k < r@.len() ==> (#[trigger] r@[k] is Ok <==> 0 < entries@[k].qty <= old(
                token,
            ).balance(caller@) - sent_total(r@.subrange(0, k), caller@)),
        forall|w: Seq<u8>| #[trigger]
            final(token).balance(w) == old(token).balance(w) + received_total(r@, caller@, w) - if w
                == caller@ {
                sent_total(r@, caller@)
            } else {
                0
            },
        forall|k: int|
            0 <= k < r@.len() ==> (#[trigger] r@[k] matches Ok(o) ==> o.from_power.new_voting_power
                == balance_after(*old(token), r@.subrange(0, k + 1), caller@, caller@)
                && o.to_power.new_voting_power == balance_after(
                *old(token),
                r@.subrange(0, k + 1),
                caller@,
                entries@[k].to@,
            )),
{
    let ghost orig = entries@;
    let ghost t0 = *token;
    let mut rest = entries;
    let mut results: Vec<Result<TransferOutcome, Error>> = Vec::new();
    let n = rest.len();
    let mut i: usize = 0;
    while i < n
        invariant
            token.wf(),
            token.same_but_ledger(&t0),
            token.total_supply == t0.total_supply,
            n == orig.len(),
            0 <= i <= n,
            rest@ == orig.subrange(i as int, n as int),
            results@.len() == i,
            forall|k: int| 0 <= k < i ==> transfer_result_fits(caller@, orig[k], #[trigger] results@[k]),
            forall|k: int|
                0 <= k < i ==> (#[trigger] results@[k] is Ok <==> 0 < orig[k].qty <= t0.balance(
                    caller@,
                ) - sent_total(results@.subrange(0, k), caller@)),
            forall|w: Seq<u8>| #[trigger]
                token.balance(w) == t0.balance(w) + received_total(results@, caller@, w) - if w
                    == caller@ {
                    sent_total(results@, caller@)
                } else {
                    0
                },
            forall|k: int|
                0 <= k < i ==> (#[trigger] results@[k] matches Ok(o) ==> o.from_power.new_voting_power
                    == balance_after(t0, results@.subrange(0, k + 1), caller@, caller@)
                    && o.to_power.new_voting_power == balance_after(
                    t0,
                    results@.subrange(0, k + 1),
                    caller@,
                    orig[k].to@,
                )),
        decreases n - i,
    {
        let entry = rest.remove(0);
        assert(entry == orig[i as int]);
        let ghost before = results@;
        let ghost t1 = *token;
        proof {
            lemma_sender_receives_nothing(before, caller@);
        }
        assert(t1.balance(caller@) == t0.balance(caller@) - sent_total(before, caller@));
        let res = transfer_entry(token, caller, entry);
        results.push(res);
        assert(results@.drop_last() =~= before);
        assert(results@.subrange(0, i as int) =~= before);
        assert(results@.subrange(0, i + 1) =~= results@);
        assert forall|k: int| 0 <= k <= i implies results@.subrange(0, k) =~= before.subrange(0, k) by {}
        assert forall|w: Seq<u8>| #[trigger]
            token.balance(w) == t0.balance(w) + received_total(results@, caller@, w) - if w
                == caller@ {
                sent_total(results@, caller@)
            } else {
                0
            } by {
            assert(t1.balance(w) == t0.balance(w) + received_total(before, caller@, w) - if w
                == caller@ {
                sent_total(before, caller@)
            } else {
                0
            });
        }
        assert(rest@ =~= orig.subrange(i + 1, n as int));
        i += 1;
    }
    results
}

/// The task could not be handed to the scheduling collaborator. The mutation
/// that asked for it has taken effect regardless.
#[derive(Debug, Clone, Copy, PartialEq, Eq, Structural)]
pub struct SchedulingError;

pub(crate) fn copy_info(info: &TokenInfo) -> (r: TokenInfo)
    ensures
        r.name@ == info.name@,
        r.symbol@ == info.symbol@,
        r.decimals == info.decimals,
{
    TokenInfo { name: info.name.clone(), symbol: info.symbol.clone(), decimals: info.decimals }
}

/// Replaces the token's metadata on behalf of `caller`, who must hold the
/// info role. Returns the previous metadata and the event to emit.
pub fn update_info_as(token: &mut CurrencyToken, caller: &Account, new_info: TokenInfo) -> (r: Result<
    (TokenInfo, InfoUpdateEvent),
    Error,
>)
    requires
        old(token).wf(),
    ensures
        final(token).wf(),
        !holds_role(old(token).controllers.info_controllers@, caller@) <==> r == Err::<
            (TokenInfo, InfoUpdateEvent),
            Error,
        >(Error::AccessDenied),
        r matches Err(e) ==> e == Error::AccessDenied,
        r is Err ==> *final(token) == *old(token),
        r matches Ok((prev, ev)) ==> {
            &&& prev == old(token).info
            &&& final(token).info == new_info
            &&& final(token).balances == old(token).balances
            &&& final(token).total_supply == old(token).total_supply
            &&& final(token).controllers == old(token).controllers
            &&& final(token).recurrent_mint_tasks == old(token).recurrent_mint_tasks
            &&& final(token).recurrent_transfer_tasks == old(token).recurrent_transfer_tasks
            &&& ev.new_info.name@ == new_info.name@ && ev.new_info.symbol@ == new_info.symbol@
            &&& ev.new_info.decimals == new_info.decimals
        },
{
    if !is_controller(&token.controllers.info_controllers, caller) {
        return Err(Error::AccessDenied);
    }
    let announced = copy_info(&new_info);
    let prev = token.update_info(new_info);
    Ok((prev, InfoUpdateEvent { new_info: announced }))
}

/// Gives role `kind` the accounts `new_controllers` on behalf of `caller`,
/// who must hold that same role. An empty set locks the role for good.
/// Returns the previous accounts and the event to emit.
pub fn update_controllers_as(
    token: &mut CurrencyToken,
    caller: &Account,
    kind: ControllerType,
    new_controllers: Controllers,
) -> (r: Result<(Controllers, ControllersUpdateEvent), Error>)
    requires
        old(token).wf(),
    ensures
        final(token).wf(),
        !holds_role(role_accounts(old(token).controllers, kind)@, caller@) <==> r == Err::<
            (Controllers, ControllersUpdateEvent),
            Error,
        >(Error::AccessDenied),
        r matches Err(e) ==> e == Error::AccessDenied,
        r is Err ==> *final(token) == *old(token),
        r matches Ok((prev, ev)) ==> {
            &&& prev == role_accounts(old(token).controllers, kind)
            &&& role_accounts(final(token).controllers, kind) == new_controllers
            &&& other_roles_kept(final(token).controllers, old(token).controllers, kind)
            &&& final(token).same_but_controllers(old(token))
            &&& ev.kind == kind
            &&& identities(ev.old_controllers@) == identities(prev@)
            &&& identities(ev.new_controllers@) == identities(new_controllers@)
        },
{
    let allowed = match kind {
        ControllerType::Mint => is_controller(&token.controllers.mint_controllers, caller),
        ControllerType::Info => is_controller(&token.controllers.info_controllers, caller),
        ControllerType::EventListeners => is_controller(
            &token.controllers.event_listeners_controllers,
            caller,
        ),
    };
    if !allowed {
        return Err(Error::AccessDenied);
    }
    let announced = copy_controllers(&new_controllers);
    let prev = match kind {
        ControllerType::Mint => token.update_mint_controllers(new_controllers),
        ControllerType::Info => token.update_info_controllers(new_controllers),
        ControllerType::EventListeners => token.update_event_listeners_controllers(new_controllers),
    };
    let old_controllers = copy_controllers(&prev);
    Ok((prev, ControllersUpdateEvent { kind, old_controllers, new_controllers: announced }))
}

/// Whether `id` occurs among the first `n` identifiers of `ids`.
pub open spec fn among_first(ids: Seq<TaskId>, n: int, id: TaskId) -> bool {
    exists|j: int| 0 <= j < n && ids[j] == id
}

/// Cancels, for `caller`, each recurring transfer task in `task_ids`. Entry
/// `k` of the result tells whether task `k` was cancelled: it is true exactly
/// when `caller` owned it and it did not occur earlier in the list. An
/// unowned or unknown identifier changes nothing. The collaborator must then
/// drop the tasks reported true.
pub fn dequeue_recurrent_transfer_tasks(
    token: &mut CurrencyToken,
    caller: &Account,
    task_ids: &Vec<TaskId>,
) -> (r: Vec<bool>)
    requires
        old(token).wf(),
    ensures
        final(token).wf(),
        final(token).same_but_tasks(old(token)),
        final(token).recurrent_mint_tasks == old(token).recurrent_mint_tasks,
        r@.len() == task_ids@.len(),
        forall|k: int|
            0 <= k < r@.len() ==> #[trigger] r@[k] == (owns(
                old(token).recurrent_transfer_tasks@,
                caller@,
                task_ids@[k],
            ) && !among_first(task_ids@, k, task_ids@[k])),
        forall|o: Seq<u8>, x: TaskId| #[trigger]
            owns(final(token).recurrent_transfer_tasks@, o, x) == (owns(
                old(token).recurrent_transfer_tasks@,
                o,
                x,
            ) && !(o == caller@ && has_id(task_ids@, x))),
{
    let ghost t0 = *token;
    let mut succeed: Vec<bool> = Vec::new();
    let mut i: usize = 0;
    while i < task_ids.len()
        invariant
            token.wf(),
            token.same_but_tasks(&t0),
            token.recurrent_mint_tasks == t0.recurrent_mint_tasks,
            0 <= i <= task_ids.len(),
            succeed@.len() == i,
            forall|k: int|
                0 <= k < i ==> #[trigger] succeed@[k] == (owns(
                    t0.recurrent_transfer_tasks@,
                    caller@,
                    task_ids@[k],
                ) && !among_first(task_ids@, k, task_ids@[k])),
            forall|o: Seq<u8>, x: TaskId| #[trigger]
                owns(token.recurrent_transfer_tasks@, o, x) == (owns(
                    t0.recurrent_transfer_tasks@,
                    o,
                    x,
                ) && !(o == caller@ && among_first(task_ids@, i as int, x))),
        decreases task_ids.len() - i,
    {
        let id = task_ids[i];
        let done = token.unregister_recurrent_transfer_task(caller, id);
        succeed.push(done);
        assert forall|o: Seq<u8>, x: TaskId| #[trigger]
            owns(token.recurrent_transfer_tasks@, o, x) == (owns(
                t0.recurrent_transfer_tasks@,
                o,
                x,
            ) && !(o == caller@ && among_first(task_ids@, i + 1, x))) by {
            if among_first(task_ids@, i + 1, x) && !among_first(task_ids@, i as int, x) {
                assert(x == id);
            }
            if among_first(task_ids@, i as int, x) {
                let j = choose|j: int| 0 <= j < i && task_ids@[j] == x;
                assert(among_first(task_ids@, i + 1, x));
            }
            if x == id {
                assert(among_first(task_ids@, i + 1, x));
            }
        }
        i += 1;
    }
    assert forall|x: TaskId| among_first(task_ids@, task_ids@.len() as int, x) == has_id(task_ids@, x) by {}
    succeed
}

/// Cancels each recurring mint task in `task_ids` on behalf of `caller`, who
/// must hold the mint role. Entry `k` of the result tells whether task `k`
/// was cancelled: it is true exactly when it was listed and did not occur
/// earlier in the list.
pub fn dequeue_recurrent_mint_tasks(
    token: &mut CurrencyToken,
    caller: &Account,
    task_ids: &Vec<TaskId>,
) -> (r: Result<Vec<bool>, Error>)
    requires
        old(token).wf(),
    ensures
        final(token).wf(),
        !holds_role(old(token).controllers.mint_controllers@, caller@) <==> r == Err::<
            Vec<bool>,
            Error,
        >(Error::AccessDenied),
        r matches Err(e) ==> e == Error::AccessDenied,
        r is Err ==> *final(token) == *old(token),
        r matches Ok(succeed) ==> {
            &&& final(token).same_but_tasks(old(token))
            &&& final(token).recurrent_transfer_tasks == old(token).recurrent_transfer_tasks
            &&& succeed@.len() == task_ids@.len()
            &&& forall|k: int|
                0 <= k < succeed@.len() ==> #[trigger] succeed@[k] == (has_id(
                    old(token).recurrent_mint_tasks@,
                    task_ids@[k],
                ) && !among_first(task_ids@, k, task_ids@[k]))
            &&& forall|x: TaskId|
                #[trigger] has_id(final(token).recurrent_mint_tasks@, x) == (has_id(
                    old(token).recurrent_mint_tasks@,
                    x,
                ) && !has_id(task_ids@, x))
        },
{
    if !is_controller(&token.controllers.mint_controllers, caller) {
        return Err(Error::AccessDenied);
    }
    let ghost t0 = *token;
    let mut succeed: Vec<bool> = Vec::new();
    let mut i: usize = 0;
    while i < task_ids.len()
        invariant
            token.wf(),
            token.same_but_tasks(&t0),
            token.recurrent_transfer_tasks == t0.recurrent_transfer_tasks,
            0 <= i <= task_ids.len(),
            succeed@.len() == i,
            forall|k: int|
                0 <= k < i ==> #[trigger] succeed@[k] == (has_id(
                    t0.recurrent_mint_tasks@,
                    task_ids@[k],
                ) && !among_first(task_ids@, k, task_ids@[k])),
            forall|x: TaskId|
                #[trigger] has_id(token.recurrent_mint_tasks@, x) == (has_id(
                    t0.recurrent_mint_tasks@,
                    x,
                ) && !among_first(task_ids@, i as int, x)),
        decreases task_ids.len() - i,
    {
        let id = task_ids[i];
        let done = token.unregister_recurrent_mint_task(id);
        succeed.push(done);
        assert forall|x: TaskId|
            #[trigger] has_id(token.recurrent_mint_tasks@, x) == (has_id(
                t0.recurrent_mint_tasks@,
                x,
            ) && !among_first(task_ids@, i + 1, x)) by {
            if among_first(task_ids@, i + 1, x) && !among_first(task_ids@, i as int, x) {
                assert(x == id);
            }
            if among_first(task_ids@, i as int, x) {
                let j = choose|j: int| 0 <= j < i && task_ids@[j] == x;
                assert(among_first(task_ids@, i + 1, x));
            }
            if x == id {
                assert(among_first(task_ids@, i + 1, x));
            }
        }
        i += 1;
    }
    assert forall|x: TaskId| among_first(task_ids@, task_ids@.len() as int, x) == has_id(task_ids@, x) by {}
    Ok(succeed)
}

/// Records what the scheduling collaborator answered for `request`: with
/// an identifier, the task is indexed under its initiator (a transfer) or
/// among the mint tasks, and the identifier is returned; without one,
/// nothing changes and the failure is reported.
pub fn record_schedule(
    token: &mut CurrencyToken,
    request: &ScheduleRequest,
    enqueued: Option<TaskId>,
) -> (r: Result<TaskId, SchedulingError>)
    requires
        old(token).wf(),
    ensures
        final(token).wf(),
        final(token).same_but_tasks(old(token)),
        match enqueued {
            None => r == Err::<TaskId, SchedulingError>(SchedulingError) && *final(token) == *old(
                token,
            ),
            Some(id) => r == Ok::<TaskId, SchedulingError>(id) && match request.task {
                CronTask::RecurrentMint(_) => {
                    &&& final(token).recurrent_transfer_tasks == old(token).recurrent_transfer_tasks
                    &&& forall|x: TaskId|
                        has_id(final(token).recurrent_mint_tasks@, x) == (has_id(
                            old(token).recurrent_mint_tasks@,
                            x,
                        ) || x == id)
                },
                CronTask::RecurrentTransfer(t) => {
                    &&& final(token).recurrent_mint_tasks == old(token).recurrent_mint_tasks
                    &&& forall|o: Seq<u8>, x: TaskId| #[trigger]
                        owns(final(token).recurrent_transfer_tasks@, o, x) == (owns(
                            old(token).recurrent_transfer_tasks@,
                            o,
                            x,
                        ) || (o == t.from@ && x == id))
                },
            },
        },
{
    match enqueued {
        None => Err(SchedulingError),
        Some(id) => {
            match &request.task {
                CronTask::RecurrentMint(_) => token.register_recurrent_mint_task(id),
                CronTask::RecurrentTransfer(t) => token.register_recurrent_transfer_task(
                    t.from.duplicate(),
                    id,
                ),
            }
            Ok(id)
        },
    }
}

/// Carries out a recurring task that fired. Only the hosting process itself
/// (`own_id`) may do so; any other caller gets `ForbiddenOperation`. The
/// mint or transfer then runs as if called directly, and its failure leaves
/// the ledger as it was.
pub fn fire_recurrent_task(
    token: &mut CurrencyToken,
    caller: &Account,
    own_id: &Account,
    task: CronTask,
) -> (r: Result<FiredEvents, Error>)
    requires
        old(token).wf(),
    ensures
        final(token).wf(),
        final(token).same_but_ledger(old(token)),
        caller@ != own_id@ <==> r == Err::<FiredEvents, Error>(Error::ForbiddenOperation),
        r is Err ==> *final(token) == *old(token),
        caller@ == own_id@ ==> match task {
            CronTask::RecurrentMint(t) => {
                &&& r is Ok <==> (t.qty > 0 && old(token).total_supply + t.qty <= u64::MAX)
                &&& r is Ok ==> {
                    &&& final(token).total_supply == old(token).total_supply + t.qty
                    &&& forall|w: Seq<u8>| #[trigger]
                        final(token).balance(w) == if w == t.to@ {
                            old(token).balance(w) + t.qty
                        } else {
                            old(token).balance(w) as int
                        }
                }
                &&& r matches Ok(ev) ==> ev matches FiredEvents::Minted(m, v, s) && m.from is None
                    && is_account(m.to, t.to@) && m.qty == t.qty && m.payload == t.event_payload
                    && v.voter@ == t.to@ && v.new_voting_power == final(token).balance(t.to@)
                    && s.new_total_supply == final(token).total_supply
            },
            CronTask::RecurrentTransfer(t) => {
                &&& r is Ok <==> (0 < t.qty <= old(token).balance(t.from@))
                &&& r is Ok ==> {
                    &&& final(token).total_supply == old(token).total_supply
                    &&& forall|w: Seq<u8>| #[trigger]
                        final(token).balance(w) == if w == t.from@ && w != t.to@ {
                            old(token).balance(w) - t.qty
                        } else if w == t.to@ && w != t.from@ {
                            old(token).balance(w) + t.qty
                        } else {
                            old(token).balance(w) as int
                        }
                }
                &&& r matches Ok(ev) ==> ev matches FiredEvents::Transferred(m, vf, vt)
                    && is_account(m.from, t.from@) && is_account(m.to, t.to@) && m.qty == t.qty
                    && m.payload == t.event_payload && vf.voter@ == t.from@
                    && vf.new_voting_power == final(token).balance(t.from@) && vt.voter@ == t.to@
                    && vt.new_voting_power == final(token).balance(t.to@)
            },
        },
{
    if !is_self(caller, own_id) {
        return Err(Error::ForbiddenOperation);
    }
    match task {
        CronTask::RecurrentMint(t) => match token.mint(t.to, t.qty, t.event_payload) {
            Ok((m, v)) => Ok(
                FiredEvents::Minted(m, v, TotalSupplyUpdateEvent { new_total_supply: token.total_supply }),
            ),
            Err(e) => Err(e),
        },
        CronTask::RecurrentTransfer(t) => match token.transfer(t.from, t.to, t.qty, t.event_payload) {
            Ok((m, vf, vt)) => Ok(FiredEvents::Transferred(m, vf, vt)),
            Err(e) => Err(e),
        },
    }
}

} // verus!
