//! The balance ledger: mint, transfer and burn keep the total supply equal
//! to the sum of the stored balances, and either fully apply or change
//! nothing.
use vstd::prelude::*;

use crate::access::{copy_controllers, identities, single_controller, Controllers};
use crate::account::Account;
use crate::holdings::{
    balance_in, credit, debit, has_entry, holdings_wf, position_of, stored_balance, sum_of,
    Holding, lemma_absent_is_zero, lemma_balance_at, lemma_balance_le_sum,
};
use crate::tasks::{
    has_id, ids_of_owner, ids_unique, insert_id, insert_owned, owned_unique, owns, remove_id,
    remove_owned, OwnedTask, TaskId,
};

verus! {

/// Why a ledger operation was refused.
#[derive(Debug, Clone, Copy, PartialEq, Eq, Structural)]
pub enum Error {
    InsufficientBalance,
    ZeroQuantity,
    AccessDenied,
    ForbiddenOperation,
    /// The quantity would take the total supply past what a `u64` holds.
    SupplyOverflow,
}

impl Error {
    /// The variant's name.
    pub fn name(&self) -> (r: String)
        ensures
            r@ == match *self {
                Error::InsufficientBalance => "InsufficientBalance"@,
                Error::ZeroQuantity => "ZeroQuantity"@,
                Error::AccessDenied => "AccessDenied"@,
                Error::ForbiddenOperation => "ForbiddenOperation"@,
                Error::SupplyOverflow => "SupplyOverflow"@,
            },
    {
        match self {
            Error::InsufficientBalance => String::from_str("InsufficientBalance"),
            Error::ZeroQuantity => String::from_str("ZeroQuantity"),
            Error::AccessDenied => String::from_str("AccessDenied"),
            Error::ForbiddenOperation => String::from_str("ForbiddenOperation"),
            Error::SupplyOverflow => String::from_str("SupplyOverflow"),
        }
    }
}

/// Descriptive metadata of the token.
#[derive(Debug, Clone)]
pub struct TokenInfo {
    pub name: String,
    pub symbol: String,
    pub decimals: u8,
}

pub type CurrencyTokenInfo = TokenInfo;

/// The roles of the ledger.
#[derive(Debug, Clone, Copy, PartialEq, Eq, Structural)]
pub enum ControllerType {
    Mint,
    Info,
    EventListeners,
}

/// The accounts that hold each role of the ledger.
#[derive(Debug, Clone)]
pub struct ControllerList {
    pub mint_controllers: Controllers,
    pub info_controllers: Controllers,
    pub event_listeners_controllers: Controllers,
}

impl ControllerList {
    /// Every role held by `controller` alone, or by nobody.
    pub fn single(controller: Option<Account>) -> (r: ControllerList)
        ensures
            match controller {
                Some(c) => {
                    &&& identities(r.mint_controllers@) == seq![c@]
                    &&& identities(r.info_controllers@) == seq![c@]
                    &&& identities(r.event_listeners_controllers@) == seq![c@]
                },
                None => {
                    &&& r.mint_controllers@.len() == 0
                    &&& r.info_controllers@.len() == 0
                    &&& r.event_listeners_controllers@.len() == 0
                },
            },
    {
        ControllerList {
            mint_controllers: single_controller(&controller),
            info_controllers: single_controller(&controller),
            event_listeners_controllers: single_controller(&controller),
        }
    }

    /// Every role held by the same accounts, `controllers`.
    pub fn uniform(controllers: &Controllers) -> (r: ControllerList)
        ensures
            identities(r.mint_controllers@) == identities(controllers@),
            identities(r.info_controllers@) == identities(controllers@),
            identities(r.event_listeners_controllers@) == identities(controllers@),
    {
        ControllerList {
            mint_controllers: copy_controllers(controllers),
            info_controllers: copy_controllers(controllers),
            event_listeners_controllers: copy_controllers(controllers),
        }
    }
}

/// A move of tokens: `from` is `None` for a mint, `to` is `None` for a burn.
#[derive(Debug)]
pub struct TokenMoveEvent {
    pub from: Option<Account>,
    pub to: Option<Account>,
    pub qty: u64,
    pub payload: Option<Vec<u8>>,
}

/// The new balance of one account after a move.
#[derive(Debug)]
pub struct VotingPowerUpdateEvent {
    pub voter: Account,
    pub new_voting_power: u64,
}

/// A role was given a new set of accounts in place of the old one.
#[derive(Debug)]
pub struct ControllersUpdateEvent {
    pub kind: ControllerType,
    pub old_controllers: Controllers,
    pub new_controllers: Controllers,
}

/// The total supply after a mint or a burn.
#[derive(Debug)]
pub struct TotalSupplyUpdateEvent {
    pub new_total_supply: u64,
}

/// The token's metadata was replaced.
#[derive(Debug)]
pub struct InfoUpdateEvent {
    pub new_info: TokenInfo,
}

/// Whether `a` is `Some` account with identity `who`.
pub open spec fn is_account(a: Option<Account>, who: Seq<u8>) -> bool {
    a is Some && a->0@ == who
}

/// The ledger: balances keyed by account, the total supply, metadata, roles,
/// and the index of recurring tasks.
#[derive(Debug)]
pub struct CurrencyToken {
    pub balances: Vec<Holding>,
    pub total_supply: u64,
    pub info: TokenInfo,
    pub controllers: ControllerList,
    pub recurrent_mint_tasks: Vec<TaskId>,
    pub recurrent_transfer_tasks: Vec<OwnedTask>,
}

impl CurrencyToken {
    /// Balances keyed by identity with no stored zero, a total supply equal to
    /// their sum, and task indexes without repeats.
    pub open spec fn wf(&self) -> bool {
        &&& holdings_wf(self.balances@)
        &&& sum_of(self.balances@) == self.total_supply
        &&& ids_unique(self.recurrent_mint_tasks@)
        &&& owned_unique(self.recurrent_transfer_tasks@)
    }

    /// The balance of `who`; 0 when it has no entry.
    pub open spec fn balance(&self, who: Seq<u8>) -> nat {
        balance_in(self.balances@, who)
    }

    /// Everything but the balances and the supply is as in `other`.
    pub open spec fn same_but_ledger(&self, other: &CurrencyToken) -> bool {
        &&& self.info == other.info
        &&& self.controllers == other.controllers
        &&& self.recurrent_mint_tasks == other.recurrent_mint_tasks
        &&& self.recurrent_transfer_tasks == other.recurrent_transfer_tasks
    }

    /// Everything but the roles is as in `other`.
    pub open spec fn same_but_controllers(&self, other: &CurrencyToken) -> bool {
        &&& self.balances == other.balances
        &&& self.total_supply == other.total_supply
        &&& self.info == other.info
        &&& self.recurrent_mint_tasks == other.recurrent_mint_tasks
        &&& self.recurrent_transfer_tasks == other.recurrent_transfer_tasks
    }

    /// Everything but the task indexes is as in `other`.
    pub open spec fn same_but_tasks(&self, other: &CurrencyToken) -> bool {
        &&& self.balances == other.balances
        &&& self.total_supply == other.total_supply
        &&& self.info == other.info
        &&& self.controllers == other.controllers
    }

    /// An empty ledger with the given metadata and roles.
    pub fn new(info: TokenInfo, controllers: ControllerList) -> (r: CurrencyToken)
        ensures
            r.wf(),
            r.balances@.len() == 0,
            r.total_supply == 0,
            r.info == info,
            r.controllers == controllers,
            r.recurrent_mint_tasks@.len() == 0,
            r.recurrent_transfer_tasks@.len() == 0,
    {
        CurrencyToken {
            balances: Vec::new(),
            total_supply: 0,
            info,
            controllers,
            recurrent_mint_tasks: Vec::new(),
            recurrent_transfer_tasks: Vec::new(),
        }
    }

    /// The balance of `account_owner`: 0 when it has no entry.
    pub fn balance_of(&self, account_owner: &Account) -> (r: u64)
        requires
            self.wf(),
        ensures
            r == self.balance(account_owner@),
    {
        stored_balance(&self.balances, account_owner)
    }

    /// The stored entry of `account_owner`, if it has one; it never holds 0.
    pub fn entry_of(&self, account_owner: &Account) -> (r: Option<u64>)
        requires
            self.wf(),
        ensures
            r == if has_entry(self.balances@, account_owner@) {
                Some(self.balance(account_owner@) as u64)
            } else {
                None::<u64>
            },
            r is Some ==> r->0 > 0,
    {
        match position_of(&self.balances, account_owner) {
            Some(i) => {
                proof {
                    lemma_balance_at(self.balances@, i as int);
                }
                Some(self.balances[i].qty)
            },
            None => None,
        }
    }

    /// Creates `qty` new units for `to`.
    pub fn mint(&mut self, to: Account, qty: u64, payload: Option<Vec<u8>>) -> (r: Result<
        (TokenMoveEvent, VotingPowerUpdateEvent),
        Error,
    >)
        requires
            old(self).wf(),
        ensures
            final(self).wf(),
            qty == 0 ==> r == Err::<(TokenMoveEvent, VotingPowerUpdateEvent), Error>(
                Error::ZeroQuantity,
            ),
            qty > 0 && old(self).total_supply + qty > u64::MAX ==> r == Err::<
                (TokenMoveEvent, VotingPowerUpdateEvent),
                Error,
            >(Error::SupplyOverflow),
            r is Err ==> *final(self) == *old(self),
            r is Ok <==> (qty > 0 && old(self).total_supply + qty <= u64::MAX),
            r matches Ok((m, v)) ==> {
                &&& final(self).same_but_ledger(old(self))
                &&& final(self).total_supply == old(self).total_supply + qty
                &&& forall|w: Seq<u8>| #[trigger]
                    final(self).balance(w) == if w == to@ {
                        old(self).balance(w) + qty
                    } else {
                        old(self).balance(w) as int
                    }
                &&& m.from is None && is_account(m.to, to@) && m.qty == qty && m.payload == payload
                &&& v.voter@ == to@ && v.new_voting_power == final(self).balance(to@)
            },
    {
        if qty == 0 {
            return Err(Error::ZeroQuantity);
        }
        if qty > u64::MAX - self.total_supply {
            return Err(Error::SupplyOverflow);
        }
        let ghost before = self.balances@;
        proof {
            lemma_balance_le_sum(before, to@);
        }
        let voter = to.duplicate();
        let target = to.duplicate();
        credit(&mut self.balances, to, qty);
        self.total_supply = self.total_supply + qty;
        let new_balance = stored_balance(&self.balances, &voter);
        Ok(
            (
                TokenMoveEvent { from: None, to: Some(target), qty, payload },
                VotingPowerUpdateEvent { voter, new_voting_power: new_balance },
            ),
        )
    }

    /// Moves `qty` units from `from` to `to`. A move to oneself leaves every
    /// balance as it was, but is checked and reported like any other.
    pub fn transfer(&mut self, from: Account, to: Account, qty: u64, payload: Option<Vec<u8>>) -> (r:
        Result<(TokenMoveEvent, VotingPowerUpdateEvent, VotingPowerUpdateEvent), Error>)
        requires
            old(self).wf(),
        ensures
            final(self).wf(),
            qty == 0 ==> r == Err::<
                (TokenMoveEvent, VotingPowerUpdateEvent, VotingPowerUpdateEvent),
                Error,
            >(Error::ZeroQuantity),
            qty > 0 && qty > old(self).balance(from@) ==> r == Err::<
                (TokenMoveEvent, VotingPowerUpdateEvent, VotingPowerUpdateEvent),
                Error,
            >(Error::InsufficientBalance),
            r is Err ==> *final(self) == *old(self),
            r is Ok <==> (0 < qty <= old(self).balance(from@)),
            r matches Ok((m, vf, vt)) ==> {
                &&& final(self).same_but_ledger(old(self))
                &&& final(self).total_supply == old(self).total_supply
                &&& forall|w: Seq<u8>| #[trigger]
                    final(self).balance(w) == if w == from@ && w != to@ {
                        old(self).balance(w) - qty
                    } else if w == to@ && w != from@ {
                        old(self).balance(w) + qty
                    } else {
                        old(self).balance(w) as int
                    }
                &&& is_account(m.from, from@) && is_account(m.to, to@) && m.qty == qty
                    && m.payload == payload
                &&& vf.voter@ == from@ && vf.new_voting_power == final(self).balance(from@)
                &&& vt.voter@ == to@ && vt.new_voting_power == final(self).balance(to@)
            },
    {
        if qty == 0 {
            return Err(Error::ZeroQuantity);
        }
        let prev_from_balance = stored_balance(&self.balances, &from);
        if prev_from_balance < qty {
            return Err(Error::InsufficientBalance);
        }
        let from_voter = from.duplicate();
        let to_voter = to.duplicate();
        let ev_from = from.duplicate();
        let ev_to = to.duplicate();
        if !from.same_as(&to) {
            debit(&mut self.balances, &from, qty);
            proof {
                lemma_balance_le_sum(self.balances@, to@);
            }
            credit(&mut self.balances, to, qty);
        }
        let new_from_balance = stored_balance(&self.balances, &from_voter);
        let new_to_balance = stored_balance(&self.balances, &to_voter);
        Ok(
            (
                TokenMoveEvent { from: Some(ev_from), to: Some(ev_to), qty, payload },
                VotingPowerUpdateEvent { voter: from_voter, new_voting_power: new_from_balance },
                VotingPowerUpdateEvent { voter: to_voter, new_voting_power: new_to_balance },
            ),
        )
    }

    /// Destroys `qty` units held by `from`.
    pub fn burn(&mut self, from: Account, qty: u64, payload: Option<Vec<u8>>) -> (r: Result<
        (TokenMoveEvent, VotingPowerUpdateEvent),
        Error,
    >)
        requires
            old(self).wf(),
        ensures
            final(self).wf(),
            qty == 0 ==> r == Err::<(TokenMoveEvent, VotingPowerUpdateEvent), Error>(
                Error::ZeroQuantity,
            ),
            qty > 0 && qty > old(self).balance(from@) ==> r == Err::<
                (TokenMoveEvent, VotingPowerUpdateEvent),
                Error,
            >(Error::InsufficientBalance),
            r is Err ==> *final(self) == *old(self),
            r is Ok <==> (0 < qty <= old(self).balance(from@)),
            r matches Ok((m, v)) ==> {
                &&& final(self).same_but_ledger(old(self))
                &&& final(self).total_supply == old(self).total_supply - qty
                &&& forall|w: Seq<u8>| #[trigger]
                    final(self).balance(w) == if w == from@ {
                        old(self).balance(w) - qty
                    } else {
                        old(self).balance(w) as int
                    }
                &&& final(self).balance(from@) == 0 ==> !has_entry(final(self).balances@, from@)
                &&& is_account(m.from, from@) && m.to is None && m.qty == qty && m.payload == payload
                &&& v.voter@ == from@ && v.new_voting_power == final(self).balance(from@)
            },
    {
        if qty == 0 {
            return Err(Error::ZeroQuantity);
        }
        let prev_balance = stored_balance(&self.balances, &from);
        if prev_balance < qty {
            return Err(Error::InsufficientBalance);
        }
        debit(&mut self.balances, &from, qty);
        self.total_supply = self.total_supply - qty;
        let new_balance = stored_balance(&self.balances, &from);
        let voter = from.duplicate();
        Ok(
            (
                TokenMoveEvent { from: Some(from), to: None, qty, payload },
                VotingPowerUpdateEvent { voter, new_voting_power: new_balance },
            ),
        )
    }

    /// Replaces the metadata; returns the previous one.
    pub fn update_info(&mut self, new_info: TokenInfo) -> (r: TokenInfo)
        ensures
            r == old(self).info,
            final(self).info == new_info,
            final(self).balances == old(self).balances,
            final(self).total_supply == old(self).total_supply,
            final(self).controllers == old(self).controllers,
            final(self).recurrent_mint_tasks == old(self).recurrent_mint_tasks,
            final(self).recurrent_transfer_tasks == old(self).recurrent_transfer_tasks,
    {
        let mut info = new_info;
        std::mem::swap(&mut self.info, &mut info);
        info
    }

    /// Replaces the accounts of the mint role; returns the previous ones.
    pub fn update_mint_controllers(&mut self, new_mint_controllers: Controllers) -> (r: Controllers)
        ensures
            r == old(self).controllers.mint_controllers,
            final(self).controllers.mint_controllers == new_mint_controllers,
            final(self).controllers.info_controllers == old(self).controllers.info_controllers,
            final(self).controllers.event_listeners_controllers
                == old(self).controllers.event_listeners_controllers,
            final(self).same_but_controllers(old(self)),
    {
        let mut c = new_mint_controllers;
        std::mem::swap(&mut self.controllers.mint_controllers, &mut c);
        c
    }

    /// Replaces the accounts of the info role; returns the previous ones.
    pub fn update_info_controllers(&mut self, new_info_controllers: Controllers) -> (r: Controllers)
        ensures
            r == old(self).controllers.info_controllers,
            final(self).controllers.info_controllers == new_info_controllers,
            final(self).controllers.mint_controllers == old(self).controllers.mint_controllers,
            final(self).controllers.event_listeners_controllers
                == old(self).controllers.event_listeners_controllers,
            final(self).same_but_controllers(old(self)),
    {
        let mut c = new_info_controllers;
        std::mem::swap(&mut self.controllers.info_controllers, &mut c);
        c
    }

    /// Replaces the accounts of the listener-management role; returns the
    /// previous ones.
    pub fn update_event_listeners_controllers(&mut self, new_controllers: Controllers) -> (r:
        Controllers)
        ensures
            r == old(self).controllers.event_listeners_controllers,
            final(self).controllers.event_listeners_controllers == new_controllers,
            final(self).controllers.mint_controllers == old(self).controllers.mint_controllers,
            final(self).controllers.info_controllers == old(self).controllers.info_controllers,
            final(self).same_but_controllers(old(self)),
    {
        let mut c = new_controllers;
        std::mem::swap(&mut self.controllers.event_listeners_controllers, &mut c);
        c
    }

    /// Lists recurring transfer task `task_id` under `from`.
    pub fn register_recurrent_transfer_task(&mut self, from: Account, task_id: TaskId)
        requires
            old(self).wf(),
        ensures
            final(self).wf(),
            final(self).same_but_tasks(old(self)),
            final(self).recurrent_mint_tasks == old(self).recurrent_mint_tasks,
            forall|o: Seq<u8>, x: TaskId| #[trigger]
                owns(final(self).recurrent_transfer_tasks@, o, x) == (owns(
                    old(self).recurrent_transfer_tasks@,
                    o,
                    x,
                ) || (o == from@ && x == task_id)),
    {
        insert_owned(&mut self.recurrent_transfer_tasks, from, task_id);
    }

    /// Removes recurring transfer task `task_id` from those of `from`; tells
    /// whether `from` had it. When it did not, nothing changes.
    pub fn unregister_recurrent_transfer_task(&mut self, from: &Account, task_id: TaskId) -> (r:
        bool)
        requires
            old(self).wf(),
        ensures
            final(self).wf(),
            r == owns(old(self).recurrent_transfer_tasks@, from@, task_id),
            !r ==> *final(self) == *old(self),
            final(self).same_but_tasks(old(self)),
            final(self).recurrent_mint_tasks == old(self).recurrent_mint_tasks,
            forall|o: Seq<u8>, x: TaskId| #[trigger]
                owns(final(self).recurrent_transfer_tasks@, o, x) == (owns(
                    old(self).recurrent_transfer_tasks@,
                    o,
                    x,
                ) && !(o == from@ && x == task_id)),
    {
        remove_owned(&mut self.recurrent_transfer_tasks, from, task_id)
    }

    /// The recurring transfer tasks listed under `from`.
    pub fn get_recurrent_transfer_tasks(&self, from: &Account) -> (r: Vec<TaskId>)
        requires
            self.wf(),
        ensures
            forall|x: TaskId| has_id(r@, x) == owns(self.recurrent_transfer_tasks@, from@, x),
            ids_unique(r@),
    {
        ids_of_owner(&self.recurrent_transfer_tasks, from)
    }

    /// Lists recurring mint task `task_id`.
    pub fn register_recurrent_mint_task(&mut self, task_id: TaskId)
        requires
            old(self).wf(),
        ensures
            final(self).wf(),
            final(self).same_but_tasks(old(self)),
            final(self).recurrent_transfer_tasks == old(self).recurrent_transfer_tasks,
            forall|x: TaskId|
                has_id(final(self).recurrent_mint_tasks@, x) == (has_id(
                    old(self).recurrent_mint_tasks@,
                    x,
                ) || x == task_id),
    {
        insert_id(&mut self.recurrent_mint_tasks, task_id);
    }

    /// Removes recurring mint task `task_id`; tells whether it was listed.
    /// When it was not, nothing changes.
    pub fn unregister_recurrent_mint_task(&mut self, task_id: TaskId) -> (r: bool)
        requires
            old(self).wf(),
        ensures
            final(self).wf(),
            r == has_id(old(self).recurrent_mint_tasks@, task_id),
            !r ==> *final(self) == *old(self),
            final(self).same_but_tasks(old(self)),
            final(self).recurrent_transfer_tasks == old(self).recurrent_transfer_tasks,
            forall|x: TaskId|
                has_id(final(self).recurrent_mint_tasks@, x) == (has_id(
                    old(self).recurrent_mint_tasks@,
                    x,
                ) && x != task_id),
    {
        remove_id(&mut self.recurrent_mint_tasks, task_id)
    }

    /// The recurring mint tasks, in the order they were listed.
    pub fn get_recurrent_mint_tasks(&self) -> (r: Vec<TaskId>)
        requires
            self.wf(),
        ensures
            r@ == self.recurrent_mint_tasks@,
            ids_unique(r@),
    {
        let mut out: Vec<TaskId> = Vec::new();
        let mut i: usize = 0;
        while i < self.recurrent_mint_tasks.len()
            invariant
                0 <= i <= self.recurrent_mint_tasks.len(),
                out@ =~= self.recurrent_mint_tasks@.subrange(0, i as int),
            decreases self.recurrent_mint_tasks.len() - i,
        {
            out.push(self.recurrent_mint_tasks[i]);
            i += 1;
        }
        assert(out@ =~= self.recurrent_mint_tasks@);
        out
    }
}

/// In a well-formed ledger, which every operation of `CurrencyToken`
/// preserves, the total supply is the sum of the stored balances.
pub proof fn lemma_supply_is_sum_of_balances(token: &CurrencyToken)
    requires
        token.wf(),
    ensures
        token.total_supply == sum_of(token.balances@),
{
}

/// In a well-formed ledger no stored balance is 0: an account has an entry
/// exactly when its balance is positive, so an account that never held
/// tokens, or whose balance went down to 0, reads as 0 and has no entry.
pub proof fn lemma_no_stored_zero(token: &CurrencyToken)
    requires
        token.wf(),
    ensures
        forall|i: int| 0 <= i < token.balances@.len() ==> (#[trigger] token.balances@[i]).qty > 0,
        forall|w: Seq<u8>| #[trigger] has_entry(token.balances@, w) <==> token.balance(w) > 0,
        forall|w: Seq<u8>| !has_entry(token.balances@, w) ==> #[trigger] token.balance(w) == 0,
{
    assert forall|w: Seq<u8>| #[trigger] has_entry(token.balances@, w) <==> token.balance(w) > 0 by {
        if has_entry(token.balances@, w) {
            let i = choose|i: int| 0 <= i < token.balances@.len() && (#[trigger] token.balances@[i]).owner@ == w;
            lemma_balance_at(token.balances@, i);
        } else {
            lemma_absent_is_zero(token.balances@, w);
        }
    }
}

} // verus!
