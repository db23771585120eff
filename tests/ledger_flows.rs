use antifragile_tokens::access::single_controller;
use antifragile_tokens::event_hub::{EventHub, EventKind, ListenerError};
use antifragile_tokens::ledger::{ControllerList, ControllerType, CurrencyToken, Error, TokenInfo};
use antifragile_tokens::ledger_service::{
    dequeue_recurrent_mint_tasks, dequeue_recurrent_transfer_tasks, fire_recurrent_task,
    mint_entries, record_schedule, transfer_entries, update_controllers_as, update_info_as,
    CronTask, FiredEvents, Iterations, RecurrentMintTask, SchedulingError, SchedulingOptions,
    TransferEntry,
};
use antifragile_tokens::Account;

fn acc(n: u8) -> Account {
    Account::from_bytes(vec![n, 0xa1, n])
}

fn info() -> TokenInfo {
    TokenInfo { name: String::from("Coin"), symbol: String::from("CN"), decimals: 6 }
}

fn token_with_minter(minter: &Account) -> CurrencyToken {
    CurrencyToken::new(info(), ControllerList::single(Some(minter.clone())))
}

fn entry(to: &Account, qty: u64, recurrence: Option<SchedulingOptions>) -> TransferEntry {
    TransferEntry { to: to.clone(), qty, event_payload: None, recurrence }
}

fn every_second() -> SchedulingOptions {
    SchedulingOptions { delay_nano: 0, interval_nano: 1_000_000_000, iterations: Iterations::Infinite }
}

#[test]
fn scenario_mint_transfer_burn_overdraw() {
    let (a, b) = (acc(1), acc(2));
    let mut t = token_with_minter(&a);

    t.mint(a.clone(), 100, None).unwrap();
    assert_eq!(t.balance_of(&a), 100);
    assert_eq!(t.total_supply, 100);

    t.transfer(a.clone(), b.clone(), 40, None).unwrap();
    assert_eq!(t.balance_of(&a), 60);
    assert_eq!(t.balance_of(&b), 40);
    assert_eq!(t.total_supply, 100);

    t.burn(a.clone(), 60, None).unwrap();
    assert_eq!(t.balance_of(&a), 0);
    assert!(t.entry_of(&a).is_none());
    assert_eq!(t.total_supply, 40);

    let err = t.transfer(a.clone(), b.clone(), 1, None).err().unwrap();
    assert_eq!(err, Error::InsufficientBalance);
    assert_eq!(t.balance_of(&a), 0);
    assert_eq!(t.balance_of(&b), 40);
    assert_eq!(t.balances.len(), 1);
    assert_eq!(t.total_supply, 40);
}

#[test]
fn zero_quantity_is_refused_everywhere() {
    let a = acc(1);
    let mut t = token_with_minter(&a);
    t.mint(a.clone(), 5, None).unwrap();
    assert_eq!(t.mint(a.clone(), 0, None).err().unwrap(), Error::ZeroQuantity);
    assert_eq!(t.transfer(a.clone(), acc(2), 0, None).err().unwrap(), Error::ZeroQuantity);
    assert_eq!(t.burn(a.clone(), 0, None).err().unwrap(), Error::ZeroQuantity);
    assert_eq!(t.balance_of(&a), 5);
    assert_eq!(t.total_supply, 5);
    assert_eq!(t.balances.len(), 1);
}

#[test]
fn overdraw_is_refused_without_change() {
    let a = acc(1);
    let mut t = token_with_minter(&a);
    t.mint(a.clone(), 7, None).unwrap();
    assert_eq!(t.burn(a.clone(), 8, None).err().unwrap(), Error::InsufficientBalance);
    assert_eq!(t.burn(acc(9), 1, None).err().unwrap(), Error::InsufficientBalance);
    assert_eq!(t.transfer(a.clone(), acc(2), 8, None).err().unwrap(), Error::InsufficientBalance);
    assert_eq!(t.balance_of(&a), 7);
    assert_eq!(t.balance_of(&acc(2)), 0);
    assert_eq!(t.total_supply, 7);
}

#[test]
fn self_transfer_keeps_balance_and_reports() {
    let a = acc(1);
    let mut t = token_with_minter(&a);
    t.mint(a.clone(), 10, None).unwrap();
    let (m, vf, vt) = t.transfer(a.clone(), a.clone(), 4, None).unwrap();
    assert_eq!(t.balance_of(&a), 10);
    assert_eq!(t.total_supply, 10);
    assert_eq!(m.qty, 4);
    assert_eq!(vf.new_voting_power, 10);
    assert_eq!(vt.new_voting_power, 10);
    assert_eq!(t.transfer(a.clone(), a.clone(), 11, None).err().unwrap(), Error::InsufficientBalance);
}

#[test]
fn supply_overflow_is_refused() {
    let a = acc(1);
    let mut t = token_with_minter(&a);
    t.mint(a.clone(), u64::MAX - 1, None).unwrap();
    assert_eq!(t.mint(acc(2), 2, None).err().unwrap(), Error::SupplyOverflow);
    assert_eq!(t.total_supply, u64::MAX - 1);
    t.mint(acc(2), 1, None).unwrap();
    assert_eq!(t.total_supply, u64::MAX);
    assert_eq!(t.balance_of(&acc(2)), 1);
}

#[test]
fn mint_entries_needs_the_mint_role() {
    let (minter, other) = (acc(1), acc(2));
    let mut t = token_with_minter(&minter);
    let denied = mint_entries(&mut t, &other, vec![entry(&other, 5, None)]);
    assert_eq!(denied.err().unwrap(), Error::AccessDenied);
    assert_eq!(t.total_supply, 0);
    assert!(t.balances.is_empty());

    let results = mint_entries(
        &mut t,
        &minter,
        vec![entry(&other, 5, None), entry(&other, 0, None), entry(&minter, 3, Some(every_second()))],
    )
    .unwrap();
    assert_eq!(results.len(), 3);
    assert!(results[0].as_ref().unwrap().schedule.is_none());
    assert_eq!(*results[1].as_ref().err().unwrap(), Error::ZeroQuantity);
    let first = results[0].as_ref().unwrap();
    assert_eq!(first.power.new_voting_power, 5);
    assert_eq!(first.supply.new_total_supply, 5);
    let third = results[2].as_ref().unwrap();
    assert_eq!(third.moved.qty, 3);
    assert_eq!(third.power.new_voting_power, 3);
    assert_eq!(third.supply.new_total_supply, 8);
    let req = third.schedule.as_ref().unwrap();
    assert_eq!(req.options, every_second());
    match &req.task {
        CronTask::RecurrentMint(task) => {
            assert_eq!(task.to, minter);
            assert_eq!(task.qty, 3);
        }
        CronTask::RecurrentTransfer(_) => panic!("a mint entry schedules a mint"),
    }
    assert_eq!(t.total_supply, 8);
    assert_eq!(t.balance_of(&other), 5);
}

#[test]
fn transfer_entries_are_independent() {
    let (a, b) = (acc(1), acc(2));
    let mut t = token_with_minter(&a);
    t.mint(a.clone(), 10, None).unwrap();
    let results = transfer_entries(
        &mut t,
        &a,
        vec![entry(&b, 6, Some(every_second())), entry(&b, 6, None), entry(&b, 4, None)],
    );
    assert!(results[0].is_ok());
    assert_eq!(results[0].as_ref().unwrap().from_power.new_voting_power, 4);
    assert_eq!(results[0].as_ref().unwrap().to_power.new_voting_power, 6);
    assert_eq!(*results[1].as_ref().err().unwrap(), Error::InsufficientBalance);
    assert!(results[2].is_ok());
    assert_eq!(results[2].as_ref().unwrap().from_power.new_voting_power, 0);
    assert_eq!(results[2].as_ref().unwrap().to_power.new_voting_power, 10);
    assert_eq!(t.balance_of(&a), 0);
    assert_eq!(t.balance_of(&b), 10);
    assert_eq!(t.total_supply, 10);
    match &results[0].as_ref().unwrap().schedule.as_ref().unwrap().task {
        CronTask::RecurrentTransfer(task) => {
            assert_eq!(task.from, a);
            assert_eq!(task.to, b);
            assert_eq!(task.qty, 6);
        }
        CronTask::RecurrentMint(_) => panic!("a transfer entry schedules a transfer"),
    }
}

#[test]
fn recording_and_cancelling_transfer_tasks() {
    let (a, b) = (acc(1), acc(2));
    let mut t = token_with_minter(&a);
    t.mint(a.clone(), 10, None).unwrap();
    let results = transfer_entries(&mut t, &a, vec![entry(&b, 1, Some(every_second()))]);
    let req = results[0].as_ref().unwrap().schedule.as_ref().unwrap();

    assert_eq!(record_schedule(&mut t, req, None), Err(SchedulingError));
    assert!(t.recurrent_transfer_tasks.is_empty());
    assert_eq!(record_schedule(&mut t, req, Some(11)), Ok(11));
    t.register_recurrent_transfer_task(a.clone(), 12);
    t.register_recurrent_transfer_task(b.clone(), 13);
    assert_eq!(t.get_recurrent_transfer_tasks(&a), vec![11, 12]);

    let by_other = dequeue_recurrent_transfer_tasks(&mut t, &b, &vec![11, 99]);
    assert_eq!(by_other, vec![false, false]);
    assert_eq!(t.get_recurrent_transfer_tasks(&a), vec![11, 12]);
    assert_eq!(t.get_recurrent_transfer_tasks(&b), vec![13]);

    let by_owner = dequeue_recurrent_transfer_tasks(&mut t, &a, &vec![11, 11, 13]);
    assert_eq!(by_owner, vec![true, false, false]);
    assert_eq!(t.get_recurrent_transfer_tasks(&a), vec![12]);
    assert_eq!(t.get_recurrent_transfer_tasks(&b), vec![13]);
}

#[test]
fn cancelling_mint_tasks_needs_the_mint_role() {
    let (minter, other) = (acc(1), acc(2));
    let mut t = token_with_minter(&minter);
    t.register_recurrent_mint_task(4);
    t.register_recurrent_mint_task(5);
    t.register_recurrent_mint_task(4);
    assert_eq!(t.get_recurrent_mint_tasks(), vec![4, 5]);
    assert_eq!(dequeue_recurrent_mint_tasks(&mut t, &other, &vec![4]), Err(Error::AccessDenied));
    assert_eq!(t.get_recurrent_mint_tasks(), vec![4, 5]);
    assert_eq!(dequeue_recurrent_mint_tasks(&mut t, &minter, &vec![5, 6]), Ok(vec![true, false]));
    assert_eq!(t.get_recurrent_mint_tasks(), vec![4]);
    assert!(!t.unregister_recurrent_mint_task(5));
}

#[test]
fn firing_is_reserved_to_the_host_itself() {
    let (host, a) = (acc(100), acc(1));
    let mut t = token_with_minter(&a);
    let task = || CronTask::RecurrentMint(RecurrentMintTask { to: a.clone(), qty: 3, event_payload: Some(vec![9]) });
    assert_eq!(fire_recurrent_task(&mut t, &a, &host, task()).err().unwrap(), Error::ForbiddenOperation);
    assert_eq!(t.total_supply, 0);
    match fire_recurrent_task(&mut t, &host, &host, task()).unwrap() {
        FiredEvents::Minted(m, v, s) => {
            assert_eq!(m.qty, 3);
            assert_eq!(m.payload, Some(vec![9]));
            assert_eq!(v.new_voting_power, 3);
            assert_eq!(s.new_total_supply, 3);
        }
        FiredEvents::Transferred(..) => panic!("a mint task mints"),
    }
    assert_eq!(t.balance_of(&a), 3);
}

#[test]
fn role_updates_are_self_governed_and_can_lock_out() {
    let (a, b) = (acc(1), acc(2));
    let mut t = token_with_minter(&a);
    assert_eq!(
        update_controllers_as(&mut t, &b, ControllerType::Mint, vec![b.clone()]).err().unwrap(),
        Error::AccessDenied
    );
    assert_eq!(t.controllers.mint_controllers, vec![a.clone()]);

    let (prev, ev) = update_controllers_as(&mut t, &a, ControllerType::Mint, vec![]).unwrap();
    assert_eq!(prev, vec![a.clone()]);
    assert_eq!(ev.kind, ControllerType::Mint);
    assert_eq!(ev.old_controllers, vec![a.clone()]);
    assert!(ev.new_controllers.is_empty());
    assert_eq!(t.controllers.info_controllers, vec![a.clone()]);
    assert_eq!(mint_entries(&mut t, &a, vec![entry(&a, 1, None)]).err().unwrap(), Error::AccessDenied);
    assert_eq!(
        update_controllers_as(&mut t, &a, ControllerType::Mint, vec![a.clone()]).err().unwrap(),
        Error::AccessDenied
    );
}

#[test]
fn info_updates_need_the_info_role() {
    let (a, b) = (acc(1), acc(2));
    let mut t = token_with_minter(&a);
    let next = TokenInfo { name: String::from("Other"), symbol: String::from("OT"), decimals: 2 };
    assert_eq!(update_info_as(&mut t, &b, next.clone()).err().unwrap(), Error::AccessDenied);
    assert_eq!(t.info.name, String::from("Coin"));
    let (prev, ev) = update_info_as(&mut t, &a, next).unwrap();
    assert_eq!(prev.symbol, String::from("CN"));
    assert_eq!(ev.new_info.name, String::from("Other"));
    assert_eq!(t.info.decimals, 2);
}

#[test]
fn listeners_need_their_role() {
    let (a, b) = (acc(1), acc(2));
    let roles = single_controller(&Some(a.clone()));
    let mut hub = EventHub::new();
    let denied = hub.register_listener(&roles, &b, b.clone(), String::from("on_event"), EventKind::TokenMove);
    assert_eq!(denied, Err(ListenerError::AccessDenied));
    assert!(hub.listeners.is_empty());

    let first = hub.register_listener(&roles, &a, b.clone(), String::from("on_move"), EventKind::TokenMove).unwrap();
    let second = hub.register_listener(&roles, &a, b.clone(), String::from("on_info"), EventKind::InfoUpdate).unwrap();
    assert_eq!((first, second), (0, 1));
    assert_eq!(hub.recipients(EventKind::TokenMove), vec![0]);
    assert_eq!(hub.recipients(EventKind::InfoUpdate), vec![1]);

    assert_eq!(hub.unregister_listener(&roles, &b, first), Err(ListenerError::AccessDenied));
    assert_eq!(hub.listeners.len(), 2);
    assert_eq!(hub.unregister_listener(&roles, &a, first), Ok(true));
    assert_eq!(hub.unregister_listener(&roles, &a, first), Ok(false));
    assert!(hub.recipients(EventKind::TokenMove).is_empty());
    assert_eq!(hub.recipients(EventKind::InfoUpdate), vec![1]);
}

#[test]
fn error_names() {
    assert_eq!(Error::InsufficientBalance.name(), "InsufficientBalance");
    assert_eq!(Error::ZeroQuantity.name(), "ZeroQuantity");
    assert_eq!(Error::SupplyOverflow.name(), "SupplyOverflow");
}

#[test]
fn mint_entries_respect_the_supply_limit() {
    let a = acc(1);
    let mut t = token_with_minter(&a);
    let results = mint_entries(
        &mut t,
        &a,
        vec![entry(&a, u64::MAX - 5, None), entry(&a, 10, None), entry(&acc(2), 5, None)],
    )
    .unwrap();
    assert!(results[0].is_ok());
    assert_eq!(*results[1].as_ref().err().unwrap(), Error::SupplyOverflow);
    assert!(results[2].is_ok());
    assert_eq!(t.total_supply, u64::MAX);
    assert_eq!(t.balance_of(&a), u64::MAX - 5);
    assert_eq!(t.balance_of(&acc(2)), 5);
}
