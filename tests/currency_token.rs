use antifragile_tokens::ledger::{ControllerList, CurrencyToken, CurrencyTokenInfo};
use antifragile_tokens::Account;

fn account(n: u8) -> Account {
    Account::from_bytes(vec![n, 0x5e, n, 0x01])
}

fn magic_blob() -> Vec<u8> {
    vec![1u8, 3u8, 3u8, 7u8]
}

fn create_currency_token() -> (CurrencyToken, Account) {
    let controller = account(200);
    let token = CurrencyToken::new(
        CurrencyTokenInfo {
            name: String::from("test"),
            symbol: String::from("TST"),
            decimals: 8,
        },
        ControllerList::single(Some(controller.clone())),
    );

    (token, controller)
}

#[test]
fn currency_token_creation_works_fine() {
    let (token, controller) = create_currency_token();

    assert!(token.balances.is_empty());
    assert_eq!(token.total_supply, 0);
    assert!(token.controllers.event_listeners_controllers.contains(&controller));
    assert!(token.controllers.info_controllers.contains(&controller));
    assert!(token.controllers.mint_controllers.contains(&controller));
    assert_eq!(token.info.name, String::from("test"));
    assert_eq!(token.info.symbol, String::from("TST"));
    assert_eq!(token.info.decimals, 8);
}

#[test]
fn currency_token_minting_works_right() {
    let (mut token, controller) = create_currency_token();
    let user_1 = account(1);

    let (ev1, ev2) = token.mint(user_1.clone(), 100, None).expect("mint 1 should work");

    assert_eq!(token.total_supply, 100);
    assert_eq!(token.balances.len(), 1);
    assert_eq!(token.entry_of(&user_1).unwrap(), 100);

    assert_eq!(ev1.from, None);
    assert_eq!(ev1.to, Some(user_1.clone()));
    assert_eq!(ev1.qty, 100);
    assert_eq!(ev1.payload, None);

    assert_eq!(ev2.voter, user_1);
    assert_eq!(ev2.new_voting_power, 100);

    let (ev1, ev2) = token
        .mint(controller.clone(), 200, Some(magic_blob()))
        .expect("mint 2 should work");

    assert_eq!(token.total_supply, 300);
    assert_eq!(token.balances.len(), 2);
    assert_eq!(token.entry_of(&user_1).unwrap(), 100);
    assert_eq!(token.entry_of(&controller).unwrap(), 200);

    assert_eq!(ev1.from, None);
    assert_eq!(ev1.qty, 200);
    assert_eq!(ev1.to, Some(controller.clone()));
    assert_eq!(ev1.payload, Some(magic_blob()));

    assert_eq!(ev2.voter, controller);
    assert_eq!(ev2.new_voting_power, 200);
}

#[test]
fn currency_token_burning_works_fine() {
    let (mut token, _controller) = create_currency_token();
    let user_1 = account(1);

    token.mint(user_1.clone(), 100, None).expect("mint 1 should work");

    let (ev1, ev2) = token.burn(user_1.clone(), 90, None).expect("burn 1 should work");

    assert_eq!(token.balances.len(), 1);
    assert_eq!(token.entry_of(&user_1).unwrap(), 10);
    assert_eq!(token.total_supply, 10);

    assert_eq!(ev1.from, Some(user_1.clone()));
    assert_eq!(ev1.to, None);
    assert_eq!(ev1.qty, 90);
    assert_eq!(ev1.payload, None);

    assert_eq!(ev2.voter, user_1);
    assert_eq!(ev2.new_voting_power, 10);

    token
        .burn(user_1.clone(), 20, None)
        .expect_err("overburn shouldn't work");

    let (ev1, ev2) = token.burn(user_1.clone(), 10, None).expect("burn 2 should work");

    assert!(token.balances.is_empty());
    assert!(token.entry_of(&user_1).is_none());
    assert_eq!(token.total_supply, 0);

    assert_eq!(ev1.from, Some(user_1.clone()));
    assert_eq!(ev1.to, None);
    assert_eq!(ev1.qty, 10);
    assert_eq!(ev1.payload, None);

    assert_eq!(ev2.voter, user_1);
    assert_eq!(ev2.new_voting_power, 0);

    token
        .burn(user_1.clone(), 20, None)
        .expect_err("overburn shouldn't work");
}

#[test]
fn currency_token_transfer_works_fine() {
    let (mut token, controller) = create_currency_token();
    let user_1 = account(1);
    let user_2 = account(2);

    token.mint(user_1.clone(), 1000, None).expect("mint 1 should work");

    let (ev1, ev2, ev3) = token
        .transfer(user_1.clone(), user_2.clone(), 100, None)
        .expect("transfer 1 should work");

    assert_eq!(token.balances.len(), 2);
    assert_eq!(token.entry_of(&user_1).unwrap(), 900);
    assert_eq!(token.entry_of(&user_2).unwrap(), 100);
    assert_eq!(token.total_supply, 1000);

    assert_eq!(ev1.from, Some(user_1.clone()));
    assert_eq!(ev1.to, Some(user_2.clone()));
    assert_eq!(ev1.qty, 100);
    assert_eq!(ev1.payload, None);

    assert_eq!(ev2.voter, user_1);
    assert_eq!(ev2.new_voting_power, 900);

    assert_eq!(ev3.voter, user_2);
    assert_eq!(ev3.new_voting_power, 100);

    token
        .transfer(user_1.clone(), user_2.clone(), 1000, None)
        .expect_err("overtrasnfer 1 should fail");

    token
        .transfer(controller.clone(), user_2.clone(), 100, None)
        .expect_err("overtransfer 2 should fail");

    let (ev1, ev2, ev3) = token
        .transfer(user_2.clone(), user_1.clone(), 100, None)
        .expect("transfer 2 should work");

    assert_eq!(token.balances.len(), 1);
    assert_eq!(token.entry_of(&user_1).unwrap(), 1000);
    assert!(token.entry_of(&user_2).is_none());
    assert_eq!(token.total_supply, 1000);

    assert_eq!(ev1.from, Some(user_2.clone()));
    assert_eq!(ev1.to, Some(user_1.clone()));
    assert_eq!(ev1.qty, 100);
    assert_eq!(ev1.payload, None);

    assert_eq!(ev2.voter, user_2);
    assert_eq!(ev2.new_voting_power, 0);

    assert_eq!(ev3.voter, user_1);
    assert_eq!(ev3.new_voting_power, 1000);

    token
        .transfer(user_2.clone(), user_1.clone(), 1, None)
        .expect_err("overtransfer 3 should fail");

    token
        .transfer(user_2.clone(), user_1.clone(), 0, None)
        .expect_err("transfer of zero tokens should fail");
}

#[test]
fn currency_token_info_update_works_well() {
    let (mut token, _controller) = create_currency_token();

    let new_info_1 = CurrencyTokenInfo {
        name: String::from("name 1"),
        symbol: String::from("NME1"),
        decimals: 9,
    };
    token.update_info(new_info_1);

    assert_eq!(token.info.name, String::from("name 1"));
    assert_eq!(token.info.symbol, String::from("NME1"));
    assert_eq!(token.info.decimals, 9);

    let new_info_2 = CurrencyTokenInfo {
        name: String::from("name 2"),
        symbol: String::from("NME2"),
        decimals: 2,
    };
    token.update_info(new_info_2);

    assert_eq!(token.info.name, String::from("name 2"));
    assert_eq!(token.info.symbol, String::from("NME2"));
    assert_eq!(token.info.decimals, 2);
}
