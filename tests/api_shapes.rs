use antifragile_tokens::ledger::{ControllerType, Error, TokenInfo};
use antifragile_tokens::ledger_api::{
    self, BurnRequest, CurrencyTokenInitRequest, GetBalanceOfRequest, InitRequest,
    TransferResponse, UpdateInfoRequest,
};
use antifragile_tokens::ledger_service::update_controllers_as;
use antifragile_tokens::membership;
use antifragile_tokens::membership_api::{
    self as registry_api, AcceptDeclineMembershipResponse, IsMemberRequest,
    IssueRevokeMembershipsResponse,
};
use antifragile_tokens::Account;

fn acc(n: u8) -> Account {
    Account::from_bytes(vec![0xc4, n])
}

fn info() -> TokenInfo {
    TokenInfo { name: String::from("Coin"), symbol: String::from("CN"), decimals: 6 }
}

#[test]
fn ledger_init_gives_roles_to_the_creator_or_the_given_accounts() {
    let (creator, x, y) = (acc(1), acc(2), acc(3));
    let t = ledger_api::init(&creator, CurrencyTokenInitRequest { info: info() }.into_init_request());
    assert_eq!(t.controllers.mint_controllers, vec![creator.clone()]);
    assert_eq!(t.controllers.event_listeners_controllers, vec![creator.clone()]);
    assert_eq!(ledger_api::get_total_supply(&t).total_supply, 0);

    let t = ledger_api::init(&creator, InitRequest { info: info(), default_controllers: Some(vec![x.clone(), y.clone()]) });
    assert_eq!(t.controllers.info_controllers, vec![x.clone(), y.clone()]);
    assert_eq!(t.controllers.mint_controllers, vec![x, y]);

    let t = ledger_api::init(&creator, InitRequest { info: info(), default_controllers: Some(vec![]) });
    assert!(t.controllers.mint_controllers.is_empty());
}

#[test]
fn ledger_requests_and_responses() {
    let a = acc(1);
    let mut t = ledger_api::init(&a, InitRequest { info: info(), default_controllers: None });
    t.mint(a.clone(), 50, None).unwrap();
    let req = GetBalanceOfRequest { account_owner: a.clone() };
    assert_eq!(ledger_api::get_balance_of(&t, &req).balance, 50);

    let (m, v, s) = ledger_api::burn(&mut t, &a, BurnRequest { qty: 20, event_payload: None }).unwrap();
    assert_eq!(m.qty, 20);
    assert_eq!(m.from, Some(a.clone()));
    assert_eq!(v.new_voting_power, 30);
    assert_eq!(s.new_total_supply, 30);
    assert_eq!(ledger_api::get_total_supply(&t).total_supply, 30);
    assert_eq!(
        ledger_api::burn(&mut t, &a, BurnRequest { qty: 0, event_payload: None }).err().unwrap(),
        Error::ZeroQuantity
    );

    let new_info = TokenInfo { name: String::from("Next"), symbol: String::from("NX"), decimals: 1 };
    assert_eq!(
        ledger_api::update_info(&mut t, &acc(9), UpdateInfoRequest { new_info: new_info.clone() }).err().unwrap(),
        Error::AccessDenied
    );
    let (resp, ev) = ledger_api::update_info(&mut t, &a, UpdateInfoRequest { new_info }).unwrap();
    assert_eq!(resp.old_info.name, String::from("Coin"));
    assert_eq!(ev.new_info.symbol, String::from("NX"));
    assert_eq!(ledger_api::get_info(&t).info.name, String::from("Next"));

    let outcomes: Vec<Result<u8, Error>> = vec![Ok(7), Err(Error::InsufficientBalance)];
    let summary = TransferResponse::from_outcomes(&outcomes);
    assert_eq!(summary.results, vec![Ok(()), Err(Error::InsufficientBalance)]);

    let (prev, _) = update_controllers_as(&mut t, &a, ControllerType::Info, vec![acc(4)]).unwrap();
    assert_eq!(prev, vec![a.clone()]);
    let roles = ledger_api::get_controllers(&t).controllers;
    assert_eq!(roles.info_controllers, vec![acc(4)]);
    assert_eq!(roles.mint_controllers, vec![a]);
}

#[test]
fn registry_requests_and_responses() {
    let (creator, x) = (acc(1), acc(2));
    let mut r = registry_api::init(&creator, &registry_api::InitRequest { default_controllers: None });
    assert_eq!(r.controllers.revoke_controllers, vec![creator.clone()]);
    let issued = r.issue_membership(x.clone());
    let req = IsMemberRequest { prin: x.clone() };
    assert!(registry_api::is_pending_member(&r, &req).is_member);
    assert!(!registry_api::is_member(&r, &req).is_member);

    let accepted = r.accept_membership(x.clone());
    assert_eq!(AcceptDeclineMembershipResponse::from_outcome(&accepted).result, Ok(()));
    assert!(registry_api::is_member(&r, &req).is_member);
    assert_eq!(registry_api::get_total_members(&r).total_members, 1);

    let declined = r.decline_membership(x.clone());
    assert_eq!(
        AcceptDeclineMembershipResponse::from_outcome(&declined).result,
        Err(membership::Error::IsNotAMember)
    );
    let summary = IssueRevokeMembershipsResponse::from_outcomes(&vec![issued, r.issue_membership(x)]);
    assert_eq!(summary.results, vec![Ok(()), Err(membership::Error::AlreadyIsAMember)]);

    let others = registry_api::init(&creator, &registry_api::InitRequest { default_controllers: Some(vec![acc(5)]) });
    assert_eq!(others.controllers.issue_controllers, vec![acc(5)]);
    assert_eq!(registry_api::get_controllers(&others).controllers.revoke_controllers, vec![acc(5)]);
}
