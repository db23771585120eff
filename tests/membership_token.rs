use antifragile_tokens::membership::{ControllerList, MembershipStatus, MembershipToken};
use antifragile_tokens::Account;

fn account(n: u8) -> Account {
    Account::from_bytes(vec![0x3d, n, n, 0x02])
}

fn create_test_token() -> (MembershipToken, Account) {
    let controller = account(200);
    let token = MembershipToken::new(ControllerList::single(Some(controller.clone())));

    (token, controller)
}

#[test]
fn membership_token_creation_works_fine() {
    let (token, controller) = create_test_token();

    assert!(token.members.is_empty());
    assert!(token.pending_members.is_empty());

    assert!(token.controllers.issue_controllers.contains(&controller));
    assert!(token.controllers.revoke_controllers.contains(&controller));
    assert!(token
        .controllers
        .event_listeners_controllers
        .contains(&controller));
}

#[test]
fn basic_issue_accept_revoke_flow_works_correctly() {
    let (mut token, _) = create_test_token();
    let user_1 = account(1);

    let event_1 = token.issue_membership(user_1.clone()).ok().unwrap();

    assert!(!token.is_member(&user_1));
    assert!(token.is_pending_member(&user_1));
    assert!(token.members.is_empty());
    assert_eq!(token.pending_members.len(), 1);

    assert_eq!(event_1.member, user_1);
    assert_eq!(event_1.new_status as u8, MembershipStatus::Issued as u8);

    let events_2 = token.accept_membership(user_1.clone()).ok().unwrap();

    assert!(token.is_member(&user_1));
    assert!(!token.is_pending_member(&user_1));
    assert!(token.pending_members.is_empty());
    assert_eq!(token.members.len(), 1);

    let (event_2_m, event_2_t, event_2_v) = events_2;

    assert_eq!(event_2_m.member, user_1);
    assert_eq!(event_2_m.new_status as u8, MembershipStatus::Accepted as u8);

    assert_eq!(event_2_t.new_total_voting_power, 1);

    assert_eq!(event_2_v.voter, user_1);
    assert_eq!(event_2_v.new_voting_power, 1);

    let events_3 = token.revoke_membership(user_1.clone()).ok().unwrap();

    assert!(!token.is_member(&user_1));
    assert!(!token.is_pending_member(&user_1));
    assert!(token.members.is_empty());
    assert!(token.pending_members.is_empty());

    let (event_3_m, event_3_t, event_3_v) = events_3;

    assert_eq!(event_3_m.member, user_1);
    assert_eq!(event_3_m.new_status as u8, MembershipStatus::Revoked as u8);

    assert_eq!(event_3_t.new_total_voting_power, 0);

    assert_eq!(event_3_v.voter, user_1);
    assert_eq!(event_3_v.new_voting_power, 0);
}

#[test]
fn should_be_unable_to_revoke_not_a_member() {
    let (mut token, _) = create_test_token();
    let user_1 = account(1);
    let user_2 = account(2);

    let _ = token.issue_membership(user_1.clone());
    let _ = token.accept_membership(user_1.clone());

    token.revoke_membership(user_2.clone()).err().unwrap();

    let _ = token.issue_membership(user_2.clone());

    token.revoke_membership(user_2.clone()).err().unwrap();

    let _ = token.accept_membership(user_2.clone());

    token.revoke_membership(user_2.clone()).ok().unwrap();
}
