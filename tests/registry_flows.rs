use antifragile_tokens::membership::{ControllerList, ControllerType, Error, MembershipStatus, MembershipToken};
use antifragile_tokens::membership_service::{issue_memberships, revoke_memberships, update_controllers_as};
use antifragile_tokens::Account;

fn acc(n: u8) -> Account {
    Account::from_bytes(vec![0x77, n])
}

fn registry(controller: &Account) -> MembershipToken {
    MembershipToken::new(ControllerList::single(Some(controller.clone())))
}

#[test]
fn scenario_issue_accept_then_revoke() {
    let x = acc(1);
    let mut r = registry(&acc(100));
    r.issue_membership(x.clone()).unwrap();
    r.accept_membership(x.clone()).unwrap();
    assert!(r.is_member(&x));
    assert!(!r.is_pending_member(&x));
    assert_eq!(r.get_total_members(), 1);

    r.revoke_membership(x.clone()).unwrap();
    assert!(!r.is_member(&x));
    assert_eq!(r.get_total_members(), 0);
}

#[test]
fn status_transitions_are_refused_out_of_order() {
    let (x, y) = (acc(1), acc(2));
    let mut r = registry(&acc(100));
    assert_eq!(r.accept_membership(x.clone()).err().unwrap(), Error::IsNotAMember);
    assert_eq!(r.decline_membership(x.clone()).err().unwrap(), Error::IsNotAMember);
    assert_eq!(r.revoke_membership(x.clone()).err().unwrap(), Error::IsNotAMember);

    r.issue_membership(x.clone()).unwrap();
    assert_eq!(r.issue_membership(x.clone()).err().unwrap(), Error::AlreadyIsAMember);
    assert_eq!(r.revoke_membership(x.clone()).err().unwrap(), Error::IsNotAMember);
    r.accept_membership(x.clone()).unwrap();
    assert_eq!(r.issue_membership(x.clone()).err().unwrap(), Error::AlreadyIsAMember);
    assert_eq!(r.accept_membership(x.clone()).err().unwrap(), Error::IsNotAMember);

    r.issue_membership(y.clone()).unwrap();
    let ev = r.decline_membership(y.clone()).unwrap();
    assert_eq!(ev.new_status, MembershipStatus::Declined);
    assert!(!r.is_pending_member(&y));
    assert!(!r.is_member(&y));
    assert_eq!(r.get_total_members(), 1);
    assert_eq!(Error::IsNotAMember.name(), "IsNotAMember");
}

#[test]
fn batch_issue_and_revoke_need_their_roles() {
    let (boss, x, y) = (acc(100), acc(1), acc(2));
    let mut r = registry(&boss);
    assert_eq!(issue_memberships(&mut r, &x, vec![y.clone()]).err().unwrap(), Error::AccessDenied);
    assert!(r.pending_members.is_empty());

    let results = issue_memberships(&mut r, &boss, vec![x.clone(), y.clone(), x.clone()]).unwrap();
    assert!(results[0].is_ok());
    assert!(results[1].is_ok());
    assert_eq!(*results[2].as_ref().err().unwrap(), Error::AlreadyIsAMember);
    assert_eq!(r.pending_members.len(), 2);

    r.accept_membership(x.clone()).unwrap();
    assert_eq!(revoke_memberships(&mut r, &x, vec![x.clone()]).err().unwrap(), Error::AccessDenied);
    assert!(r.is_member(&x));
    let results = revoke_memberships(&mut r, &boss, vec![y.clone(), x.clone()]).unwrap();
    assert_eq!(*results[0].as_ref().err().unwrap(), Error::IsNotAMember);
    let (m, total, v) = results[1].as_ref().unwrap();
    assert_eq!(m.member, x);
    assert_eq!(total.new_total_voting_power, 0);
    assert_eq!(v.new_voting_power, 0);
    assert_eq!(r.get_total_members(), 0);
    assert!(r.is_pending_member(&y));
}

#[test]
fn registry_roles_can_be_handed_over() {
    let (boss, x) = (acc(100), acc(1));
    let mut r = registry(&boss);
    assert_eq!(
        update_controllers_as(&mut r, &x, ControllerType::Issue, vec![x.clone()]).err().unwrap(),
        Error::AccessDenied
    );
    let (prev, ev) = update_controllers_as(&mut r, &boss, ControllerType::Issue, vec![x.clone()]).unwrap();
    assert_eq!(prev, vec![boss.clone()]);
    assert_eq!(ev.kind, ControllerType::Issue);
    assert_eq!(ev.old_controllers, vec![boss.clone()]);
    assert_eq!(ev.new_controllers, vec![x.clone()]);
    assert_eq!(r.controllers.issue_controllers, vec![x.clone()]);
    assert_eq!(r.controllers.revoke_controllers, vec![boss.clone()]);
    assert!(issue_memberships(&mut r, &x, vec![boss.clone()]).is_ok());
    assert!(r.is_pending_member(&boss));
}
