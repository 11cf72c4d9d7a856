use split_money_manager::screens::{action_for, set_picked, Action, GroupState, LoginState, NotificationState, RegistrationState, Screen};
use split_money_manager::user::User;

#[test]
fn forms_start_empty() {
    let l = LoginState::default();
    assert!(l.login_email.is_empty() && l.login_password.is_empty());
    let r = RegistrationState::default();
    assert!(r.reg_username.is_empty() && r.reg_email.is_empty() && r.reg_password.is_empty());
    let g = GroupState::default();
    assert!(g.group_name.is_empty() && g.search_results.is_empty() && g.selected_users.is_empty() && !g.group_loading);
    let n = NotificationState::default();
    assert!(n.notifications.is_empty() && !n.notification_loading);
}

#[test]
fn main_screen_carries_the_user() {
    let s = Screen::MainApp(User::new(3, "Georgi".to_string(), "g@example.com".to_string()));
    match s.clone() {
        Screen::MainApp(u) => assert_eq!((u.id(), u.username(), u.is_loyal_payer()), (3, "Georgi", false)),
        _ => panic!("unexpected screen"),
    }
}

#[test]
fn picking_members_adds_once_and_removes_all() {
    let mut picked = vec![2, 3];
    set_picked(&mut picked, 3, true);
    assert_eq!(picked, vec![2, 3]);
    set_picked(&mut picked, 4, true);
    assert_eq!(picked, vec![2, 3, 4]);
    set_picked(&mut picked, 2, false);
    assert_eq!(picked, vec![3, 4]);
    set_picked(&mut picked, 9, false);
    assert_eq!(picked, vec![3, 4]);
}

#[test]
fn each_screen_has_its_action() {
    assert!(matches!(action_for(&Screen::Login), Action::Login));
    assert!(matches!(action_for(&Screen::AddExp(1, 7)), Action::AddExp(1, 7)));
    assert!(matches!(action_for(&Screen::MyDebtsOrCredits(2, false)), Action::MyDebtsOrCredits(2, false)));
    match action_for(&Screen::MainApp(User::new(5, "Petar".to_string(), "p@example.com".to_string()))) {
        Action::MainApp(u) => assert_eq!((u.id(), u.email()), (5, "p@example.com")),
        _ => panic!("unexpected action"),
    }
}
