use split_money_manager::debt::LedgerError;
use split_money_manager::ledger::Ledger;

fn four_users() -> Ledger {
    let mut ledger = Ledger::new();
    ledger.add_account(1, "Ivan", "ivan@example.com", "", 0, false);
    ledger.add_account(2, "Maria", "maria@example.com", "", 0, true);
    ledger.add_account(3, "Georgi", "georgi@example.com", "", 0, false);
    ledger.add_account(4, "Petar", "petar@example.com", "", 0, false);
    ledger
}

#[test]
fn create_group() {
    let mut ledger = four_users();
    let id = ledger.create_group("super group", 1, &[2, 3, 4]);

    let groups: Vec<_> = ledger.get_user_groups(2).unwrap();
    assert_eq!(groups.len(), 1);
    assert_eq!(groups[0].groupname(), "super group");
    assert_eq!(groups[0].id(), id);
    assert_eq!(id, 1);

    assert_eq!(ledger.members_of(1), vec![2, 3, 4]);
}

#[test]
fn show_searched_users() {
    let ledger = four_users();
    let result1 = ledger.search_users("Ivan").unwrap();
    assert_eq!(result1[0].id(), 1);
    let result2 = ledger.search_users("maria@example.com").unwrap();
    assert_eq!(result2[0].id(), 2);
    assert!(result2[0].is_loyal_payer());
    let result3 = ledger.search_users("Georgia").unwrap_err();
    assert_eq!(result3.message(), "Няма такъв потребител!");
}

#[test]
fn search_ignores_ascii_case_and_matches_parts() {
    let ledger = four_users();
    let ids: Vec<i32> = ledger.search_users("ETA").unwrap().iter().map(|u| u.id()).collect();
    assert_eq!(ids, vec![4]);
    let ids: Vec<i32> = ledger.search_users("example").unwrap().iter().map(|u| u.id()).collect();
    assert_eq!(ids, vec![1, 2, 3, 4]);
}

#[test]
fn get_user_groups() {
    let mut ledger = Ledger::new();
    ledger.add_account(1, "Ivan", "", "", 0, false);
    ledger.add_account(2, "Maria", "", "", 0, false);
    ledger.add_account(3, "Georgi", "", "", 0, false);
    ledger.add_group(1, "gr1", 1);
    ledger.add_member(1, 1);
    ledger.add_member(1, 2);

    let result1 = ledger.get_user_groups(1).unwrap();
    let result2 = ledger.get_user_groups(2).unwrap();
    let result3 = ledger.get_user_groups(3).unwrap_err();

    assert_eq!(result1[0].groupname(), "gr1");
    assert_eq!(result2[0].groupname(), "gr1");
    assert_eq!(result3.message(), "Нямате групи!");
}

#[test]
fn created_groups_follow_stored_ones() {
    let mut ledger = four_users();
    ledger.add_group(7, "old", 1);
    assert_eq!(ledger.create_group("new", 2, &[2, 2, 3]), 8);
    assert_eq!(ledger.members_of(8), vec![2, 3]);
}

#[test]
fn users_are_found_by_id() {
    let ledger = four_users();
    let u = ledger.get_user_by_id(3).unwrap();
    assert_eq!((u.username(), u.email()), ("Georgi", "georgi@example.com"));
    assert_eq!(ledger.get_user_by_id(9).unwrap_err(), LedgerError::UnknownUser);
    assert_eq!(LedgerError::UnknownUser.message(), "Не е намерен потребител.");
}
