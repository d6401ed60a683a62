use grant_escrow::account::Account;
use grant_escrow::entries::Entries;

fn account(n: u8) -> Account {
    let mut strkey = [b'A'; 56];
    strkey[0] = b'G';
    strkey[55] = n;
    Account::new(strkey)
}

#[test]
fn accounts_are_told_apart_by_their_text() {
    assert!(account(1).same(&account(1)));
    assert!(!account(1).same(&account(2)));
    let mut strkey = account(1).strkey;
    strkey[0] = b'C';
    assert!(!account(1).same(&Account::new(strkey)));
}

#[test]
fn new_table_is_empty() {
    let table: Entries<u64, i128> = Entries::new();
    assert!(table.is_empty());
    assert_eq!(table.get(&1), None);
    assert!(!table.has(&1));
}

#[test]
fn last_value_written_is_read() {
    let mut table: Entries<u64, i128> = Entries::new();
    table.set(1, 10);
    table.set(2, 20);
    table.set(1, 11);
    assert_eq!(table.get(&1), Some(11));
    assert_eq!(table.get(&2), Some(20));
    assert_eq!(table.get(&3), None);
    assert!(!table.is_empty());
}

#[test]
fn removed_entry_is_gone_and_others_stay() {
    let mut table: Entries<Account, u32> = Entries::new();
    table.set(account(1), 1);
    table.set(account(2), 2);
    table.set(account(3), 3);
    table.remove(&account(2));
    assert_eq!(table.get(&account(1)), Some(1));
    assert!(!table.has(&account(2)));
    assert_eq!(table.get(&account(3)), Some(3));
    table.remove(&account(2));
    assert!(table.has(&account(3)));
    table.remove(&account(1));
    table.remove(&account(3));
    assert!(table.is_empty());
}
