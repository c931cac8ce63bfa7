use bank_ledger::bank_model::{BankState, BankUser};
use bank_ledger::cards::generate_unique;
use bank_ledger::errors::BankErrors;

fn bank() -> BankState {
    BankState::new("Test Bank".to_string())
}

fn open_account(b: &mut BankState, name: &str, phone: &str, balance: &str) -> u32 {
    b.create_user(name.to_string(), phone.to_string(), balance.to_string())
        .expect("account creation should succeed")
}

#[test]
fn create_with_valid_balance() {
    let mut b = bank();
    let card = open_account(&mut b, "Ada", "100200", "100");
    assert_eq!(b.balance_of(card), Some(100));
    assert_eq!(b.get_users().len(), 1);
}

#[test]
fn create_with_negative_balance_fails() {
    let mut b = bank();
    let r = b.create_user("Ada".to_string(), "100200".to_string(), "-5".to_string());
    assert_eq!(r, Err(BankErrors::InvalidAmount));
    assert_eq!(b.get_users().len(), 0);
}

#[test]
fn create_with_garbage_balance_fails() {
    let mut b = bank();
    let r = b.create_user("Ada".to_string(), "100200".to_string(), "abc".to_string());
    assert_eq!(r, Err(BankErrors::InvalidAmount));
    assert_eq!(b.get_users().len(), 0);
}

#[test]
fn create_with_zero_balance() {
    let mut b = bank();
    let card = open_account(&mut b, "Ada", "100200", "0");
    assert_eq!(b.balance_of(card), Some(0));
}

#[test]
fn cards_are_unique() {
    let mut b = bank();
    let mut cards = Vec::new();
    for i in 0..50 {
        let phone = format!("555-{i}");
        cards.push(open_account(&mut b, "Holder", &phone, "1"));
    }
    for i in 0..cards.len() {
        for j in 0..i {
            assert_ne!(cards[i], cards[j]);
        }
    }
}

#[test]
fn cards_are_eight_digits() {
    let mut b = bank();
    for _ in 0..20 {
        let card = open_account(&mut b, "Holder", "555", "1");
        assert!((10_000_000..=99_999_999).contains(&card));
    }
}

#[test]
fn generated_numbers_avoid_existing_cards() {
    let mut b = bank();
    for i in 0..10 {
        let phone = format!("555-{i}");
        open_account(&mut b, "Holder", &phone, "1");
    }
    for _ in 0..20 {
        let fresh = generate_unique(b.get_users()).expect("free numbers remain");
        assert!((10_000_000..=99_999_999).contains(&fresh));
        assert!(b.get_users().iter().all(|u| u.check_card_number() != fresh));
    }
}

#[test]
fn delete_existing_account() {
    let mut b = bank();
    let card = open_account(&mut b, "Ada", "100200", "10");
    assert_eq!(b.delete_user(card.to_string()), Ok(()));
    assert!(b.find_by_card(card).is_none());
    assert_eq!(b.balance_of(card), None);
    assert_eq!(b.get_users().len(), 0);
}

#[test]
fn delete_unknown_account_fails() {
    let mut b = bank();
    assert_eq!(b.delete_user("12345678".to_string()), Err(BankErrors::AccountNotFound));
}

#[test]
fn delete_with_garbage_card_fails() {
    let mut b = bank();
    assert_eq!(b.delete_user("not-a-card".to_string()), Err(BankErrors::AccountNotFound));
}

#[test]
fn deleted_twice_fails_second_time() {
    let mut b = bank();
    let card = open_account(&mut b, "Ada", "100200", "10");
    assert_eq!(b.delete_user(card.to_string()), Ok(()));
    assert_eq!(b.delete_user(card.to_string()), Err(BankErrors::AccountNotFound));
}

#[test]
fn find_by_card_reads_account() {
    let mut b = bank();
    let card = open_account(&mut b, "Ada Lovelace", "100200", "77");
    let u = b.find_by_card(card).expect("account should be found");
    assert_eq!(u.check_card_number(), card);
    assert_eq!(u.check_fio(), "Ada Lovelace");
    assert_eq!(u.check_phone(), "100200");
    assert_eq!(u.check_balance(), 77);
    assert!(u.is_enough_money(77));
    assert!(!u.is_enough_money(78));
}

#[test]
fn find_by_phone_picks_earliest() {
    let mut b = bank();
    let first = open_account(&mut b, "Ada", "shared", "1");
    let _second = open_account(&mut b, "Grace", "shared", "2");
    let u = b.find_by_phone(&"shared".to_string()).expect("phone should match");
    assert_eq!(u.check_card_number(), first);
}

#[test]
fn find_by_phone_unknown() {
    let mut b = bank();
    open_account(&mut b, "Ada", "100200", "1");
    assert!(b.find_by_phone(&"other".to_string()).is_none());
}

#[test]
fn new_bank_is_empty() {
    let b = bank();
    assert_eq!(b.name, "Test Bank");
    assert_eq!(b.get_users().len(), 0);
    assert_eq!(b.get_transactions().len(), 0);
}

#[test]
fn reset_inputs_clears_form() {
    let mut b = bank();
    b.input_fio = "Ada".to_string();
    b.input_phone = "100200".to_string();
    b.input_money = "10".to_string();
    b.input_card_num = "12345678".to_string();
    b.reset_inputs();
    assert!(b.input_fio.is_empty());
    assert!(b.input_phone.is_empty());
    assert!(b.input_money.is_empty());
    assert_eq!(b.input_card_num, "12345678");
}

#[test]
fn creation_leaves_ledger_alone() {
    let mut b = bank();
    open_account(&mut b, "Ada", "100200", "10");
    open_account(&mut b, "Grace", "300400", "20");
    assert_eq!(b.get_transactions().len(), 0);
}
