use bank_ledger::bank_model::BankState;
use bank_ledger::errors::BankErrors;

fn bank() -> BankState {
    BankState::new("Test Bank".to_string())
}

fn open_account(b: &mut BankState, name: &str, phone: &str, balance: &str) -> u32 {
    b.create_user(name.to_string(), phone.to_string(), balance.to_string())
        .expect("account creation should succeed")
}

/// Two accounts as in the card-addressed transfer scenario: X holding 50,
/// Y holding 0.
fn x_and_y(b: &mut BankState) -> (u32, u32) {
    let x = open_account(b, "X", "phone-x", "50");
    let y = open_account(b, "Y", "phone-y", "0");
    (x, y)
}

#[test]
fn transfer_by_card_moves_money() {
    let mut b = bank();
    let (x, y) = x_and_y(&mut b);
    let tx = b
        .transfer_by_card(x.to_string(), y.to_string(), "30".to_string())
        .expect("transfer should succeed");
    assert_eq!(b.balance_of(x), Some(20));
    assert_eq!(b.balance_of(y), Some(30));
    assert_eq!(b.get_transactions().len(), 1);
    assert_eq!(tx.get_amount(), 30);
    assert_eq!(tx.get_sender_card(), x);
    assert_eq!(tx.get_recipient(), y);
    let recorded = b.get_transactions()[0];
    assert_eq!(recorded.get_amount(), 30);
    assert_eq!(recorded.get_sender_card(), x);
    assert_eq!(recorded.get_recipient(), y);
}

#[test]
fn insufficient_funds_changes_nothing() {
    let mut b = bank();
    let x = open_account(&mut b, "X", "phone-x", "20");
    let y = open_account(&mut b, "Y", "phone-y", "0");
    let r = b.transfer_by_card(x.to_string(), y.to_string(), "1000".to_string());
    assert_eq!(r, Err(BankErrors::InsufficientFunds));
    assert_eq!(b.balance_of(x), Some(20));
    assert_eq!(b.balance_of(y), Some(0));
    assert_eq!(b.get_transactions().len(), 0);
}

#[test]
fn missing_phone_recipient_leaves_sender_undebited() {
    let mut b = bank();
    let x = open_account(&mut b, "X", "phone-x", "50");
    let r = b.transfer_by_phone(x.to_string(), "nonexistent".to_string(), "10".to_string());
    assert_eq!(r, Err(BankErrors::RecipientNotFound));
    assert_eq!(b.balance_of(x), Some(50));
    assert_eq!(b.get_transactions().len(), 0);
}

#[test]
fn transfer_by_phone_moves_money() {
    let mut b = bank();
    let x = open_account(&mut b, "X", "phone-x", "50");
    let y = open_account(&mut b, "Y", "phone-y", "5");
    let tx = b
        .transfer_by_phone(x.to_string(), "phone-y".to_string(), "25".to_string())
        .expect("transfer should succeed");
    assert_eq!(b.balance_of(x), Some(25));
    assert_eq!(b.balance_of(y), Some(30));
    // The record resolves the phone-addressed recipient to a card number.
    assert_eq!(tx.get_recipient(), y);
    assert_eq!(tx.get_sender_card(), x);
}

#[test]
fn phone_transfer_credits_earliest_match() {
    let mut b = bank();
    let x = open_account(&mut b, "X", "phone-x", "50");
    let first = open_account(&mut b, "A", "shared", "0");
    let second = open_account(&mut b, "B", "shared", "0");
    b.transfer_by_phone(x.to_string(), "shared".to_string(), "10".to_string())
        .expect("transfer should succeed");
    assert_eq!(b.balance_of(first), Some(10));
    assert_eq!(b.balance_of(second), Some(0));
}

#[test]
fn conservation_of_total_balance() {
    let mut b = bank();
    let (x, y) = x_and_y(&mut b);
    let before = b.total_balance();
    b.transfer_by_card(x.to_string(), y.to_string(), "30".to_string())
        .expect("transfer should succeed");
    assert_eq!(b.total_balance(), before);
    assert_eq!(before, 50);
}

#[test]
fn self_transfer_rejected() {
    let mut b = bank();
    let x = open_account(&mut b, "X", "phone-x", "50");
    let r = b.transfer_by_card(x.to_string(), x.to_string(), "10".to_string());
    assert_eq!(r, Err(BankErrors::InvalidRecipient));
    assert_eq!(b.balance_of(x), Some(50));
    let r = b.transfer_by_phone(x.to_string(), "phone-x".to_string(), "10".to_string());
    assert_eq!(r, Err(BankErrors::InvalidRecipient));
    assert_eq!(b.balance_of(x), Some(50));
}

#[test]
fn insufficient_funds_beats_self_transfer() {
    let mut b = bank();
    let x = open_account(&mut b, "X", "phone-x", "50");
    let r = b.transfer_by_card(x.to_string(), x.to_string(), "60".to_string());
    assert_eq!(r, Err(BankErrors::InsufficientFunds));
}

#[test]
fn zero_amount_rejected() {
    let mut b = bank();
    let (x, y) = x_and_y(&mut b);
    let r = b.transfer_by_card(x.to_string(), y.to_string(), "0".to_string());
    assert_eq!(r, Err(BankErrors::InvalidAmount));
    assert_eq!(b.balance_of(x), Some(50));
}

#[test]
fn garbage_amount_rejected() {
    let mut b = bank();
    let (x, y) = x_and_y(&mut b);
    let r = b.transfer_by_card(x.to_string(), y.to_string(), "ten".to_string());
    assert_eq!(r, Err(BankErrors::InvalidAmount));
    let r = b.transfer_by_card(x.to_string(), y.to_string(), "-10".to_string());
    assert_eq!(r, Err(BankErrors::InvalidAmount));
}

#[test]
fn unknown_sender_rejected() {
    let mut b = bank();
    let (_, y) = x_and_y(&mut b);
    let r = b.transfer_by_card("12345678".to_string(), y.to_string(), "10".to_string());
    assert_eq!(r, Err(BankErrors::AccountNotFound));
    let r = b.transfer_by_card("nonsense".to_string(), y.to_string(), "10".to_string());
    assert_eq!(r, Err(BankErrors::AccountNotFound));
}

#[test]
fn unknown_card_recipient_rejected() {
    let mut b = bank();
    let x = open_account(&mut b, "X", "phone-x", "50");
    let r = b.transfer_by_card(x.to_string(), "12345678".to_string(), "10".to_string());
    assert_eq!(r, Err(BankErrors::RecipientNotFound));
    assert_eq!(b.balance_of(x), Some(50));
}

#[test]
fn repeated_reads_agree() {
    let mut b = bank();
    let (x, y) = x_and_y(&mut b);
    b.transfer_by_card(x.to_string(), y.to_string(), "30".to_string())
        .expect("transfer should succeed");
    assert_eq!(b.balance_of(x), b.balance_of(x));
    assert_eq!(b.balance_of(y), b.balance_of(y));
    let once: Vec<_> = b.get_transactions().iter().map(|t| t.get_amount()).collect();
    let twice: Vec<_> = b.get_transactions().iter().map(|t| t.get_amount()).collect();
    assert_eq!(once, twice);
    assert_eq!(b.get_transactions().len(), b.get_transactions().len());
}

#[test]
fn ledger_timestamps_never_decrease() {
    let mut b = bank();
    let (x, y) = x_and_y(&mut b);
    b.transfer_by_card(x.to_string(), y.to_string(), "10".to_string())
        .expect("transfer should succeed");
    b.transfer_by_card(y.to_string(), x.to_string(), "5".to_string())
        .expect("transfer should succeed");
    let txs = b.get_transactions();
    assert_eq!(txs.len(), 2);
    assert!(txs[0].get_tx_time() <= txs[1].get_tx_time());
}
