use bank_ledger::page_state::{TransferMode, TransferPageState};

#[test]
fn default_form_is_empty_phone_mode() {
    let p = TransferPageState::default();
    assert!(p.sender_card_input.is_empty());
    assert!(p.amount_input.is_empty());
    assert!(p.recipient_card_input.is_empty());
    assert!(p.recipient_phone_input.is_empty());
    assert_eq!(p.transfer_mode, TransferMode::TransferByPhone);
}

#[test]
fn default_mode_is_by_phone() {
    assert_eq!(TransferMode::default(), TransferMode::TransferByPhone);
}

#[test]
fn reset_inputs_clears_form_keeps_mode() {
    let mut p = TransferPageState::default();
    p.sender_card_input = "11112222".to_string();
    p.amount_input = "30".to_string();
    p.recipient_card_input = "33334444".to_string();
    p.recipient_phone_input = "555".to_string();
    p.transfer_mode = TransferMode::TransferByCard;
    p.reset_inputs();
    assert!(p.sender_card_input.is_empty());
    assert!(p.amount_input.is_empty());
    assert!(p.recipient_card_input.is_empty());
    assert!(p.recipient_phone_input.is_empty());
    assert_eq!(p.transfer_mode, TransferMode::TransferByCard);
}
