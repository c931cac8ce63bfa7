use vstd::prelude::*;

verus! {

/// Which addressing mode the transfer form is in.
#[derive(Debug, Clone, Copy, PartialEq, Eq, Structural)]
pub enum TransferMode {
    TransferByPhone,
    TransferByCard,
}

impl Default for TransferMode {
    /// Phone-addressed transfer is the form's starting mode.
    fn default() -> (r: Self)
        ensures
            r == TransferMode::TransferByPhone,
    {
        TransferMode::TransferByPhone
    }
}

/// The transfer form's raw inputs. The presentation layer fills these in
/// and hands them to the transfer engine; they carry no invariant of their
/// own.
#[derive(Debug)]
pub struct TransferPageState {
    pub sender_card_input: String,
    pub amount_input: String,
    pub recipient_card_input: String,
    pub recipient_phone_input: String,
    pub transfer_mode: TransferMode,
}

impl Default for TransferPageState {
    /// An empty form in the starting mode.
    fn default() -> (r: Self)
        ensures
            r.sender_card_input@ == Seq::<char>::empty(),
            r.amount_input@ == Seq::<char>::empty(),
            r.recipient_card_input@ == Seq::<char>::empty(),
            r.recipient_phone_input@ == Seq::<char>::empty(),
            r.transfer_mode == TransferMode::TransferByPhone,
    {
        Self {
            sender_card_input: String::new(),
            amount_input: String::new(),
            recipient_card_input: String::new(),
            recipient_phone_input: String::new(),
            transfer_mode: TransferMode::TransferByPhone,
        }
    }
}

impl TransferPageState {
    /// Clears every input of the form; the mode is kept.
    pub fn reset_inputs(&mut self)
        ensures
            final(self).sender_card_input@ == Seq::<char>::empty(),
            final(self).amount_input@ == Seq::<char>::empty(),
            final(self).recipient_card_input@ == Seq::<char>::empty(),
            final(self).recipient_phone_input@ == Seq::<char>::empty(),
            final(self).transfer_mode == old(self).transfer_mode,
    {
        self.sender_card_input = String::new();
        self.amount_input = String::new();
        self.recipient_card_input = String::new();
        self.recipient_phone_input = String::new();
    }
}

} // verus!
