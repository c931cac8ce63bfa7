pub mod amount;
pub mod bank_model;
pub mod cards;
pub mod clock;
pub mod errors;
pub mod page_state;
