use vstd::prelude::*;

use crate::bank_model::{card_taken, BankUser, User};
use crate::errors::BankErrors;
use rand::Rng;

verus! {

/// Smallest valid card number: the first 8-digit integer.
pub const CARD_MIN: u32 = 10_000_000;

/// Largest valid card number: the last 8-digit integer.
pub const CARD_MAX: u32 = 99_999_999;

/// How many random draws `generate_unique` makes before giving up.
pub const CARD_RETRY_LIMIT: usize = 64;

/// `c` is an 8-digit card number.
pub open spec fn valid_card(c: u32) -> bool {
    CARD_MIN <= c <= CARD_MAX
}

/// Relies on rand's `thread_rng` and `Rng::gen_range`: a sample from a
/// non-empty inclusive range lies within that range. Which value comes
/// back is random; nothing more is assumed of it.
#[verifier::external_body]
pub(crate) fn gen_card_number() -> (r: u32)
    ensures
        valid_card(r),
{
    rand::thread_rng().gen_range(CARD_MIN..=CARD_MAX)
}

/// Whether some account in `existing` already has card number `card`.
fn is_card_taken(existing: &Vec<User>, card: u32) -> (r: bool)
    ensures
        r == card_taken(existing@, card),
{
    let n = existing.len();
    let mut i: usize = 0;
    while i < n
        invariant
            0 <= i <= n,
            n == existing@.len(),
            forall|k: int| 0 <= k < i ==> (#[trigger] existing@[k].card_spec()) != card,
        decreases n - i,
    {
        if existing[i].check_card_number() == card {
            return true;
        }
        i = i + 1;
    }
    false
}

/// Draws 8-digit card numbers at random until one is free of collisions
/// with `existing`, giving up with `CapacityExhausted` after a bounded
/// number of draws rather than looping forever.
pub fn generate_unique(existing: &Vec<User>) -> (r: Result<u32, BankErrors>)
    ensures
        r matches Ok(c) ==> valid_card(c) && !card_taken(existing@, c),
        r is Err ==> r == Result::<u32, BankErrors>::Err(BankErrors::CapacityExhausted),
{
    let mut tries: usize = 0;
    while tries < CARD_RETRY_LIMIT
        invariant
            tries <= CARD_RETRY_LIMIT,
        decreases CARD_RETRY_LIMIT - tries,
    {
        let candidate = gen_card_number();
        if !is_card_taken(existing, candidate) {
            return Ok(candidate);
        }
        tries = tries + 1;
    }
    Err(BankErrors::CapacityExhausted)
}

} // verus!
