use vstd::prelude::*;

use crate::errors::BankErrors;

verus! {

// ---------------------------------------------------------------------------
// Decimal numerals
//
// Amounts and card numbers reach the core as raw form-field text. A numeral
// is valid when it is non-empty, consists of decimal digits only, and its
// value fits the target range; everything else is rejected, never aborted on.
// ---------------------------------------------------------------------------

/// `c` is one of the characters '0' through '9'.
pub open spec fn is_dec_digit(c: char) -> bool {
    48 <= c as u32 <= 57
}

/// The numeric value of the digit `c`.
pub open spec fn digit_val(c: char) -> int {
    c as u32 - 48
}

/// Every character of `s` is a decimal digit.
pub open spec fn all_dec_digits(s: Seq<char>) -> bool {
    forall|i: int| 0 <= i < s.len() ==> is_dec_digit(#[trigger] s[i])
}

/// The value of `s` read as a decimal numeral, most significant digit first.
pub open spec fn dec_value(s: Seq<char>) -> int
    decreases s.len(),
{
    if s.len() == 0 {
        0
    } else {
        10 * dec_value(s.drop_last()) + digit_val(s.last())
    }
}

/// `s` is a decimal numeral whose value is at most `max`.
pub open spec fn dec_text_in(s: Seq<char>, max: int) -> bool {
    s.len() > 0 && all_dec_digits(s) && dec_value(s) <= max
}

proof fn lemma_dec_value_nonneg(s: Seq<char>)
    requires
        all_dec_digits(s),
    ensures
        dec_value(s) >= 0,
    decreases s.len(),
{
    if s.len() > 0 {
        assert(all_dec_digits(s.drop_last()));
        lemma_dec_value_nonneg(s.drop_last());
    }
}

proof fn lemma_dec_value_step(s: Seq<char>, i: int)
    requires
        0 <= i < s.len(),
    ensures
        dec_value(s.take(i + 1)) == 10 * dec_value(s.take(i)) + digit_val(s[i]),
{
    assert(s.take(i + 1).drop_last() =~= s.take(i));
    assert(s.take(i + 1).last() == s[i]);
}

proof fn lemma_dec_value_prefix_le(s: Seq<char>, i: int)
    requires
        all_dec_digits(s),
        0 <= i <= s.len(),
    ensures
        dec_value(s.take(i)) <= dec_value(s),
    decreases s.len() - i,
{
    if i == s.len() {
        assert(s.take(i) =~= s);
    } else {
        assert(all_dec_digits(s.take(i))) by {
            assert(forall|k: int| 0 <= k < i ==> s.take(i)[k] == s[k]);
        }
        lemma_dec_value_nonneg(s.take(i));
        lemma_dec_value_step(s, i);
        lemma_dec_value_prefix_le(s, i + 1);
    }
}

/// Reads `s` as a decimal numeral. Returns its value when `s` is non-empty,
/// all digits, and the value is at most `max`; returns `None` otherwise.
fn parse_decimal(s: &str, max: usize) -> (r: Option<usize>)
    ensures
        r is Some <==> dec_text_in(s@, max as int),
        r matches Some(v) ==> v == dec_value(s@),
{
    let len = s.unicode_len();
    if len == 0 {
        return None;
    }
    let mut i: usize = 0;
    let mut acc: usize = 0;
    while i < len
        invariant
            0 <= i <= len,
            len == s@.len(),
            all_dec_digits(s@.take(i as int)),
            acc == dec_value(s@.take(i as int)),
            acc <= max,
        decreases len - i,
    {
        let c = s.get_char(i);
        let cv = c as u32;
        if cv < 48 || cv > 57 {
            assert(!all_dec_digits(s@)) by {
                assert(!is_dec_digit(s@[i as int]));
            }
            return None;
        }
        let d = (cv - 48) as usize;
        let next = match acc.checked_mul(10) {
            Some(shifted) => shifted.checked_add(d),
            None => None,
        };
        match next {
            Some(total) if total <= max => {
                proof {
                    lemma_dec_value_step(s@, i as int);
                }
                acc = total;
            }
            _ => {
                // Here 10 * acc + d exceeds max (or even usize::MAX), so the
                // value of any all-digit completion of this prefix does too.
                proof {
                    if all_dec_digits(s@) {
                        lemma_dec_value_step(s@, i as int);
                        lemma_dec_value_prefix_le(s@, i as int + 1);
                    }
                }
                return None;
            }
        }
        i = i + 1;
    }
    proof {
        assert(s@.take(len as int) =~= s@);
    }
    Some(acc)
}

/// Reads a balance or transfer amount from form-field text: the value of a
/// decimal numeral that fits the amount type, or `InvalidAmount`.
pub fn convert_amount(amount: String) -> (r: Result<usize, BankErrors>)
    ensures
        r is Ok <==> dec_text_in(amount@, usize::MAX as int),
        r matches Ok(v) ==> v == dec_value(amount@),
        r is Err ==> r == Result::<usize, BankErrors>::Err(BankErrors::InvalidAmount),
{
    match parse_decimal(amount.as_str(), usize::MAX) {
        Some(v) => Ok(v),
        None => Err(BankErrors::InvalidAmount),
    }
}

/// Reads a card number from form-field text: the value of a decimal numeral
/// that fits the card-number type, or `None`.
pub fn convert_card_num(card_num: String) -> (r: Option<u32>)
    ensures
        r is Some <==> dec_text_in(card_num@, u32::MAX as int),
        r matches Some(c) ==> c == dec_value(card_num@),
{
    match parse_decimal(card_num.as_str(), u32::MAX as usize) {
        Some(v) => Some(v as u32),
        None => None,
    }
}

} // verus!
