use vstd::prelude::*;

use crate::amount::{convert_amount, convert_card_num, dec_text_in, dec_value};
use crate::cards::{generate_unique, valid_card};
use crate::clock::now_millis;
use crate::errors::BankErrors;

verus! {

// ---------------------------------------------------------------------------
// Accounts
// ---------------------------------------------------------------------------

/// A single balance-bearing account. The card number identifies it and is
/// immutable after creation; the balance is a non-negative integer amount in
/// the smallest currency unit. All mutation goes through the registry.
#[derive(Debug, Clone)]
pub struct User {
    fio: String,
    card_number: u32,
    phone_number: String,
    money_amount: usize,
}

/// The account interface: identity and contact accessors, and the two
/// balance mutations that transfers are built from.
pub trait BankUser {
    /// The account holder's name.
    spec fn fio_spec(&self) -> Seq<char>;

    /// The account's phone number.
    spec fn phone_spec(&self) -> Seq<char>;

    /// The account's card number.
    spec fn card_spec(&self) -> u32;

    /// The account's balance.
    spec fn balance_spec(&self) -> usize;

    fn check_fio(&self) -> (r: &str)
        ensures
            r@ == self.fio_spec(),
    ;

    fn check_phone(&self) -> (r: &str)
        ensures
            r@ == self.phone_spec(),
    ;

    fn check_card_number(&self) -> (r: u32)
        ensures
            r == self.card_spec(),
    ;

    fn check_balance(&self) -> (r: usize)
        ensures
            r == self.balance_spec(),
    ;

    fn is_enough_money(&self, amount: usize) -> (r: bool)
        ensures
            r == (amount <= self.balance_spec()),
    ;

    fn receive_money(&mut self, amount: usize)
        requires
            old(self).balance_spec() + amount <= usize::MAX,
        ensures
            final(self).balance_spec() == old(self).balance_spec() + amount,
            final(self).fio_spec() == old(self).fio_spec(),
            final(self).phone_spec() == old(self).phone_spec(),
            final(self).card_spec() == old(self).card_spec(),
    ;

    fn refuse_money(&mut self, amount: usize)
        requires
            amount <= old(self).balance_spec(),
        ensures
            final(self).balance_spec() == old(self).balance_spec() - amount,
            final(self).fio_spec() == old(self).fio_spec(),
            final(self).phone_spec() == old(self).phone_spec(),
            final(self).card_spec() == old(self).card_spec(),
    ;
}

impl BankUser for User {
    closed spec fn fio_spec(&self) -> Seq<char> {
        self.fio@
    }

    closed spec fn phone_spec(&self) -> Seq<char> {
        self.phone_number@
    }

    closed spec fn card_spec(&self) -> u32 {
        self.card_number
    }

    closed spec fn balance_spec(&self) -> usize {
        self.money_amount
    }

    fn check_fio(&self) -> &str {
        self.fio.as_str()
    }

    fn check_phone(&self) -> &str {
        self.phone_number.as_str()
    }

    fn check_card_number(&self) -> u32 {
        self.card_number
    }

    fn check_balance(&self) -> usize {
        self.money_amount
    }

    fn is_enough_money(&self, amount: usize) -> bool {
        self.money_amount >= amount
    }

    fn receive_money(&mut self, amount: usize) {
        self.money_amount = self.money_amount + amount;
    }

    fn refuse_money(&mut self, amount: usize) {
        self.money_amount = self.money_amount - amount;
    }
}

// ---------------------------------------------------------------------------
// Transactions
// ---------------------------------------------------------------------------

/// An immutable record of one completed money movement. The recipient is
/// recorded by card number even for phone-addressed transfers, since phone
/// numbers are not unique and make no permanent historical key.
#[derive(Debug, Clone, Copy, PartialEq, Eq, Structural)]
pub struct Transaction {
    time_of_creation: i64,
    amount: usize,
    sender_card: u32,
    recipient: u32,
}

impl Transaction {
    /// When the transfer completed, in milliseconds since the Unix epoch.
    pub closed spec fn time_spec(&self) -> i64 {
        self.time_of_creation
    }

    /// How much money moved.
    pub closed spec fn amount_spec(&self) -> usize {
        self.amount
    }

    /// The card number of the debited account.
    pub closed spec fn sender_spec(&self) -> u32 {
        self.sender_card
    }

    /// The card number of the credited account.
    pub closed spec fn recipient_spec(&self) -> u32 {
        self.recipient
    }

    fn new(amount: usize, sender: u32, recipient: u32, time_of_creation: i64) -> (tx: Self)
        ensures
            tx.amount_spec() == amount,
            tx.sender_spec() == sender,
            tx.recipient_spec() == recipient,
            tx.time_spec() == time_of_creation,
    {
        Self { time_of_creation, amount, sender_card: sender, recipient }
    }

    pub fn get_tx_time(&self) -> (r: i64)
        ensures
            r == self.time_spec(),
    {
        self.time_of_creation
    }

    pub fn get_amount(&self) -> (r: usize)
        ensures
            r == self.amount_spec(),
    {
        self.amount
    }

    pub fn get_sender_card(&self) -> (r: u32)
        ensures
            r == self.sender_spec(),
    {
        self.sender_card
    }

    pub fn get_recipient(&self) -> (r: u32)
        ensures
            r == self.recipient_spec(),
    {
        self.recipient
    }
}

// ---------------------------------------------------------------------------
// Registry model
// ---------------------------------------------------------------------------

/// No two accounts share a card number.
pub open spec fn cards_unique(users: Seq<User>) -> bool {
    forall|i: int, j: int|
        0 <= i < j < users.len() ==> (#[trigger] users[i].card_spec()) != (
        #[trigger] users[j].card_spec())
}

/// Every account's card number is 8 digits.
pub open spec fn cards_all_valid(users: Seq<User>) -> bool {
    forall|i: int| 0 <= i < users.len() ==> valid_card(#[trigger] users[i].card_spec())
}

/// Some account in `users` has card number `card`.
pub open spec fn card_taken(users: Seq<User>, card: u32) -> bool {
    exists|i: int| 0 <= i < users.len() && (#[trigger] users[i].card_spec()) == card
}

/// The ledger's timestamps never decrease in insertion order.
pub open spec fn ledger_ordered(txs: Seq<Transaction>) -> bool {
    forall|i: int, j: int|
        0 <= i <= j < txs.len() ==> (#[trigger] txs[i].time_spec()) <= (
        #[trigger] txs[j].time_spec())
}

/// The timestamp of the newest ledger entry; the least time at all when the
/// ledger is empty.
pub open spec fn last_ledger_time(txs: Seq<Transaction>) -> i64 {
    if txs.len() == 0 {
        i64::MIN
    } else {
        txs[txs.len() - 1].time_spec()
    }
}

/// The index of the first account whose card number is `card`, or -1.
pub open spec fn first_card_index(users: Seq<User>, card: u32) -> int
    decreases users.len(),
{
    if users.len() == 0 {
        -1
    } else if users[0].card_spec() == card {
        0
    } else {
        let r = first_card_index(users.drop_first(), card);
        if r < 0 {
            -1
        } else {
            r + 1
        }
    }
}

/// The index of the earliest-created account whose phone number is `phone`,
/// or -1. Phone numbers are not unique; ties go to the earliest account.
pub open spec fn first_phone_index(users: Seq<User>, phone: Seq<char>) -> int
    decreases users.len(),
{
    if users.len() == 0 {
        -1
    } else if users[0].phone_spec() == phone {
        0
    } else {
        let r = first_phone_index(users.drop_first(), phone);
        if r < 0 {
            -1
        } else {
            r + 1
        }
    }
}

/// `t` is a decimal numeral that fits the card-number type.
pub open spec fn card_text_ok(t: Seq<char>) -> bool {
    dec_text_in(t, u32::MAX as int)
}

/// The card number written in `t`.
pub open spec fn card_of_text(t: Seq<char>) -> u32 {
    dec_value(t) as u32
}

/// `t` is a decimal numeral that fits the amount type.
pub open spec fn amount_text_ok(t: Seq<char>) -> bool {
    dec_text_in(t, usize::MAX as int)
}

/// The index of the account whose card number is written in `card_text`,
/// or -1 when the text is no card number or no account matches.
pub open spec fn card_text_index(users: Seq<User>, card_text: Seq<char>) -> int {
    if !card_text_ok(card_text) {
        -1
    } else {
        first_card_index(users, card_of_text(card_text))
    }
}

/// A new account with balance text `t` can be admitted: the text is a valid
/// amount and the bank's total stays representable.
pub open spec fn balance_creatable(users: Seq<User>, t: Seq<char>) -> bool {
    amount_text_ok(t) && sum_balances(users) + dec_value(t) <= usize::MAX
}

/// `t` is a valid transfer amount: a decimal numeral, strictly positive.
pub open spec fn transfer_amount_ok(t: Seq<char>) -> bool {
    amount_text_ok(t) && dec_value(t) > 0
}

/// The total money held across all accounts.
pub open spec fn sum_balances(users: Seq<User>) -> int
    decreases users.len(),
{
    if users.len() == 0 {
        0
    } else {
        sum_balances(users.drop_last()) + users.last().balance_spec()
    }
}

// ---------------------------------------------------------------------------
// Lemmas about the registry model
// ---------------------------------------------------------------------------

/// What `first_card_index` finds: -1 exactly when no account matches, and
/// otherwise the first matching index.
pub proof fn lemma_first_card_index(users: Seq<User>, card: u32)
    ensures
        first_card_index(users, card) == -1 <==> !card_taken(users, card),
        first_card_index(users, card) >= 0 ==> 0 <= first_card_index(users, card) < users.len()
            && users[first_card_index(users, card)].card_spec() == card,
        forall|k: int|
            0 <= k < first_card_index(users, card) ==> (#[trigger] users[k].card_spec()) != card,
    decreases users.len(),
{
    if users.len() > 0 && users[0].card_spec() != card {
        lemma_first_card_index(users.drop_first(), card);
        assert(forall|i: int|
            0 <= i < users.drop_first().len() ==> #[trigger] users.drop_first()[i] == users[i + 1]);
        if card_taken(users, card) {
            let w = choose|i: int| 0 <= i < users.len() && (#[trigger] users[i].card_spec())
                == card;
            assert(users.drop_first()[w - 1].card_spec() == card);
        }
        assert forall|k: int|
            0 <= k < first_card_index(users, card) implies (#[trigger] users[k].card_spec())
            != card by {
            if k > 0 {
                assert(users.drop_first()[k - 1].card_spec() != card);
            }
        }
    }
}

/// A linear scan that stops at the first match computes `first_card_index`.
pub proof fn lemma_first_card_index_at(users: Seq<User>, card: u32, i: int)
    requires
        0 <= i < users.len(),
        users[i].card_spec() == card,
        forall|k: int| 0 <= k < i ==> (#[trigger] users[k].card_spec()) != card,
    ensures
        first_card_index(users, card) == i,
    decreases i,
{
    if i > 0 {
        assert(forall|k: int|
            0 <= k < users.drop_first().len() ==> #[trigger] users.drop_first()[k] == users[k + 1]);
        lemma_first_card_index_at(users.drop_first(), card, i - 1);
    }
}

/// What `first_phone_index` finds, as `lemma_first_card_index` for cards.
pub proof fn lemma_first_phone_index(users: Seq<User>, phone: Seq<char>)
    ensures
        first_phone_index(users, phone) >= 0 ==> 0 <= first_phone_index(users, phone)
            < users.len() && users[first_phone_index(users, phone)].phone_spec() == phone,
        first_phone_index(users, phone) == -1 ==> forall|k: int|
            0 <= k < users.len() ==> (#[trigger] users[k].phone_spec()) != phone,
        forall|k: int|
            0 <= k < first_phone_index(users, phone) ==> (#[trigger] users[k].phone_spec())
                != phone,
    decreases users.len(),
{
    if users.len() > 0 && users[0].phone_spec() != phone {
        lemma_first_phone_index(users.drop_first(), phone);
        assert(forall|i: int|
            0 <= i < users.drop_first().len() ==> #[trigger] users.drop_first()[i] == users[i + 1]);
        let rest = first_phone_index(users.drop_first(), phone);
        if rest == -1 {
            assert forall|k: int| 0 <= k < users.len() implies (#[trigger] users[k].phone_spec())
                != phone by {
                if k > 0 {
                    assert(users.drop_first()[k - 1].phone_spec() != phone);
                }
            }
        } else {
            assert forall|k: int|
                0 <= k < first_phone_index(users, phone) implies (#[trigger] users[k].phone_spec())
                != phone by {
                if k > 0 {
                    assert(users.drop_first()[k - 1].phone_spec() != phone);
                }
            }
        }
    }
}

/// A linear scan that stops at the first match computes `first_phone_index`.
pub proof fn lemma_first_phone_index_at(users: Seq<User>, phone: Seq<char>, i: int)
    requires
        0 <= i < users.len(),
        users[i].phone_spec() == phone,
        forall|k: int| 0 <= k < i ==> (#[trigger] users[k].phone_spec()) != phone,
    ensures
        first_phone_index(users, phone) == i,
    decreases i,
{
    if i > 0 {
        assert(forall|k: int|
            0 <= k < users.drop_first().len() ==> #[trigger] users.drop_first()[k] == users[k + 1]);
        lemma_first_phone_index_at(users.drop_first(), phone, i - 1);
    }
}

/// The total balance is never negative.
pub proof fn lemma_sum_nonneg(users: Seq<User>)
    ensures
        sum_balances(users) >= 0,
    decreases users.len(),
{
    if users.len() > 0 {
        lemma_sum_nonneg(users.drop_last());
    }
}

/// Adding an account adds its balance to the total.
pub proof fn lemma_sum_push(users: Seq<User>, u: User)
    ensures
        sum_balances(users.push(u)) == sum_balances(users) + u.balance_spec(),
{
    assert(users.push(u).drop_last() =~= users);
    assert(users.push(u).last() == u);
}

/// Replacing one account changes the total by the difference of balances.
pub proof fn lemma_sum_update(users: Seq<User>, i: int, u: User)
    requires
        0 <= i < users.len(),
    ensures
        sum_balances(users.update(i, u)) == sum_balances(users) - users[i].balance_spec()
            + u.balance_spec(),
    decreases users.len(),
{
    if i == users.len() - 1 {
        assert(users.update(i, u).drop_last() =~= users.drop_last());
        assert(users.update(i, u).last() == u);
    } else {
        assert(users.update(i, u).drop_last() =~= users.drop_last().update(i, u));
        assert(users.update(i, u).last() == users.last());
        lemma_sum_update(users.drop_last(), i, u);
    }
}

/// Removing one account removes its balance from the total.
pub proof fn lemma_sum_remove(users: Seq<User>, i: int)
    requires
        0 <= i < users.len(),
    ensures
        sum_balances(users.remove(i)) == sum_balances(users) - users[i].balance_spec(),
    decreases users.len(),
{
    if i == users.len() - 1 {
        assert(users.remove(i) =~= users.drop_last());
    } else {
        assert(users.remove(i).drop_last() =~= users.drop_last().remove(i));
        assert(users.remove(i).last() == users.last());
        lemma_sum_remove(users.drop_last(), i);
    }
}

/// No single balance exceeds the total.
pub proof fn lemma_sum_element_le(users: Seq<User>, i: int)
    requires
        0 <= i < users.len(),
    ensures
        users[i].balance_spec() <= sum_balances(users),
    decreases users.len(),
{
    if i == users.len() - 1 {
        lemma_sum_nonneg(users.drop_last());
    } else {
        lemma_sum_element_le(users.drop_last(), i);
    }
}

/// One more account into a prefix sum.
proof fn lemma_sum_take_step(users: Seq<User>, i: int)
    requires
        0 <= i < users.len(),
    ensures
        sum_balances(users.take(i + 1)) == sum_balances(users.take(i)) + users[i].balance_spec(),
{
    assert(users.take(i + 1).drop_last() =~= users.take(i));
    assert(users.take(i + 1).last() == users[i]);
}

/// Appending an entry whose timestamp is no older than the newest one keeps
/// the ledger chronologically ordered.
proof fn lemma_ledger_push_ordered(txs: Seq<Transaction>, tx: Transaction)
    requires
        ledger_ordered(txs),
        last_ledger_time(txs) <= tx.time_spec(),
    ensures
        ledger_ordered(txs.push(tx)),
{
    let l = txs.push(tx);
    assert forall|i: int, j: int| 0 <= i <= j < l.len() implies (#[trigger] l[i].time_spec()) <= (
    #[trigger] l[j].time_spec()) by {
        if j < txs.len() {
            assert(txs[i].time_spec() <= txs[j].time_spec());
        } else if i < txs.len() {
            assert(txs[i].time_spec() <= txs[txs.len() - 1].time_spec());
        }
    }
}

/// A prefix of the accounts holds at most the total.
proof fn lemma_sum_take_le(users: Seq<User>, i: int)
    requires
        0 <= i <= users.len(),
    ensures
        sum_balances(users.take(i)) <= sum_balances(users),
    decreases users.len() - i,
{
    if i == users.len() {
        assert(users.take(i) =~= users);
    } else {
        lemma_sum_take_step(users, i);
        lemma_sum_take_le(users, i + 1);
    }
}

// ---------------------------------------------------------------------------
// Laws of the ledger
//
// Every mutating operation of `BankState` establishes `wf()` again, and
// `BankState::new` establishes it first, so each law over `wf()` states a
// property of every reachable state.
// ---------------------------------------------------------------------------

/// Uniqueness: in every reachable state, no two live accounts share a card
/// number.
pub proof fn lemma_cards_unique(b: &BankState, i: int, j: int)
    requires
        b.wf(),
        0 <= i < b.users_seq().len(),
        0 <= j < b.users_seq().len(),
        i != j,
    ensures
        b.users_seq()[i].card_spec() != b.users_seq()[j].card_spec(),
{
}

/// Balance non-negativity: in every state, every account's balance is at
/// least zero; no operation can produce a negative balance.
pub proof fn lemma_balance_non_negative(b: &BankState, i: int)
    requires
        0 <= i < b.users_seq().len(),
    ensures
        b.users_seq()[i].balance_spec() >= 0,
{
}

/// Conservation: a successful transfer of `a` between the distinct
/// accounts at `si` and `ri` debits the one by exactly `a`, credits the
/// other by exactly `a`, and leaves the bank's total unchanged.
pub proof fn lemma_conservation(
    pre: BankState,
    post: BankState,
    si: int,
    ri: int,
    a: int,
    tx: Transaction,
)
    requires
        transfer_applied(pre, post, si, ri, a, tx),
        0 <= si < pre.users_seq().len(),
        0 <= ri < pre.users_seq().len(),
        si != ri,
    ensures
        post.users_seq()[si].balance_spec() == pre.users_seq()[si].balance_spec() - a,
        post.users_seq()[ri].balance_spec() == pre.users_seq()[ri].balance_spec() + a,
        sum_balances(post.users_seq()) == sum_balances(pre.users_seq()),
{
}

/// Ledger append-only: a successful transfer adds exactly one entry at the
/// end of the ledger and moves none of the existing ones. (That failed
/// transfers, account creation, and account deletion leave the ledger
/// untouched is part of those operations' own contracts.)
pub proof fn lemma_ledger_append_only(
    pre: BankState,
    post: BankState,
    si: int,
    ri: int,
    a: int,
    tx: Transaction,
)
    requires
        transfer_applied(pre, post, si, ri, a, tx),
    ensures
        post.ledger_seq().len() == pre.ledger_seq().len() + 1,
        forall|k: int|
            0 <= k < pre.ledger_seq().len() ==> (#[trigger] post.ledger_seq()[k])
                == pre.ledger_seq()[k],
        post.ledger_seq().last() == tx,
{
}

/// Idempotent read: a balance query is a function of the state alone, so
/// two reads without an intervening mutation return the same result.
pub proof fn lemma_balance_read_idempotent(
    b: &BankState,
    card: u32,
    r1: Option<usize>,
    r2: Option<usize>,
)
    requires
        r1 == b.spec_balance_of(card),
        r2 == b.spec_balance_of(card),
    ensures
        r1 == r2,
{
}

/// Idempotent read: a ledger query is a function of the state alone, so
/// two reads without an intervening mutation return the same sequence.
pub proof fn lemma_ledger_read_idempotent(
    b: &BankState,
    r1: Seq<Transaction>,
    r2: Seq<Transaction>,
)
    requires
        r1 == b.ledger_seq(),
        r2 == b.ledger_seq(),
    ensures
        r1 == r2,
{
}

// ---------------------------------------------------------------------------
// Transfer outcomes
// ---------------------------------------------------------------------------

/// Why a card-addressed transfer fails, or `None` when it succeeds. The
/// checks run in the order of the transfer protocol: amount, sender,
/// recipient, funds, self-transfer.
pub open spec fn card_transfer_error(
    pre: BankState,
    sender_text: Seq<char>,
    recipient_text: Seq<char>,
    amount_text: Seq<char>,
) -> Option<BankErrors> {
    let si = card_text_index(pre.users_seq(), sender_text);
    let ri = card_text_index(pre.users_seq(), recipient_text);
    if !transfer_amount_ok(amount_text) {
        Some(BankErrors::InvalidAmount)
    } else if si < 0 {
        Some(BankErrors::AccountNotFound)
    } else if ri < 0 {
        Some(BankErrors::RecipientNotFound)
    } else if pre.users_seq()[si].balance_spec() < dec_value(amount_text) {
        Some(BankErrors::InsufficientFunds)
    } else if si == ri {
        Some(BankErrors::InvalidRecipient)
    } else {
        None
    }
}

/// Why a phone-addressed transfer fails, or `None` when it succeeds, as
/// `card_transfer_error` with the recipient resolved by phone number.
pub open spec fn phone_transfer_error(
    pre: BankState,
    sender_text: Seq<char>,
    recipient_phone: Seq<char>,
    amount_text: Seq<char>,
) -> Option<BankErrors> {
    let si = card_text_index(pre.users_seq(), sender_text);
    let ri = first_phone_index(pre.users_seq(), recipient_phone);
    if !transfer_amount_ok(amount_text) {
        Some(BankErrors::InvalidAmount)
    } else if si < 0 {
        Some(BankErrors::AccountNotFound)
    } else if ri < 0 {
        Some(BankErrors::RecipientNotFound)
    } else if pre.users_seq()[si].balance_spec() < dec_value(amount_text) {
        Some(BankErrors::InsufficientFunds)
    } else if si == ri {
        Some(BankErrors::InvalidRecipient)
    } else {
        None
    }
}

/// What a successful transfer of `a` from the account at `si` to the
/// account at `ri` does: the sender is debited and the recipient credited
/// as one unit, every other account and the total are untouched, and `tx`
/// records the movement at the end of the ledger, no older than the entry
/// before it.
pub open spec fn transfer_applied(
    pre: BankState,
    post: BankState,
    si: int,
    ri: int,
    a: int,
    tx: Transaction,
) -> bool {
    let u = pre.users_seq();
    let v = post.users_seq();
    &&& v.len() == u.len()
    &&& forall|k: int| 0 <= k < u.len() && k != si && k != ri ==> (#[trigger] v[k]) == u[k]
    &&& v[si].balance_spec() == u[si].balance_spec() - a
    &&& v[si].card_spec() == u[si].card_spec()
    &&& v[si].fio_spec() == u[si].fio_spec()
    &&& v[si].phone_spec() == u[si].phone_spec()
    &&& v[ri].balance_spec() == u[ri].balance_spec() + a
    &&& v[ri].card_spec() == u[ri].card_spec()
    &&& v[ri].fio_spec() == u[ri].fio_spec()
    &&& v[ri].phone_spec() == u[ri].phone_spec()
    &&& sum_balances(v) == sum_balances(u)
    &&& post.ledger_seq() == pre.ledger_seq().push(tx)
    &&& tx.amount_spec() == a
    &&& tx.sender_spec() == u[si].card_spec()
    &&& tx.recipient_spec() == u[ri].card_spec()
    &&& tx.time_spec() >= last_ledger_time(pre.ledger_seq())
}

// ---------------------------------------------------------------------------
// The registry and transfer engine
// ---------------------------------------------------------------------------

/// The bank: the account registry keyed by card number, the append-only
/// transaction ledger, and the raw form-field inputs the presentation layer
/// fills in.
#[derive(Debug, Clone)]
pub struct BankState {
    pub name: String,
    users: Vec<User>,
    transactions: Vec<Transaction>,
    pub input_fio: String,
    pub input_phone: String,
    pub input_money: String,
    pub input_card_num: String,
}

impl BankState {
    /// The live accounts, in creation order.
    pub closed spec fn users_seq(&self) -> Seq<User> {
        self.users@
    }

    /// The completed transactions, oldest first.
    pub closed spec fn ledger_seq(&self) -> Seq<Transaction> {
        self.transactions@
    }

    /// The bank's name.
    pub closed spec fn name_spec(&self) -> Seq<char> {
        self.name@
    }

    /// The account-form name input.
    pub closed spec fn input_fio_spec(&self) -> Seq<char> {
        self.input_fio@
    }

    /// The account-form phone input.
    pub closed spec fn input_phone_spec(&self) -> Seq<char> {
        self.input_phone@
    }

    /// The account-form balance input.
    pub closed spec fn input_money_spec(&self) -> Seq<char> {
        self.input_money@
    }

    /// The deletion-form card-number input.
    pub closed spec fn input_card_spec(&self) -> Seq<char> {
        self.input_card_num@
    }

    /// Everything but the registry and the ledger is unchanged between
    /// `other` and `self`.
    pub open spec fn same_inputs(&self, other: &Self) -> bool {
        &&& self.name_spec() == other.name_spec()
        &&& self.input_fio_spec() == other.input_fio_spec()
        &&& self.input_phone_spec() == other.input_phone_spec()
        &&& self.input_money_spec() == other.input_money_spec()
        &&& self.input_card_spec() == other.input_card_spec()
    }

    /// The registry's invariant: card numbers are unique 8-digit integers,
    /// the total money fits the balance type (so no credit can overflow),
    /// and the ledger is chronologically ordered.
    pub open spec fn wf(&self) -> bool {
        &&& cards_unique(self.users_seq())
        &&& cards_all_valid(self.users_seq())
        &&& sum_balances(self.users_seq()) <= usize::MAX
        &&& ledger_ordered(self.ledger_seq())
    }

    /// The balance of the account with card number `card`, if any.
    pub open spec fn spec_balance_of(&self, card: u32) -> Option<usize> {
        let i = first_card_index(self.users_seq(), card);
        if i < 0 {
            None
        } else {
            Some(self.users_seq()[i].balance_spec())
        }
    }

    pub fn new(bank_name: String) -> (r: Self)
        ensures
            r.wf(),
            r.name_spec() == bank_name@,
            r.users_seq() == Seq::<User>::empty(),
            r.ledger_seq() == Seq::<Transaction>::empty(),
            r.input_fio_spec() == Seq::<char>::empty(),
            r.input_phone_spec() == Seq::<char>::empty(),
            r.input_money_spec() == Seq::<char>::empty(),
            r.input_card_spec() == Seq::<char>::empty(),
    {
        Self {
            name: bank_name,
            users: Vec::new(),
            transactions: Vec::new(),
            input_fio: String::new(),
            input_phone: String::new(),
            input_money: String::new(),
            input_card_num: String::new(),
        }
    }

    pub fn get_users(&self) -> (r: &Vec<User>)
        ensures
            r@ == self.users_seq(),
    {
        &self.users
    }

    pub fn get_transactions(&self) -> (r: &Vec<Transaction>)
        ensures
            r@ == self.ledger_seq(),
    {
        &self.transactions
    }

    /// Clears the account-form inputs.
    pub fn reset_inputs(&mut self)
        ensures
            final(self).input_fio_spec() == Seq::<char>::empty(),
            final(self).input_phone_spec() == Seq::<char>::empty(),
            final(self).input_money_spec() == Seq::<char>::empty(),
            final(self).input_card_spec() == old(self).input_card_spec(),
            final(self).name_spec() == old(self).name_spec(),
            final(self).users_seq() == old(self).users_seq(),
            final(self).ledger_seq() == old(self).ledger_seq(),
    {
        self.input_phone = String::new();
        self.input_fio = String::new();
        self.input_money = String::new();
    }

    /// The total money held across all accounts.
    pub fn total_balance(&self) -> (r: usize)
        requires
            self.wf(),
        ensures
            r == sum_balances(self.users_seq()),
    {
        let n = self.users.len();
        let mut acc: usize = 0;
        let mut i: usize = 0;
        while i < n
            invariant
                0 <= i <= n,
                n == self.users_seq().len(),
                sum_balances(self.users_seq()) <= usize::MAX,
                acc == sum_balances(self.users_seq().take(i as int)),
            decreases n - i,
        {
            proof {
                lemma_sum_take_step(self.users_seq(), i as int);
                lemma_sum_take_le(self.users_seq(), i as int + 1);
                lemma_sum_nonneg(self.users_seq().take(i as int));
            }
            acc = acc + self.users[i].check_balance();
            i = i + 1;
        }
        proof {
            assert(self.users_seq().take(n as int) =~= self.users_seq());
        }
        acc
    }

    /// The index of the account with card number `card`, if any.
    fn find_index_by_card(&self, card: u32) -> (r: Option<usize>)
        ensures
            match r {
                Some(i) => first_card_index(self.users_seq(), card) == i,
                None => first_card_index(self.users_seq(), card) == -1,
            },
    {
        let n = self.users.len();
        let mut i: usize = 0;
        while i < n
            invariant
                0 <= i <= n,
                n == self.users_seq().len(),
                forall|k: int| 0 <= k < i ==> (#[trigger] self.users_seq()[k].card_spec()) != card,
            decreases n - i,
        {
            if self.users[i].check_card_number() == card {
                proof {
                    lemma_first_card_index_at(self.users_seq(), card, i as int);
                }
                return Some(i);
            }
            i = i + 1;
        }
        proof {
            lemma_first_card_index(self.users_seq(), card);
            if card_taken(self.users_seq(), card) {
                let w = choose|k: int|
                    0 <= k < self.users_seq().len() && (#[trigger] self.users_seq()[k].card_spec())
                        == card;
                assert(false);
            }
        }
        None
    }

    /// The index of the earliest account with phone number `phone`, if any.
    fn find_index_by_phone(&self, phone: &String) -> (r: Option<usize>)
        ensures
            match r {
                Some(i) => first_phone_index(self.users_seq(), phone@) == i,
                None => first_phone_index(self.users_seq(), phone@) == -1,
            },
    {
        let n = self.users.len();
        let mut i: usize = 0;
        while i < n
            invariant
                0 <= i <= n,
                n == self.users_seq().len(),
                forall|k: int|
                    0 <= k < i ==> (#[trigger] self.users_seq()[k].phone_spec()) != phone@,
            decreases n - i,
        {
            if self.users[i].phone_number == *phone {
                proof {
                    lemma_first_phone_index_at(self.users_seq(), phone@, i as int);
                }
                return Some(i);
            }
            i = i + 1;
        }
        proof {
            lemma_first_phone_index(self.users_seq(), phone@);
            let fi = first_phone_index(self.users_seq(), phone@);
            if fi >= 0 {
                assert(self.users_seq()[fi].phone_spec() == phone@);
            }
        }
        None
    }

    /// The account with card number `card_number`, read-only.
    pub fn find_by_card(&self, card_number: u32) -> (r: Option<&User>)
        ensures
            match r {
                Some(u) => {
                    let fi = first_card_index(self.users_seq(), card_number);
                    fi >= 0 && *u == self.users_seq()[fi]
                },
                None => first_card_index(self.users_seq(), card_number) == -1,
            },
    {
        proof {
            lemma_first_card_index(self.users_seq(), card_number);
        }
        match self.find_index_by_card(card_number) {
            Some(i) => Some(&self.users[i]),
            None => None,
        }
    }

    /// The earliest-created account with phone number `phone_number`,
    /// read-only.
    pub fn find_by_phone(&self, phone_number: &String) -> (r: Option<&User>)
        ensures
            match r {
                Some(u) => {
                    let fi = first_phone_index(self.users_seq(), phone_number@);
                    fi >= 0 && *u == self.users_seq()[fi]
                },
                None => first_phone_index(self.users_seq(), phone_number@) == -1,
            },
    {
        proof {
            lemma_first_phone_index(self.users_seq(), phone_number@);
        }
        match self.find_index_by_phone(phone_number) {
            Some(i) => Some(&self.users[i]),
            None => None,
        }
    }

    /// Opens a new account. The balance text must be a valid non-negative
    /// amount that keeps the bank's total representable, else
    /// `InvalidAmount`; the account gets a fresh random 8-digit card number,
    /// or `CapacityExhausted` when none was found. Nothing changes on
    /// failure.
    pub fn create_user(
        &mut self,
        fio: String,
        phone_number: String,
        money_in_account: String,
    ) -> (r: Result<u32, BankErrors>)
        requires
            old(self).wf(),
        ensures
            final(self).wf(),
            final(self).same_inputs(old(self)),
            r == Result::<u32, BankErrors>::Err(BankErrors::InvalidAmount) <==> !balance_creatable(
                old(self).users_seq(),
                money_in_account@,
            ),
            r is Err ==> *final(self) == *old(self),
            r matches Ok(card) ==> {
                let added = final(self).users_seq().last();
                &&& valid_card(card)
                &&& !card_taken(old(self).users_seq(), card)
                &&& final(self).users_seq().len() == old(self).users_seq().len() + 1
                &&& final(self).users_seq().drop_last() == old(self).users_seq()
                &&& added.fio_spec() == fio@
                &&& added.phone_spec() == phone_number@
                &&& added.card_spec() == card
                &&& added.balance_spec() == dec_value(money_in_account@)
                &&& final(self).ledger_seq() == old(self).ledger_seq()
            },
    {
        let init = match convert_amount(money_in_account) {
            Ok(v) => v,
            Err(e) => {
                return Err(e);
            },
        };
        let total = self.total_balance();
        if init > usize::MAX - total {
            return Err(BankErrors::InvalidAmount);
        }
        let card = match generate_unique(&self.users) {
            Ok(c) => c,
            Err(e) => {
                return Err(e);
            },
        };
        let new_user = User { fio, card_number: card, phone_number, money_amount: init };
        proof {
            lemma_sum_push(self.users_seq(), new_user);
        }
        let ghost before = self.users_seq();
        self.users.push(new_user);
        proof {
            let after = self.users_seq();
            assert(after =~= before.push(new_user));
            assert(after.drop_last() =~= before);
            assert forall|i: int, j: int|
                0 <= i < j < after.len() implies (#[trigger] after[i].card_spec()) != (
            #[trigger] after[j].card_spec()) by {
                if j == after.len() - 1 {
                    assert(after[i] == before[i]);
                } else {
                    assert(after[i] == before[i]);
                    assert(after[j] == before[j]);
                }
            }
            assert forall|i: int| 0 <= i < after.len() implies valid_card(
                #[trigger] after[i].card_spec(),
            ) by {
                if i < after.len() - 1 {
                    assert(after[i] == before[i]);
                }
            }
        }
        Ok(card)
    }

    /// Closes the account whose card number is written in `card_number`.
    /// Fails with `AccountNotFound` when the text is no card number or no
    /// account matches; the ledger keeps its historical record either way.
    pub fn delete_user(&mut self, card_number: String) -> (r: Result<(), BankErrors>)
        requires
            old(self).wf(),
        ensures
            final(self).wf(),
            final(self).same_inputs(old(self)),
            ({
                let t = card_text_index(old(self).users_seq(), card_number@);
                match r {
                    Result::Ok(u) => t >= 0 && final(self).users_seq() == old(
                        self,
                    ).users_seq().remove(t) && final(self).ledger_seq() == old(self).ledger_seq(),
                    Result::Err(e) => e == BankErrors::AccountNotFound && t == -1 && *final(self)
                        == *old(self),
                }
            }),
    {
        let card = match convert_card_num(card_number) {
            Some(c) => c,
            None => {
                return Err(BankErrors::AccountNotFound);
            },
        };
        let idx = match self.find_index_by_card(card) {
            Some(i) => i,
            None => {
                return Err(BankErrors::AccountNotFound);
            },
        };
        proof {
            lemma_first_card_index(self.users_seq(), card);
            lemma_sum_remove(self.users_seq(), idx as int);
            lemma_sum_nonneg(self.users_seq());
        }
        let ghost before = self.users_seq();
        let ghost gi = idx as int;
        self.users.remove(idx);
        proof {
            let after = self.users_seq();
            assert(after =~= before.remove(gi));
            assert forall|k: int| 0 <= k < after.len() implies #[trigger] after[k] == (
            if k < gi {
                before[k]
            } else {
                before[k + 1]
            }) by {}
            assert forall|i: int, j: int|
                0 <= i < j < after.len() implies (#[trigger] after[i].card_spec()) != (
            #[trigger] after[j].card_spec()) by {}
            assert forall|i: int| 0 <= i < after.len() implies valid_card(
                #[trigger] after[i].card_spec(),
            ) by {}
        }
        Ok(())
    }

    /// The commit point of a transfer: debits the sender, credits the
    /// recipient, and appends the record, all between one `requires` and
    /// one `ensures`, so no caller can observe a partial effect.
    fn commit_transfer(&mut self, sender_idx: usize, recipient_idx: usize, amount: usize) -> (tx:
        Transaction)
        requires
            old(self).wf(),
            sender_idx < old(self).users_seq().len(),
            recipient_idx < old(self).users_seq().len(),
            sender_idx != recipient_idx,
            amount <= old(self).users_seq()[sender_idx as int].balance_spec(),
        ensures
            final(self).wf(),
            final(self).same_inputs(old(self)),
            transfer_applied(
                *old(self),
                *final(self),
                sender_idx as int,
                recipient_idx as int,
                amount as int,
                tx,
            ),
    {
        let ghost si = sender_idx as int;
        let ghost ri = recipient_idx as int;
        let ghost u0 = self.users_seq();
        let sender_card = self.users[sender_idx].check_card_number();
        let recipient_card = self.users[recipient_idx].check_card_number();
        self.users[sender_idx].refuse_money(amount);
        let ghost u1 = self.users_seq();
        proof {
            assert(u1 == u0.update(si, u1[si]));
            lemma_sum_update(u0, si, u1[si]);
            lemma_sum_element_le(u1, ri);
            lemma_sum_nonneg(u1);
            assert(u1[ri] == u0[ri]);
            assert(u1[ri].balance_spec() + amount <= usize::MAX);
        }
        self.users[recipient_idx].receive_money(amount);
        let ghost u2 = self.users_seq();
        proof {
            assert(u2 == u1.update(ri, u2[ri]));
            lemma_sum_update(u1, ri, u2[ri]);
            assert forall|k: int| 0 <= k < u2.len() implies (#[trigger] u2[k].card_spec())
                == u0[k].card_spec() by {}
            assert forall|i: int, j: int|
                0 <= i < j < u2.len() implies (#[trigger] u2[i].card_spec()) != (
            #[trigger] u2[j].card_spec()) by {
                assert(u0[i].card_spec() != u0[j].card_spec());
            }
            assert forall|i: int| 0 <= i < u2.len() implies valid_card(
                #[trigger] u2[i].card_spec(),
            ) by {
                assert(u2[i].card_spec() == u0[i].card_spec());
            }
        }
        let raw = now_millis();
        let n = self.transactions.len();
        let ts = if n == 0 {
            raw
        } else {
            let last = self.transactions[n - 1].get_tx_time();
            if raw < last {
                last
            } else {
                raw
            }
        };
        let tx = Transaction::new(amount, sender_card, recipient_card, ts);
        proof {
            lemma_ledger_push_ordered(self.ledger_seq(), tx);
        }
        self.transactions.push(tx);
        tx
    }

    /// Transfers money between two accounts addressed by card number. All
    /// five validations run before any mutation; on any failure nothing
    /// changes, on success the debit, the credit, and the ledger entry are
    /// applied as one unit.
    pub fn transfer_by_card(
        &mut self,
        sender_card: String,
        recipient_card: String,
        amount: String,
    ) -> (r: Result<Transaction, BankErrors>)
        requires
            old(self).wf(),
        ensures
            final(self).wf(),
            final(self).same_inputs(old(self)),
            ({
                let err = card_transfer_error(*old(self), sender_card@, recipient_card@, amount@);
                match r {
                    Result::Err(e) => err == Some(e) && *final(self) == *old(self),
                    Result::Ok(tx) => err is None && transfer_applied(
                        *old(self),
                        *final(self),
                        card_text_index(old(self).users_seq(), sender_card@),
                        card_text_index(old(self).users_seq(), recipient_card@),
                        dec_value(amount@),
                        tx,
                    ),
                }
            }),
    {
        let a = match convert_amount(amount) {
            Ok(v) => v,
            Err(e) => {
                return Err(e);
            },
        };
        if a == 0 {
            return Err(BankErrors::InvalidAmount);
        }
        let s_card = match convert_card_num(sender_card) {
            Some(c) => c,
            None => {
                return Err(BankErrors::AccountNotFound);
            },
        };
        let si = match self.find_index_by_card(s_card) {
            Some(i) => i,
            None => {
                return Err(BankErrors::AccountNotFound);
            },
        };
        let r_card = match convert_card_num(recipient_card) {
            Some(c) => c,
            None => {
                return Err(BankErrors::RecipientNotFound);
            },
        };
        let ri = match self.find_index_by_card(r_card) {
            Some(i) => i,
            None => {
                return Err(BankErrors::RecipientNotFound);
            },
        };
        proof {
            lemma_first_card_index(self.users_seq(), s_card);
            lemma_first_card_index(self.users_seq(), r_card);
        }
        if !self.users[si].is_enough_money(a) {
            return Err(BankErrors::InsufficientFunds);
        }
        if si == ri {
            return Err(BankErrors::InvalidRecipient);
        }
        let tx = self.commit_transfer(si, ri, a);
        Ok(tx)
    }

    /// Transfers money to the earliest-created account with the given phone
    /// number. Both parties are resolved and validated before either
    /// balance moves, so a missing recipient can never leave the sender
    /// debited; the record still carries the recipient's card number, since
    /// phone numbers make no permanent key.
    pub fn transfer_by_phone(
        &mut self,
        sender_card: String,
        recipient_phone: String,
        amount: String,
    ) -> (r: Result<Transaction, BankErrors>)
        requires
            old(self).wf(),
        ensures
            final(self).wf(),
            final(self).same_inputs(old(self)),
            ({
                let err = phone_transfer_error(
                    *old(self),
                    sender_card@,
                    recipient_phone@,
                    amount@,
                );
                match r {
                    Result::Err(e) => err == Some(e) && *final(self) == *old(self),
                    Result::Ok(tx) => err is None && transfer_applied(
                        *old(self),
                        *final(self),
                        card_text_index(old(self).users_seq(), sender_card@),
                        first_phone_index(old(self).users_seq(), recipient_phone@),
                        dec_value(amount@),
                        tx,
                    ),
                }
            }),
    {
        let a = match convert_amount(amount) {
            Ok(v) => v,
            Err(e) => {
                return Err(e);
            },
        };
        if a == 0 {
            return Err(BankErrors::InvalidAmount);
        }
        let s_card = match convert_card_num(sender_card) {
            Some(c) => c,
            None => {
                return Err(BankErrors::AccountNotFound);
            },
        };
        let si = match self.find_index_by_card(s_card) {
            Some(i) => i,
            None => {
                return Err(BankErrors::AccountNotFound);
            },
        };
        let ri = match self.find_index_by_phone(&recipient_phone) {
            Some(i) => i,
            None => {
                return Err(BankErrors::RecipientNotFound);
            },
        };
        proof {
            lemma_first_card_index(self.users_seq(), s_card);
            lemma_first_phone_index(self.users_seq(), recipient_phone@);
        }
        if !self.users[si].is_enough_money(a) {
            return Err(BankErrors::InsufficientFunds);
        }
        if si == ri {
            return Err(BankErrors::InvalidRecipient);
        }
        let tx = self.commit_transfer(si, ri, a);
        Ok(tx)
    }

    /// Appends a completed transaction to the ledger. The ledger is
    /// append-only and chronologically ordered, so the entry may not be
    /// older than the newest one.
    pub fn add_transaction(&mut self, tx: Transaction)
        requires
            old(self).wf(),
            last_ledger_time(old(self).ledger_seq()) <= tx.time_spec(),
        ensures
            final(self).wf(),
            final(self).same_inputs(old(self)),
            final(self).users_seq() == old(self).users_seq(),
            final(self).ledger_seq() == old(self).ledger_seq().push(tx),
    {
        proof {
            lemma_ledger_push_ordered(self.ledger_seq(), tx);
        }
        self.transactions.push(tx);
    }

    /// The balance of the account with card number `card_number`, if any.
    pub fn balance_of(&self, card_number: u32) -> (r: Option<usize>)
        ensures
            r == self.spec_balance_of(card_number),
    {
        proof {
            lemma_first_card_index(self.users_seq(), card_number);
        }
        match self.find_index_by_card(card_number) {
            Some(i) => Some(self.users[i].check_balance()),
            None => None,
        }
    }
}

} // verus!
