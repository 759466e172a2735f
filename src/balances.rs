//! The balance ledger: per-account balances with checked transfers.

use vstd::prelude::*;

use crate::accounts::AccountMap;

verus! {

/// Why a transfer was refused. Neither leaves any balance changed.
#[derive(Clone, Copy, Debug, PartialEq, Eq, Structural)]
pub enum TransferError {
    /// The sender holds less than the amount.
    InsufficientFunds,
    /// Crediting the recipient would exceed `u128::MAX`.
    Overflow,
}

impl TransferError {
    /// A short message describing the error.
    pub fn as_str(&self) -> (r: &'static str)
        ensures
            r@ == (match self {
                TransferError::InsufficientFunds => "Not enough funds."@,
                TransferError::Overflow => "Overflow"@,
            }),
    {
        match self {
            TransferError::InsufficientFunds => "Not enough funds.",
            TransferError::Overflow => "Overflow",
        }
    }
}

/// Relies on num's `Zero::zero` for `u128`, which returns `0`.
#[verifier::external_body]
fn zero_balance() -> (r: u128)
    ensures
        r == 0,
{
    <u128 as num::Zero>::zero()
}

/// Relies on num's `CheckedSub::checked_sub` for `u128`: the difference, or
/// `None` where it would be negative.
#[verifier::external_body]
fn checked_sub(a: u128, b: u128) -> (r: Option<u128>)
    ensures
        r == (if b <= a {
            Some((a - b) as u128)
        } else {
            None::<u128>
        }),
{
    num::CheckedSub::checked_sub(&a, &b)
}

/// Relies on num's `CheckedAdd::checked_add` for `u128`: the sum, or `None`
/// where it would exceed `u128::MAX`.
#[verifier::external_body]
fn checked_add(a: u128, b: u128) -> (r: Option<u128>)
    ensures
        r == (if a + b <= u128::MAX {
            Some((a + b) as u128)
        } else {
            None::<u128>
        }),
{
    num::CheckedAdd::checked_add(&a, &b)
}

/// The balance of `who` in `m`: its entry, or zero where it has none.
pub open spec fn balance_in(m: Map<Seq<char>, u128>, who: Seq<char>) -> u128 {
    if m.contains_key(who) {
        m[who]
    } else {
        0
    }
}

/// What a transfer of `amount` from `caller` to `to` makes of the balances
/// `m`: the new balances, or the error that refuses it.
///
/// A transfer from an account to itself debits and credits the same balance
/// and so leaves it as it was.
pub open spec fn transfer_outcome(
    m: Map<Seq<char>, u128>,
    caller: Seq<char>,
    to: Seq<char>,
    amount: u128,
) -> Result<Map<Seq<char>, u128>, TransferError> {
    let caller_balance = balance_in(m, caller);
    let to_balance = balance_in(m, to);
    if amount > caller_balance {
        Err(TransferError::InsufficientFunds)
    } else if caller != to && to_balance + amount > u128::MAX {
        Err(TransferError::Overflow)
    } else {
        let debited = m.insert(caller, (caller_balance - amount) as u128);
        Ok(debited.insert(to, (balance_in(debited, to) + amount) as u128))
    }
}

/// The balances module: how much each account holds.
pub struct Pallet {
    balances: AccountMap,
}

impl Pallet {
    /// The stored balances, by account identifier.
    pub closed spec fn view(&self) -> Map<Seq<char>, u128> {
        self.balances@
    }

    /// The ledger's storage is well formed.
    pub closed spec fn wf(&self) -> bool {
        self.balances.wf()
    }

    /// A ledger with no accounts.
    pub fn new() -> (r: Pallet)
        ensures
            r.wf(),
            r@ == Map::<Seq<char>, u128>::empty(),
            forall|a: Seq<char>| balance_in(r@, a) == 0,
    {
        Pallet { balances: AccountMap::new() }
    }

    /// Sets the balance of `who` to `amount`, whatever it was.
    pub fn set_balance(&mut self, who: &String, amount: u128)
        requires
            old(self).wf(),
        ensures
            final(self).wf(),
            final(self)@ == old(self)@.insert(who@, amount),
            balance_in(final(self)@, who@) == amount,
            forall|a: Seq<char>|
                a != who@ ==> balance_in(final(self)@, a) == balance_in(old(self)@, a),
    {
        self.balances.insert(who, amount);
    }

    /// The balance of `who`; zero where it has no stored balance.
    pub fn balance(&self, who: &String) -> (r: u128)
        requires
            self.wf(),
        ensures
            r == balance_in(self@, who@),
    {
        match self.balances.get(who) {
            Some(b) => b,
            None => zero_balance(),
        }
    }

    /// Moves `amount` from `caller` to `to`.
    ///
    /// Both the debit and the credit are checked before either is written:
    /// on an error no balance changes.
    pub fn transfer(&mut self, caller: String, to: String, amount: u128) -> (r: Result<
        (),
        TransferError,
    >)
        requires
            old(self).wf(),
        ensures
            final(self).wf(),
            match transfer_outcome(old(self)@, caller@, to@, amount) {
                Ok(m) => r is Ok && final(self)@ == m,
                Err(e) => r == Err::<(), TransferError>(e) && final(self)@ == old(self)@,
            },
            forall|a: Seq<char>|
                a != caller@ && a != to@ ==> balance_in(final(self)@, a) == balance_in(
                    old(self)@,
                    a,
                ),
    {
        let caller_balance = self.balance(&caller);
        let new_caller_balance = match checked_sub(caller_balance, amount) {
            Some(b) => b,
            None => {
                return Err(TransferError::InsufficientFunds);
            },
        };
        let same = caller == to;
        let to_balance = if same {
            new_caller_balance
        } else {
            self.balance(&to)
        };
        let new_to_balance = match checked_add(to_balance, amount) {
            Some(b) => b,
            None => {
                return Err(TransferError::Overflow);
            },
        };
        self.balances.insert(&caller, new_caller_balance);
        self.balances.insert(&to, new_to_balance);
        Ok(())
    }
}

/// A successful transfer between two distinct accounts neither creates nor
/// destroys value: the sum of their two balances is the same before and after.
pub proof fn lemma_transfer_conserves(
    m: Map<Seq<char>, u128>,
    a: Seq<char>,
    b: Seq<char>,
    amount: u128,
)
    requires
        a != b,
        transfer_outcome(m, a, b, amount) is Ok,
    ensures
        balance_in(transfer_outcome(m, a, b, amount)->Ok_0, a) + balance_in(
            transfer_outcome(m, a, b, amount)->Ok_0,
            b,
        ) == balance_in(m, a) + balance_in(m, b),
{
}

/// A transfer from an account to itself of at most its balance succeeds and
/// leaves every balance as it was.
pub proof fn lemma_self_transfer_identity(m: Map<Seq<char>, u128>, a: Seq<char>, amount: u128)
    requires
        amount <= balance_in(m, a),
    ensures
        transfer_outcome(m, a, a, amount) is Ok,
        forall|k: Seq<char>|
            balance_in(transfer_outcome(m, a, a, amount)->Ok_0, k) == balance_in(m, k),
{
}

/// A transfer of more than the sender holds is refused for insufficient
/// funds, and the balances of sender and recipient stay as they were.
pub proof fn lemma_underflow_rejected(
    m: Map<Seq<char>, u128>,
    a: Seq<char>,
    b: Seq<char>,
    amount: u128,
)
    requires
        amount > balance_in(m, a),
    ensures
        transfer_outcome(m, a, b, amount) == Err::<Map<Seq<char>, u128>, TransferError>(
            TransferError::InsufficientFunds,
        ),
{
}

} // verus!
