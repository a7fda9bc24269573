use vstd::prelude::*;
use crate::umap::UMap;

verus! {

/// Why a balance transfer was refused by the currency service.
#[derive(Clone, Copy, Debug, PartialEq, Eq, Structural)]
pub enum TransferError {
    /// The sender does not hold the amount to be transferred.
    InsufficientBalance,
    /// Completing the transfer would leave the sender below the minimum
    /// balance that keeps an account alive.
    WouldKillAccount,
    /// The receiver's balance cannot hold the transferred amount.
    Overflow,
}

/// A balance-transfer service with an existence-preserving ("keep alive")
/// policy: a successful transfer never leaves the sender below the service's
/// minimum viable balance. The content ledger is handed such a service at
/// each tipping operation and relies only on this interface.
pub trait Currency: Sized {
    /// Internal consistency of the service's own records.
    spec fn inv(&self) -> bool;

    /// The balance the service records for `who`.
    spec fn balance(&self, who: u64) -> u64;

    /// The minimum balance that keeps an account alive.
    spec fn min_balance(&self) -> u64;

    /// Whether a transfer of `amount` from `from` to `to` would succeed.
    spec fn can_transfer(&self, from: u64, to: u64, amount: u64) -> bool;

    /// The error a refused transfer of `amount` from `from` to `to` reports.
    spec fn refusal(&self, from: u64, to: u64, amount: u64) -> TransferError;

    /// The existence-preserving policy: a transfer can only succeed when the
    /// sender holds the amount and keeps at least the minimum balance, and
    /// the receiver's balance can hold the result.
    proof fn lemma_can_transfer(&self, from: u64, to: u64, amount: u64)
        requires
            self.inv(),
            self.can_transfer(from, to, amount),
        ensures
            amount <= self.balance(from),
            self.balance(from) - amount >= self.min_balance(),
            self.balance(to) + amount <= u64::MAX,
        ;

    /// Moves `amount` from `from` to `to`, or fails with no change at all.
    fn transfer(&mut self, from: u64, to: u64, amount: u64) -> (r: Result<(), TransferError>)
        requires
            old(self).inv(),
            from != to,
        ensures
            final(self).inv(),
            r is Ok <==> old(self).can_transfer(from, to, amount),
            r is Ok ==> final(self).balance(from) == old(self).balance(from) - amount
                && final(self).balance(to) == old(self).balance(to) + amount
                && (forall|a: u64| a != from && a != to
                    ==> final(self).balance(a) == old(self).balance(a))
                && final(self).min_balance() == old(self).min_balance(),
            r is Err ==> *final(self) == *old(self)
                && r == Err::<(), TransferError>(old(self).refusal(from, to, amount)),
        ;
}

/// An in-memory currency service: a balance table and a fixed minimum viable
/// balance. It realizes the transfer policy in full and is the collaborator
/// injected in tests.
pub struct TestCurrency {
    balances: UMap<u64>,
    min: u64,
}

impl TestCurrency {
    pub fn new(min: u64) -> (r: Self)
        ensures
            r.inv(),
            r.min_balance() == min,
            forall|a: u64| r.balance(a) == 0,
    {
        TestCurrency { balances: UMap::new(), min }
    }

    /// Endows `who` with balance `amount`, replacing its prior balance.
    pub fn set_balance(&mut self, who: u64, amount: u64)
        requires
            old(self).inv(),
        ensures
            final(self).inv(),
            final(self).balance(who) == amount,
            forall|a: u64| a != who ==> final(self).balance(a) == old(self).balance(a),
            final(self).min_balance() == old(self).min_balance(),
    {
        self.balances.insert(who, amount);
    }

    pub fn balance_of(&self, who: u64) -> (r: u64)
        requires
            self.inv(),
        ensures
            r == self.balance(who),
    {
        match self.balances.get(who) {
            Some(b) => *b,
            None => 0,
        }
    }
}

impl Currency for TestCurrency {
    closed spec fn inv(&self) -> bool {
        self.balances.wf()
    }

    closed spec fn balance(&self, who: u64) -> u64 {
        if self.balances@.contains_key(who) {
            self.balances@[who]
        } else {
            0
        }
    }

    closed spec fn min_balance(&self) -> u64 {
        self.min
    }

    closed spec fn can_transfer(&self, from: u64, to: u64, amount: u64) -> bool {
        &&& amount <= self.balance(from)
        &&& self.balance(from) - amount >= self.min_balance()
        &&& self.balance(to) + amount <= u64::MAX
    }

    closed spec fn refusal(&self, from: u64, to: u64, amount: u64) -> TransferError {
        if amount > self.balance(from) {
            TransferError::InsufficientBalance
        } else if self.balance(from) - amount < self.min_balance() {
            TransferError::WouldKillAccount
        } else {
            TransferError::Overflow
        }
    }

    proof fn lemma_can_transfer(&self, from: u64, to: u64, amount: u64) {
    }

    fn transfer(&mut self, from: u64, to: u64, amount: u64) -> (r: Result<(), TransferError>) {
        let from_bal = match self.balances.get(from) {
            Some(b) => *b,
            None => 0,
        };
        if amount > from_bal {
            return Err(TransferError::InsufficientBalance);
        }
        if from_bal - amount < self.min {
            return Err(TransferError::WouldKillAccount);
        }
        let to_bal = match self.balances.get(to) {
            Some(b) => *b,
            None => 0,
        };
        if amount > u64::MAX - to_bal {
            return Err(TransferError::Overflow);
        }
        self.balances.insert(from, from_bal - amount);
        self.balances.insert(to, to_bal + amount);
        Ok(())
    }
}

} // verus!
