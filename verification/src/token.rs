use vstd::prelude::*;

use crate::errors::Error;
use crate::kvmap::KvMap;

verus! {

/// The asset-transfer collaborator: a fungible-token ledger the pool and the
/// loan system call into. It moves value atomically — a transfer either moves
/// the full amount or fails cleanly with no balance touched — and its balances
/// are queryable for external verification.
pub struct AssetLedger {
    id: u64,
    accounts: KvMap<i128>,
}

impl AssetLedger {
    /// The asset identity this ledger is the ledger of.
    pub closed spec fn spec_id(self) -> u64 {
        self.id
    }

    /// The accounts holding a balance record.
    pub closed spec fn balances(self) -> Map<u64, i128> {
        self.accounts.as_map()
    }

    /// The backing store keeps one record per account.
    pub closed spec fn store_ok(self) -> bool {
        self.accounts.wf()
    }

    /// Every stored balance is non-negative.
    pub open spec fn wf(self) -> bool {
        &&& self.store_ok()
        &&& forall|a: u64|
            self.balances().dom().contains(a) ==> 0 <= #[trigger] self.balances()[a]
    }

    /// The balance of `account`: its stored record, or 0 without one.
    pub open spec fn balance_of(self, account: u64) -> int {
        if self.balances().dom().contains(account) {
            self.balances()[account] as int
        } else {
            0
        }
    }

    /// A fresh ledger for asset `id` with no balances.
    pub fn new(id: u64) -> (r: Self)
        ensures
            r.wf(),
            r.spec_id() == id,
            forall|a: u64| #[trigger] r.balance_of(a) == 0,
    {
        AssetLedger { id, accounts: KvMap::new() }
    }

    /// The balance of `account`.
    pub fn balance(&self, account: u64) -> (r: i128)
        requires
            self.wf(),
        ensures
            r as int == self.balance_of(account),
            0 <= r,
    {
        match self.accounts.get(account) {
            Some(b) => b,
            None => 0,
        }
    }

    /// Issues `amount` new units to `to`. Fails on a negative amount or when
    /// the receiving balance would exceed the integer range.
    pub fn mint(&mut self, to: u64, amount: i128) -> (r: Result<(), Error>)
        requires
            old(self).wf(),
        ensures
            final(self).wf(),
            final(self).spec_id() == old(self).spec_id(),
            r is Ok <==> 0 <= amount && old(self).balance_of(to) + amount <= i128::MAX,
            r is Ok ==> final(self).balance_of(to) == old(self).balance_of(to) + amount,
            r is Ok ==> forall|a: u64|
                a != to ==> #[trigger] final(self).balance_of(a) == old(self).balance_of(a),
            amount < 0 ==> r == Err::<(), Error>(Error::NegativeAmount),
            0 <= amount && old(self).balance_of(to) + amount > i128::MAX ==> r == Err::<
                (),
                Error,
            >(Error::BalanceOverflow),
            r is Err ==> *final(self) == *old(self),
    {
        if amount < 0 {
            return Err(Error::NegativeAmount);
        }
        let bal = self.balance(to);
        if amount > i128::MAX - bal {
            return Err(Error::BalanceOverflow);
        }
        self.accounts.set(to, bal + amount);
        proof {
            assert forall|a: u64|
                self.balances().dom().contains(a) implies 0 <= #[trigger] self.balances()[a] by {}
        }
        Ok(())
    }

    /// Moves `amount` from `from` to `to`. Fails cleanly — no balance is
    /// touched — on a negative amount, when `from` cannot cover it, or when
    /// the receiving balance would exceed the integer range.
    pub fn transfer(&mut self, from: u64, to: u64, amount: i128) -> (r: Result<(), Error>)
        requires
            old(self).wf(),
        ensures
            final(self).wf(),
            final(self).spec_id() == old(self).spec_id(),
            r is Ok <==> 0 <= amount <= old(self).balance_of(from) && (from != to
                ==> old(self).balance_of(to) + amount <= i128::MAX),
            r is Ok && from != to ==> final(self).balance_of(from) == old(self).balance_of(from)
                - amount && final(self).balance_of(to) == old(self).balance_of(to) + amount,
            r is Ok ==> forall|a: u64|
                a != from && a != to ==> #[trigger] final(self).balance_of(a) == old(
                    self,
                ).balance_of(a),
            r is Ok && from == to ==> *final(self) == *old(self),
            amount < 0 ==> r == Err::<(), Error>(Error::NegativeAmount),
            0 <= amount && old(self).balance_of(from) < amount ==> r == Err::<(), Error>(
                Error::InsufficientBalance,
            ),
            0 <= amount <= old(self).balance_of(from) && from != to && old(self).balance_of(to)
                + amount > i128::MAX ==> r == Err::<(), Error>(Error::BalanceOverflow),
            r is Err ==> *final(self) == *old(self),
    {
        if amount < 0 {
            return Err(Error::NegativeAmount);
        }
        let from_bal = self.balance(from);
        if from_bal < amount {
            return Err(Error::InsufficientBalance);
        }
        if from == to {
            return Ok(());
        }
        let to_bal = self.balance(to);
        if amount > i128::MAX - to_bal {
            return Err(Error::BalanceOverflow);
        }
        self.accounts.set(from, from_bal - amount);
        self.accounts.set(to, to_bal + amount);
        proof {
            assert forall|a: u64|
                self.balances().dom().contains(a) implies 0 <= #[trigger] self.balances()[a] by {}
        }
        Ok(())
    }
}

} // verus!
