use vstd::prelude::*;

use crate::auth::Auth;
use crate::errors::Error;
use crate::events::Event;
use crate::kvmap::KvMap;
use crate::token::AssetLedger;

verus! {

/// The pool's persistent key space: one balance record per depositor.
#[derive(Clone, Copy, Debug, PartialEq, Eq, Structural)]
pub enum DataKey {
    Deposit(u64),
}

/// The sum of the amounts in a sequence of balance records.
pub open spec fn sum_amounts(s: Seq<(u64, i128)>) -> int
    decreases s.len(),
{
    if s.len() == 0 {
        0
    } else {
        sum_amounts(s.drop_last()) + s.last().1
    }
}

/// Appending a record adds its amount to the sum.
proof fn lemma_sum_push(s: Seq<(u64, i128)>, p: (u64, i128))
    ensures
        sum_amounts(s.push(p)) == sum_amounts(s) + p.1,
{
    assert(s.push(p).drop_last() =~= s);
    assert(s.push(p).last() == p);
}

/// Replacing a record shifts the sum by the difference of the amounts.
proof fn lemma_sum_update(s: Seq<(u64, i128)>, i: int, p: (u64, i128))
    requires
        0 <= i < s.len(),
    ensures
        sum_amounts(s.update(i, p)) == sum_amounts(s) - s[i].1 + p.1,
    decreases s.len(),
{
    let t = s.update(i, p);
    if i == s.len() - 1 {
        assert(t.drop_last() =~= s.drop_last());
        assert(t.last() == p);
    } else {
        assert(t.drop_last() =~= s.drop_last().update(i, p));
        lemma_sum_update(s.drop_last(), i, p);
        assert(t.last() == s.last());
    }
}

/// Removing a record subtracts its amount from the sum.
proof fn lemma_sum_remove(s: Seq<(u64, i128)>, i: int)
    requires
        0 <= i < s.len(),
    ensures
        sum_amounts(s.remove(i)) == sum_amounts(s) - s[i].1,
    decreases s.len(),
{
    let t = s.remove(i);
    if i == s.len() - 1 {
        assert(t =~= s.drop_last());
    } else {
        assert(t.drop_last() =~= s.drop_last().remove(i));
        lemma_sum_remove(s.drop_last(), i);
        assert(t.last() == s.last());
    }
}

/// Balance conservation holds from the start: a pool with no balance records
/// is balanced against an asset ledger that holds nothing under the pool's
/// address. `deposit` and `withdraw` each ensure that a balanced pool stays
/// balanced, so the sum of all depositor balances equals the custodied asset
/// amount after any sequence of successful deposits and withdrawals.
pub proof fn lemma_fresh_pool_balanced(pool: LendingPool, token: AssetLedger)
    requires
        pool.sum_deposits() == 0,
        token.balance_of(pool.spec_address()) == 0,
    ensures
        pool.custody_balanced(token),
{
}

/// The escrow balance ledger: it custodies deposits of one configured asset
/// and owes each depositor exactly the balance stored for them.
pub struct LendingPool {
    address: u64,
    token: Option<u64>,
    deposits: KvMap<i128>,
    events: Vec<Event>,
}

impl LendingPool {
    /// The address the pool itself custodies assets under.
    pub closed spec fn spec_address(self) -> u64 {
        self.address
    }

    /// The configured asset identity, once initialized.
    pub closed spec fn token_config(self) -> Option<u64> {
        self.token
    }

    /// The stored balance records, one per depositor.
    pub closed spec fn deposits_map(self) -> Map<u64, i128> {
        self.deposits.as_map()
    }

    /// The stored balance records in storage order.
    pub closed spec fn deposit_entries(self) -> Seq<(u64, i128)> {
        self.deposits.entries()
    }

    /// The events the pool has recorded, oldest first.
    pub closed spec fn events_log(self) -> Seq<Event> {
        self.events@
    }

    /// The backing store keeps one record per depositor, and the records the
    /// map reads are the stored ones.
    pub closed spec fn store_ok(self) -> bool {
        self.deposits.wf()
    }

    /// Which keys of the pool's persistent key space hold a record.
    pub open spec fn stores(self, key: DataKey) -> bool {
        match key {
            DataKey::Deposit(a) => self.deposits_map().dom().contains(a),
        }
    }

    /// Whether the configured asset identity has been stored.
    pub open spec fn is_initialized(self) -> bool {
        self.token_config().is_some()
    }

    /// The configured asset identity.
    pub open spec fn spec_token(self) -> u64
        recommends
            self.is_initialized(),
    {
        self.token_config().unwrap()
    }

    /// Stored balances are strictly positive: a balance that reaches zero is
    /// removed, never stored as zero.
    pub open spec fn wf(self) -> bool {
        &&& self.store_ok()
        &&& forall|a: u64|
            self.deposits_map().dom().contains(a) ==> 0 < #[trigger] self.deposits_map()[a]
    }

    /// The balance the pool owes `provider`: the stored record, or 0 without
    /// one.
    pub open spec fn deposit_of(self, provider: u64) -> int {
        if self.deposits_map().dom().contains(provider) {
            self.deposits_map()[provider] as int
        } else {
            0
        }
    }

    /// The sum of every depositor's balance.
    pub open spec fn sum_deposits(self) -> int {
        sum_amounts(self.deposit_entries())
    }

    /// Balance conservation: what the pool owes its depositors in total is
    /// exactly what it custodies on the asset ledger.
    pub open spec fn custody_balanced(self, token: AssetLedger) -> bool {
        self.sum_deposits() == token.balance_of(self.spec_address())
    }

    /// Every precondition of a successful deposit.
    pub open spec fn deposit_ok(
        self,
        token: AssetLedger,
        provider: u64,
        amount: i128,
        auth: Auth,
    ) -> bool {
        &&& auth.allowed().contains(provider)
        &&& 0 < amount
        &&& self.is_initialized()
        &&& amount <= token.balance_of(provider)
        &&& (provider != self.spec_address() ==> token.balance_of(self.spec_address()) + amount
            <= i128::MAX)
        &&& self.deposit_of(provider) + amount <= i128::MAX
    }

    /// Every precondition of a successful withdrawal.
    pub open spec fn withdraw_ok(
        self,
        token: AssetLedger,
        provider: u64,
        amount: i128,
        auth: Auth,
    ) -> bool {
        &&& auth.allowed().contains(provider)
        &&& 0 < amount
        &&& amount <= self.deposit_of(provider)
        &&& self.is_initialized()
        &&& amount <= token.balance_of(self.spec_address())
        &&& (provider != self.spec_address() ==> token.balance_of(provider) + amount <= i128::MAX)
    }

    /// A fresh, not yet initialized pool custodying under `address`.
    pub fn new(address: u64) -> (r: Self)
        ensures
            r.wf(),
            !r.is_initialized(),
            r.spec_address() == address,
            r.deposit_entries().len() == 0,
            r.deposits_map() == Map::<u64, i128>::empty(),
            r.sum_deposits() == 0,
            r.events_log().len() == 0,
    {
        LendingPool { address, token: None, deposits: KvMap::new(), events: Vec::new() }
    }

    /// Stores the asset identity the pool custodies, exactly once.
    pub fn initialize(&mut self, token: u64) -> (r: Result<(), Error>)
        ensures
            r is Ok <==> !old(self).is_initialized(),
            r is Err ==> r == Err::<(), Error>(Error::AlreadyInitialized) && *final(self) == *old(self),
            r is Ok ==> final(self).token_config() == Some(token),
            final(self).spec_address() == old(self).spec_address(),
            final(self).deposit_entries() == old(self).deposit_entries(),
            final(self).events_log() == old(self).events_log(),
            final(self).deposits_map() == old(self).deposits_map(),
            old(self).wf() ==> final(self).wf(),
    {
        let ghost pre = *self;
        if self.token.is_some() {
            return Err(Error::AlreadyInitialized);
        }
        self.token = Some(token);
        proof {
            assert(self.deposits_map() == pre.deposits_map());
        }
        Ok(())
    }

    /// The configured asset identity, or a failure before initialization.
    pub fn get_token(&self) -> (r: Result<u64, Error>)
        ensures
            self.is_initialized() ==> r == Ok::<u64, Error>(self.spec_token()),
            !self.is_initialized() ==> r == Err::<u64, Error>(Error::NotInitialized),
    {
        match self.token {
            Some(t) => Ok(t),
            None => Err(Error::NotInitialized),
        }
    }

    /// The balance stored for `provider`, or 0 without a record. Never fails,
    /// and is never negative.
    pub fn get_deposit(&self, provider: u64) -> (r: i128)
        requires
            self.wf(),
        ensures
            r as int == self.deposit_of(provider),
            0 <= r,
    {
        match self.deposits.get(provider) {
            Some(b) => {
                proof {
                    assert(self.deposits_map()[provider] == self.deposits.value_of(provider));
                    assert(0 < self.deposits_map()[provider]);
                }
                b
            },
            None => 0,
        }
    }

    /// The recorded events, oldest first.
    pub fn events(&self) -> (r: &Vec<Event>)
        ensures
            r@ == self.events_log(),
    {
        &self.events
    }

    /// Whether the given key of the pool's persistent key space holds a
    /// record. Read-only.
    pub fn has_stored(&self, key: DataKey) -> (r: bool)
        ensures
            r == self.stores(key),
    {
        match key {
            DataKey::Deposit(a) => self.deposits.contains(a),
        }
    }

    /// Pulls `amount` of the configured asset from `provider` into pool
    /// custody and increases the stored balance by the same amount. Either
    /// every effect applies or none does.
    pub fn deposit(
        &mut self,
        token: &mut AssetLedger,
        provider: u64,
        amount: i128,
        auth: &Auth,
    ) -> (r: Result<(), Error>)
        requires
            old(self).wf(),
            old(token).wf(),
            old(self).is_initialized() ==> old(token).spec_id() == old(self).spec_token(),
        ensures
            final(self).wf(),
            final(token).wf(),
            final(self).spec_address() == old(self).spec_address(),
            final(self).token_config() == old(self).token_config(),
            final(token).spec_id() == old(token).spec_id(),
            r is Ok <==> old(self).deposit_ok(*old(token), provider, amount, *auth),
            r is Ok ==> final(self).deposit_of(provider) == old(self).deposit_of(provider)
                + amount,
            r is Ok ==> forall|a: u64|
                a != provider ==> #[trigger] final(self).deposit_of(a) == old(self).deposit_of(a),
            r is Ok ==> final(self).sum_deposits() == old(self).sum_deposits() + amount,
            r is Ok && provider != old(self).spec_address() ==> final(token).balance_of(provider)
                == old(token).balance_of(provider) - amount && final(token).balance_of(
                old(self).spec_address(),
            ) == old(token).balance_of(old(self).spec_address()) + amount,
            r is Ok ==> forall|a: u64|
                a != provider && a != old(self).spec_address() ==> #[trigger] final(token).balance_of(a) == old(token).balance_of(a),
            r is Ok && provider == old(self).spec_address() ==> *final(token) == *old(token),
            r is Ok ==> final(self).events_log() == old(self).events_log().push(
                (Event::Deposit { provider, amount }),
            ),
            r is Ok && old(self).custody_balanced(*old(token)) && provider != old(self).spec_address() ==> final(self).custody_balanced(*final(token)),
            !auth.allowed().contains(provider) ==> r == Err::<(), Error>(Error::NotAuthorized),
            auth.allowed().contains(provider) && amount <= 0 ==> r == Err::<(), Error>(
                Error::AmountNotPositive,
            ),
            auth.allowed().contains(provider) && 0 < amount && !old(self).is_initialized() ==> r
                == Err::<(), Error>(Error::NotInitialized),
            auth.allowed().contains(provider) && 0 < amount && old(self).is_initialized() && old(token).balance_of(provider) < amount ==> r == Err::<(), Error>(Error::InsufficientBalance),
            auth.allowed().contains(provider) && 0 < amount && old(self).is_initialized() && amount
                <= old(token).balance_of(provider) && r is Err ==> r == Err::<(), Error>(
                Error::BalanceOverflow,
            ),
            r is Err ==> *final(self) == *old(self) && *final(token) == *old(token),
    {
        if !auth.allows(provider) {
            return Err(Error::NotAuthorized);
        }
        if amount <= 0 {
            return Err(Error::AmountNotPositive);
        }
        if self.token.is_none() {
            return Err(Error::NotInitialized);
        }
        let provider_bal = token.balance(provider);
        if provider_bal < amount {
            return Err(Error::InsufficientBalance);
        }
        if provider != self.address {
            let custody = token.balance(self.address);
            if amount > i128::MAX - custody {
                return Err(Error::BalanceOverflow);
            }
        }
        let current = self.get_deposit(provider);
        if amount > i128::MAX - current {
            return Err(Error::BalanceOverflow);
        }
        let ghost pre = *self;
        match token.transfer(provider, self.address, amount) {
            Ok(()) => {},
            Err(e) => {
                proof {
                    assert(false);
                }
                return Err(e);
            },
        }
        self.deposits.set(provider, current + amount);
        proof {
            if pre.deposits.contains_spec(provider) {
                pre.deposits.lemma_unique_index(provider, pre.deposits.index_of(provider));
                lemma_sum_update(
                    pre.deposit_entries(),
                    pre.deposits.index_of(provider),
                    (provider, (current + amount) as i128),
                );
            } else {
                lemma_sum_push(pre.deposit_entries(), (provider, (current + amount) as i128));
            }
            assert forall|a: u64|
                self.deposits_map().dom().contains(a) implies 0 < #[trigger] self.deposits_map()[a] by {}
        }
        self.events.push(Event::Deposit { provider, amount });
        Ok(())
    }

    /// Pushes `amount` of the configured asset from pool custody back to
    /// `provider` and decreases the stored balance by the same amount; a
    /// balance that reaches exactly zero is removed. Either every effect
    /// applies or none does.
    pub fn withdraw(
        &mut self,
        token: &mut AssetLedger,
        provider: u64,
        amount: i128,
        auth: &Auth,
    ) -> (r: Result<(), Error>)
        requires
            old(self).wf(),
            old(token).wf(),
            old(self).is_initialized() ==> old(token).spec_id() == old(self).spec_token(),
        ensures
            final(self).wf(),
            final(token).wf(),
            final(self).spec_address() == old(self).spec_address(),
            final(self).token_config() == old(self).token_config(),
            final(token).spec_id() == old(token).spec_id(),
            r is Ok <==> old(self).withdraw_ok(*old(token), provider, amount, *auth),
            r is Ok ==> final(self).deposit_of(provider) == old(self).deposit_of(provider)
                - amount,
            r is Ok ==> (final(self).stores(DataKey::Deposit(provider)) <==> old(self).deposit_of(provider) - amount > 0),
            r is Ok ==> forall|a: u64|
                a != provider ==> #[trigger] final(self).deposit_of(a) == old(self).deposit_of(a),
            r is Ok ==> final(self).sum_deposits() == old(self).sum_deposits() - amount,
            r is Ok && provider != old(self).spec_address() ==> final(token).balance_of(provider)
                == old(token).balance_of(provider) + amount && final(token).balance_of(
                old(self).spec_address(),
            ) == old(token).balance_of(old(self).spec_address()) - amount,
            r is Ok ==> forall|a: u64|
                a != provider && a != old(self).spec_address() ==> #[trigger] final(token).balance_of(a) == old(token).balance_of(a),
            r is Ok && provider == old(self).spec_address() ==> *final(token) == *old(token),
            r is Ok ==> final(self).events_log() == old(self).events_log().push(
                (Event::Withdraw { provider, amount }),
            ),
            r is Ok && old(self).custody_balanced(*old(token)) && provider != old(self).spec_address() ==> final(self).custody_balanced(*final(token)),
            !auth.allowed().contains(provider) ==> r == Err::<(), Error>(Error::NotAuthorized),
            auth.allowed().contains(provider) && amount <= 0 ==> r == Err::<(), Error>(
                Error::AmountNotPositive,
            ),
            auth.allowed().contains(provider) && 0 < amount && old(self).deposit_of(provider)
                < amount ==> r == Err::<(), Error>(Error::InsufficientBalance),
            auth.allowed().contains(provider) && 0 < amount && amount <= old(self).deposit_of(provider) && !old(self).is_initialized() ==> r == Err::<(), Error>(Error::NotInitialized),
            auth.allowed().contains(provider) && 0 < amount && amount <= old(self).deposit_of(provider) && old(self).is_initialized() && old(token).balance_of(old(self).spec_address())
                < amount ==> r == Err::<(), Error>(Error::InsufficientBalance),
            auth.allowed().contains(provider) && 0 < amount && amount <= old(self).deposit_of(provider) && old(self).is_initialized() && amount <= old(token).balance_of(
                old(self).spec_address(),
            ) && r is Err ==> r == Err::<(), Error>(Error::BalanceOverflow),
            r is Err ==> *final(self) == *old(self) && *final(token) == *old(token),
    {
        if !auth.allows(provider) {
            return Err(Error::NotAuthorized);
        }
        if amount <= 0 {
            return Err(Error::AmountNotPositive);
        }
        let current = self.get_deposit(provider);
        if current < amount {
            return Err(Error::InsufficientBalance);
        }
        if self.token.is_none() {
            return Err(Error::NotInitialized);
        }
        let custody = token.balance(self.address);
        if custody < amount {
            return Err(Error::InsufficientBalance);
        }
        if provider != self.address {
            let provider_bal = token.balance(provider);
            if amount > i128::MAX - provider_bal {
                return Err(Error::BalanceOverflow);
            }
        }
        let ghost pre = *self;
        match token.transfer(self.address, provider, amount) {
            Ok(()) => {},
            Err(e) => {
                proof {
                    assert(false);
                }
                return Err(e);
            },
        }
        proof {
            pre.deposits.lemma_unique_index(provider, pre.deposits.index_of(provider));
        }
        let remaining = current - amount;
        if remaining == 0 {
            self.deposits.remove(provider);
            proof {
                lemma_sum_remove(pre.deposit_entries(), pre.deposits.index_of(provider));
            }
        } else {
            self.deposits.set(provider, remaining);
            proof {
                lemma_sum_update(
                    pre.deposit_entries(),
                    pre.deposits.index_of(provider),
                    (provider, remaining),
                );
            }
        }
        proof {
            assert forall|a: u64|
                self.deposits_map().dom().contains(a) implies 0 < #[trigger] self.deposits_map()[a] by {}
        }
        self.events.push(Event::Withdraw { provider, amount });
        Ok(())
    }
}

} // verus!
