use vstd::prelude::*;

use crate::auth::Auth;
use crate::errors::Error;
use crate::events;
use crate::events::Event;
use crate::registry::RemittanceNFT;
use crate::registry::score_points;
use crate::token::AssetLedger;

verus! {

/// The lifecycle state of a loan. Transitions are monotonic along
/// Pending → Approved; Repaid and Defaulted are declared for forward
/// compatibility, and no current operation transitions into them.
#[derive(Clone, Copy, Debug, PartialEq, Eq, Structural)]
pub enum LoanStatus {
    Pending,
    Approved,
    Repaid,
    Defaulted,
}

/// A loan record: who borrowed, how much, and where in the lifecycle it is.
#[derive(Clone, Copy, Debug, PartialEq, Eq, Structural)]
pub struct Loan {
    pub borrower: u64,
    pub amount: i128,
    pub status: LoanStatus,
}

/// The loan ledger's persistent key space: the four configured addresses,
/// one record per loan, and the loan counter.
#[derive(Clone, Copy, Debug, PartialEq, Eq, Structural)]
pub enum DataKey {
    NftContract,
    LendingPool,
    Token,
    Admin,
    Loan(u32),
    LoanCounter,
}

/// The write-once configuration of the loan ledger: the reputation registry
/// it gates requests through, the pool address it disburses from, the asset
/// it disburses, and the admin that may approve.
#[derive(Clone, Copy, Debug, PartialEq, Eq, Structural)]
pub struct LoanConfig {
    pub nft_contract: u64,
    pub lending_pool: u64,
    pub token: u64,
    pub admin: u64,
}

/// The loan lifecycle ledger. Loans are keyed by a counter that starts at 0
/// and is incremented before each new loan, so identifiers start at 1 and
/// are dense: ids 1..=count each hold a record and no other id does.
pub struct LoanManager {
    config: Option<LoanConfig>,
    loans: Vec<Loan>,
    events: Vec<Event>,
}

impl LoanManager {
    /// The stored configuration, once initialized.
    pub closed spec fn spec_config(self) -> Option<LoanConfig> {
        self.config
    }

    /// The stored loans in creation order; the loan with id `i` is at
    /// position `i - 1`.
    pub closed spec fn loans_seq(self) -> Seq<Loan> {
        self.loans@
    }

    /// The events the ledger has recorded, oldest first.
    pub closed spec fn events_log(self) -> Seq<Event> {
        self.events@
    }

    /// Whether the configuration has been stored.
    pub open spec fn is_initialized(self) -> bool {
        self.spec_config().is_some()
    }

    /// The configured reputation-registry address.
    pub open spec fn spec_nft_contract(self) -> u64
        recommends
            self.is_initialized(),
    {
        self.spec_config().unwrap().nft_contract
    }

    /// The configured pool address loans are disbursed from.
    pub open spec fn spec_lending_pool(self) -> u64
        recommends
            self.is_initialized(),
    {
        self.spec_config().unwrap().lending_pool
    }

    /// The configured asset identity.
    pub open spec fn spec_token(self) -> u64
        recommends
            self.is_initialized(),
    {
        self.spec_config().unwrap().token
    }

    /// The configured admin.
    pub open spec fn spec_admin(self) -> u64
        recommends
            self.is_initialized(),
    {
        self.spec_config().unwrap().admin
    }

    /// The value of the loan counter: how many loans have been created.
    pub open spec fn loan_count(self) -> nat {
        self.loans_seq().len()
    }

    /// Whether a loan is stored under `id`: exactly the ids 1 up to the
    /// counter.
    pub open spec fn has_loan(self, id: u32) -> bool {
        1 <= id <= self.loan_count()
    }

    /// The loan stored under `id`.
    pub open spec fn loan_at(self, id: u32) -> Loan
        recommends
            self.has_loan(id),
    {
        self.loans_seq()[id - 1]
    }

    /// Which keys of the ledger's persistent key space hold a record.
    pub open spec fn stores(self, key: DataKey) -> bool {
        match key {
            DataKey::NftContract => self.is_initialized(),
            DataKey::LendingPool => self.is_initialized(),
            DataKey::Token => self.is_initialized(),
            DataKey::Admin => self.is_initialized(),
            DataKey::Loan(id) => self.has_loan(id),
            DataKey::LoanCounter => self.is_initialized() || self.loan_count() > 0,
        }
    }

    /// Every stored loan is over a positive principal, and the counter fits
    /// its integer width.
    pub open spec fn wf(self) -> bool {
        &&& forall|i: int|
            0 <= i < self.loans_seq().len() ==> 0 < (#[trigger] self.loans_seq()[i]).amount
        &&& self.loan_count() <= u32::MAX
    }

    /// A fresh, not yet initialized loan ledger.
    pub fn new() -> (r: Self)
        ensures
            r.wf(),
            !r.is_initialized(),
            r.loan_count() == 0,
            r.events_log().len() == 0,
    {
        LoanManager { config: None, loans: Vec::new(), events: Vec::new() }
    }

    /// Stores the four addresses the ledger works against, exactly once, and
    /// resets the loan counter.
    pub fn initialize(
        &mut self,
        nft_contract: u64,
        lending_pool: u64,
        token: u64,
        admin: u64,
    ) -> (r: Result<(), Error>)
        requires
            old(self).wf(),
        ensures
            final(self).wf(),
            r is Ok <==> !old(self).is_initialized(),
            r is Err ==> r == Err::<(), Error>(Error::AlreadyInitialized) && *final(self) == *old(self),
            r is Ok ==> final(self).spec_config() == Some(
                (LoanConfig { nft_contract, lending_pool, token, admin }),
            ),
            final(self).loans_seq() == old(self).loans_seq(),
            final(self).events_log() == old(self).events_log(),
    {
        if self.config.is_some() {
            return Err(Error::AlreadyInitialized);
        }
        self.config = Some(LoanConfig { nft_contract, lending_pool, token, admin });
        Ok(())
    }

    /// The recorded events, oldest first.
    pub fn events(&self) -> (r: &Vec<Event>)
        ensures
            r@ == self.events_log(),
    {
        &self.events
    }

    /// Whether the given key of the ledger's persistent key space holds a
    /// record. Read-only.
    pub fn has_stored(&self, key: DataKey) -> (r: bool)
        ensures
            r == self.stores(key),
    {
        match key {
            DataKey::NftContract => self.config.is_some(),
            DataKey::LendingPool => self.config.is_some(),
            DataKey::Token => self.config.is_some(),
            DataKey::Admin => self.config.is_some(),
            DataKey::Loan(id) => 1 <= id && id as usize <= self.loans.len(),
            DataKey::LoanCounter => self.config.is_some() || self.loans.len() > 0,
        }
    }

    /// Every precondition of a successful loan request.
    pub open spec fn request_ok(
        self,
        registry: RemittanceNFT,
        borrower: u64,
        amount: i128,
        auth: Auth,
    ) -> bool {
        &&& auth.allowed().contains(borrower)
        &&& 0 < amount
        &&& self.is_initialized()
        &&& registry.effective_score(borrower) >= 500
    }

    /// Creates a `Pending` loan for `borrower` if the reputation score the
    /// registry observes for them qualifies, and returns its identifier: the
    /// incremented loan counter. The score observation migrates a legacy
    /// record like any other read.
    pub fn request_loan(
        &mut self,
        registry: &mut RemittanceNFT,
        borrower: u64,
        amount: i128,
        auth: &Auth,
    ) -> (r: Result<u32, Error>)
        requires
            old(self).wf(),
            old(registry).wf(),
            old(self).loan_count() < u32::MAX,
            old(self).is_initialized() ==> old(registry).spec_address() == old(self).spec_nft_contract(),
        ensures
            final(self).wf(),
            final(registry).wf(),
            r is Ok <==> old(self).request_ok(*old(registry), borrower, amount, *auth),
            !auth.allowed().contains(borrower) ==> r == Err::<u32, Error>(Error::NotAuthorized),
            auth.allowed().contains(borrower) && amount <= 0 ==> r == Err::<u32, Error>(
                Error::AmountNotPositive,
            ),
            auth.allowed().contains(borrower) && 0 < amount && !old(self).is_initialized() ==> r
                == Err::<u32, Error>(Error::NotInitialized),
            auth.allowed().contains(borrower) && 0 < amount && old(self).is_initialized() && old(registry).effective_score(borrower) < 500 ==> r == Err::<u32, Error>(Error::ScoreTooLow),
            r is Ok ==> r == Ok::<u32, Error>((old(self).loan_count() + 1) as u32),
            r is Ok ==> final(self).loans_seq() == old(self).loans_seq().push(
                (Loan { borrower, amount, status: LoanStatus::Pending }),
            ),
            r is Ok ==> final(self).events_log() == old(self).events_log().push(
                (Event::LoanRequested { borrower, amount }),
            ),
            r is Ok ==> RemittanceNFT::migrated_at(*old(registry), *final(registry), borrower),
            final(self).spec_config() == old(self).spec_config(),
            r is Err ==> *final(self) == *old(self) && *final(registry) == *old(registry),
    {
        if !auth.allows(borrower) {
            return Err(Error::NotAuthorized);
        }
        if amount <= 0 {
            return Err(Error::AmountNotPositive);
        }
        if self.config.is_none() {
            return Err(Error::NotInitialized);
        }
        let score = registry.current_score(borrower);
        if score < 500 {
            return Err(Error::ScoreTooLow);
        }
        let _ = registry.get_score(borrower);
        let loan_id: u32 = (self.loans.len() as u32) + 1;
        self.loans.push(Loan { borrower, amount, status: LoanStatus::Pending });
        self.events.push(events::loan_requested(borrower, amount));
        Ok(loan_id)
    }

    /// Every precondition of a successful approval.
    pub open spec fn approve_ok(self, token: AssetLedger, loan_id: u32, auth: Auth) -> bool {
        &&& self.is_initialized()
        &&& auth.allowed().contains(self.spec_admin())
        &&& self.has_loan(loan_id)
        &&& self.loan_at(loan_id).status is Pending
        &&& self.loan_at(loan_id).amount <= token.balance_of(self.spec_lending_pool())
        &&& (self.spec_lending_pool() != self.loan_at(loan_id).borrower ==> token.balance_of(
            self.loan_at(loan_id).borrower,
        ) + self.loan_at(loan_id).amount <= i128::MAX)
    }

    /// Flips the loan under `loan_id` from `Pending` to `Approved` and moves
    /// its principal from the pool's custody to the borrower. The status flip
    /// and the transfer are one atomic unit: if the transfer cannot be made,
    /// the loan stays `Pending`. Admin authorization required.
    pub fn approve_loan(
        &mut self,
        token: &mut AssetLedger,
        loan_id: u32,
        auth: &Auth,
    ) -> (r: Result<(), Error>)
        requires
            old(self).wf(),
            old(token).wf(),
            old(self).is_initialized() ==> old(token).spec_id() == old(self).spec_token(),
        ensures
            final(self).wf(),
            final(token).wf(),
            r is Ok <==> old(self).approve_ok(*old(token), loan_id, *auth),
            !old(self).is_initialized() ==> r == Err::<(), Error>(Error::NotInitialized),
            old(self).is_initialized() && !auth.allowed().contains(old(self).spec_admin()) ==> r
                == Err::<(), Error>(Error::NotAuthorized),
            old(self).is_initialized() && auth.allowed().contains(old(self).spec_admin()) && !old(self).has_loan(loan_id) ==> r == Err::<(), Error>(Error::LoanNotFound),
            old(self).is_initialized() && auth.allowed().contains(old(self).spec_admin()) && old(self).has_loan(loan_id) && !(old(self).loan_at(loan_id).status is Pending) ==> r == Err::<
                (),
                Error,
            >(Error::LoanNotPending),
            old(self).is_initialized() && auth.allowed().contains(old(self).spec_admin()) && old(self).has_loan(loan_id) && old(self).loan_at(loan_id).status is Pending && old(
                token,
            ).balance_of(old(self).spec_lending_pool()) < old(self).loan_at(loan_id).amount ==> r
                == Err::<(), Error>(Error::InsufficientBalance),
            old(self).is_initialized() && auth.allowed().contains(old(self).spec_admin()) && old(self).has_loan(loan_id) && old(self).loan_at(loan_id).status is Pending && old(self).loan_at(
                loan_id,
            ).amount <= old(token).balance_of(old(self).spec_lending_pool()) && r is Err ==> r
                == Err::<(), Error>(Error::BalanceOverflow),
            r is Ok ==> final(self).loans_seq() == old(self).loans_seq().update(
                loan_id - 1,
                (Loan {
                    borrower: old(self).loan_at(loan_id).borrower,
                    amount: old(self).loan_at(loan_id).amount,
                    status: LoanStatus::Approved,
                }),
            ),
            r is Ok ==> final(self).loan_at(loan_id).status is Approved,
            r is Ok ==> final(self).events_log() == old(self).events_log().push(
                (Event::LoanApproved { loan_id }),
            ),
            r is Ok && old(self).spec_lending_pool() != old(self).loan_at(loan_id).borrower ==>
                final(token).balance_of(old(self).spec_lending_pool()) == old(token).balance_of(
                old(self).spec_lending_pool(),
            ) - old(self).loan_at(loan_id).amount && final(token).balance_of(
                old(self).loan_at(loan_id).borrower,
            ) == old(token).balance_of(old(self).loan_at(loan_id).borrower) + old(self).loan_at(
                loan_id,
            ).amount,
            r is Ok ==> forall|a: u64|
                a != old(self).spec_lending_pool() && a != old(self).loan_at(loan_id).borrower
                    ==> #[trigger] final(token).balance_of(a) == old(token).balance_of(a),
            final(self).spec_config() == old(self).spec_config(),
            final(token).spec_id() == old(token).spec_id(),
            r is Err ==> *final(self) == *old(self) && *final(token) == *old(token),
    {
        let cfg = match self.config {
            Some(c) => c,
            None => {
                return Err(Error::NotInitialized);
            },
        };
        if !auth.allows(cfg.admin) {
            return Err(Error::NotAuthorized);
        }
        if loan_id < 1 || loan_id as usize > self.loans.len() {
            return Err(Error::LoanNotFound);
        }
        let idx = (loan_id - 1) as usize;
        let loan = self.loans[idx];
        match loan.status {
            LoanStatus::Pending => {},
            _ => {
                return Err(Error::LoanNotPending);
            },
        }
        match token.transfer(cfg.lending_pool, loan.borrower, loan.amount) {
            Ok(()) => {},
            Err(e) => {
                return Err(e);
            },
        }
        self.loans.set(
            idx,
            Loan { borrower: loan.borrower, amount: loan.amount, status: LoanStatus::Approved },
        );
        self.events.push(events::loan_approved(loan_id));
        Ok(())
    }

    /// The loan stored under `loan_id`, or a failure when none is.
    pub fn get_loan(&self, loan_id: u32) -> (r: Result<Loan, Error>)
        ensures
            self.has_loan(loan_id) ==> r == Ok::<Loan, Error>(self.loan_at(loan_id)),
            !self.has_loan(loan_id) ==> r == Err::<Loan, Error>(Error::LoanNotFound),
    {
        if loan_id < 1 || loan_id as usize > self.loans.len() {
            return Err(Error::LoanNotFound);
        }
        Ok(self.loans[(loan_id - 1) as usize])
    }

    /// Every precondition of a successful repayment.
    pub open spec fn repay_ok(
        self,
        registry: RemittanceNFT,
        borrower: u64,
        amount: i128,
        auth: Auth,
    ) -> bool {
        &&& auth.allowed().contains(borrower)
        &&& 0 < amount
        &&& (amount >= 100 ==> self.is_initialized() && registry.update_score_ok(
            borrower,
            amount,
            None,
            auth,
        ))
    }

    /// Credits a repayment to the borrower's reputation score through the
    /// registry's admin channel. A repayment below 100 units would round to
    /// zero points, so the cross-ledger call is skipped entirely. No loan
    /// record is touched: repayment bookkeeping is decoupled from loans.
    pub fn repay(
        &mut self,
        registry: &mut RemittanceNFT,
        borrower: u64,
        amount: i128,
        auth: &Auth,
    ) -> (r: Result<(), Error>)
        requires
            old(self).wf(),
            old(registry).wf(),
            old(self).is_initialized() ==> old(registry).spec_address() == old(self).spec_nft_contract(),
        ensures
            final(self).wf(),
            final(registry).wf(),
            r is Ok <==> old(self).repay_ok(*old(registry), borrower, amount, *auth),
            !auth.allowed().contains(borrower) ==> r == Err::<(), Error>(Error::NotAuthorized),
            auth.allowed().contains(borrower) && amount <= 0 ==> r == Err::<(), Error>(
                Error::AmountNotPositive,
            ),
            auth.allowed().contains(borrower) && 100 <= amount && !old(self).is_initialized() ==> r
                == Err::<(), Error>(Error::NotInitialized),
            auth.allowed().contains(borrower) && 100 <= amount && old(self).is_initialized()
                && !old(registry).caller_ok(None, *auth) ==> r == old(registry).require_admin_or_authorized_minter_err(None, *auth),
            auth.allowed().contains(borrower) && 100 <= amount && old(self).is_initialized() && old(registry).caller_ok(None, *auth) && !old(registry).has_record(borrower) ==> r == Err::<
                (),
                Error,
            >(Error::NoRecord),
            auth.allowed().contains(borrower) && 100 <= amount && old(self).is_initialized() && old(registry).caller_ok(None, *auth) && old(registry).has_record(borrower) && r is Err
                ==> r == Err::<(), Error>(Error::ScoreOverflow),
            r is Ok && amount < 100 ==> *final(registry) == *old(registry),
            r is Ok && 100 <= amount ==> final(registry).effective_score(borrower) == old(registry).effective_score(borrower) + score_points(amount),
            r is Ok ==> forall|v: u64|
                v != borrower ==> #[trigger] final(registry).effective_score(v) == old(registry).effective_score(v),
            r is Ok ==> final(registry).admin_config() == old(registry).admin_config() && final(registry).minters_map() == old(registry).minters_map(),
            r is Ok ==> final(self).events_log() == old(self).events_log().push(
                (Event::LoanRepaid { borrower, amount }),
            ),
            final(self).loans_seq() == old(self).loans_seq(),
            final(self).spec_config() == old(self).spec_config(),
            r is Err ==> *final(self) == *old(self) && *final(registry) == *old(registry),
    {
        if !auth.allows(borrower) {
            return Err(Error::NotAuthorized);
        }
        if amount <= 0 {
            return Err(Error::AmountNotPositive);
        }
        if amount >= 100 {
            if self.config.is_none() {
                return Err(Error::NotInitialized);
            }
            let ghost reg_pre = *registry;
            match registry.update_score(borrower, amount, None, auth) {
                Ok(()) => {},
                Err(e) => {
                    return Err(e);
                },
            }
            proof {
                assert(score_points(amount) >= 1) by (nonlinear_arith)
                    requires
                        amount >= 100,
                {}
                assert forall|v: u64|
                    v != borrower implies #[trigger] registry.effective_score(v)
                    == reg_pre.effective_score(v) by {
                    assert(registry.meta_map().dom() == reg_pre.meta_map().dom().insert(borrower));
                    assert(registry.legacy_map() == reg_pre.legacy_map().remove(borrower));
                }
            }
        }
        self.events.push(events::loan_repaid(borrower, amount));
        Ok(())
    }
}

} // verus!
