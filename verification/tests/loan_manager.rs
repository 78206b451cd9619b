use credit_pipeline::auth::Auth;
use credit_pipeline::errors::Error;
use credit_pipeline::loans::LoanManager;
use credit_pipeline::loans::LoanStatus;
use credit_pipeline::registry::RemittanceNFT;
use credit_pipeline::token::AssetLedger;

fn setup_test() -> (LoanManager, RemittanceNFT, AssetLedger, u64, u64) {
    // 1. The reputation registry, initialized with an admin.
    let admin: u64 = 1;
    let nft_contract: u64 = 2;
    let mut registry = RemittanceNFT::new(nft_contract);
    registry.initialize(admin).unwrap();

    // 2. The asset ledger.
    let token_id: u64 = 3;
    let token = AssetLedger::new(token_id);

    // 3. A pool address holding the liquidity loans are disbursed from.
    let pool_address: u64 = 4;

    // 4. The loan ledger, wired to the registry, pool, asset and admin.
    let mut manager = LoanManager::new();
    manager
        .initialize(nft_contract, pool_address, token_id, admin)
        .unwrap();

    (manager, registry, token, pool_address, admin)
}

#[test]
fn test_loan_request_success() {
    let (mut manager, mut registry, _token, _pool, _admin) = setup_test();
    let borrower: u64 = 9;
    let auth = Auth::everyone();

    // Give borrower a score high enough to pass (>= 500).
    let history_hash = [0u8; 32];
    registry.mint(borrower, 600, history_hash, None, &auth).unwrap();

    // Should succeed and return the loan id.
    let loan_id = manager
        .request_loan(&mut registry, borrower, 1000, &auth)
        .unwrap();
    assert_eq!(loan_id, 1);

    // Verify loan was created with Pending status.
    let loan = manager.get_loan(loan_id).unwrap();
    assert_eq!(loan.borrower, borrower);
    assert_eq!(loan.amount, 1000);
    assert_eq!(loan.status, LoanStatus::Pending);
}

#[test]
fn test_loan_request_failure_low_score() {
    let (mut manager, mut registry, _token, _pool, _admin) = setup_test();
    let borrower: u64 = 9;
    let auth = Auth::everyone();

    // Give borrower a score too low to pass (< 500).
    let history_hash = [0u8; 32];
    registry.mint(borrower, 400, history_hash, None, &auth).unwrap();

    let r = manager.request_loan(&mut registry, borrower, 1000, &auth);
    assert_eq!(r, Err(Error::ScoreTooLow));
}

#[test]
fn test_approve_loan_flow() {
    let (mut manager, mut registry, mut token, pool_address, _admin) = setup_test();
    let borrower: u64 = 9;
    let auth = Auth::everyone();

    // 1. Give borrower a score high enough to pass.
    let history_hash = [0u8; 32];
    registry.mint(borrower, 600, history_hash, None, &auth).unwrap();

    // 2. Setup liquidity - mint tokens to the pool address.
    token.mint(pool_address, 10000).unwrap();

    // 3. Request a loan.
    let loan_id = manager
        .request_loan(&mut registry, borrower, 1000, &auth)
        .unwrap();

    // 4. Verify loan is pending.
    let loan = manager.get_loan(loan_id).unwrap();
    assert_eq!(loan.status, LoanStatus::Pending);

    // 5. Admin approves the loan.
    manager.approve_loan(&mut token, loan_id, &auth).unwrap();

    // 6. Verify loan status is now Approved.
    let loan = manager.get_loan(loan_id).unwrap();
    assert_eq!(loan.status, LoanStatus::Approved);

    // 7. Verify borrower received the funds.
    let borrower_balance = token.balance(borrower);
    assert_eq!(borrower_balance, 1000);
}

#[test]
fn test_repayment_flow() {
    let (mut manager, mut registry, _token, _pool, _admin) = setup_test();
    let borrower: u64 = 9;
    let auth = Auth::everyone();

    // 1. Borrower starts with a score of 600.
    let history_hash = [0u8; 32];
    registry.mint(borrower, 600, history_hash, None, &auth).unwrap();
    assert_eq!(registry.get_score(borrower), 600);

    // 2. Repayment triggers update_score.
    manager.repay(&mut registry, borrower, 500, &auth).unwrap();

    // 3. Verify the underlying score was correctly incremented.
    assert_eq!(registry.get_score(borrower), 605);
}

#[test]
fn test_small_repayment_does_not_change_score() {
    let (mut manager, mut registry, _token, _pool, _admin) = setup_test();
    let borrower: u64 = 9;
    let auth = Auth::everyone();

    let history_hash = [0u8; 32];
    registry.mint(borrower, 600, history_hash, None, &auth).unwrap();
    assert_eq!(registry.get_score(borrower), 600);

    manager.repay(&mut registry, borrower, 99, &auth).unwrap();

    assert_eq!(registry.get_score(borrower), 600);
}

#[test]
fn test_access_controls_unauthorized_repay() {
    let (mut manager, mut registry, _token, _pool, _admin) = setup_test();
    let borrower: u64 = 9;

    // No signatures are proven for this invocation.
    let no_auth = Auth::none();
    let r = manager.repay(&mut registry, borrower, 500, &no_auth);
    assert_eq!(r, Err(Error::NotAuthorized));
}

#[test]
fn test_approve_nonexistent_loan() {
    let (mut manager, _registry, mut token, _pool, _admin) = setup_test();
    let auth = Auth::everyone();

    // Try to approve a loan that doesn't exist.
    let r = manager.approve_loan(&mut token, 999, &auth);
    assert_eq!(r, Err(Error::LoanNotFound));
}

#[test]
fn test_approve_already_approved_loan() {
    let (mut manager, mut registry, mut token, pool_address, _admin) = setup_test();
    let borrower: u64 = 9;
    let auth = Auth::everyone();

    // Setup.
    let history_hash = [0u8; 32];
    registry.mint(borrower, 600, history_hash, None, &auth).unwrap();
    token.mint(pool_address, 10000).unwrap();

    // Request and approve loan.
    let loan_id = manager
        .request_loan(&mut registry, borrower, 1000, &auth)
        .unwrap();
    manager.approve_loan(&mut token, loan_id, &auth).unwrap();

    // Try to approve again - should fail.
    let r = manager.approve_loan(&mut token, loan_id, &auth);
    assert_eq!(r, Err(Error::LoanNotPending));
}

#[test]
fn test_request_loan_negative_amount() {
    let (mut manager, mut registry, _token, _pool, _admin) = setup_test();
    let borrower: u64 = 9;
    let auth = Auth::everyone();

    let history_hash = [0u8; 32];
    registry.mint(borrower, 600, history_hash, None, &auth).unwrap();

    // Try to request loan with negative amount.
    let r = manager.request_loan(&mut registry, borrower, -1000, &auth);
    assert_eq!(r, Err(Error::AmountNotPositive));
}

#[test]
fn test_loan_ids_increase_from_one() {
    let (mut manager, mut registry, _token, _pool, _admin) = setup_test();
    let auth = Auth::everyone();

    let first: u64 = 9;
    let second: u64 = 10;
    registry.mint(first, 600, [0u8; 32], None, &auth).unwrap();
    registry.mint(second, 700, [0u8; 32], None, &auth).unwrap();

    let id1 = manager.request_loan(&mut registry, first, 100, &auth).unwrap();
    let id2 = manager.request_loan(&mut registry, second, 200, &auth).unwrap();
    let id3 = manager.request_loan(&mut registry, first, 300, &auth).unwrap();
    assert_eq!(id1, 1);
    assert_eq!(id2, 2);
    assert_eq!(id3, 3);
    assert_eq!(manager.get_loan(4), Err(Error::LoanNotFound));
    assert_eq!(manager.get_loan(0), Err(Error::LoanNotFound));
}

#[test]
fn test_request_loan_migrates_legacy_score() {
    let (mut manager, mut registry, _token, _pool, _admin) = setup_test();
    let borrower: u64 = 9;
    let auth = Auth::everyone();

    // A qualifying score stored in the legacy shape still gates the loan,
    // and requesting the loan migrates it.
    registry.set_legacy_score(borrower, 650).unwrap();
    let loan_id = manager
        .request_loan(&mut registry, borrower, 1000, &auth)
        .unwrap();
    assert_eq!(loan_id, 1);
    assert!(!registry.has_stored(credit_pipeline::registry::DataKey::Score(borrower)));
    assert_eq!(registry.get_score(borrower), 650);
}

#[test]
fn test_approve_fails_cleanly_without_liquidity() {
    let (mut manager, mut registry, mut token, _pool, _admin) = setup_test();
    let borrower: u64 = 9;
    let auth = Auth::everyone();

    registry.mint(borrower, 600, [0u8; 32], None, &auth).unwrap();
    let loan_id = manager
        .request_loan(&mut registry, borrower, 1000, &auth)
        .unwrap();

    // The pool address holds nothing, so the transfer cannot be made and the
    // loan must stay Pending.
    let r = manager.approve_loan(&mut token, loan_id, &auth);
    assert_eq!(r, Err(Error::InsufficientBalance));
    assert_eq!(manager.get_loan(loan_id).unwrap().status, LoanStatus::Pending);
    assert_eq!(token.balance(borrower), 0);
}

#[test]
fn test_repayment_below_initialization_threshold() {
    // A repayment that rounds to zero points skips the cross-ledger call
    // entirely, so it succeeds even on an uninitialized loan ledger.
    let mut manager = LoanManager::new();
    let mut registry = RemittanceNFT::new(2);
    let borrower: u64 = 9;
    let auth = Auth::everyone();

    manager.repay(&mut registry, borrower, 99, &auth).unwrap();
    let r = manager.repay(&mut registry, borrower, 100, &auth);
    assert_eq!(r, Err(Error::NotInitialized));
}

#[test]
fn test_loan_operations_record_events() {
    let (mut manager, mut registry, mut token, pool_address, _admin) = setup_test();
    let borrower: u64 = 9;
    let auth = Auth::everyone();

    registry.mint(borrower, 600, [0u8; 32], None, &auth).unwrap();
    token.mint(pool_address, 10000).unwrap();

    let loan_id = manager
        .request_loan(&mut registry, borrower, 1000, &auth)
        .unwrap();
    manager.approve_loan(&mut token, loan_id, &auth).unwrap();
    manager.repay(&mut registry, borrower, 500, &auth).unwrap();
    assert_eq!(manager.events().len(), 3);
}
