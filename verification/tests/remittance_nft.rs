use credit_pipeline::auth::Auth;
use credit_pipeline::errors::Error;
use credit_pipeline::registry::DataKey;
use credit_pipeline::registry::RemittanceNFT;

fn create_test_hash(value: u8) -> [u8; 32] {
    let mut hash_bytes = [0u8; 32];
    hash_bytes[0] = value;
    hash_bytes
}

fn setup_registry() -> (RemittanceNFT, u64, Auth) {
    let admin: u64 = 1;
    let mut registry = RemittanceNFT::new(2);
    registry.initialize(admin).unwrap();
    (registry, admin, Auth::everyone())
}

#[test]
fn test_score_lifecycle() {
    let (mut registry, _admin, auth) = setup_registry();
    let user: u64 = 10;

    let history_hash = create_test_hash(1);

    // Initial mint (admin mints, so minter is None).
    registry.mint(user, 500, history_hash, None, &auth).unwrap();
    assert_eq!(registry.get_score(user), 500);

    // Check metadata.
    let metadata = registry.get_metadata(user).unwrap();
    assert_eq!(metadata.score, 500);
    assert_eq!(metadata.history_hash, history_hash);

    // Update score (repayment of 250 -> 2 points) - admin updates.
    registry.update_score(user, 250, None, &auth).unwrap();
    assert_eq!(registry.get_score(user), 502);

    // Verify metadata updated.
    let metadata = registry.get_metadata(user).unwrap();
    assert_eq!(metadata.score, 502);

    // Update score (repayment of 1000 -> 10 points) - admin updates.
    registry.update_score(user, 1000, None, &auth).unwrap();
    assert_eq!(registry.get_score(user), 512);

    // Verify metadata updated.
    let metadata = registry.get_metadata(user).unwrap();
    assert_eq!(metadata.score, 512);

    // Unregistered user should have 0 score.
    let stranger: u64 = 77;
    assert_eq!(registry.get_score(stranger), 0);
    assert!(registry.get_metadata(stranger).is_none());
}

#[test]
fn test_history_hash_update() {
    let (mut registry, _admin, auth) = setup_registry();
    let user: u64 = 10;

    let initial_hash = create_test_hash(1);
    registry.mint(user, 500, initial_hash, None, &auth).unwrap();

    let metadata = registry.get_metadata(user).unwrap();
    assert_eq!(metadata.history_hash, initial_hash);

    // Update history hash - admin updates.
    let new_hash = create_test_hash(2);
    registry
        .update_history_hash(user, new_hash, None, &auth)
        .unwrap();

    let metadata = registry.get_metadata(user).unwrap();
    assert_eq!(metadata.history_hash, new_hash);
    assert_eq!(metadata.score, 500); // Score should remain unchanged.
}

#[test]
fn test_authorized_minter() {
    let (mut registry, admin, auth) = setup_registry();
    let authorized_contract: u64 = 20;

    // Admin should be authorized by default.
    assert!(registry.is_authorized_minter(admin));

    // Authorize a contract.
    registry.authorize_minter(authorized_contract, &auth).unwrap();
    assert!(registry.is_authorized_minter(authorized_contract));

    // Revoke authorization.
    registry.revoke_minter(authorized_contract, &auth).unwrap();
    assert!(!registry.is_authorized_minter(authorized_contract));
}

#[test]
fn test_not_initialized() {
    let mut registry = RemittanceNFT::new(2);
    let user: u64 = 10;
    let auth = Auth::everyone();

    let history_hash = create_test_hash(1);
    let r = registry.mint(user, 500, history_hash, None, &auth);
    assert_eq!(r, Err(Error::NotInitialized));
}

#[test]
fn test_already_initialized() {
    let (mut registry, admin, _auth) = setup_registry();
    let r = registry.initialize(admin);
    assert_eq!(r, Err(Error::AlreadyInitialized));
}

#[test]
fn test_duplicate_mint() {
    let (mut registry, _admin, auth) = setup_registry();
    let user: u64 = 10;

    let history_hash = create_test_hash(1);
    registry.mint(user, 500, history_hash, None, &auth).unwrap();

    // Try to mint again for the same user.
    let history_hash2 = create_test_hash(2);
    let r = registry.mint(user, 600, history_hash2, None, &auth);
    assert_eq!(r, Err(Error::AlreadyMinted));
}

#[test]
fn test_update_score_without_nft() {
    let (mut registry, _admin, auth) = setup_registry();
    let user: u64 = 10;

    // Try to update score for user without a record.
    let r = registry.update_score(user, 100, None, &auth);
    assert_eq!(r, Err(Error::NoRecord));
}

#[test]
fn test_backward_compatibility_migration() {
    let (mut registry, _admin, auth) = setup_registry();
    let user: u64 = 10;

    // A record left behind by the previous schema version.
    registry.set_legacy_score(user, 750).unwrap();

    // get_score should migrate and return the score.
    assert_eq!(registry.get_score(user), 750);

    // get_metadata should return migrated metadata with default hash.
    let metadata = registry.get_metadata(user).unwrap();
    assert_eq!(metadata.score, 750);
    // Verify default hash (all zeros).
    let expected_default_hash = [0u8; 32];
    assert_eq!(metadata.history_hash, expected_default_hash);

    // Verify old Score key is removed after migration.
    assert!(!registry.has_stored(DataKey::Score(user)));

    // Verify Metadata key exists after migration.
    assert!(registry.has_stored(DataKey::Metadata(user)));

    // Update score should work on migrated data.
    registry.update_score(user, 500, None, &auth).unwrap();
    assert_eq!(registry.get_score(user), 755); // 750 + 5 points (500/100).

    // Verify metadata still exists and is updated.
    let updated_metadata = registry.get_metadata(user).unwrap();
    assert_eq!(updated_metadata.score, 755);
}

#[test]
fn test_update_score_migrates_legacy_data() {
    let (mut registry, _admin, auth) = setup_registry();
    let user: u64 = 10;

    // Simulate legacy score data.
    registry.set_legacy_score(user, 600).unwrap();

    // update_score should migrate legacy data and then update.
    registry.update_score(user, 200, None, &auth).unwrap();

    // Score should be 602 (600 + 2 points from 200/100).
    assert_eq!(registry.get_score(user), 602);

    // Verify migration happened.
    assert!(registry.has_stored(DataKey::Metadata(user)));
    assert!(!registry.has_stored(DataKey::Score(user)));

    let metadata = registry.get_metadata(user).unwrap();
    assert_eq!(metadata.score, 602);
}

#[test]
fn test_small_repayment_does_not_write_score_change() {
    let (mut registry, _admin, auth) = setup_registry();
    let user: u64 = 10;

    let history_hash = create_test_hash(1);
    registry.mint(user, 500, history_hash, None, &auth).unwrap();

    registry.update_score(user, 99, None, &auth).unwrap();
    assert_eq!(registry.get_score(user), 500);
}

#[test]
fn test_update_score_rejects_non_positive_repayment() {
    let (mut registry, _admin, auth) = setup_registry();
    let user: u64 = 10;

    let history_hash = create_test_hash(1);
    registry.mint(user, 500, history_hash, None, &auth).unwrap();

    let r = registry.update_score(user, 0, None, &auth);
    assert_eq!(r, Err(Error::AmountNotPositive));
}

#[test]
fn test_update_history_hash_migrates_legacy_data() {
    let (mut registry, _admin, auth) = setup_registry();
    let user: u64 = 10;

    // Simulate legacy score data.
    registry.set_legacy_score(user, 800).unwrap();

    // update_history_hash should migrate legacy data first.
    let new_hash = create_test_hash(42);
    registry
        .update_history_hash(user, new_hash, None, &auth)
        .unwrap();

    // Verify migration and update.
    let metadata = registry.get_metadata(user).unwrap();
    assert_eq!(metadata.score, 800); // Score preserved.
    assert_eq!(metadata.history_hash, new_hash); // Hash updated.

    // Verify old data is gone.
    assert!(!registry.has_stored(DataKey::Score(user)));
}

#[test]
fn test_mint_rejected_over_legacy_record() {
    let (mut registry, _admin, auth) = setup_registry();
    let user: u64 = 10;

    // A legacy-shape record alone already counts as "user has a record".
    registry.set_legacy_score(user, 300).unwrap();
    let r = registry.mint(user, 500, create_test_hash(1), None, &auth);
    assert_eq!(r, Err(Error::AlreadyMinted));

    // And a second legacy write is rejected the same way.
    assert_eq!(registry.set_legacy_score(user, 301), Err(Error::AlreadyMinted));
}

#[test]
fn test_delegated_minter_channel() {
    let (mut registry, _admin, admin_auth) = setup_registry();
    let minter: u64 = 20;
    let user: u64 = 10;

    // An unauthorized delegate is refused even with a proven signature.
    let minter_auth = Auth::signers(vec![minter]);
    let r = registry.mint(user, 500, create_test_hash(1), Some(minter), &minter_auth);
    assert_eq!(r, Err(Error::MinterNotAuthorized));

    // A delegate that never proved it initiated the call is refused first.
    let r = registry.mint(user, 500, create_test_hash(1), Some(minter), &Auth::none());
    assert_eq!(r, Err(Error::NotAuthorized));

    // Once authorized and proven, the delegate can mint.
    registry.authorize_minter(minter, &admin_auth).unwrap();
    registry
        .mint(user, 500, create_test_hash(1), Some(minter), &minter_auth)
        .unwrap();
    assert_eq!(registry.get_score(user), 500);
}

#[test]
fn test_score_overflow_rejected() {
    let (mut registry, _admin, auth) = setup_registry();
    let user: u64 = 10;

    registry.mint(user, u32::MAX, create_test_hash(1), None, &auth).unwrap();
    let r = registry.update_score(user, 100, None, &auth);
    assert_eq!(r, Err(Error::ScoreOverflow));
    assert_eq!(registry.get_score(user), u32::MAX);
}

#[test]
fn test_exact_points_per_hundred_units() {
    let (mut registry, _admin, auth) = setup_registry();
    let user: u64 = 10;

    registry.mint(user, 500, create_test_hash(1), None, &auth).unwrap();

    // 99 units round down to zero points: the score does not move.
    registry.update_score(user, 99, None, &auth).unwrap();
    assert_eq!(registry.get_score(user), 500);

    // 100 units are worth exactly one point.
    registry.update_score(user, 100, None, &auth).unwrap();
    assert_eq!(registry.get_score(user), 501);

    // 199 units are still worth exactly one point.
    registry.update_score(user, 199, None, &auth).unwrap();
    assert_eq!(registry.get_score(user), 502);
}

#[test]
fn test_unchanged_history_hash_is_no_op() {
    let (mut registry, _admin, auth) = setup_registry();
    let user: u64 = 10;

    let hash = create_test_hash(7);
    registry.mint(user, 500, hash, None, &auth).unwrap();
    registry.update_history_hash(user, hash, None, &auth).unwrap();
    let metadata = registry.get_metadata(user).unwrap();
    assert_eq!(metadata.history_hash, hash);
    assert_eq!(metadata.score, 500);
}
