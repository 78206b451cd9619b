use vstd::prelude::*;

use crate::auth::Auth;
use crate::errors::Error;
use crate::kvmap::KvMap;

verus! {

broadcast use vstd::array::group_array_axioms;

/// A reputation record in the current storage shape: a score and a fixed-size
/// opaque digest summarizing off-chain history.
#[derive(Clone, Copy, Debug, PartialEq, Eq)]
pub struct RemittanceMetadata {
    pub score: u32,
    pub history_hash: [u8; 32],
}

/// The registry's persistent key space: current-shape records, legacy-shape
/// records kept only until they are migrated, and the minter-authorization
/// set.
#[derive(Clone, Copy, Debug, PartialEq, Eq)]
pub enum DataKey {
    Metadata(u64),
    Score(u64),
    AuthorizedMinter(u64),
}

/// The digest a migrated legacy record receives: all zeroes.
pub open spec fn default_hash() -> Seq<u8> {
    Seq::new(32, |i: int| 0u8)
}

/// The score points one repayment of `amount` is worth: one point per 100
/// units, rounded down.
pub open spec fn score_points(amount: i128) -> int {
    amount as int / 100
}

/// The all-zero digest.
fn default_history_hash() -> (h: [u8; 32])
    ensures
        h@ == default_hash(),
{
    let h = [0u8; 32];
    proof {
        assert(h@ =~= default_hash());
    }
    h
}

/// Whether two digests hold the same bytes.
fn hash_eq(a: &[u8; 32], b: &[u8; 32]) -> (r: bool)
    ensures
        r == (a@ == b@),
{
    let mut i: usize = 0;
    while i < 32
        invariant
            i <= 32,
            forall|j: int| 0 <= j < i ==> a@[j] == b@[j],
        decreases 32 - i,
    {
        if a[i] != b[i] {
            return false;
        }
        i += 1;
    }
    proof {
        assert(a@ =~= b@);
    }
    true
}

/// The reputation-score registry. It owns per-user records in two on-disk
/// shapes — a legacy shape holding a bare score and the current shape holding
/// score plus digest — and migrates legacy records to the current shape the
/// first time they are read or written. It also owns the set of minters the
/// admin has authorized.
pub struct RemittanceNFT {
    address: u64,
    admin: Option<u64>,
    minters: KvMap<bool>,
    metadata: KvMap<RemittanceMetadata>,
    legacy: KvMap<u32>,
}

impl RemittanceNFT {
    /// The address this registry is reachable under.
    pub closed spec fn spec_address(self) -> u64 {
        self.address
    }

    /// The configured admin, once initialized.
    pub closed spec fn admin_config(self) -> Option<u64> {
        self.admin
    }

    /// The minter-authorization records.
    pub closed spec fn minters_map(self) -> Map<u64, bool> {
        self.minters.as_map()
    }

    /// The current-shape records.
    pub closed spec fn meta_map(self) -> Map<u64, RemittanceMetadata> {
        self.metadata.as_map()
    }

    /// The legacy-shape records that have not been migrated yet.
    pub closed spec fn legacy_map(self) -> Map<u64, u32> {
        self.legacy.as_map()
    }

    /// Each backing store keeps one record per key.
    pub closed spec fn store_ok(self) -> bool {
        &&& self.minters.wf()
        &&& self.metadata.wf()
        &&& self.legacy.wf()
    }

    /// Which keys of the registry's persistent key space hold a record.
    pub open spec fn stores(self, key: DataKey) -> bool {
        match key {
            DataKey::Metadata(u) => self.meta_map().dom().contains(u),
            DataKey::Score(u) => self.legacy_map().dom().contains(u),
            DataKey::AuthorizedMinter(m) => self.minters_map().dom().contains(m),
        }
    }

    /// At most one of the two record shapes exists for any user.
    pub open spec fn wf(self) -> bool {
        &&& self.store_ok()
        &&& forall|u: u64|
            #![trigger self.meta_map().dom().contains(u), self.legacy_map().dom().contains(u)]
            !(self.meta_map().dom().contains(u) && self.legacy_map().dom().contains(u))
    }

    /// Whether the admin has been stored.
    pub open spec fn is_initialized(self) -> bool {
        self.admin_config().is_some()
    }

    /// The configured admin.
    pub open spec fn spec_admin(self) -> u64
        recommends
            self.is_initialized(),
    {
        self.admin_config().unwrap()
    }

    /// Whether `minter` is in the authorization set.
    pub open spec fn is_minter(self, minter: u64) -> bool {
        self.minters_map().dom().contains(minter)
    }

    /// Whether a record of either shape exists for `user`.
    pub open spec fn has_record(self, user: u64) -> bool {
        self.meta_map().dom().contains(user) || self.legacy_map().dom().contains(user)
    }

    /// The score a read observes for `user`: the current-shape record's, a
    /// not yet migrated legacy record's, or 0 without any record.
    pub open spec fn effective_score(self, user: u64) -> u32 {
        if self.meta_map().dom().contains(user) {
            self.meta_map()[user].score
        } else if self.legacy_map().dom().contains(user) {
            self.legacy_map()[user]
        } else {
            0u32
        }
    }

    /// The digest a read observes for `user`: the current-shape record's, or
    /// the default digest a legacy record migrates to.
    pub open spec fn effective_hash(self, user: u64) -> Seq<u8>
        recommends
            self.has_record(user),
    {
        if self.meta_map().dom().contains(user) {
            self.meta_map()[user].history_hash@
        } else {
            default_hash()
        }
    }

    /// The shared authorization rule: a supplied minter must prove it
    /// initiated the call and be in the authorization set; without one the
    /// configured admin must prove it initiated the call.
    pub open spec fn caller_ok(self, minter: Option<u64>, auth: Auth) -> bool {
        match minter {
            Some(m) => auth.allowed().contains(m) && self.is_minter(m),
            None => self.is_initialized() && auth.allowed().contains(self.spec_admin()),
        }
    }

    /// The error the shared authorization rule reports when it refuses.
    pub open spec fn require_admin_or_authorized_minter_err(
        self,
        minter: Option<u64>,
        auth: Auth,
    ) -> Result<(), Error>
        recommends
            !self.caller_ok(minter, auth),
    {
        match minter {
            Some(m) => if !auth.allowed().contains(m) {
                Err(Error::NotAuthorized)
            } else {
                Err(Error::MinterNotAuthorized)
            },
            None => if !self.is_initialized() {
                Err(Error::NotInitialized)
            } else {
                Err(Error::NotAuthorized)
            },
        }
    }

    /// How one observation of `user` migrates the registry: a legacy record
    /// moves to the current shape — same score, default digest — and the
    /// legacy key is deleted atomically with that write; without a legacy
    /// record both record stores stay as they were. Minters and admin are
    /// never touched.
    pub open spec fn migrated_at(pre: Self, post: Self, user: u64) -> bool {
        &&& post.spec_address() == pre.spec_address()
        &&& post.admin_config() == pre.admin_config()
        &&& post.minters_map() == pre.minters_map()
        &&& post.legacy_map() == pre.legacy_map().remove(user)
        &&& if pre.legacy_map().dom().contains(user) {
            &&& post.meta_map().dom() == pre.meta_map().dom().insert(user)
            &&& post.meta_map()[user].score == pre.legacy_map()[user]
            &&& post.meta_map()[user].history_hash@ == default_hash()
            &&& forall|v: u64|
                v != user && pre.meta_map().dom().contains(v) ==> #[trigger] post.meta_map()[v]
                    == pre.meta_map()[v]
        } else {
            post.meta_map() == pre.meta_map()
        }
    }

    /// A fresh, not yet initialized registry reachable under `address`.
    pub fn new(address: u64) -> (r: Self)
        ensures
            r.wf(),
            !r.is_initialized(),
            r.spec_address() == address,
            r.minters_map() == Map::<u64, bool>::empty(),
            r.meta_map() == Map::<u64, RemittanceMetadata>::empty(),
            r.legacy_map() == Map::<u64, u32>::empty(),
    {
        RemittanceNFT {
            address,
            admin: None,
            minters: KvMap::new(),
            metadata: KvMap::new(),
            legacy: KvMap::new(),
        }
    }

    /// The configured admin, or a failure before initialization.
    fn admin(&self) -> (r: Result<u64, Error>)
        ensures
            self.is_initialized() ==> r == Ok::<u64, Error>(self.spec_admin()),
            !self.is_initialized() ==> r == Err::<u64, Error>(Error::NotInitialized),
    {
        match self.admin {
            Some(a) => Ok(a),
            None => Err(Error::NotInitialized),
        }
    }

    /// Checks the shared authorization rule and reports how it failed.
    fn require_admin_or_authorized_minter(&self, minter: Option<u64>, auth: &Auth) -> (r: Result<
        (),
        Error,
    >)
        ensures
            r is Ok <==> self.caller_ok(minter, *auth),
            match minter {
                Some(m) => {
                    &&& !auth.allowed().contains(m) ==> r == Err::<(), Error>(Error::NotAuthorized)
                    &&& auth.allowed().contains(m) && !self.is_minter(m) ==> r == Err::<(), Error>(
                        Error::MinterNotAuthorized,
                    )
                },
                None => {
                    &&& !self.is_initialized() ==> r == Err::<(), Error>(Error::NotInitialized)
                    &&& self.is_initialized() && !auth.allowed().contains(self.spec_admin()) ==> r
                        == Err::<(), Error>(Error::NotAuthorized)
                },
            },
    {
        match minter {
            Some(m) => {
                if !auth.allows(m) {
                    return Err(Error::NotAuthorized);
                }
                if !self.minters.contains(m) {
                    return Err(Error::MinterNotAuthorized);
                }
                Ok(())
            },
            None => {
                let a = match self.admin() {
                    Ok(a) => a,
                    Err(e) => {
                        return Err(e);
                    },
                };
                if !auth.allows(a) {
                    return Err(Error::NotAuthorized);
                }
                Ok(())
            },
        }
    }

    /// Stores the admin, exactly once, and implicitly authorizes it as a
    /// minter.
    pub fn initialize(&mut self, admin: u64) -> (r: Result<(), Error>)
        requires
            old(self).wf(),
        ensures
            final(self).wf(),
            r is Ok <==> !old(self).is_initialized(),
            r is Err ==> r == Err::<(), Error>(Error::AlreadyInitialized) && *final(self) == *old(self),
            r is Ok ==> final(self).admin_config() == Some(admin),
            r is Ok ==> final(self).minters_map() == old(self).minters_map().insert(admin, true),
            final(self).spec_address() == old(self).spec_address(),
            final(self).meta_map() == old(self).meta_map(),
            final(self).legacy_map() == old(self).legacy_map(),
    {
        if self.admin.is_some() {
            return Err(Error::AlreadyInitialized);
        }
        self.admin = Some(admin);
        self.minters.set(admin, true);
        proof {
            assert forall|u: u64|
                !(#[trigger] self.meta_map().dom().contains(u) && #[trigger] self.legacy_map().dom().contains(u)) by {
                assert(!(old(self).meta_map().dom().contains(u) && old(self).legacy_map().dom().contains(u)));
            }
        }
        Ok(())
    }

    /// Adds `minter` to the authorization set; authorizing twice is not an
    /// error. Admin authorization required.
    pub fn authorize_minter(&mut self, minter: u64, auth: &Auth) -> (r: Result<(), Error>)
        requires
            old(self).wf(),
        ensures
            final(self).wf(),
            r is Ok <==> old(self).is_initialized() && auth.allowed().contains(
                old(self).spec_admin(),
            ),
            !old(self).is_initialized() ==> r == Err::<(), Error>(Error::NotInitialized),
            old(self).is_initialized() && !auth.allowed().contains(old(self).spec_admin()) ==> r
                == Err::<(), Error>(Error::NotAuthorized),
            r is Ok ==> final(self).minters_map() == old(self).minters_map().insert(minter, true),
            r is Ok ==> final(self).spec_address() == old(self).spec_address() && final(self).admin_config() == old(self).admin_config() && final(self).meta_map() == old(self).meta_map() && final(self).legacy_map() == old(self).legacy_map(),
            r is Err ==> *final(self) == *old(self),
    {
        let a = match self.admin() {
            Ok(a) => a,
            Err(e) => {
                return Err(e);
            },
        };
        if !auth.allows(a) {
            return Err(Error::NotAuthorized);
        }
        self.minters.set(minter, true);
        proof {
            assert forall|u: u64|
                !(#[trigger] self.meta_map().dom().contains(u) && #[trigger] self.legacy_map().dom().contains(u)) by {
                assert(!(old(self).meta_map().dom().contains(u) && old(self).legacy_map().dom().contains(u)));
            }
        }
        Ok(())
    }

    /// Removes `minter` from the authorization set; revoking a non-member is
    /// not an error. Admin authorization required.
    pub fn revoke_minter(&mut self, minter: u64, auth: &Auth) -> (r: Result<(), Error>)
        requires
            old(self).wf(),
        ensures
            final(self).wf(),
            r is Ok <==> old(self).is_initialized() && auth.allowed().contains(
                old(self).spec_admin(),
            ),
            !old(self).is_initialized() ==> r == Err::<(), Error>(Error::NotInitialized),
            old(self).is_initialized() && !auth.allowed().contains(old(self).spec_admin()) ==> r
                == Err::<(), Error>(Error::NotAuthorized),
            r is Ok ==> final(self).minters_map() == old(self).minters_map().remove(minter),
            r is Ok ==> final(self).spec_address() == old(self).spec_address() && final(self).admin_config() == old(self).admin_config() && final(self).meta_map() == old(self).meta_map() && final(self).legacy_map() == old(self).legacy_map(),
            r is Err ==> *final(self) == *old(self),
    {
        let a = match self.admin() {
            Ok(a) => a,
            Err(e) => {
                return Err(e);
            },
        };
        if !auth.allows(a) {
            return Err(Error::NotAuthorized);
        }
        self.minters.remove(minter);
        proof {
            assert forall|u: u64|
                !(#[trigger] self.meta_map().dom().contains(u) && #[trigger] self.legacy_map().dom().contains(u)) by {
                assert(!(old(self).meta_map().dom().contains(u) && old(self).legacy_map().dom().contains(u)));
            }
        }
        Ok(())
    }

    /// Whether `minter` is in the authorization set. Read-only.
    pub fn is_authorized_minter(&self, minter: u64) -> (r: bool)
        ensures
            r == self.is_minter(minter),
    {
        self.minters.contains(minter)
    }

    /// Whether the given key of the persistent key space holds a record.
    /// Read-only: in particular it never migrates.
    pub fn has_stored(&self, key: DataKey) -> (r: bool)
        ensures
            r == self.stores(key),
    {
        match key {
            DataKey::Metadata(u) => self.metadata.contains(u),
            DataKey::Score(u) => self.legacy.contains(u),
            DataKey::AuthorizedMinter(m) => self.minters.contains(m),
        }
    }

    /// Writes a record in the superseded storage shape, exactly as a
    /// deployment of the previous schema version would have left it. The
    /// registry itself only ever migrates such records away; this exists so
    /// that a pre-migration state can be set up. Fails if any record already
    /// exists for `user`.
    pub fn set_legacy_score(&mut self, user: u64, score: u32) -> (r: Result<(), Error>)
        requires
            old(self).wf(),
        ensures
            final(self).wf(),
            r is Ok <==> !old(self).has_record(user),
            r is Err ==> r == Err::<(), Error>(Error::AlreadyMinted) && *final(self) == *old(self),
            r is Ok ==> final(self).legacy_map() == old(self).legacy_map().insert(user, score),
            r is Ok ==> final(self).spec_address() == old(self).spec_address() && final(self).admin_config() == old(self).admin_config() && final(self).minters_map() == old(self).minters_map() && final(self).meta_map() == old(self).meta_map(),
    {
        if self.metadata.contains(user) || self.legacy.contains(user) {
            return Err(Error::AlreadyMinted);
        }
        let ghost pre = *self;
        self.legacy.set(user, score);
        proof {
            assert forall|u: u64|
                !(#[trigger] self.meta_map().dom().contains(u) && #[trigger] self.legacy_map().dom().contains(
                    u,
                )) by {
                if u != user {
                    assert(!(pre.meta_map().dom().contains(u) && pre.legacy_map().dom().contains(
                        u,
                    )));
                }
            }
        }
        Ok(())
    }

    /// The current-shape record for `user`, migrating a legacy record in
    /// place if one is found: the migrated record keeps the legacy score and
    /// receives the default digest, and the legacy key is removed atomically
    /// with the write.
    fn get_or_migrate_metadata(&mut self, user: u64) -> (r: Option<RemittanceMetadata>)
        requires
            old(self).wf(),
        ensures
            final(self).wf(),
            Self::migrated_at(*old(self), *final(self), user),
            old(self).meta_map().dom().contains(user) ==> r == Some(old(self).meta_map()[user])
                && *final(self) == *old(self),
            !old(self).has_record(user) ==> r is None && *final(self) == *old(self),
            old(self).has_record(user) ==> r is Some && r.unwrap() == final(self).meta_map()[user]
                && final(self).meta_map().dom().contains(user),
            r is Some ==> r.unwrap().score == old(self).effective_score(user)
                && r.unwrap().history_hash@ == old(self).effective_hash(user),
    {
        match self.metadata.get(user) {
            Some(m) => {
                proof {
                    assert(self.meta_map().dom().contains(user));
                    assert(!self.legacy_map().dom().contains(user));
                    assert(self.legacy_map().remove(user) =~= self.legacy_map());
                }
                return Some(m);
            },
            None => {},
        }
        match self.legacy.get(user) {
            Some(score) => {
                let ghost pre = *self;
                let migrated = RemittanceMetadata { score, history_hash: default_history_hash() };
                self.metadata.set(user, migrated);
                self.legacy.remove(user);
                proof {
                    assert(self.meta_map().dom() =~= pre.meta_map().dom().insert(user));
                    assert forall|u: u64|
                        !(#[trigger] self.meta_map().dom().contains(u)
                            && #[trigger] self.legacy_map().dom().contains(u)) by {
                        if u != user {
                            assert(!(pre.meta_map().dom().contains(u)
                                && pre.legacy_map().dom().contains(u)));
                        }
                    }
                }
                Some(migrated)
            },
            None => {
                proof {
                    assert(self.legacy_map().remove(user) =~= self.legacy_map());
                }
                None
            },
        }
    }

    /// The record a read observes for `user` — what `get_or_migrate_metadata`
    /// would return — without committing the migration.
    fn peek_record(&self, user: u64) -> (r: Option<RemittanceMetadata>)
        requires
            self.wf(),
        ensures
            r is Some <==> self.has_record(user),
            r is Some ==> r.unwrap().score == self.effective_score(user)
                && r.unwrap().history_hash@ == self.effective_hash(user),
    {
        match self.metadata.get(user) {
            Some(m) => Some(m),
            None => {
                match self.legacy.get(user) {
                    Some(score) => Some(
                        RemittanceMetadata { score, history_hash: default_history_hash() },
                    ),
                    None => None,
                }
            },
        }
    }

    /// The score a read would observe for `user`, without committing the
    /// migration that an observation performs.
    pub(crate) fn current_score(&self, user: u64) -> (s: u32)
        requires
            self.wf(),
        ensures
            s == self.effective_score(user),
    {
        match self.peek_record(user) {
            Some(rec) => rec.score,
            None => 0,
        }
    }

    /// Creates a current-shape record for `user`. Fails if a record of either
    /// shape already exists. Caller resolution follows the shared rule.
    pub fn mint(
        &mut self,
        user: u64,
        initial_score: u32,
        history_hash: [u8; 32],
        minter: Option<u64>,
        auth: &Auth,
    ) -> (r: Result<(), Error>)
        requires
            old(self).wf(),
        ensures
            final(self).wf(),
            r is Ok <==> old(self).caller_ok(minter, *auth) && !old(self).has_record(user),
            !old(self).caller_ok(minter, *auth) ==> r == old(self).require_admin_or_authorized_minter_err(minter, *auth),
            old(self).caller_ok(minter, *auth) && old(self).has_record(user) ==> r == Err::<
                (),
                Error,
            >(Error::AlreadyMinted),
            r is Ok ==> final(self).meta_map() == old(self).meta_map().insert(
                user,
                (RemittanceMetadata { score: initial_score, history_hash }),
            ),
            r is Ok ==> final(self).spec_address() == old(self).spec_address() && final(self).admin_config() == old(self).admin_config() && final(self).minters_map() == old(self).minters_map() && final(self).legacy_map() == old(self).legacy_map(),
            r is Err ==> *final(self) == *old(self),
    {
        match self.require_admin_or_authorized_minter(minter, auth) {
            Ok(()) => {},
            Err(e) => {
                return Err(e);
            },
        }
        if self.metadata.contains(user) || self.legacy.contains(user) {
            return Err(Error::AlreadyMinted);
        }
        let ghost pre = *self;
        self.metadata.set(user, RemittanceMetadata { score: initial_score, history_hash });
        proof {
            assert forall|u: u64|
                !(#[trigger] self.meta_map().dom().contains(u) && #[trigger] self.legacy_map().dom().contains(
                    u,
                )) by {
                if u != user {
                    assert(!(pre.meta_map().dom().contains(u) && pre.legacy_map().dom().contains(
                        u,
                    )));
                }
            }
        }
        Ok(())
    }

    /// The current-shape record for `user`, or nothing when no record of
    /// either shape exists. Observing a legacy record migrates it.
    pub fn get_metadata(&mut self, user: u64) -> (r: Option<RemittanceMetadata>)
        requires
            old(self).wf(),
        ensures
            final(self).wf(),
            Self::migrated_at(*old(self), *final(self), user),
            r is Some <==> old(self).has_record(user),
            r is Some ==> r.unwrap().score == old(self).effective_score(user)
                && r.unwrap().history_hash@ == old(self).effective_hash(user),
            old(self).meta_map().dom().contains(user) ==> r == Some(old(self).meta_map()[user])
                && *final(self) == *old(self),
            !old(self).has_record(user) ==> *final(self) == *old(self),
    {
        self.get_or_migrate_metadata(user)
    }

    /// The score observed for `user`, or 0 without a record. Observing a
    /// legacy record migrates it.
    pub fn get_score(&mut self, user: u64) -> (r: u32)
        requires
            old(self).wf(),
        ensures
            final(self).wf(),
            Self::migrated_at(*old(self), *final(self), user),
            r == old(self).effective_score(user),
            !old(self).legacy_map().dom().contains(user) ==> *final(self) == *old(self),
    {
        match self.get_or_migrate_metadata(user) {
            Some(m) => m.score,
            None => 0,
        }
    }

    /// Every precondition of a successful score update.
    pub open spec fn update_score_ok(
        self,
        user: u64,
        repayment_amount: i128,
        minter: Option<u64>,
        auth: Auth,
    ) -> bool {
        &&& 0 < repayment_amount
        &&& self.caller_ok(minter, auth)
        &&& self.has_record(user)
        &&& (score_points(repayment_amount) == 0 || self.effective_score(user) + score_points(
            repayment_amount,
        ) <= u32::MAX)
    }

    /// Credits a repayment to `user`'s score: one point per 100 units,
    /// rounded down, added with overflow-checked addition. A repayment worth
    /// zero points is a deliberate no-op that writes no record — though a
    /// legacy record observed on the way is still migrated. Caller resolution
    /// follows the shared rule.
    pub fn update_score(
        &mut self,
        user: u64,
        repayment_amount: i128,
        minter: Option<u64>,
        auth: &Auth,
    ) -> (r: Result<(), Error>)
        requires
            old(self).wf(),
        ensures
            final(self).wf(),
            r is Ok <==> old(self).update_score_ok(user, repayment_amount, minter, *auth),
            repayment_amount <= 0 ==> r == Err::<(), Error>(Error::AmountNotPositive),
            0 < repayment_amount && !old(self).caller_ok(minter, *auth) ==> r == old(self).require_admin_or_authorized_minter_err(minter, *auth),
            0 < repayment_amount && old(self).caller_ok(minter, *auth) && !old(self).has_record(
                user,
            ) ==> r == Err::<(), Error>(Error::NoRecord),
            0 < repayment_amount && old(self).caller_ok(minter, *auth) && old(self).has_record(
                user,
            ) && score_points(repayment_amount) != 0 && old(self).effective_score(user)
                + score_points(repayment_amount) > u32::MAX ==> r == Err::<(), Error>(
                Error::ScoreOverflow,
            ),
            r is Ok && score_points(repayment_amount) == 0 ==> Self::migrated_at(
                *old(self),
                *final(self),
                user,
            ),
            r is Ok && score_points(repayment_amount) != 0 ==> final(self).meta_map().dom()
                == old(self).meta_map().dom().insert(user) && final(self).meta_map()[user].score
                == old(self).effective_score(user) + score_points(repayment_amount) && final(self).meta_map()[user].history_hash@ == old(self).effective_hash(user) && (forall|v: u64|
                v != user && old(self).meta_map().dom().contains(v) ==> #[trigger] final(self).meta_map()[v] == old(self).meta_map()[v]) && final(self).legacy_map() == old(self).legacy_map().remove(user),
            r is Ok ==> final(self).effective_score(user) == old(self).effective_score(user)
                + score_points(repayment_amount),
            r is Ok ==> final(self).spec_address() == old(self).spec_address() && final(self).admin_config() == old(self).admin_config() && final(self).minters_map() == old(self).minters_map(),
            r is Err ==> *final(self) == *old(self),
    {
        if repayment_amount <= 0 {
            return Err(Error::AmountNotPositive);
        }
        match self.require_admin_or_authorized_minter(minter, auth) {
            Ok(()) => {},
            Err(e) => {
                return Err(e);
            },
        }
        let current = match self.peek_record(user) {
            Some(rec) => rec,
            None => {
                return Err(Error::NoRecord);
            },
        };
        let points_wide: u128 = (repayment_amount as u128) / 100;
        if points_wide == 0 {
            let _ = self.get_or_migrate_metadata(user);
            return Ok(());
        }
        if points_wide > u32::MAX as u128 {
            return Err(Error::ScoreOverflow);
        }
        let points: u32 = points_wide as u32;
        let new_score = match current.score.checked_add(points) {
            Some(s) => s,
            None => {
                return Err(Error::ScoreOverflow);
            },
        };
        let ghost pre = *self;
        self.metadata.set(
            user,
            RemittanceMetadata { score: new_score, history_hash: current.history_hash },
        );
        self.legacy.remove(user);
        proof {
            assert(self.meta_map().dom() =~= pre.meta_map().dom().insert(user));
            assert forall|u: u64|
                !(#[trigger] self.meta_map().dom().contains(u) && #[trigger] self.legacy_map().dom().contains(
                    u,
                )) by {
                if u != user {
                    assert(!(pre.meta_map().dom().contains(u) && pre.legacy_map().dom().contains(
                        u,
                    )));
                }
            }
        }
        Ok(())
    }

    /// Replaces `user`'s history digest; writing the digest already stored is
    /// a no-op — though a legacy record observed on the way is still
    /// migrated. Caller resolution follows the shared rule.
    pub fn update_history_hash(
        &mut self,
        user: u64,
        new_history_hash: [u8; 32],
        minter: Option<u64>,
        auth: &Auth,
    ) -> (r: Result<(), Error>)
        requires
            old(self).wf(),
        ensures
            final(self).wf(),
            r is Ok <==> old(self).caller_ok(minter, *auth) && old(self).has_record(user),
            !old(self).caller_ok(minter, *auth) ==> r == old(self).require_admin_or_authorized_minter_err(minter, *auth),
            old(self).caller_ok(minter, *auth) && !old(self).has_record(user) ==> r == Err::<
                (),
                Error,
            >(Error::NoRecord),
            r is Ok && old(self).effective_hash(user) == new_history_hash@ ==> Self::migrated_at(
                *old(self),
                *final(self),
                user,
            ),
            r is Ok && old(self).effective_hash(user) != new_history_hash@ ==> final(self).meta_map().dom() == old(self).meta_map().dom().insert(user) && final(self).meta_map()[user].score == old(self).effective_score(user) && final(self).meta_map()[user].history_hash == new_history_hash && (forall|v: u64|
                v != user && old(self).meta_map().dom().contains(v) ==> #[trigger] final(self).meta_map()[v] == old(self).meta_map()[v]) && final(self).legacy_map() == old(self).legacy_map().remove(user),
            r is Ok ==> final(self).effective_score(user) == old(self).effective_score(user)
                && final(self).effective_hash(user) == new_history_hash@,
            r is Ok ==> final(self).spec_address() == old(self).spec_address() && final(self).admin_config() == old(self).admin_config() && final(self).minters_map() == old(self).minters_map(),
            r is Err ==> *final(self) == *old(self),
    {
        match self.require_admin_or_authorized_minter(minter, auth) {
            Ok(()) => {},
            Err(e) => {
                return Err(e);
            },
        }
        let current = match self.peek_record(user) {
            Some(rec) => rec,
            None => {
                return Err(Error::NoRecord);
            },
        };
        if hash_eq(&current.history_hash, &new_history_hash) {
            let _ = self.get_or_migrate_metadata(user);
            return Ok(());
        }
        let ghost pre = *self;
        self.metadata.set(
            user,
            RemittanceMetadata { score: current.score, history_hash: new_history_hash },
        );
        self.legacy.remove(user);
        proof {
            assert(self.meta_map().dom() =~= pre.meta_map().dom().insert(user));
            assert forall|u: u64|
                !(#[trigger] self.meta_map().dom().contains(u) && #[trigger] self.legacy_map().dom().contains(
                    u,
                )) by {
                if u != user {
                    assert(!(pre.meta_map().dom().contains(u) && pre.legacy_map().dom().contains(
                        u,
                    )));
                }
            }
        }
        Ok(())
    }
}

} // verus!
