//! Merkle-root reward campaigns with exactly-once claims.
//!
//! An owner registers time-bounded reward campaigns, each summarized by a
//! single Keccak-256 Merkle root over a set of eligible payouts. A claimant
//! redeems a payout at most once by presenting an ordered Merkle proof; the
//! combine step is commutative (the smaller operand is hashed first), so the
//! proof carries no left/right position bits. The contract state also gates
//! owner-only administration and enforces a minimum retained reserve on
//! withdrawals.
//!
//! The host-provided facts (who is calling, the current block time, the
//! attached deposit, the account balance) enter every operation as plain
//! arguments, and requested transfers leave as plain return values, so the
//! whole state machine is verified; only the Keccak-256 primitive is trusted.
use vstd::prelude::*;
use vstd::string::StringExecFns;

mod config;
mod hash;
mod laws;
mod merkle;
mod storage;

pub use config::Config;
pub use hash::keccak256_of;
pub use laws::{
    lemma_claim_exactly_once, lemma_deadline_boundary, lemma_evolves_transitive,
    lemma_monotonic_ids, lemma_non_owner_rejected, lemma_reserve_floor,
};
pub use merkle::{
    claim_key_of, combine, digest_seqs, encode_leaf_input, le_bytes, leaf_of,
    lemma_claim_key_input_unambiguous, lemma_encoding_unambiguous, lemma_included_leaf_verifies,
    lemma_leaf_input_unambiguous, lex_less, pow256, proof_verifies, root_from,
};

verus! {

/// Raw type for balance in yocto NEAR.
pub type Balance = u128;

/// Raw type for the unique identifier of a campaign.
pub type CampaignId = u32;

/// One registered reward distribution window. Never mutated or deleted after
/// creation.
#[derive(Debug, Clone, Copy)]
pub struct RewardCampaign {
    /// The unique identifier of the campaign, assigned sequentially from 1.
    pub id: CampaignId,
    /// The timestamp at which the claim period started.
    pub claim_start: u64,
    /// The timestamp at which the claim period has concluded.
    pub claim_end: u64,
    /// The Merkle root of the tree of eligible payouts.
    pub merkle_root: [u8; 32],
}

/// The whole contract state: configuration, the claim set, the campaign
/// collection keyed by sequential id, and the id counter.
#[derive(Debug)]
pub struct MerkleClaim {
    /// The immutable configuration.
    pub config: Config,
    /// The digests identifying the (campaign, claimant) pairs that have
    /// already redeemed their payout.
    pub claims: Vec<[u8; 32]>,
    /// The campaign with id `i + 1` is at index `i`.
    pub campaigns: Vec<RewardCampaign>,
    /// The last campaign id assigned, 0 if none yet.
    pub last_campaign_id: CampaignId,
}

/// Emitted when a campaign is registered.
#[derive(Debug)]
pub struct CampaignCreatedEvent {
    pub campaign_id: CampaignId,
    pub merkle_root: [u8; 32],
    pub claim_end: u64,
}

/// Emitted when a claim succeeds; the caller owes a transfer of `amount` to
/// `lockup_contract`.
#[derive(Debug)]
pub struct ClaimEvent {
    pub campaign_id: CampaignId,
    pub account_id: String,
    pub lockup_contract: String,
    pub amount: Balance,
}

/// Emitted when a withdrawal succeeds; the caller owes a transfer of
/// `withdrawn` to the owner, after which `balance` remains.
#[derive(Debug)]
pub struct WithdrawEvent {
    pub balance: Balance,
    pub withdrawn: Balance,
}

/// Reasons an operation rejects its inputs.
#[derive(Debug, Clone, Copy, PartialEq, Eq)]
pub enum ValidationError {
    /// A claim's amount was zero.
    ZeroAmount,
    /// The campaign id is not registered.
    UnknownCampaign,
    /// The (campaign, claimant) pair has already redeemed its payout.
    AlreadyClaimed,
    /// The Merkle proof supplied was empty.
    EmptyProof,
    /// The claim arrived at or after the campaign's deadline.
    CampaignExpired,
    /// A new campaign's deadline was not in the future.
    DeadlineNotInFuture,
    /// An attached deposit was below the minimum reserve.
    DepositBelowReserve,
}

/// Every way an operation can fail; each failure leaves the state unchanged.
#[derive(Debug, Clone, Copy, PartialEq, Eq)]
pub enum ContractError {
    /// The caller is not the configured owner.
    Authorization,
    /// An input was rejected; the payload says why.
    Validation(ValidationError),
    /// The leaf and proof do not resolve to the campaign's root.
    Proof,
    /// The campaign id counter is exhausted.
    Overflow,
    /// The remaining balance is required as the reserve.
    InsufficientReserve,
}

/// Compares two strings by their characters.
fn str_eq(a: &str, b: &str) -> (r: bool)
    ensures
        r == (a@ == b@),
{
    let sa = String::from_str(a);
    let sb = String::from_str(b);
    sa.eq(&sb)
}

/// Scans the claim set for a key.
fn claims_contain(claims: &Vec<[u8; 32]>, key: &[u8; 32]) -> (r: bool)
    ensures
        r == (exists|i: int|
            0 <= i < claims@.len() && (#[trigger] claims@[i])@ == key@),
{
    let mut i: usize = 0;
    while i < claims.len()
        invariant
            0 <= i <= claims@.len(),
            forall|j: int| 0 <= j < i ==> (#[trigger] claims@[j])@ != key@,
        decreases claims@.len() - i,
    {
        if merkle::digest_eq(&claims[i], key) {
            return true;
        }
        i = i + 1;
    }
    false
}

/// Pushing a digest onto the claim collection inserts exactly its key into
/// the claim set.
proof fn lemma_claim_keys_push(pre: MerkleClaim, post: MerkleClaim, d: [u8; 32])
    requires
        post.claims@ == pre.claims@.push(d),
    ensures
        post.claim_keys() == pre.claim_keys().insert(d@),
{
    assert forall|k: Seq<u8>| post.claim_keys().contains(k) implies pre.claim_keys().insert(
        d@,
    ).contains(k) by {
        let i = choose|i: int| 0 <= i < post.claims@.len() && (#[trigger] post.claims@[i])@ == k;
        if i < pre.claims@.len() {
            assert(pre.claims@[i]@ == k);
        }
    }
    assert forall|k: Seq<u8>| pre.claim_keys().insert(d@).contains(k) implies post.claim_keys()
        .contains(k) by {
        if k == d@ {
            assert(post.claims@[post.claims@.len() - 1]@ == k);
        } else {
            let i = choose|i: int| 0 <= i < pre.claims@.len() && (#[trigger] pre.claims@[i])@ == k;
            assert(post.claims@[i]@ == k);
        }
    }
    assert(post.claim_keys() =~= pre.claim_keys().insert(d@));
}

impl MerkleClaim {
    /// The set of claim keys recorded as already redeemed.
    pub open spec fn claim_keys(self) -> Set<Seq<u8>> {
        Set::new(
            |k: Seq<u8>|
                exists|i: int| 0 <= i < self.claims@.len() && (#[trigger] self.claims@[i])@ == k,
        )
    }

    /// Whether a campaign with this id is registered.
    pub open spec fn campaign_exists(self, campaign_id: CampaignId) -> bool {
        1 <= campaign_id <= self.campaigns@.len()
    }

    /// The registered campaign with this id.
    pub open spec fn spec_campaign(self, campaign_id: CampaignId) -> RewardCampaign {
        self.campaigns@[campaign_id - 1]
    }

    /// What `get_campaign` returns.
    pub open spec fn spec_get_campaign(self, campaign_id: CampaignId) -> Option<RewardCampaign> {
        if self.campaign_exists(campaign_id) {
            Some(self.spec_campaign(campaign_id))
        } else {
            None
        }
    }

    /// Whether the (campaign, claimant) pair has already redeemed its payout.
    pub open spec fn spec_has_claimed(self, campaign_id: CampaignId, claimant: Seq<char>) -> bool {
        self.claim_keys().contains(claim_key_of(claimant, campaign_id))
    }

    /// Whether the caller is the configured owner.
    pub open spec fn is_owner(self, caller: Seq<char>) -> bool {
        caller == self.config.owner_account_id@
    }

    /// Well-formedness: the campaign at index `i` carries id `i + 1` (ids are
    /// unique, gap-free and strictly increasing), the counter matches the
    /// collection, every deadline lies strictly after its campaign's start,
    /// and no claim key is recorded twice.
    pub open spec fn wf(self) -> bool {
        &&& self.campaigns@.len() == self.last_campaign_id
        &&& (forall|i: int|
            0 <= i < self.campaigns@.len() ==> (#[trigger] self.campaigns@[i]).id == i + 1)
        &&& (forall|i: int|
            0 <= i < self.campaigns@.len() ==> (#[trigger] self.campaigns@[i]).claim_start
                < self.campaigns@[i].claim_end)
        &&& (forall|i: int, j: int|
            0 <= i < j < self.claims@.len() ==> (#[trigger] self.claims@[i])@ != (
            #[trigger] self.claims@[j])@)
    }

    /// How any reachable later state relates to an earlier one: the
    /// configuration never changes, recorded claims are never removed, and
    /// registered campaigns are never mutated or deleted.
    pub open spec fn evolves_to(self, later: MerkleClaim) -> bool {
        &&& later.config == self.config
        &&& self.claim_keys().subset_of(later.claim_keys())
        &&& self.campaigns@.len() <= later.campaigns@.len()
        &&& (forall|i: int|
            0 <= i < self.campaigns@.len() ==> (#[trigger] later.campaigns@[i])
                == self.campaigns@[i])
    }

    /// The first reason `create_campaign` rejects, if any.
    pub open spec fn create_check(self, caller: Seq<char>, claim_end: u64, now: u64) -> Option<
        ContractError,
    > {
        if !self.is_owner(caller) {
            Some(ContractError::Authorization)
        } else if claim_end <= now {
            Some(ContractError::Validation(ValidationError::DeadlineNotInFuture))
        } else if self.last_campaign_id == u32::MAX {
            Some(ContractError::Overflow)
        } else {
            None
        }
    }

    /// The first reason `claim` rejects, if any, in the order the checks are
    /// made: zero amount, unknown campaign, already claimed, empty proof,
    /// concluded claim period, and finally the proof itself.
    pub open spec fn claim_check(
        self,
        caller: Seq<char>,
        amount: u128,
        merkle_proof: Seq<Seq<u8>>,
        campaign_id: CampaignId,
        payout_target: Seq<char>,
        now: u64,
    ) -> Option<ContractError> {
        if amount == 0 {
            Some(ContractError::Validation(ValidationError::ZeroAmount))
        } else if !self.campaign_exists(campaign_id) {
            Some(ContractError::Validation(ValidationError::UnknownCampaign))
        } else if self.spec_has_claimed(campaign_id, caller) {
            Some(ContractError::Validation(ValidationError::AlreadyClaimed))
        } else if merkle_proof.len() == 0 {
            Some(ContractError::Validation(ValidationError::EmptyProof))
        } else if now >= self.spec_campaign(campaign_id).claim_end {
            Some(ContractError::Validation(ValidationError::CampaignExpired))
        } else if !proof_verifies(
            leaf_of(caller, payout_target, amount),
            merkle_proof,
            self.spec_campaign(campaign_id).merkle_root@,
        ) {
            Some(ContractError::Proof)
        } else {
            None
        }
    }

    /// What `withdraw` returns: the whole balance above the reserve goes to
    /// the owner, and a balance at or below the reserve yields nothing.
    pub open spec fn spec_withdraw(self, caller: Seq<char>, current_balance: u128) -> Result<
        WithdrawEvent,
        ContractError,
    > {
        if !self.is_owner(caller) {
            Err(ContractError::Authorization)
        } else if current_balance <= self.config.min_storage_deposit {
            Err(ContractError::InsufficientReserve)
        } else {
            Ok(
                WithdrawEvent {
                    balance: self.config.min_storage_deposit,
                    withdrawn: (current_balance - self.config.min_storage_deposit) as u128,
                },
            )
        }
    }

    /// What `storage_deposit` returns: the refund owed to the owner for the
    /// part of the attached amount above the reserve.
    pub open spec fn spec_storage_deposit(self, caller: Seq<char>, attached_amount: u128) -> Result<
        Balance,
        ContractError,
    > {
        if !self.is_owner(caller) {
            Err(ContractError::Authorization)
        } else if attached_amount < self.config.min_storage_deposit {
            Err(ContractError::Validation(ValidationError::DepositBelowReserve))
        } else {
            Ok((attached_amount - self.config.min_storage_deposit) as u128)
        }
    }

    /// Initializes the contract with the given configuration and the deposit
    /// attached by the deployer. On success the second component is the
    /// excess above the reserve, owed back to the deployer as a refund.
    pub fn new(config: Config, attached_amount: Balance) -> (r: Result<
        (MerkleClaim, Balance),
        ContractError,
    >)
        ensures
            attached_amount < config.min_storage_deposit ==> r == Err::<
                (MerkleClaim, Balance),
                ContractError,
            >(ContractError::Validation(ValidationError::DepositBelowReserve)),
            attached_amount >= config.min_storage_deposit ==> {
                &&& r matches Ok(p)
                &&& p.0.config == config
                &&& p.0.claims@ == Seq::<[u8; 32]>::empty()
                &&& p.0.campaigns@ == Seq::<RewardCampaign>::empty()
                &&& p.0.last_campaign_id == 0
                &&& p.0.wf()
                &&& p.1 == attached_amount - config.min_storage_deposit
            },
    {
        if attached_amount < config.min_storage_deposit {
            return Err(ContractError::Validation(ValidationError::DepositBelowReserve));
        }
        let refund = attached_amount - config.min_storage_deposit;
        let state = MerkleClaim {
            config,
            claims: Vec::new(),
            campaigns: Vec::new(),
            last_campaign_id: 0,
        };
        Ok((state, refund))
    }

    /// Decides whether the caller may use an owner-only operation.
    pub fn assert_owner(&self, caller: &str) -> (r: Result<(), ContractError>)
        ensures
            self.is_owner(caller@) ==> r == Ok::<(), ContractError>(()),
            !self.is_owner(caller@) ==> r == Err::<(), ContractError>(ContractError::Authorization),
    {
        if str_eq(caller, self.config.owner_account_id.as_str()) {
            Ok(())
        } else {
            Err(ContractError::Authorization)
        }
    }

    /// Registers a new campaign under the next sequential id. Owner-only;
    /// the deadline must lie strictly in the future; the id counter fails
    /// rather than wraps.
    pub fn create_campaign(
        &mut self,
        caller: &str,
        merkle_root: [u8; 32],
        claim_end: u64,
        current_time: u64,
    ) -> (r: Result<CampaignCreatedEvent, ContractError>)
        ensures
            match old(self).create_check(caller@, claim_end, current_time) {
                Some(e) => r == Err::<CampaignCreatedEvent, ContractError>(e) && *final(self)
                    == *old(self),
                None => {
                    &&& r matches Ok(ev)
                    &&& ev.campaign_id == old(self).last_campaign_id + 1
                    &&& ev.merkle_root == merkle_root
                    &&& ev.claim_end == claim_end
                    &&& final(self).last_campaign_id == old(self).last_campaign_id + 1
                    &&& final(self).campaigns@ == old(self).campaigns@.push(
                        (RewardCampaign {
                            id: (old(self).last_campaign_id + 1) as u32,
                            claim_start: current_time,
                            claim_end,
                            merkle_root,
                        }),
                    )
                    &&& final(self).claims == old(self).claims
                    &&& final(self).config == old(self).config
                },
            },
            old(self).wf() ==> final(self).wf(),
            old(self).evolves_to(*final(self)),
    {
        if self.assert_owner(caller).is_err() {
            return Err(ContractError::Authorization);
        }
        if claim_end <= current_time {
            return Err(ContractError::Validation(ValidationError::DeadlineNotInFuture));
        }
        let campaign_id = match self.last_campaign_id.checked_add(1) {
            Some(id) => id,
            None => {
                return Err(ContractError::Overflow);
            },
        };
        let campaign = RewardCampaign {
            id: campaign_id,
            claim_start: current_time,
            claim_end,
            merkle_root,
        };
        self.campaigns.push(campaign);
        self.last_campaign_id = campaign_id;
        Ok(CampaignCreatedEvent { campaign_id, merkle_root, claim_end })
    }

    /// Redeems one payout. All checks precede the single state mutation, so
    /// any failure leaves the state untouched; on success the claim key is
    /// recorded and the caller owes a transfer of `amount` to
    /// `lockup_contract`, as the returned event says.
    pub fn claim(
        &mut self,
        caller: String,
        amount: u128,
        merkle_proof: Vec<[u8; 32]>,
        campaign_id: CampaignId,
        lockup_contract: String,
        current_time: u64,
    ) -> (r: Result<ClaimEvent, ContractError>)
        ensures
            match old(self).claim_check(
                caller@,
                amount,
                digest_seqs(merkle_proof@),
                campaign_id,
                lockup_contract@,
                current_time,
            ) {
                Some(e) => r == Err::<ClaimEvent, ContractError>(e) && *final(self) == *old(self),
                None => {
                    &&& r matches Ok(ev)
                    &&& ev.campaign_id == campaign_id
                    &&& ev.account_id == caller
                    &&& ev.lockup_contract == lockup_contract
                    &&& ev.amount == amount
                    &&& final(self).config == old(self).config
                    &&& final(self).campaigns == old(self).campaigns
                    &&& final(self).last_campaign_id == old(self).last_campaign_id
                    &&& final(self).claims@ == old(self).claims@.push(
                        final(self).claims@.last(),
                    )
                    &&& final(self).claims@.last()@ == claim_key_of(caller@, campaign_id)
                    &&& final(self).claim_keys() == old(self).claim_keys().insert(
                        claim_key_of(caller@, campaign_id),
                    )
                },
            },
            old(self).wf() ==> final(self).wf(),
            old(self).evolves_to(*final(self)),
    {
        let key = merkle::claim_key(caller.as_str(), campaign_id);
        if amount == 0 {
            return Err(ContractError::Validation(ValidationError::ZeroAmount));
        }
        if campaign_id < 1 || (campaign_id as usize) > self.campaigns.len() {
            return Err(ContractError::Validation(ValidationError::UnknownCampaign));
        }
        if claims_contain(&self.claims, &key) {
            return Err(ContractError::Validation(ValidationError::AlreadyClaimed));
        }
        if merkle_proof.len() == 0 {
            return Err(ContractError::Validation(ValidationError::EmptyProof));
        }
        let selected = self.campaigns[(campaign_id - 1) as usize];
        if current_time >= selected.claim_end {
            return Err(ContractError::Validation(ValidationError::CampaignExpired));
        }
        let leaf = Self::hash_leaf(caller.as_str(), lockup_contract.as_str(), amount);
        if !Self::verify_proof(leaf, merkle_proof, selected.merkle_root) {
            return Err(ContractError::Proof);
        }
        self.claims.push(key);
        proof {
            lemma_claim_keys_push(*old(self), *self, key);
            if old(self).wf() {
                assert forall|i: int, j: int|
                    0 <= i < j < self.claims@.len() implies (#[trigger] self.claims@[i])@ != (
                #[trigger] self.claims@[j])@ by {
                    if j == self.claims@.len() - 1 {
                        assert(self.claims@[i] == old(self).claims@[i]);
                    }
                }
            }
        }
        Ok(ClaimEvent { campaign_id, account_id: caller, lockup_contract, amount })
    }

    /// Transfers the balance above the reserve to the owner. Owner-only;
    /// fails when nothing stands above the reserve. The caller owes the
    /// transfer the returned event describes.
    pub fn withdraw(&self, caller: &str, current_balance: Balance) -> (r: Result<
        WithdrawEvent,
        ContractError,
    >)
        ensures
            r == self.spec_withdraw(caller@, current_balance),
    {
        if self.assert_owner(caller).is_err() {
            return Err(ContractError::Authorization);
        }
        let available_balance = if current_balance > self.config.min_storage_deposit {
            current_balance - self.config.min_storage_deposit
        } else {
            0
        };
        if available_balance > 0 {
            Ok(
                WithdrawEvent {
                    balance: self.config.min_storage_deposit,
                    withdrawn: available_balance,
                },
            )
        } else {
            Err(ContractError::InsufficientReserve)
        }
    }

    /// Looks a campaign up by id; never fails.
    pub fn get_campaign(&self, campaign_id: CampaignId) -> (r: Option<RewardCampaign>)
        ensures
            r == self.spec_get_campaign(campaign_id),
    {
        if 1 <= campaign_id && (campaign_id as usize) <= self.campaigns.len() {
            Some(self.campaigns[(campaign_id - 1) as usize])
        } else {
            None
        }
    }

    /// Tests whether the pair has already redeemed its payout; never fails.
    pub fn has_claimed(&self, campaign_id: CampaignId, account_id: &str) -> (r: bool)
        ensures
            r == self.spec_has_claimed(campaign_id, account_id@),
    {
        let key = merkle::claim_key(account_id, campaign_id);
        claims_contain(&self.claims, &key)
    }

    /// The last campaign id assigned, 0 if none yet.
    pub fn get_last_campaign_id(&self) -> (r: CampaignId)
        ensures
            r == self.last_campaign_id,
    {
        self.last_campaign_id
    }
}

} // verus!
