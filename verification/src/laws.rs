//! The laws the library states of its operations, proved once and for all
//! from the same specifications the operations' contracts use.
use vstd::prelude::*;

use crate::merkle::{leaf_of, proof_verifies};
use crate::{
    Balance, CampaignId, ContractError, MerkleClaim, ValidationError, WithdrawEvent,
};

verus! {

/// Reachability composes: if one state evolves to a second and the second to
/// a third, the first evolves to the third. Together with the `evolves_to`
/// clause each mutating operation ensures, this makes every chain of
/// operations an evolution: claims are never forgotten, campaigns never
/// mutated, the configuration never changed.
pub proof fn lemma_evolves_transitive(s1: MerkleClaim, s2: MerkleClaim, s3: MerkleClaim)
    requires
        s1.evolves_to(s2),
        s2.evolves_to(s3),
    ensures
        s1.evolves_to(s3),
{
}

/// Exactly-once: once a (campaign, claimant) pair has redeemed its payout —
/// its claim key recorded, its campaign registered — every claim attempt
/// with the same pair, in that state or any state it evolves to, fails:
/// with "already claimed" whenever the attempt gets past the zero-amount
/// check, whatever amount, proof or payout target it supplies. `claim`'s
/// contract adds that each such rejected attempt leaves the state unchanged.
pub proof fn lemma_claim_exactly_once(
    s1: MerkleClaim,
    s2: MerkleClaim,
    claimant: Seq<char>,
    campaign_id: CampaignId,
    amount: u128,
    merkle_proof: Seq<Seq<u8>>,
    payout_target: Seq<char>,
    now: u64,
)
    requires
        s1.spec_has_claimed(campaign_id, claimant),
        s1.campaign_exists(campaign_id),
        s1.evolves_to(s2),
    ensures
        amount != 0 ==> s2.claim_check(claimant, amount, merkle_proof, campaign_id, payout_target, now)
            == Some(ContractError::Validation(ValidationError::AlreadyClaimed)),
        amount == 0 ==> s2.claim_check(claimant, amount, merkle_proof, campaign_id, payout_target, now)
            == Some(ContractError::Validation(ValidationError::ZeroAmount)),
{
    assert(s2.claim_keys().contains(crate::claim_key_of(claimant, campaign_id)));
}

/// Monotonic ids: in a well-formed state the registered campaigns are
/// exactly those with ids 1 through the counter, each stored under its own
/// id — no repeats and no gaps (`create_campaign`'s contract adds that each
/// success registers id `last + 1` and advances the counter to it) — and a
/// creation that reaches the exhausted counter is rejected with `Overflow`.
pub proof fn lemma_monotonic_ids(s: MerkleClaim, caller: Seq<char>, claim_end: u64, now: u64)
    requires
        s.wf(),
    ensures
        forall|id: CampaignId| #[trigger] s.campaign_exists(id) <==> 1 <= id <= s.last_campaign_id,
        forall|id: CampaignId|
            s.campaign_exists(id) ==> (#[trigger] s.spec_campaign(id)).id == id,
        s.last_campaign_id == u32::MAX && s.is_owner(caller) && now < claim_end
            ==> s.create_check(caller, claim_end, now) == Some(ContractError::Overflow),
{
}

/// Deadline boundary: with otherwise-valid inputs — a nonzero amount, a
/// registered campaign, a pair that has not redeemed, a nonempty proof that
/// resolves to the campaign's root — a claim one tick before the deadline
/// is accepted, and a claim at the deadline is rejected as concluded.
pub proof fn lemma_deadline_boundary(
    s: MerkleClaim,
    claimant: Seq<char>,
    campaign_id: CampaignId,
    amount: u128,
    merkle_proof: Seq<Seq<u8>>,
    payout_target: Seq<char>,
)
    requires
        s.wf(),
        amount != 0,
        s.campaign_exists(campaign_id),
        !s.spec_has_claimed(campaign_id, claimant),
        merkle_proof.len() > 0,
        proof_verifies(
            leaf_of(claimant, payout_target, amount),
            merkle_proof,
            s.spec_campaign(campaign_id).merkle_root@,
        ),
    ensures
        s.claim_check(
            claimant,
            amount,
            merkle_proof,
            campaign_id,
            payout_target,
            (s.spec_campaign(campaign_id).claim_end - 1) as u64,
        ) == None::<ContractError>,
        s.claim_check(
            claimant,
            amount,
            merkle_proof,
            campaign_id,
            payout_target,
            s.spec_campaign(campaign_id).claim_end,
        ) == Some(ContractError::Validation(ValidationError::CampaignExpired)),
{
    assert(s.spec_campaign(campaign_id).claim_start < s.spec_campaign(campaign_id).claim_end);
}

/// Reserve floor: a successful withdrawal takes exactly the balance above
/// the reserve — what remains equals the reserve, never less — and with the
/// balance at (or under) the reserve an owner's withdrawal is rejected with
/// `InsufficientReserve`.
pub proof fn lemma_reserve_floor(s: MerkleClaim, caller: Seq<char>, current_balance: Balance)
    ensures
        s.spec_withdraw(caller, current_balance) matches Ok(ev) ==> ev.withdrawn
            <= current_balance && current_balance - ev.withdrawn
            == s.config.min_storage_deposit,
        s.is_owner(caller) && current_balance <= s.config.min_storage_deposit
            ==> s.spec_withdraw(caller, current_balance) == Err::<WithdrawEvent, ContractError>(
            ContractError::InsufficientReserve,
        ),
{
}

/// Authorization: a caller other than the owner is always rejected with
/// `Authorization` by `create_campaign`, `withdraw` and `storage_deposit`,
/// whatever the other arguments; the contracts of those operations add that
/// nothing changes and nothing is owed.
pub proof fn lemma_non_owner_rejected(
    s: MerkleClaim,
    caller: Seq<char>,
    claim_end: u64,
    now: u64,
    current_balance: Balance,
    attached_amount: Balance,
)
    requires
        !s.is_owner(caller),
    ensures
        s.create_check(caller, claim_end, now) == Some(ContractError::Authorization),
        s.spec_withdraw(caller, current_balance) == Err::<WithdrawEvent, ContractError>(
            ContractError::Authorization,
        ),
        s.spec_storage_deposit(caller, attached_amount) == Err::<Balance, ContractError>(
            ContractError::Authorization,
        ),
{
}

} // verus!
