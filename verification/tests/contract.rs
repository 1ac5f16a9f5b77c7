//! The contract state machine: campaign creation, claiming, and the
//! treasury, exercised end to end against the real Keccak-256 primitive.
use merkle_claim::{
    CampaignId, Config, ContractError, MerkleClaim, ValidationError,
};

const MIN_STORAGE_DEPOSIT: u128 = 1000;
const GENESIS_TIME_IN_DAYS: u64 = 500;

const FAKE_MERKLE_PROOF: [[u8; 32]; 2] = [
    [
        94, 143, 161, 184, 186, 17, 223, 110, 197, 156, 168, 41, 145, 20, 196, 193, 228, 159, 17,
        221, 180, 108, 13, 100, 7, 247, 235, 212, 6, 162, 245, 2,
    ],
    [
        236, 8, 150, 63, 117, 228, 0, 201, 219, 131, 238, 26, 123, 68, 157, 32, 157, 222, 174, 86,
        151, 188, 49, 178, 51, 171, 115, 173, 101, 12, 43, 15,
    ],
];

fn account_owner() -> String {
    "admin".to_string()
}

fn non_owner() -> String {
    "mallory".to_string()
}

fn claimant() -> String {
    "claimant".to_string()
}

fn system_account() -> String {
    "system".to_string()
}

fn to_ts(days: u64) -> u64 {
    days * 86_400 * 1_000_000_000
}

fn claims_contract_setup() -> MerkleClaim {
    let config = Config {
        owner_account_id: account_owner(),
        min_storage_deposit: MIN_STORAGE_DEPOSIT,
    };
    let (contract, refund) = MerkleClaim::new(config, MIN_STORAGE_DEPOSIT).unwrap();
    assert_eq!(refund, 0);
    contract
}

fn build_mock_campaign() -> (CampaignId, [u8; 32], u64) {
    let root = MerkleClaim::hash_leaf(&account_owner(), &system_account(), 0);
    let end = to_ts(GENESIS_TIME_IN_DAYS + 30);
    (1, root, end)
}

#[test]
fn test_campaign_creation_success() {
    let mut contract = claims_contract_setup();
    let (campaign_id, root, end) = build_mock_campaign();

    contract
        .create_campaign(&account_owner(), root, end, to_ts(GENESIS_TIME_IN_DAYS))
        .unwrap();

    let current_campaign = contract.get_campaign(campaign_id).unwrap();
    assert_eq!(current_campaign.id, campaign_id);
    assert_eq!(current_campaign.merkle_root, root);
    assert_eq!(current_campaign.claim_start, to_ts(GENESIS_TIME_IN_DAYS));
    assert_eq!(current_campaign.claim_end, end);
}

#[test]
fn test_campaign_creation_failure_non_owner() {
    let mut contract = claims_contract_setup();
    let (_, root, end) = build_mock_campaign();

    let result = contract.create_campaign(&non_owner(), root, end, to_ts(GENESIS_TIME_IN_DAYS));
    assert_eq!(result.unwrap_err(), ContractError::Authorization);
}

#[test]
fn test_campaign_creation_failure_claim_end() {
    let mut contract = claims_contract_setup();
    let (_, root, end) = build_mock_campaign();

    // The block timestamp has reached the claim end period.
    let result = contract.create_campaign(&account_owner(), root, end, end);
    assert_eq!(
        result.unwrap_err(),
        ContractError::Validation(ValidationError::DeadlineNotInFuture)
    );
}

#[test]
fn test_claim_invalid_proof() {
    let mut contract = claims_contract_setup();
    let end = to_ts(GENESIS_TIME_IN_DAYS + 30);

    contract
        .create_campaign(
            &account_owner(),
            [
                158, 236, 219, 170, 25, 1, 253, 172, 46, 71, 82, 30, 201, 181, 15, 59, 58, 254,
                170, 207, 59, 87, 184, 46, 81, 28, 122, 202, 227, 92, 92, 128,
            ],
            end,
            to_ts(GENESIS_TIME_IN_DAYS),
        )
        .unwrap();

    let result = contract.claim(
        claimant(),
        1000,
        FAKE_MERKLE_PROOF.to_vec(),
        1,
        "lockup-contract".to_string(),
        to_ts(GENESIS_TIME_IN_DAYS),
    );
    assert_eq!(result.unwrap_err(), ContractError::Proof);
}

#[test]
fn test_claim_amount_failure() {
    let mut contract = claims_contract_setup();
    let (_, root, end) = build_mock_campaign();
    contract
        .create_campaign(&account_owner(), root, end, to_ts(GENESIS_TIME_IN_DAYS))
        .unwrap();

    let result = contract.claim(
        claimant(),
        0,
        FAKE_MERKLE_PROOF.to_vec(),
        1,
        "lockup-contract".to_string(),
        to_ts(GENESIS_TIME_IN_DAYS),
    );
    assert_eq!(
        result.unwrap_err(),
        ContractError::Validation(ValidationError::ZeroAmount)
    );
}

#[test]
fn test_claim_campaign_failure() {
    let mut contract = claims_contract_setup();
    let (_, root, end) = build_mock_campaign();
    contract
        .create_campaign(&account_owner(), root, end, to_ts(GENESIS_TIME_IN_DAYS))
        .unwrap();

    let result = contract.claim(
        claimant(),
        1000,
        FAKE_MERKLE_PROOF.to_vec(),
        2,
        "lockup-contract".to_string(),
        to_ts(GENESIS_TIME_IN_DAYS),
    );
    assert_eq!(
        result.unwrap_err(),
        ContractError::Validation(ValidationError::UnknownCampaign)
    );
}

#[test]
fn test_claim_proof_empty_failure() {
    let mut contract = claims_contract_setup();
    let (_, root, end) = build_mock_campaign();
    contract
        .create_campaign(&account_owner(), root, end, to_ts(GENESIS_TIME_IN_DAYS))
        .unwrap();

    let result = contract.claim(
        claimant(),
        1000,
        vec![],
        1,
        "lockup-contract".to_string(),
        to_ts(GENESIS_TIME_IN_DAYS),
    );
    assert_eq!(
        result.unwrap_err(),
        ContractError::Validation(ValidationError::EmptyProof)
    );
}

#[test]
fn test_claim_end_failure() {
    let mut contract = claims_contract_setup();
    let (_, root, end) = build_mock_campaign();
    contract
        .create_campaign(&account_owner(), root, end, to_ts(GENESIS_TIME_IN_DAYS))
        .unwrap();

    let result = contract.claim(
        claimant(),
        1000,
        FAKE_MERKLE_PROOF.to_vec(),
        1,
        "lockup-contract".to_string(),
        to_ts(GENESIS_TIME_IN_DAYS + 40),
    );
    assert_eq!(
        result.unwrap_err(),
        ContractError::Validation(ValidationError::CampaignExpired)
    );
}

#[test]
fn test_withdraw_owner_failure() {
    let contract = claims_contract_setup();
    let result = contract.withdraw(&non_owner(), MIN_STORAGE_DEPOSIT + 500);
    assert_eq!(result.unwrap_err(), ContractError::Authorization);
}

#[test]
fn test_end_to_end_claim_exactly_once() {
    let mut contract = claims_contract_setup();
    let now = to_ts(GENESIS_TIME_IN_DAYS);
    let end = to_ts(GENESIS_TIME_IN_DAYS + 30);

    // Root summarizing the leaf ("alice", "lockupX", 1000) beside another.
    let leaf = MerkleClaim::hash_leaf("alice", "lockupX", 1000);
    let sibling = MerkleClaim::hash_leaf("bob", "lockupY", 500);
    let root = MerkleClaim::combine_hash(&leaf, &sibling);
    contract
        .create_campaign(&account_owner(), root, end, now)
        .unwrap();
    assert!(!contract.has_claimed(1, "alice"));

    let event = contract
        .claim(
            "alice".to_string(),
            1000,
            vec![sibling],
            1,
            "lockupX".to_string(),
            now,
        )
        .unwrap();
    assert_eq!(event.campaign_id, 1);
    assert_eq!(event.account_id, "alice");
    assert_eq!(event.lockup_contract, "lockupX");
    assert_eq!(event.amount, 1000);
    assert!(contract.has_claimed(1, "alice"));
    assert!(!contract.has_claimed(1, "bob"));

    // A second identical claim fails as already claimed.
    let second = contract.claim(
        "alice".to_string(),
        1000,
        vec![sibling],
        1,
        "lockupX".to_string(),
        now,
    );
    assert_eq!(
        second.unwrap_err(),
        ContractError::Validation(ValidationError::AlreadyClaimed)
    );

    // So does one with a different amount, payout target or proof.
    let rerouted = contract.claim(
        "alice".to_string(),
        500,
        vec![leaf],
        1,
        "lockupZ".to_string(),
        now,
    );
    assert_eq!(
        rerouted.unwrap_err(),
        ContractError::Validation(ValidationError::AlreadyClaimed)
    );

    // A claim for 999 with the same proof fails proof verification, because
    // the leaf digest differs.
    let wrong_amount = contract.claim(
        "bob".to_string(),
        999,
        vec![sibling],
        1,
        "lockupX".to_string(),
        now,
    );
    assert_eq!(wrong_amount.unwrap_err(), ContractError::Proof);
}

#[test]
fn test_deadline_boundary() {
    let mut contract = claims_contract_setup();
    let now = to_ts(GENESIS_TIME_IN_DAYS);
    let end = to_ts(GENESIS_TIME_IN_DAYS + 30);
    let leaf = MerkleClaim::hash_leaf("alice", "lockupX", 1000);
    let sibling = MerkleClaim::hash_leaf("bob", "lockupY", 500);
    let root = MerkleClaim::combine_hash(&leaf, &sibling);
    contract
        .create_campaign(&account_owner(), root, end, now)
        .unwrap();

    // At the deadline itself the claim period has concluded.
    let at_end = contract.claim(
        "alice".to_string(),
        1000,
        vec![sibling],
        1,
        "lockupX".to_string(),
        end,
    );
    assert_eq!(
        at_end.unwrap_err(),
        ContractError::Validation(ValidationError::CampaignExpired)
    );

    // One tick before the deadline the claim succeeds.
    contract
        .claim(
            "alice".to_string(),
            1000,
            vec![sibling],
            1,
            "lockupX".to_string(),
            end - 1,
        )
        .unwrap();
}

#[test]
fn test_monotonic_ids() {
    let mut contract = claims_contract_setup();
    let now = to_ts(GENESIS_TIME_IN_DAYS);
    let end = to_ts(GENESIS_TIME_IN_DAYS + 30);
    assert_eq!(contract.get_last_campaign_id(), 0);
    for expected in 1..=3u32 {
        let event = contract
            .create_campaign(&account_owner(), [expected as u8; 32], end, now)
            .unwrap();
        assert_eq!(event.campaign_id, expected);
        assert_eq!(contract.get_last_campaign_id(), expected);
    }
    assert_eq!(contract.get_campaign(2).unwrap().id, 2);
    assert!(contract.get_campaign(4).is_none());
}

#[test]
fn test_campaign_id_counter_exhaustion() {
    let config = Config {
        owner_account_id: account_owner(),
        min_storage_deposit: MIN_STORAGE_DEPOSIT,
    };
    let contract = MerkleClaim {
        config,
        claims: vec![],
        campaigns: vec![],
        last_campaign_id: u32::MAX,
    };
    let mut contract = contract;
    let result = contract.create_campaign(
        &account_owner(),
        [0; 32],
        to_ts(GENESIS_TIME_IN_DAYS + 30),
        to_ts(GENESIS_TIME_IN_DAYS),
    );
    assert_eq!(result.unwrap_err(), ContractError::Overflow);
}

#[test]
fn test_withdraw_reserve_floor() {
    let contract = claims_contract_setup();

    // With the balance exactly at the reserve, nothing may leave.
    let at_reserve = contract.withdraw(&account_owner(), MIN_STORAGE_DEPOSIT);
    assert_eq!(at_reserve.unwrap_err(), ContractError::InsufficientReserve);

    let below = contract.withdraw(&account_owner(), MIN_STORAGE_DEPOSIT - 1);
    assert_eq!(below.unwrap_err(), ContractError::InsufficientReserve);

    // Above it, exactly the excess leaves and the reserve remains.
    let event = contract
        .withdraw(&account_owner(), MIN_STORAGE_DEPOSIT + 725)
        .unwrap();
    assert_eq!(event.withdrawn, 725);
    assert_eq!(event.balance, MIN_STORAGE_DEPOSIT);
}

#[test]
fn test_storage_deposit() {
    let contract = claims_contract_setup();

    let refund = contract
        .storage_deposit(&account_owner(), MIN_STORAGE_DEPOSIT + 7)
        .unwrap();
    assert_eq!(refund, 7);

    let too_small = contract.storage_deposit(&account_owner(), MIN_STORAGE_DEPOSIT - 1);
    assert_eq!(
        too_small.unwrap_err(),
        ContractError::Validation(ValidationError::DepositBelowReserve)
    );

    let not_owner = contract.storage_deposit(&non_owner(), MIN_STORAGE_DEPOSIT + 7);
    assert_eq!(not_owner.unwrap_err(), ContractError::Authorization);
}

#[test]
fn test_new_rejects_underfunded_deployment() {
    let config = Config {
        owner_account_id: account_owner(),
        min_storage_deposit: MIN_STORAGE_DEPOSIT,
    };
    let result = MerkleClaim::new(config, MIN_STORAGE_DEPOSIT - 1);
    assert_eq!(
        result.unwrap_err(),
        ContractError::Validation(ValidationError::DepositBelowReserve)
    );

    let config = Config {
        owner_account_id: account_owner(),
        min_storage_deposit: MIN_STORAGE_DEPOSIT,
    };
    let (contract, refund) = MerkleClaim::new(config, MIN_STORAGE_DEPOSIT + 250).unwrap();
    assert_eq!(refund, 250);
    assert_eq!(contract.get_last_campaign_id(), 0);
    assert_eq!(contract.get_config().owner_account_id, "admin");
    assert_eq!(contract.get_config().min_storage_deposit, MIN_STORAGE_DEPOSIT);
}

#[test]
fn test_claim_key_scoped_to_caller_and_campaign() {
    let mut contract = claims_contract_setup();
    let now = to_ts(GENESIS_TIME_IN_DAYS);
    let end = to_ts(GENESIS_TIME_IN_DAYS + 30);
    let leaf = MerkleClaim::hash_leaf("alice", "lockupX", 1000);
    let sibling = MerkleClaim::hash_leaf("bob", "lockupY", 500);
    let root = MerkleClaim::combine_hash(&leaf, &sibling);
    contract.create_campaign(&account_owner(), root, end, now).unwrap();
    contract.create_campaign(&account_owner(), root, end, now).unwrap();

    contract
        .claim("alice".to_string(), 1000, vec![sibling], 1, "lockupX".to_string(), now)
        .unwrap();

    // The redemption is scoped to (campaign, caller): the same pair is
    // spent, another campaign or another caller is not.
    assert!(contract.has_claimed(1, "alice"));
    assert!(!contract.has_claimed(2, "alice"));
    assert!(!contract.has_claimed(1, "bob"));

    contract
        .claim("alice".to_string(), 1000, vec![sibling], 2, "lockupX".to_string(), now)
        .unwrap();
    assert!(contract.has_claimed(2, "alice"));
}
