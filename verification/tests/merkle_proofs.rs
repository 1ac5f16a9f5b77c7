//! Proof-correctness scenarios for the Merkle verifier: genuinely included
//! leaves verify, and any single-bit mutation of a sibling digest fails.
use merkle_claim::MerkleClaim;

fn leaf(account: &str, lockup: &str, amount: u128) -> [u8; 32] {
    MerkleClaim::hash_leaf(account, lockup, amount)
}

#[test]
fn test_included_leaf_verifies_one_level() {
    let a = leaf("alice", "lockupX", 1000);
    let b = leaf("bob", "lockupY", 500);
    let root = MerkleClaim::combine_hash(&a, &b);
    assert!(MerkleClaim::verify_proof(a, vec![b], root));
    assert!(MerkleClaim::verify_proof(b, vec![a], root));
}

#[test]
fn test_included_leaf_verifies_two_levels() {
    let a = leaf("alice", "lockupX", 1000);
    let b = leaf("bob", "lockupY", 500);
    let c = leaf("carol", "lockupZ", 250);
    let d = leaf("dave", "lockupW", 125);
    let ab = MerkleClaim::combine_hash(&a, &b);
    let cd = MerkleClaim::combine_hash(&c, &d);
    let root = MerkleClaim::combine_hash(&ab, &cd);
    assert!(MerkleClaim::verify_proof(a, vec![b, cd], root));
    assert!(MerkleClaim::verify_proof(b, vec![a, cd], root));
    assert!(MerkleClaim::verify_proof(c, vec![d, ab], root));
    assert!(MerkleClaim::verify_proof(d, vec![c, ab], root));
}

#[test]
fn test_sibling_bit_flip_fails() {
    let a = leaf("alice", "lockupX", 1000);
    let b = leaf("bob", "lockupY", 500);
    let c = leaf("carol", "lockupZ", 250);
    let d = leaf("dave", "lockupW", 125);
    let ab = MerkleClaim::combine_hash(&a, &b);
    let cd = MerkleClaim::combine_hash(&c, &d);
    let root = MerkleClaim::combine_hash(&ab, &cd);
    for position in 0..32 {
        for bit in 0..8 {
            let mut sibling = b;
            sibling[position] ^= 1u8 << bit;
            assert!(!MerkleClaim::verify_proof(a, vec![sibling, cd], root));
            let mut upper = cd;
            upper[position] ^= 1u8 << bit;
            assert!(!MerkleClaim::verify_proof(a, vec![b, upper], root));
        }
    }
}

#[test]
fn test_wrong_leaf_amount_fails() {
    let a = leaf("alice", "lockupX", 1000);
    let b = leaf("bob", "lockupY", 500);
    let root = MerkleClaim::combine_hash(&a, &b);
    let wrong = leaf("alice", "lockupX", 999);
    assert!(!MerkleClaim::verify_proof(wrong, vec![b], root));
}

#[test]
fn test_empty_proof_only_accepts_root_itself() {
    let a = leaf("alice", "lockupX", 1000);
    let b = leaf("bob", "lockupY", 500);
    assert!(MerkleClaim::verify_proof(a, vec![], a));
    assert!(!MerkleClaim::verify_proof(a, vec![], b));
}

#[test]
fn test_combine_is_commutative() {
    let a = leaf("alice", "lockupX", 1000);
    let b = leaf("bob", "lockupY", 500);
    assert_eq!(MerkleClaim::combine_hash(&a, &b), MerkleClaim::combine_hash(&b, &a));
    assert_eq!(MerkleClaim::combine_hash(&a, &a), MerkleClaim::combine_hash(&a, &a));
}

#[test]
fn test_leaf_hash_is_deterministic_and_injective_looking() {
    let one = leaf("alice", "lockupX", 1000);
    let again = leaf("alice", "lockupX", 1000);
    assert_eq!(one, again);
    assert_ne!(one, leaf("alice", "lockupX", 999));
    assert_ne!(one, leaf("alicf", "lockupX", 1000));
    assert_ne!(one, leaf("alice", "lockupY", 1000));
    // The two identities are length-prefixed, so shifting a byte between
    // them must change the digest.
    assert_ne!(leaf("ab", "c", 7), leaf("a", "bc", 7));
}
