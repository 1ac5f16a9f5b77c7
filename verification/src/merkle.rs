//! Merkle proof verification with a commutative combine step, and the
//! canonical leaf encoding.
use vstd::prelude::*;

use crate::hash::{keccak256, keccak256_of};
use crate::MerkleClaim;

verus! {

/// Strict byte-lexicographic order on byte strings.
pub open spec fn lex_less(a: Seq<u8>, b: Seq<u8>) -> bool
    decreases a.len(),
{
    if b.len() == 0 {
        false
    } else if a.len() == 0 {
        true
    } else if a[0] < b[0] {
        true
    } else if a[0] > b[0] {
        false
    } else {
        lex_less(a.drop_first(), b.drop_first())
    }
}

/// One commutative combine step: the digest of the two operands concatenated
/// with the lexicographically smaller one first, so a proof needs no
/// left/right position bits.
pub open spec fn combine(a: Seq<u8>, b: Seq<u8>) -> Seq<u8> {
    if lex_less(a, b) {
        keccak256_of(a + b)
    } else {
        keccak256_of(b + a)
    }
}

/// The root reached from `leaf` by folding the ordered sibling digests of
/// `merkle_proof` with the commutative combine.
pub open spec fn root_from(leaf: Seq<u8>, merkle_proof: Seq<Seq<u8>>) -> Seq<u8>
    decreases merkle_proof.len(),
{
    if merkle_proof.len() == 0 {
        leaf
    } else {
        root_from(combine(leaf, merkle_proof[0]), merkle_proof.drop_first())
    }
}

/// The byte sequences of a sequence of 32-byte digests.
pub open spec fn digest_seqs(digests: Seq<[u8; 32]>) -> Seq<Seq<u8>> {
    digests.map_values(|d: [u8; 32]| d@)
}

/// A proof is valid exactly when folding it from the leaf reproduces the root.
pub open spec fn proof_verifies(leaf: Seq<u8>, merkle_proof: Seq<Seq<u8>>, root: Seq<u8>) -> bool {
    root_from(leaf, merkle_proof) == root
}

/// Any leaf genuinely included under a root by a chain of commutative
/// combines verifies against that root: `verify` accepts every proof that was
/// built by construction.
pub proof fn lemma_included_leaf_verifies(leaf: Seq<u8>, merkle_proof: Seq<Seq<u8>>)
    ensures
        proof_verifies(leaf, merkle_proof, root_from(leaf, merkle_proof)),
{
}

/// If two byte strings agree on their first `n` bytes, their order is decided
/// by what follows.
proof fn lemma_lex_less_common_prefix(a: Seq<u8>, b: Seq<u8>, n: int)
    requires
        0 <= n <= a.len(),
        n <= b.len(),
        forall|j: int| 0 <= j < n ==> a[j] == b[j],
    ensures
        lex_less(a, b) == lex_less(a.skip(n), b.skip(n)),
    decreases n,
{
    if n > 0 {
        assert(a[0] == b[0]);
        lemma_lex_less_common_prefix(a.drop_first(), b.drop_first(), n - 1);
        assert(a.drop_first().skip(n - 1) =~= a.skip(n));
        assert(b.drop_first().skip(n - 1) =~= b.skip(n));
    } else {
        assert(a.skip(0) =~= a);
        assert(b.skip(0) =~= b);
    }
}

/// Compares two digests in byte-lexicographic order.
fn digest_less(a: &[u8; 32], b: &[u8; 32]) -> (r: bool)
    ensures
        r == lex_less(a@, b@),
{
    let mut i: usize = 0;
    while i < 32
        invariant
            0 <= i <= 32,
            forall|j: int| 0 <= j < i ==> a@[j] == b@[j],
        decreases 32 - i,
    {
        let x = a[i];
        let y = b[i];
        if x < y {
            proof {
                lemma_lex_less_common_prefix(a@, b@, i as int);
                assert(a@.skip(i as int)[0] == a@[i as int]);
                assert(lex_less(a@.skip(i as int), b@.skip(i as int)));
            }
            return true;
        }
        if x > y {
            proof {
                lemma_lex_less_common_prefix(a@, b@, i as int);
                assert(a@.skip(i as int)[0] == a@[i as int]);
                assert(!lex_less(a@.skip(i as int), b@.skip(i as int)));
            }
            return false;
        }
        i = i + 1;
    }
    proof {
        lemma_lex_less_common_prefix(a@, b@, 32);
        assert(b@.skip(32).len() == 0);
    }
    false
}

/// Compares two digests for byte equality.
pub(crate) fn digest_eq(a: &[u8; 32], b: &[u8; 32]) -> (r: bool)
    ensures
        r == (a@ == b@),
{
    let mut i: usize = 0;
    while i < 32
        invariant
            0 <= i <= 32,
            forall|j: int| 0 <= j < i ==> a@[j] == b@[j],
        decreases 32 - i,
    {
        if a[i] != b[i] {
            return false;
        }
        i = i + 1;
    }
    proof {
        assert(a@ =~= b@);
    }
    true
}

/// The two digests concatenated with the smaller first: the preimage of one
/// commutative combine step.
fn commutative_keccak256(a: &[u8; 32], b: &[u8; 32]) -> (r: Vec<u8>)
    ensures
        r@ == (if lex_less(a@, b@) {
            a@ + b@
        } else {
            b@ + a@
        }),
{
    let mut r: Vec<u8> = Vec::new();
    if digest_less(a, b) {
        r.extend_from_slice(a.as_slice());
        r.extend_from_slice(b.as_slice());
    } else {
        r.extend_from_slice(b.as_slice());
        r.extend_from_slice(a.as_slice());
    }
    r
}

/// The `n` little-endian bytes of `x` (the low `n` bytes, low byte first).
pub open spec fn le_bytes(x: int, n: nat) -> Seq<u8>
    decreases n,
{
    if n == 0 {
        Seq::empty()
    } else {
        seq![(x % 256) as u8] + le_bytes(x / 256, (n - 1) as nat)
    }
}

/// The canonical, unambiguous byte layout of one eligible payout: each
/// identity is prefixed by its byte length as 8 little-endian bytes, and the
/// amount follows as 16 little-endian bytes, so no two distinct triples share
/// an encoding.
pub open spec fn encode_leaf_input(
    claimant_bytes: Seq<u8>,
    payout_bytes: Seq<u8>,
    amount: u128,
) -> Seq<u8> {
    le_bytes(claimant_bytes.len() as int, 8) + claimant_bytes + le_bytes(
        payout_bytes.len() as int,
        8,
    ) + payout_bytes + le_bytes(amount as int, 16)
}

/// The leaf digest of one eligible payout: the canonical encoding of the
/// triple, hashed.
pub open spec fn leaf_of(claimant: Seq<char>, payout_target: Seq<char>, amount: u128) -> Seq<u8> {
    keccak256_of(
        encode_leaf_input(
            vstd::utf8::encode_utf8(claimant),
            vstd::utf8::encode_utf8(payout_target),
            amount,
        ),
    )
}

/// The digest identifying one (campaign, claimant) redemption slot: the
/// claimant's bytes followed by the campaign id as 4 little-endian bytes,
/// hashed.
pub open spec fn claim_key_of(claimant: Seq<char>, campaign_id: u32) -> Seq<u8> {
    keccak256_of(vstd::utf8::encode_utf8(claimant) + le_bytes(campaign_id as int, 4))
}

/// 256 to the `n`th power: the number of byte strings of length `n`.
pub open spec fn pow256(n: nat) -> int
    decreases n,
{
    if n == 0 {
        1
    } else {
        256 * pow256((n - 1) as nat)
    }
}

proof fn lemma_pow256_pos(n: nat)
    ensures
        pow256(n) >= 1,
    decreases n,
{
    if n > 0 {
        lemma_pow256_pos((n - 1) as nat);
    }
}

proof fn lemma_le_bytes_len(x: int, n: nat)
    ensures
        le_bytes(x, n).len() == n,
    decreases n,
{
    if n > 0 {
        lemma_le_bytes_len(x / 256, (n - 1) as nat);
    }
}

/// Below `256^n`, a value is determined by its `n` little-endian bytes.
proof fn lemma_le_bytes_injective(x: int, y: int, n: nat)
    requires
        0 <= x < pow256(n),
        0 <= y < pow256(n),
        le_bytes(x, n) == le_bytes(y, n),
    ensures
        x == y,
    decreases n,
{
    if n > 0 {
        assert(le_bytes(x, n)[0] == (x % 256) as u8);
        assert(le_bytes(y, n)[0] == (y % 256) as u8);
        assert(x % 256 == y % 256);
        assert(le_bytes(x, n).drop_first() =~= le_bytes(x / 256, (n - 1) as nat));
        assert(le_bytes(y, n).drop_first() =~= le_bytes(y / 256, (n - 1) as nat));
        lemma_pow256_pos((n - 1) as nat);
        assert(x / 256 < pow256((n - 1) as nat)) by (nonlinear_arith)
            requires
                0 <= x,
                x < 256 * pow256((n - 1) as nat),
                pow256((n - 1) as nat) >= 1,
        ;
        assert(y / 256 < pow256((n - 1) as nat)) by (nonlinear_arith)
            requires
                0 <= y,
                y < 256 * pow256((n - 1) as nat),
                pow256((n - 1) as nat) >= 1,
        ;
        lemma_le_bytes_injective(x / 256, y / 256, (n - 1) as nat);
    }
}

/// Two equal concatenations with equally long first parts match part for
/// part.
proof fn lemma_concat_split(a: Seq<u8>, b: Seq<u8>, c: Seq<u8>, d: Seq<u8>)
    requires
        a.len() == c.len(),
        a + b == c + d,
    ensures
        a == c,
        b == d,
{
    assert forall|i: int| 0 <= i < a.len() implies a[i] == c[i] by {
        assert((a + b)[i] == a[i]);
        assert((c + d)[i] == c[i]);
    }
    assert(a =~= c);
    assert((a + b).len() == a.len() + b.len());
    assert((c + d).len() == c.len() + d.len());
    assert(b.len() == d.len());
    assert forall|i: int| 0 <= i < b.len() implies b[i] == d[i] by {
        assert((a + b)[a.len() + i] == b[i]);
        assert((c + d)[c.len() + i] == d[i]);
    }
    assert(b =~= d);
}

/// The canonical encoding is unambiguous: two payout triples (given as their
/// identity bytes and amounts) share an encoding only if they are the same
/// triple. The length bound is what the 8-byte length prefix can carry, far
/// above what any machine can hold.
pub proof fn lemma_encoding_unambiguous(
    claimant1: Seq<u8>,
    payout1: Seq<u8>,
    amount1: u128,
    claimant2: Seq<u8>,
    payout2: Seq<u8>,
    amount2: u128,
)
    requires
        claimant1.len() < pow256(8),
        claimant2.len() < pow256(8),
        payout1.len() < pow256(8),
        payout2.len() < pow256(8),
        encode_leaf_input(claimant1, payout1, amount1) == encode_leaf_input(
            claimant2,
            payout2,
            amount2,
        ),
    ensures
        claimant1 == claimant2,
        payout1 == payout2,
        amount1 == amount2,
{
    let cp1 = le_bytes(claimant1.len() as int, 8);
    let cp2 = le_bytes(claimant2.len() as int, 8);
    let pp1 = le_bytes(payout1.len() as int, 8);
    let pp2 = le_bytes(payout2.len() as int, 8);
    let ap1 = le_bytes(amount1 as int, 16);
    let ap2 = le_bytes(amount2 as int, 16);
    lemma_le_bytes_len(claimant1.len() as int, 8);
    lemma_le_bytes_len(claimant2.len() as int, 8);
    lemma_le_bytes_len(payout1.len() as int, 8);
    lemma_le_bytes_len(payout2.len() as int, 8);
    assert(encode_leaf_input(claimant1, payout1, amount1) =~= cp1 + (claimant1 + (pp1 + (payout1
        + ap1))));
    assert(encode_leaf_input(claimant2, payout2, amount2) =~= cp2 + (claimant2 + (pp2 + (payout2
        + ap2))));
    lemma_concat_split(cp1, claimant1 + (pp1 + (payout1 + ap1)), cp2, claimant2 + (pp2 + (payout2
        + ap2)));
    lemma_le_bytes_injective(claimant1.len() as int, claimant2.len() as int, 8);
    lemma_concat_split(claimant1, pp1 + (payout1 + ap1), claimant2, pp2 + (payout2 + ap2));
    lemma_concat_split(pp1, payout1 + ap1, pp2, payout2 + ap2);
    lemma_le_bytes_injective(payout1.len() as int, payout2.len() as int, 8);
    lemma_concat_split(payout1, ap1, payout2, ap2);
    assert(pow256(16) == 0x100000000000000000000000000000000int) by {
        reveal_with_fuel(pow256, 17);
    }
    lemma_le_bytes_injective(amount1 as int, amount2 as int, 16);
}

/// Two payout triples, as a claimant, a payout target and an amount, share a
/// leaf encoding only if they are the same triple: distinct triples can only
/// collide in the hash itself.
pub proof fn lemma_leaf_input_unambiguous(
    claimant1: Seq<char>,
    payout1: Seq<char>,
    amount1: u128,
    claimant2: Seq<char>,
    payout2: Seq<char>,
    amount2: u128,
)
    requires
        vstd::utf8::encode_utf8(claimant1).len() < pow256(8),
        vstd::utf8::encode_utf8(claimant2).len() < pow256(8),
        vstd::utf8::encode_utf8(payout1).len() < pow256(8),
        vstd::utf8::encode_utf8(payout2).len() < pow256(8),
        encode_leaf_input(
            vstd::utf8::encode_utf8(claimant1),
            vstd::utf8::encode_utf8(payout1),
            amount1,
        ) == encode_leaf_input(
            vstd::utf8::encode_utf8(claimant2),
            vstd::utf8::encode_utf8(payout2),
            amount2,
        ),
    ensures
        claimant1 == claimant2,
        payout1 == payout2,
        amount1 == amount2,
{
    lemma_encoding_unambiguous(
        vstd::utf8::encode_utf8(claimant1),
        vstd::utf8::encode_utf8(payout1),
        amount1,
        vstd::utf8::encode_utf8(claimant2),
        vstd::utf8::encode_utf8(payout2),
        amount2,
    );
    vstd::utf8::encode_utf8_decode_utf8(claimant1);
    vstd::utf8::encode_utf8_decode_utf8(claimant2);
    vstd::utf8::encode_utf8_decode_utf8(payout1);
    vstd::utf8::encode_utf8_decode_utf8(payout2);
}

/// The claim key's preimage is unambiguous too: the campaign id occupies a
/// fixed-width suffix behind the claimant's bytes.
pub proof fn lemma_claim_key_input_unambiguous(
    claimant1: Seq<u8>,
    campaign_id1: u32,
    claimant2: Seq<u8>,
    campaign_id2: u32,
)
    requires
        claimant1 + le_bytes(campaign_id1 as int, 4) == claimant2 + le_bytes(
            campaign_id2 as int,
            4,
        ),
    ensures
        claimant1 == claimant2,
        campaign_id1 == campaign_id2,
{
    lemma_le_bytes_len(campaign_id1 as int, 4);
    lemma_le_bytes_len(campaign_id2 as int, 4);
    assert((claimant1 + le_bytes(campaign_id1 as int, 4)).len() == claimant1.len() + 4);
    assert((claimant2 + le_bytes(campaign_id2 as int, 4)).len() == claimant2.len() + 4);
    lemma_concat_split(
        claimant1,
        le_bytes(campaign_id1 as int, 4),
        claimant2,
        le_bytes(campaign_id2 as int, 4),
    );
    assert(pow256(4) == 0x100000000int) by {
        reveal_with_fuel(pow256, 5);
    }
    lemma_le_bytes_injective(campaign_id1 as int, campaign_id2 as int, 4);
}

/// Appends the low `n` bytes of `x`, low byte first.
fn push_le_bytes(out: &mut Vec<u8>, x: u128, n: usize)
    ensures
        final(out)@ == old(out)@ + le_bytes(x as int, n as nat),
{
    let ghost x0 = x as int;
    let ghost n0 = n as nat;
    let mut x = x;
    let mut i: usize = 0;
    while i < n
        invariant
            0 <= i <= n,
            old(out)@ + le_bytes(x0, n0) =~= out@ + le_bytes(x as int, (n - i) as nat),
            n0 == n as nat,
        decreases n - i,
    {
        let ghost before = out@;
        let ghost xi = x as int;
        out.push((x % 256) as u8);
        x = x / 256;
        proof {
            assert(le_bytes(xi, (n - i) as nat) == seq![(xi % 256) as u8] + le_bytes(
                xi / 256,
                (n - i - 1) as nat,
            ));
            assert(before + le_bytes(xi, (n - i) as nat) =~= out@ + le_bytes(
                x as int,
                (n - (i + 1)) as nat,
            ));
        }
        i = i + 1;
    }
    proof {
        assert(out@ + le_bytes(x as int, 0) =~= out@);
    }
}

/// Computes the canonical encoding of one eligible payout.
fn encode_leaf(claimant: &str, payout_target: &str, amount: u128) -> (r: Vec<u8>)
    ensures
        r@ == encode_leaf_input(
            vstd::utf8::encode_utf8(claimant@),
            vstd::utf8::encode_utf8(payout_target@),
            amount,
        ),
{
    let mut out: Vec<u8> = Vec::new();
    let claimant_bytes: &[u8] = claimant.as_bytes();
    let payout_bytes: &[u8] = payout_target.as_bytes();
    push_le_bytes(&mut out, claimant_bytes.len() as u128, 8);
    out.extend_from_slice(claimant_bytes);
    push_le_bytes(&mut out, payout_bytes.len() as u128, 8);
    out.extend_from_slice(payout_bytes);
    push_le_bytes(&mut out, amount, 16);
    out
}

/// Computes the digest identifying one (campaign, claimant) redemption slot.
pub(crate) fn claim_key(claimant: &str, campaign_id: u32) -> (r: [u8; 32])
    ensures
        r@ == claim_key_of(claimant@, campaign_id),
{
    let mut data: Vec<u8> = Vec::new();
    data.extend_from_slice(claimant.as_bytes());
    push_le_bytes(&mut data, campaign_id as u128, 4);
    proof {
        assert(data@ =~= vstd::utf8::encode_utf8(claimant@) + le_bytes(campaign_id as int, 4));
    }
    keccak256(&data)
}

impl MerkleClaim {
    /// Computes the leaf digest of one eligible payout: the claimant who may
    /// call, the identity the funds go to, and the amount.
    pub fn hash_leaf(claimant: &str, payout_target: &str, amount: u128) -> (r: [u8; 32])
        ensures
            r@ == leaf_of(claimant@, payout_target@, amount),
    {
        keccak256(&encode_leaf(claimant, payout_target, amount))
    }

    /// One commutative combine step on digests, for building roots the same
    /// way `verify_proof` folds them.
    pub fn combine_hash(a: &[u8; 32], b: &[u8; 32]) -> (r: [u8; 32])
        ensures
            r@ == combine(a@, b@),
    {
        keccak256(&commutative_keccak256(a, b))
    }

    /// Decides whether `leaf` is a member of the set summarized by
    /// `merkle_root`, given the ordered sibling digests `merkle_proof`.
    pub fn verify_proof(leaf: [u8; 32], merkle_proof: Vec<[u8; 32]>, merkle_root: [u8; 32]) -> (r:
        bool)
        ensures
            r == proof_verifies(leaf@, digest_seqs(merkle_proof@), merkle_root@),
    {
        let ghost all = digest_seqs(merkle_proof@);
        let mut computed_hash = leaf;
        proof {
            assert(all.skip(0) =~= all);
        }
        let mut i: usize = 0;
        while i < merkle_proof.len()
            invariant
                0 <= i <= merkle_proof.len(),
                all == digest_seqs(merkle_proof@),
                root_from(leaf@, all) == root_from(computed_hash@, all.skip(i as int)),
            decreases merkle_proof.len() - i,
        {
            let ghost rest = all.skip(i as int);
            let ghost prev = computed_hash@;
            let sibling = merkle_proof[i];
            computed_hash = keccak256(&commutative_keccak256(&computed_hash, &sibling));
            proof {
                assert(rest[0] == merkle_proof@[i as int]@);
                assert(computed_hash@ == combine(prev, rest[0]));
                assert(rest.drop_first() =~= all.skip(i + 1));
            }
            i = i + 1;
        }
        proof {
            assert(all.skip(merkle_proof@.len() as int) =~= Seq::<Seq<u8>>::empty());
        }
        digest_eq(&merkle_root, &computed_hash)
    }
}

} // verus!
