//! The proof-of-work functions of `drillx` that the pool relies on.

use vstd::prelude::*;

use crate::types::Solution;

verus! {

/// `drillx::equix::SolverMemory`, the equihash solver's scratch memory, carried through opaque.
#[verifier::external_type_specification]
#[verifier::external_body]
pub struct ExSolverMemory(drillx::equix::SolverMemory);

/// A hash found while mining: the equihash digest and the keccak hash derived from it.
#[derive(Clone, Copy, Debug)]
pub struct DrillHash {
    pub d: [u8; 16],
    pub h: [u8; 32],
}

/// Number of leading zero bits of a byte.
pub open spec fn byte_leading_zeros(b: u8) -> nat {
    if b >= 128 {
        0
    } else if b >= 64 {
        1
    } else if b >= 32 {
        2
    } else if b >= 16 {
        3
    } else if b >= 8 {
        4
    } else if b >= 4 {
        5
    } else if b >= 2 {
        6
    } else if b >= 1 {
        7
    } else {
        8
    }
}

/// Number of leading zero bits of a byte string: the difficulty of a hash.
pub open spec fn leading_zero_bits(h: Seq<u8>) -> nat
    decreases h.len(),
{
    if h.len() == 0 {
        0
    } else if h[0] == 0 {
        8 + leading_zero_bits(h.drop_first())
    } else {
        byte_leading_zeros(h[0])
    }
}

/// Whether `digest` is a valid equihash solution for the challenge and nonce
/// (`drillx::is_valid_digest`).
pub uninterp spec fn drillx_is_valid(challenge: Seq<u8>, nonce: Seq<u8>, digest: Seq<u8>) -> bool;

/// The keccak hash of a solution's sorted digest and nonce (`Solution::to_hash`).
pub uninterp spec fn drillx_hash(digest: Seq<u8>, nonce: Seq<u8>) -> Seq<u8>;

/// The hashes that the equihash solver finds for a challenge and nonce, as
/// (digest, hash) pairs (`drillx::hashes_with_memory`).
pub uninterp spec fn drillx_hashes(challenge: Seq<u8>, nonce: Seq<u8>) -> Seq<(Seq<u8>, Seq<u8>)>;

/// The number of leading zero bits of a byte.
fn byte_leading_zeros_exec(b: u8) -> (n: u32)
    ensures
        n == byte_leading_zeros(b),
{
    if b >= 128 {
        0
    } else if b >= 64 {
        1
    } else if b >= 32 {
        2
    } else if b >= 16 {
        3
    } else if b >= 8 {
        4
    } else if b >= 4 {
        5
    } else if b >= 2 {
        6
    } else if b >= 1 {
        7
    } else {
        8
    }
}

/// The difficulty of a hash: its number of leading zero bits, counted byte by
/// byte until the first byte that is not zero (as `drillx::difficulty` does).
pub fn difficulty(hash: [u8; 32]) -> (d: u32)
    ensures
        d == leading_zero_bits(hash@),
{
    let mut count: u32 = 0;
    let mut i: usize = 0;
    assert(hash@.subrange(0, 32) =~= hash@);
    while i < 32
        invariant
            i <= 32,
            count == 8 * i,
            leading_zero_bits(hash@) == count + leading_zero_bits(hash@.subrange(i as int, 32)),
        decreases 32 - i,
    {
        let b = hash[i];
        assert(hash@.subrange(i as int, 32)[0] == b);
        assert(hash@.subrange(i as int, 32).drop_first() =~= hash@.subrange(i + 1, 32));
        if b != 0 {
            return count + byte_leading_zeros_exec(b);
        }
        count = count + 8;
        i = i + 1;
    }
    assert(hash@.subrange(32, 32).len() == 0);
    count
}

/// `drillx::Solution::is_valid`.  The contract claims that its result depends
/// on the challenge, nonce and digest alone, and names it.
#[verifier::external_body]
pub(crate) fn solution_is_valid(solution: &Solution, challenge: &[u8; 32]) -> (b: bool)
    ensures
        b == drillx_is_valid(challenge@, solution.n@, solution.d@),
{
    drillx::Solution::new(solution.d, solution.n).is_valid(challenge)
}

/// `drillx::Solution::to_hash`, keeping the hash bytes.  The contract claims
/// that they depend on the digest and nonce alone, and names them.
#[verifier::external_body]
pub(crate) fn solution_hash(solution: &Solution) -> (h: [u8; 32])
    ensures
        h@ == drillx_hash(solution.d@, solution.n@),
{
    drillx::Solution::new(solution.d, solution.n).to_hash().h
}

/// `drillx::hashes_with_memory`.  The contract claims that the hashes depend
/// on the challenge and nonce alone (the memory is scratch space), and names
/// them; and, as the source shows, that each hash is the one `Solution::to_hash`
/// computes from its digest and the nonce, and that each digest is an
/// equihash solution the verifier accepts for the challenge and nonce.
#[verifier::external_body]
pub(crate) fn hashes_with_memory(
    memory: &mut drillx::equix::SolverMemory,
    challenge: &[u8; 32],
    nonce: &[u8; 8],
) -> (hashes: Vec<DrillHash>)
    ensures
        hashes@.len() == drillx_hashes(challenge@, nonce@).len(),
        forall|i: int|
            0 <= i < hashes@.len() ==> (#[trigger] hashes@[i]).d@ == drillx_hashes(challenge@, nonce@)[i].0
                && hashes@[i].h@ == drillx_hashes(challenge@, nonce@)[i].1,
        forall|i: int|
            0 <= i < hashes@.len() ==> drillx_hash((#[trigger] hashes@[i]).d@, nonce@) == hashes@[i].h@
                && drillx_is_valid(challenge@, nonce@, hashes@[i].d@),
{
    drillx::hashes_with_memory(memory, challenge, nonce)
        .into_iter()
        .map(|hx| DrillHash { d: hx.d, h: hx.h })
        .collect()
}

/// The score of a solution: the difficulty of its hash.
pub open spec fn spec_solution_score(solution: Solution) -> u64 {
    leading_zero_bits(drillx_hash(solution.d@, solution.n@)) as u64
}

/// The score a solution earns: the number of leading zero bits of its hash.
pub fn solution_score(solution: &Solution) -> (score: u64)
    ensures
        score == spec_solution_score(*solution),
{
    let h = solution_hash(solution);
    proof {
        lemma_leading_zero_bits_bound(h@);
    }
    difficulty(h) as u64
}

/// A byte string has at most eight leading zero bits per byte.
pub proof fn lemma_leading_zero_bits_bound(h: Seq<u8>)
    ensures
        leading_zero_bits(h) <= 8 * h.len(),
    decreases h.len(),
{
    if h.len() > 0 && h[0] == 0 {
        lemma_leading_zero_bits_bound(h.drop_first());
    }
}

} // verus!
