//! The pool program's account that tracks the pool's lifetime statistics.

use vstd::prelude::*;

use crate::bytes::{
    append_bytes, le_u64, lemma_le_bytes_of_decoded, lemma_le_bytes_roundtrip, read_array128,
    read_array32, read_array8, spec_le_bytes, u64_from_le_bytes, u64_to_le_bytes,
};

verus! {

/// Pool tracks global lifetime stats about the mining pool.
#[derive(Clone, Copy, Debug)]
pub struct Pool {
    /// The authority of this pool.
    pub authority: [u8; 32],
    /// The bump used for signing CPIs.
    pub bump: u64,
    /// The url where hashes should be submitted (right padded with 0s).
    pub url: [u8; 128],
    /// The latest attestation posted by this pool operator.
    pub attestation: [u8; 32],
    /// Foreign key to the ORE proof account.
    pub last_hash_at: i64,
    /// The reward from the most recent solution.
    pub reward: u64,
    /// The total number of hashes this pool has submitted.
    pub total_submissions: u64,
    /// The total number of members in this pool.
    pub total_members: u64,
    /// The total number of members in this pool at the last submission.
    pub last_total_members: u64,
}

impl Pool {
    /// The account's `repr(C)` layout: the fields in order, numbers little-endian.
    pub open spec fn spec_bytes(self) -> Seq<u8> {
        self.authority@ + spec_le_bytes(self.bump) + self.url@ + self.attestation@
            + spec_le_bytes(self.last_hash_at as u64) + spec_le_bytes(self.reward)
            + spec_le_bytes(self.total_submissions) + spec_le_bytes(self.total_members)
            + spec_le_bytes(self.last_total_members)
    }

    /// The bytes of the account, without its discriminator.
    pub fn to_bytes(&self) -> (v: Vec<u8>)
        ensures
            v@ == self.spec_bytes(),
            v@.len() == 240,
    {
        let mut v: Vec<u8> = Vec::new();
        append_bytes(&mut v, &self.authority);
        append_bytes(&mut v, &u64_to_le_bytes(self.bump));
        append_bytes(&mut v, &self.url);
        append_bytes(&mut v, &self.attestation);
        append_bytes(&mut v, &u64_to_le_bytes(self.last_hash_at as u64));
        append_bytes(&mut v, &u64_to_le_bytes(self.reward));
        append_bytes(&mut v, &u64_to_le_bytes(self.total_submissions));
        append_bytes(&mut v, &u64_to_le_bytes(self.total_members));
        append_bytes(&mut v, &u64_to_le_bytes(self.last_total_members));
        v
    }

    /// Reads the account from its bytes (without discriminator): exactly the
    /// 240 bytes of its layout.
    pub fn from_bytes(data: &[u8]) -> (r: Option<Pool>)
        ensures
            r is Some <==> data@.len() == 240,
            r matches Some(p) ==> p.spec_bytes() == data@,
    {
        if data.len() != 240 {
            return None;
        }
        let last_hash_at_bits = u64_from_le_bytes(read_array8(data, 200));
        let pool = Pool {
            authority: read_array32(data, 0),
            bump: u64_from_le_bytes(read_array8(data, 32)),
            url: read_array128(data, 40),
            attestation: read_array32(data, 168),
            last_hash_at: last_hash_at_bits as i64,
            reward: u64_from_le_bytes(read_array8(data, 208)),
            total_submissions: u64_from_le_bytes(read_array8(data, 216)),
            total_members: u64_from_le_bytes(read_array8(data, 224)),
            last_total_members: u64_from_le_bytes(read_array8(data, 232)),
        };
        proof {
            let d = data@;
            lemma_le_bytes_of_decoded(d.subrange(32, 40));
            lemma_le_bytes_of_decoded(d.subrange(200, 208));
            lemma_le_bytes_of_decoded(d.subrange(208, 216));
            lemma_le_bytes_of_decoded(d.subrange(216, 224));
            lemma_le_bytes_of_decoded(d.subrange(224, 232));
            lemma_le_bytes_of_decoded(d.subrange(232, 240));
            assert(((last_hash_at_bits as i64) as u64) == last_hash_at_bits) by (bit_vector);
            assert(pool.spec_bytes() =~= d);
        }
        Some(pool)
    }
}

/// Where each field of the pool account lies in its layout.
#[verifier::rlimit(50)]
proof fn lemma_pool_layout(p: Pool)
    ensures
        p.spec_bytes().len() == 240,
        p.spec_bytes().subrange(32, 40) == spec_le_bytes(p.bump),
        p.spec_bytes().subrange(200, 208) == spec_le_bytes(p.last_hash_at as u64),
        p.spec_bytes().subrange(208, 216) == spec_le_bytes(p.reward),
        p.spec_bytes().subrange(216, 224) == spec_le_bytes(p.total_submissions),
        p.spec_bytes().subrange(224, 232) == spec_le_bytes(p.total_members),
        p.spec_bytes().subrange(232, 240) == spec_le_bytes(p.last_total_members),
        p.spec_bytes().subrange(0, 32) == p.authority@,
        p.spec_bytes().subrange(40, 168) == p.url@,
        p.spec_bytes().subrange(168, 200) == p.attestation@,
{
    assert(p.spec_bytes().subrange(32, 40) =~= spec_le_bytes(p.bump));
    assert(p.spec_bytes().subrange(200, 208) =~= spec_le_bytes(p.last_hash_at as u64));
    assert(p.spec_bytes().subrange(208, 216) =~= spec_le_bytes(p.reward));
    assert(p.spec_bytes().subrange(216, 224) =~= spec_le_bytes(p.total_submissions));
    assert(p.spec_bytes().subrange(224, 232) =~= spec_le_bytes(p.total_members));
    assert(p.spec_bytes().subrange(232, 240) =~= spec_le_bytes(p.last_total_members));
    assert(p.spec_bytes().subrange(0, 32) =~= p.authority@);
    assert(p.spec_bytes().subrange(40, 168) =~= p.url@);
    assert(p.spec_bytes().subrange(168, 200) =~= p.attestation@);
}

/// The layout of the pool account determines it: decoding the bytes of an
/// account gives that account back.
pub proof fn lemma_pool_bytes_injective(p1: Pool, p2: Pool)
    ensures
        p1.spec_bytes() == p2.spec_bytes() ==> p1 == p2,
{
    if p1.spec_bytes() == p2.spec_bytes() {
        lemma_pool_layout(p1);
        lemma_pool_layout(p2);
        assert(p1.bump == p2.bump) by {
            lemma_le_bytes_roundtrip(p1.bump);
            lemma_le_bytes_roundtrip(p2.bump);
        }
        assert(p1.last_hash_at as u64 == p2.last_hash_at as u64) by {
            lemma_le_bytes_roundtrip(p1.last_hash_at as u64);
            lemma_le_bytes_roundtrip(p2.last_hash_at as u64);
        }
        assert(p1.reward == p2.reward) by {
            lemma_le_bytes_roundtrip(p1.reward);
            lemma_le_bytes_roundtrip(p2.reward);
        }
        assert(p1.total_submissions == p2.total_submissions) by {
            lemma_le_bytes_roundtrip(p1.total_submissions);
            lemma_le_bytes_roundtrip(p2.total_submissions);
        }
        assert(p1.total_members == p2.total_members) by {
            lemma_le_bytes_roundtrip(p1.total_members);
            lemma_le_bytes_roundtrip(p2.total_members);
        }
        assert(p1.last_total_members == p2.last_total_members) by {
            lemma_le_bytes_roundtrip(p1.last_total_members);
            lemma_le_bytes_roundtrip(p2.last_total_members);
        }
        broadcast use vstd::array::group_array_axioms;
        assert(p1.authority =~= p2.authority);
        assert(p1.url =~= p2.url);
        assert(p1.attestation =~= p2.attestation);
        let (x1, x2) = (p1.last_hash_at, p2.last_hash_at);
        assert((x1 as u64) == (x2 as u64) ==> x1 == x2) by (bit_vector);
    }
}

} // verus!
