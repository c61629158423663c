//! Little helpers for fixed-size byte fields.

use vstd::prelude::*;

verus! {

/// Copies `N = 8` bytes starting at `start` into an array.
pub fn read_array8(data: &[u8], start: usize) -> (a: [u8; 8])
    requires
        start + 8 <= data@.len(),
    ensures
        a@ == data@.subrange(start as int, start + 8),
{
    let mut a = [0u8; 8];
    let mut i: usize = 0;
    while i < 8
        invariant
            i <= 8,
            start + 8 <= data.len(),
            forall|j: int| 0 <= j < i ==> a@[j] == data@[start + j],
        decreases 8 - i,
    {
        a[i] = data[start + i];
        i = i + 1;
    }
    assert(a@ =~= data@.subrange(start as int, start + 8));
    a
}

/// Copies 16 bytes starting at `start` into an array.
pub fn read_array16(data: &[u8], start: usize) -> (a: [u8; 16])
    requires
        start + 16 <= data@.len(),
    ensures
        a@ == data@.subrange(start as int, start + 16),
{
    let mut a = [0u8; 16];
    let mut i: usize = 0;
    while i < 16
        invariant
            i <= 16,
            start + 16 <= data.len(),
            forall|j: int| 0 <= j < i ==> a@[j] == data@[start + j],
        decreases 16 - i,
    {
        a[i] = data[start + i];
        i = i + 1;
    }
    assert(a@ =~= data@.subrange(start as int, start + 16));
    a
}

/// Copies 32 bytes starting at `start` into an array.
pub fn read_array32(data: &[u8], start: usize) -> (a: [u8; 32])
    requires
        start + 32 <= data@.len(),
    ensures
        a@ == data@.subrange(start as int, start + 32),
{
    let mut a = [0u8; 32];
    let mut i: usize = 0;
    while i < 32
        invariant
            i <= 32,
            start + 32 <= data.len(),
            forall|j: int| 0 <= j < i ==> a@[j] == data@[start + j],
        decreases 32 - i,
    {
        a[i] = data[start + i];
        i = i + 1;
    }
    assert(a@ =~= data@.subrange(start as int, start + 32));
    a
}

/// Copies 128 bytes starting at `start` into an array.
pub fn read_array128(data: &[u8], start: usize) -> (a: [u8; 128])
    requires
        start + 128 <= data@.len(),
    ensures
        a@ == data@.subrange(start as int, start + 128),
{
    let mut a = [0u8; 128];
    let mut i: usize = 0;
    while i < 128
        invariant
            i <= 128,
            start + 128 <= data.len(),
            forall|j: int| 0 <= j < i ==> a@[j] == data@[start + j],
        decreases 128 - i,
    {
        a[i] = data[start + i];
        i = i + 1;
    }
    assert(a@ =~= data@.subrange(start as int, start + 128));
    a
}

/// Appends the bytes of `s` to `v`.
pub fn append_bytes(v: &mut Vec<u8>, s: &[u8])
    ensures
        final(v)@ == old(v)@ + s@,
{
    let ghost start = v@;
    let mut i: usize = 0;
    while i < s.len()
        invariant
            i <= s@.len(),
            v@ == start + s@.subrange(0, i as int),
        decreases s@.len() - i,
    {
        v.push(s[i]);
        i = i + 1;
        assert(v@ =~= start + s@.subrange(0, i as int));
    }
    assert(s@.subrange(0, s@.len() as int) =~= s@);
}

/// The unsigned number that eight bytes encode, least significant first.
pub open spec fn le_u64(b: Seq<u8>) -> int {
    b[0] + 0x100 * b[1] + 0x1_0000 * b[2] + 0x100_0000 * b[3] + 0x1_0000_0000 * b[4]
        + 0x100_0000_0000 * b[5] + 0x1_0000_0000_0000 * b[6] + 0x100_0000_0000_0000 * b[7]
}

/// Decodes eight little-endian bytes, as `u64::from_le_bytes` does.
pub fn u64_from_le_bytes(b: [u8; 8]) -> (r: u64)
    ensures
        r == le_u64(b@),
{
    (b[0] as u64) + 0x100 * (b[1] as u64) + 0x1_0000 * (b[2] as u64) + 0x100_0000 * (b[3] as u64)
        + 0x1_0000_0000 * (b[4] as u64) + 0x100_0000_0000 * (b[5] as u64)
        + 0x1_0000_0000_0000 * (b[6] as u64) + 0x100_0000_0000_0000 * (b[7] as u64)
}

/// Compares two 32-byte addresses.
pub fn bytes32_eq(a: &[u8; 32], b: &[u8; 32]) -> (r: bool)
    ensures
        r == (*a == *b),
{
    broadcast use vstd::array::group_array_axioms;
    let mut i: usize = 0;
    while i < 32
        invariant
            i <= 32,
            forall|j: int| 0 <= j < i ==> a[j] == b[j],
        decreases 32 - i,
    {
        if a[i] != b[i] {
            assert(a[i as int] != b[i as int]);
            return false;
        }
        i = i + 1;
    }
    assert(*a =~= *b);
    true
}

/// The eight bytes of a number, least significant first (`u64::to_le_bytes`).
pub open spec fn spec_le_bytes(n: u64) -> Seq<u8> {
    seq![
        (n % 0x100) as u8,
        ((n / 0x100) % 0x100) as u8,
        ((n / 0x1_0000) % 0x100) as u8,
        ((n / 0x100_0000) % 0x100) as u8,
        ((n / 0x1_0000_0000) % 0x100) as u8,
        ((n / 0x100_0000_0000) % 0x100) as u8,
        ((n / 0x1_0000_0000_0000) % 0x100) as u8,
        ((n / 0x100_0000_0000_0000) % 0x100) as u8,
    ]
}

/// `u64::to_le_bytes`.
pub fn u64_to_le_bytes(n: u64) -> (b: [u8; 8])
    ensures
        b@ == spec_le_bytes(n),
{
    let b: [u8; 8] = [
        (n % 0x100) as u8,
        ((n / 0x100) % 0x100) as u8,
        ((n / 0x1_0000) % 0x100) as u8,
        ((n / 0x100_0000) % 0x100) as u8,
        ((n / 0x1_0000_0000) % 0x100) as u8,
        ((n / 0x100_0000_0000) % 0x100) as u8,
        ((n / 0x1_0000_0000_0000) % 0x100) as u8,
        ((n / 0x100_0000_0000_0000) % 0x100) as u8,
    ];
    assert(b@ =~= spec_le_bytes(n));
    b
}

/// Decoding the little-endian bytes of a number gives the number back.
pub proof fn lemma_le_bytes_roundtrip(n: u64)
    ensures
        le_u64(spec_le_bytes(n)) == n,
{
    let b = spec_le_bytes(n);
    assert((n % 0x100) as u8 + 0x100 * (((n / 0x100) % 0x100) as u8) + 0x1_0000 * (((n / 0x1_0000) % 0x100) as u8)
        + 0x100_0000 * (((n / 0x100_0000) % 0x100) as u8) + 0x1_0000_0000 * (((n / 0x1_0000_0000) % 0x100) as u8)
        + 0x100_0000_0000 * (((n / 0x100_0000_0000) % 0x100) as u8)
        + 0x1_0000_0000_0000 * (((n / 0x1_0000_0000_0000) % 0x100) as u8)
        + 0x100_0000_0000_0000 * (((n / 0x100_0000_0000_0000) % 0x100) as u8) == n) by (bit_vector);
}

/// Encoding the number that eight bytes decode to gives the bytes back.
pub proof fn lemma_le_bytes_of_decoded(b: Seq<u8>)
    requires
        b.len() == 8,
    ensures
        spec_le_bytes(le_u64(b) as u64) == b,
{
    let (b0, b1, b2, b3, b4, b5, b6, b7) = (b[0], b[1], b[2], b[3], b[4], b[5], b[6], b[7]);
    let v: u64 = (b0 + 0x100 * b1 + 0x1_0000 * b2 + 0x100_0000 * b3 + 0x1_0000_0000 * b4
        + 0x100_0000_0000 * b5 + 0x1_0000_0000_0000 * b6 + 0x100_0000_0000_0000 * b7) as u64;
    assert(v == b0 + 0x100 * b1 + 0x1_0000 * b2 + 0x100_0000 * b3 + 0x1_0000_0000 * b4
        + 0x100_0000_0000 * b5 + 0x1_0000_0000_0000 * b6 + 0x100_0000_0000_0000 * b7 ==> {
        &&& (v % 0x100) as u8 == b0
        &&& ((v / 0x100) % 0x100) as u8 == b1
        &&& ((v / 0x1_0000) % 0x100) as u8 == b2
        &&& ((v / 0x100_0000) % 0x100) as u8 == b3
        &&& ((v / 0x1_0000_0000) % 0x100) as u8 == b4
        &&& ((v / 0x100_0000_0000) % 0x100) as u8 == b5
        &&& ((v / 0x1_0000_0000_0000) % 0x100) as u8 == b6
        &&& ((v / 0x100_0000_0000_0000) % 0x100) as u8 == b7
    }) by (bit_vector);
    assert(spec_le_bytes(v) =~= b);
}

/// A signed number survives the round trip through its two's complement bits.
pub proof fn lemma_i64_bits_roundtrip(x: i64)
    ensures
        ((x as u64) as i64) == x,
{
    assert(((x as u64) as i64) == x) by (bit_vector);
}

} // verus!
