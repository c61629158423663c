//! What the pool operator computes from the chain's accounts: the current
//! proof, the clock, the minimum score and the cutoff time of a challenge.

use vstd::prelude::*;

use crate::bytes::le_u64;

verus! {

/// Seconds that the operator keeps in reserve before a challenge's deadline.
pub const BUFFER_OPERATOR: u64 = 5;

/// Seconds between two hashes of a proof, by the ORE program's rules.
pub const ONE_MINUTE: i64 = 60;

/// The minimum difficulty the operator itself demands, if any.
pub fn operator_min_difficulty() -> (m: Option<u64>)
    ensures
        m == Some(7u64),
{
    Some(7)
}

/// The account discriminators of the ORE program.
pub const BUS_DISCRIMINATOR: u8 = 100;
pub const CONFIG_DISCRIMINATOR: u8 = 101;
pub const PROOF_DISCRIMINATOR: u8 = 102;

/// The fields of the operator's proof account that the pool reads.
#[derive(Clone, Copy, Debug)]
pub struct ProofInfo {
    /// The current mining challenge.
    pub challenge: [u8; 32],
    /// Timestamp of the last hash the proof accepted.
    pub last_hash_at: i64,
}

/// The fields of a bus account that the pool reads.
#[derive(Clone, Copy, Debug)]
pub struct BusInfo {
    pub id: u64,
    pub rewards: u64,
}

/// Why the operator could not read what it needs.
#[derive(Clone, Copy, Debug, PartialEq, Eq, Structural)]
pub enum OperatorError {
    /// The text is not a base-58 address.
    InvalidPubkey,
    /// No program address could be derived for the proof.
    NoProofAddress,
    /// The account data does not hold the expected account.
    InvalidAccountData,
    /// The clock sysvar data does not decode.
    InvalidClock,
}

/// Account data that steel's deserializer can be handed without panicking:
/// not empty, and at least a header long when it carries the discriminator.
pub open spec fn account_readable(data: Seq<u8>, discriminator: u8) -> bool {
    data.len() >= 1 && (data[0] == discriminator ==> data.len() >= 8)
}

/// The signed number that eight little-endian bytes encode.
pub open spec fn le_i64(b: Seq<u8>) -> i64 {
    le_u64(b) as i64
}

/// What `Pubkey::from_str` gives for a text: its 32 bytes, or nothing.
pub uninterp spec fn pubkey_from_str(s: Seq<char>) -> Option<Seq<u8>>;

/// The address of the ORE proof account of an authority, if one can be derived.
pub uninterp spec fn ore_proof_address(authority: Seq<u8>) -> Option<Seq<u8>>;

/// `solana_program::pubkey::Pubkey::from_str` (base-58 decoding).  The contract
/// claims that the result depends on the text alone, and names it.
#[verifier::external_body]
fn pubkey_parse(s: &str) -> (r: Option<[u8; 32]>)
    ensures
        r is Some <==> pubkey_from_str(s@) is Some,
        r matches Some(k) ==> pubkey_from_str(s@) == Some(k@),
{
    <solana_program::pubkey::Pubkey as std::str::FromStr>::from_str(s).ok().map(|k| k.to_bytes())
}

/// `Pubkey::try_find_program_address` with the seeds of `ore_api::state::proof_pda`
/// (the `proof` seed and the authority, under the ORE program).  The contract
/// claims that the result depends on the authority alone, and names it.
#[verifier::external_body]
fn find_proof_address(authority: &[u8; 32]) -> (r: Option<[u8; 32]>)
    ensures
        r is Some <==> ore_proof_address(authority@) is Some,
        r matches Some(k) ==> ore_proof_address(authority@) == Some(k@),
{
    solana_program::pubkey::Pubkey::try_find_program_address(
        &[ore_api::consts::PROOF, authority.as_slice()],
        &ore_api::ID,
    ).map(|found| found.0.to_bytes())
}

/// `<ore_api::state::Proof as steel::AccountDeserialize>::try_from_bytes`.  It
/// checks the discriminator byte and casts the rest with `bytemuck`, which
/// refuses a slice of the wrong size or at an address not aligned for the
/// account.  The data is first copied into storage of `u64` words, so the
/// alignment holds; then the cast succeeds exactly when the discriminator and
/// the size are right, and reads the `repr(C)` fields at their offsets.
#[verifier::external_body]
fn ore_proof_from_bytes(data: &[u8]) -> (r: Option<ProofInfo>)
    requires
        data@.len() >= 8,
    ensures
        r is Some <==> (data@[0] == PROOF_DISCRIMINATOR && data@.len() == 176),
        r matches Some(p) ==> p.challenge@ == data@.subrange(48, 80)
            && p.last_hash_at == le_i64(data@.subrange(112, 120)),
{
    let mut words = vec![0u64; data.len()];
    let aligned = &mut bytemuck::cast_slice_mut::<u64, u8>(&mut words)[..data.len()];
    aligned.copy_from_slice(data);
    <ore_api::state::Proof as steel::AccountDeserialize>::try_from_bytes(aligned)
        .ok()
        .map(|p| ProofInfo { challenge: p.challenge, last_hash_at: p.last_hash_at })
}

/// `<ore_api::state::Config as steel::AccountDeserialize>::try_from_bytes`, keeping
/// the minimum difficulty.  As for proofs, the data is copied into aligned
/// storage first, so the cast succeeds exactly when the discriminator and the
/// size are right, and reads the field at its `repr(C)` offset.
#[verifier::external_body]
fn ore_config_min_difficulty(data: &[u8]) -> (r: Option<u64>)
    requires
        data@.len() >= 8,
    ensures
        r is Some <==> (data@[0] == CONFIG_DISCRIMINATOR && data@.len() == 40),
        r matches Some(m) ==> m == le_u64(data@.subrange(24, 32)),
{
    let mut words = vec![0u64; data.len()];
    let aligned = &mut bytemuck::cast_slice_mut::<u64, u8>(&mut words)[..data.len()];
    aligned.copy_from_slice(data);
    <ore_api::state::Config as steel::AccountDeserialize>::try_from_bytes(aligned).ok().map(|c| c.min_difficulty)
}

/// What the bus parser reads from account data: the id and the rewards of a
/// bus account (discriminator and size right), nothing otherwise.
pub open spec fn spec_bus_read(data: Seq<u8>) -> Option<BusInfo> {
    if data.len() == 40 && data[0] == BUS_DISCRIMINATOR {
        Some(BusInfo { id: le_u64(data.subrange(8, 16)) as u64, rewards: le_u64(data.subrange(16, 24)) as u64 })
    } else {
        None
    }
}

/// `<ore_api::state::Bus as steel::AccountDeserialize>::try_from_bytes`, keeping
/// the id and the rewards.  As for proofs, the data is copied into aligned
/// storage first, so the cast succeeds exactly when the discriminator and the
/// size are right, and reads the fields at their `repr(C)` offsets.
#[verifier::external_body]
pub(crate) fn ore_bus_from_bytes(data: &[u8]) -> (r: Option<BusInfo>)
    requires
        data@.len() >= 8,
    ensures
        r == spec_bus_read(data@),
{
    let mut words = vec![0u64; data.len()];
    let aligned = &mut bytemuck::cast_slice_mut::<u64, u8>(&mut words)[..data.len()];
    aligned.copy_from_slice(data);
    <ore_api::state::Bus as steel::AccountDeserialize>::try_from_bytes(aligned).ok().map(|b| BusInfo { id: b.id, rewards: b.rewards })
}

/// `bincode::deserialize::<solana_program::clock::Clock>`, keeping the unix
/// timestamp.  With bincode's default options the five fixed-size fields are
/// read little-endian and trailing bytes are allowed, so decoding succeeds
/// exactly when there are 40 bytes or more; the timestamp is the fifth field.
#[verifier::external_body]
fn clock_unix_timestamp(data: &[u8]) -> (r: Option<i64>)
    ensures
        r is Some <==> data@.len() >= 40,
        r matches Some(t) ==> t == le_i64(data@.subrange(32, 40)),
{
    bincode::deserialize::<solana_program::clock::Clock>(data).ok().map(|c| c.unix_timestamp)
}

/// `x` clamped to the range of `i64`: the result of saturating arithmetic.
pub open spec fn saturate_i64(x: int) -> int {
    if x > i64::MAX {
        i64::MAX as int
    } else if x < i64::MIN {
        i64::MIN as int
    } else {
        x
    }
}

/// `i64::saturating_add`.
pub fn i64_saturating_add(a: i64, b: i64) -> (r: i64)
    ensures
        r == saturate_i64(a + b),
{
    let s: i128 = a as i128 + b as i128;
    if s > i64::MAX as i128 {
        i64::MAX
    } else if s < i64::MIN as i128 {
        i64::MIN
    } else {
        s as i64
    }
}

/// `i64::saturating_sub`.
pub fn i64_saturating_sub(a: i64, b: i64) -> (r: i64)
    ensures
        r == saturate_i64(a - b),
{
    let s: i128 = a as i128 - b as i128;
    if s > i64::MAX as i128 {
        i64::MAX
    } else if s < i64::MIN as i128 {
        i64::MIN
    } else {
        s as i64
    }
}

/// Seconds left before the operator must submit: one minute after the
/// proof's last hash, less the operator's reserve, less the current time;
/// each step saturating, and never below zero.
pub open spec fn spec_cutoff(last_hash_at: i64, unix_timestamp: i64) -> int {
    let a = saturate_i64(last_hash_at + ONE_MINUTE);
    let b = saturate_i64(a - BUFFER_OPERATOR);
    let c = saturate_i64(b - unix_timestamp);
    if c > 0 { c } else { 0 }
}

/// Whether an address has an ORE proof account address.
pub(crate) fn proof_address_exists(authority: &[u8; 32]) -> (b: bool)
    ensures
        b == (ore_proof_address(authority@) is Some),
{
    find_proof_address(authority).is_some()
}

/// The operator's identity on chain: its authority and the address of the
/// authority's ORE proof account.
#[derive(Clone, Copy, Debug)]
pub struct Operator {
    /// The authority address.
    pub authority: [u8; 32],
    /// The proof address.
    pub proof_address: [u8; 32],
}

impl Operator {
    /// The operator of the authority given as base-58 text, with its proof address.
    pub fn new(authority_text: &str) -> (r: Result<Operator, OperatorError>)
        ensures
            pubkey_from_str(authority_text@) is None ==> r == Err::<Operator, OperatorError>(OperatorError::InvalidPubkey),
            pubkey_from_str(authority_text@) matches Some(k) ==> match ore_proof_address(k) {
                None => r == Err::<Operator, OperatorError>(OperatorError::NoProofAddress),
                Some(p) => r matches Ok(op) && op.authority@ == k && op.proof_address@ == p,
            },
    {
        let authority = Self::authority(authority_text)?;
        let proof_address = Self::proof_address(authority)?;
        Ok(Operator { authority, proof_address })
    }

    /// Reads the pool authority's address from its base-58 text.
    pub fn authority(text: &str) -> (r: Result<[u8; 32], OperatorError>)
        ensures
            r is Ok <==> pubkey_from_str(text@) is Some,
            r matches Ok(k) ==> pubkey_from_str(text@) == Some(k@),
            r matches Err(e) ==> e == OperatorError::InvalidPubkey,
    {
        match pubkey_parse(text) {
            Some(k) => Ok(k),
            None => Err(OperatorError::InvalidPubkey),
        }
    }

    /// The address of the authority's ORE proof account.
    pub fn proof_address(authority: [u8; 32]) -> (r: Result<[u8; 32], OperatorError>)
        ensures
            r is Ok <==> ore_proof_address(authority@) is Some,
            r matches Ok(k) ==> ore_proof_address(authority@) == Some(k@),
            r matches Err(e) ==> e == OperatorError::NoProofAddress,
    {
        match find_proof_address(&authority) {
            Some(k) => Ok(k),
            None => Err(OperatorError::NoProofAddress),
        }
    }

    /// Reads the operator's proof from its account data.
    pub fn get_proof(&self, data: &[u8]) -> (r: Result<ProofInfo, OperatorError>)
        requires
            account_readable(data@, PROOF_DISCRIMINATOR),
        ensures
            r is Ok <==> (data@[0] == PROOF_DISCRIMINATOR && data@.len() == 176),
            r matches Ok(p) ==> data@[0] == PROOF_DISCRIMINATOR && data@.len() == 176
                && p.challenge@ == data@.subrange(48, 80)
                && p.last_hash_at == le_i64(data@.subrange(112, 120)),
            r matches Err(e) ==> e == OperatorError::InvalidAccountData,
            data@[0] != PROOF_DISCRIMINATOR || data@.len() != 176 ==> r is Err,
    {
        if data[0] != PROOF_DISCRIMINATOR {
            return Err(OperatorError::InvalidAccountData);
        }
        match ore_proof_from_bytes(data) {
            Some(p) => Ok(p),
            None => Err(OperatorError::InvalidAccountData),
        }
    }

    /// Reads the program's minimum difficulty from the ORE config account data.
    pub fn get_config(&self, data: &[u8]) -> (r: Result<u64, OperatorError>)
        requires
            account_readable(data@, CONFIG_DISCRIMINATOR),
        ensures
            r is Ok <==> (data@[0] == CONFIG_DISCRIMINATOR && data@.len() == 40),
            r matches Ok(m) ==> data@[0] == CONFIG_DISCRIMINATOR && data@.len() == 40
                && m == le_u64(data@.subrange(24, 32)),
            r matches Err(e) ==> e == OperatorError::InvalidAccountData,
            data@[0] != CONFIG_DISCRIMINATOR || data@.len() != 40 ==> r is Err,
    {
        if data[0] != CONFIG_DISCRIMINATOR {
            return Err(OperatorError::InvalidAccountData);
        }
        match ore_config_min_difficulty(data) {
            Some(m) => Ok(m),
            None => Err(OperatorError::InvalidAccountData),
        }
    }

    /// Reads the unix timestamp from the clock sysvar data.
    pub fn get_clock(&self, data: &[u8]) -> (r: Result<i64, OperatorError>)
        ensures
            r is Ok <==> data@.len() >= 40,
            r matches Ok(t) ==> t == le_i64(data@.subrange(32, 40)),
            r matches Err(e) ==> e == OperatorError::InvalidClock,
    {
        match clock_unix_timestamp(data) {
            Some(t) => Ok(t),
            None => Err(OperatorError::InvalidClock),
        }
    }

    /// The number of seconds until the current challenge's cutoff.
    pub fn get_cutoff(&self, proof: &ProofInfo, unix_timestamp: i64) -> (cutoff: u64)
        ensures
            cutoff == spec_cutoff(proof.last_hash_at, unix_timestamp),
    {
        let a = i64_saturating_add(proof.last_hash_at, ONE_MINUTE);
        let b = i64_saturating_sub(a, BUFFER_OPERATOR as i64);
        let c = i64_saturating_sub(b, unix_timestamp);
        if c > 0 {
            c as u64
        } else {
            0
        }
    }

    /// The minimum score the pool accepts: the program's minimum difficulty,
    /// raised to the operator's own minimum when it has one.
    pub fn min_score(&self, program_min: u64) -> (m: u64)
        ensures
            m == (if program_min >= 7 { program_min } else { 7 }),
    {
        match operator_min_difficulty() {
            Some(operator_min) => {
                if program_min >= operator_min {
                    program_min
                } else {
                    operator_min
                }
            },
            None => program_min,
        }
    }
}

/// Ticks of the simulated clock between two fetches of the chain's clock.
pub const CLOCK_REFRESH_TICKS: u32 = 10;

/// One second of the pool's simulated clock.
#[derive(Clone, Copy, Debug, PartialEq, Eq, Structural)]
pub enum ClockStep {
    /// Fetch the chain's clock again.
    Refetch,
    /// Broadcast `unix_timestamp`, then continue from `next_timestamp` after `ticks` ticks.
    Send { unix_timestamp: i64, next_timestamp: i64, ticks: u32 },
}

/// The next second of the simulated clock, `ticks` ticks after the last fetch
/// of the chain's clock: every tenth tick fetches again; the others broadcast
/// the timestamp and advance it by one second.
pub fn clock_tick(ticks: u32, unix_timestamp: i64) -> (step: ClockStep)
    requires
        ticks < CLOCK_REFRESH_TICKS,
        ticks + 1 < CLOCK_REFRESH_TICKS ==> unix_timestamp < i64::MAX,
    ensures
        step == (if ticks + 1 == CLOCK_REFRESH_TICKS {
            ClockStep::Refetch
        } else {
            ClockStep::Send {
                unix_timestamp,
                next_timestamp: (unix_timestamp + 1) as i64,
                ticks: (ticks + 1) as u32,
            }
        }),
{
    let ticks = ticks + 1;
    if ticks == CLOCK_REFRESH_TICKS {
        ClockStep::Refetch
    } else {
        ClockStep::Send { unix_timestamp, next_timestamp: unix_timestamp + 1, ticks }
    }
}

/// Once the clock has reached 55 seconds after the proof's last hash, no time
/// is left; before that, and away from the bounds of `i64`, the time left is
/// exactly the distance to that moment.
pub proof fn lemma_cutoff_bounds(last_hash_at: i64, unix_timestamp: i64)
    ensures
        unix_timestamp >= last_hash_at + 55 ==> spec_cutoff(last_hash_at, unix_timestamp) == 0,
        (last_hash_at <= i64::MAX - 60 && unix_timestamp >= 0 && last_hash_at + 55 - unix_timestamp >= 0)
            ==> spec_cutoff(last_hash_at, unix_timestamp) == last_hash_at + 55 - unix_timestamp,
{
}

} // verus!
