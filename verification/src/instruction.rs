//! Instructions of the pool program: their one-byte tags and argument layouts.

use vstd::prelude::*;

use crate::bytes::{append_bytes, read_array16, read_array32, read_array8};
use crate::types::Solution;

verus! {

/// The instructions understood by the pool program.
#[derive(Clone, Copy, Debug, PartialEq, Eq, Structural)]
pub enum PoolInstruction {
    // User
    Open,
    Claim,
    Stake,
    // Operator
    Launch,
    Attribute,
    Submit,
}

/// The tag byte that identifies an instruction on the wire.
pub open spec fn spec_tag(ix: PoolInstruction) -> u8 {
    match ix {
        PoolInstruction::Open => 0,
        PoolInstruction::Claim => 1,
        PoolInstruction::Stake => 2,
        PoolInstruction::Launch => 200,
        PoolInstruction::Attribute => 100,
        PoolInstruction::Submit => 102,
    }
}

/// The instruction that a tag byte names, if any.
pub open spec fn spec_from_tag(tag: u8) -> Option<PoolInstruction> {
    if tag == 0 {
        Some(PoolInstruction::Open)
    } else if tag == 1 {
        Some(PoolInstruction::Claim)
    } else if tag == 2 {
        Some(PoolInstruction::Stake)
    } else if tag == 200 {
        Some(PoolInstruction::Launch)
    } else if tag == 100 {
        Some(PoolInstruction::Attribute)
    } else if tag == 102 {
        Some(PoolInstruction::Submit)
    } else {
        None
    }
}

impl PoolInstruction {
    /// The tag byte of this instruction.
    pub fn tag(&self) -> (t: u8)
        ensures
            t == spec_tag(*self),
    {
        match self {
            PoolInstruction::Open => 0,
            PoolInstruction::Claim => 1,
            PoolInstruction::Stake => 2,
            PoolInstruction::Launch => 200,
            PoolInstruction::Attribute => 100,
            PoolInstruction::Submit => 102,
        }
    }

    /// The instruction data prefix: the tag byte alone.
    pub fn to_vec(&self) -> (v: Vec<u8>)
        ensures
            v@ == seq![spec_tag(*self)],
    {
        vec![self.tag()]
    }

    /// Decodes a tag byte; `None` when no instruction has that tag.
    pub fn try_from_u8(tag: u8) -> (r: Option<PoolInstruction>)
        ensures
            r == spec_from_tag(tag),
    {
        if tag == 0 {
            Some(PoolInstruction::Open)
        } else if tag == 1 {
            Some(PoolInstruction::Claim)
        } else if tag == 2 {
            Some(PoolInstruction::Stake)
        } else if tag == 200 {
            Some(PoolInstruction::Launch)
        } else if tag == 100 {
            Some(PoolInstruction::Attribute)
        } else if tag == 102 {
            Some(PoolInstruction::Submit)
        } else {
            None
        }
    }
}

/// Decoding the tag of an instruction gives the instruction back.
pub proof fn lemma_tag_roundtrip(ix: PoolInstruction)
    ensures
        spec_from_tag(spec_tag(ix)) == Some(ix),
{
}

/// A tag that decodes to an instruction is that instruction's tag.
pub proof fn lemma_tag_injective(tag: u8)
    ensures
        spec_from_tag(tag) matches Some(ix) ==> spec_tag(ix) == tag,
{
}


/// The error an instruction decoder reports for malformed data.
#[derive(Clone, Copy, Debug, PartialEq, Eq, Structural)]
pub enum InstructionError {
    /// The data does not have the layout of the expected arguments.
    InvalidInstructionData,
}

/// Arguments of the `Attribute` instruction: a balance as eight little-endian bytes.
#[derive(Clone, Copy, Debug)]
pub struct AttributeArgs {
    pub balance: [u8; 8],
}

/// Arguments of the `Claim` instruction: an amount as eight little-endian bytes.
#[derive(Clone, Copy, Debug)]
pub struct ClaimArgs {
    pub amount: [u8; 8],
}

/// Arguments of the `Launch` instruction.
#[derive(Clone, Copy, Debug)]
pub struct LaunchArgs {
    pub pool_bump: u8,
    pub proof_bump: u8,
}

/// Arguments of the `Open` instruction.
#[derive(Clone, Copy, Debug)]
pub struct OpenArgs {
    pub member_bump: u8,
}

/// Arguments of the `Submit` instruction.
#[derive(Clone, Copy, Debug)]
pub struct SubmitArgs {
    pub attestation: [u8; 32],
    pub digest: [u8; 16],
    pub nonce: [u8; 8],
}

impl AttributeArgs {
    /// The wire layout: the balance bytes.
    pub open spec fn spec_bytes(self) -> Seq<u8> {
        self.balance@
    }

    /// The bytes of these arguments, in their `repr(C)` layout.
    pub fn to_bytes(&self) -> (v: Vec<u8>)
        ensures
            v@ == self.spec_bytes(),
    {
        let mut v: Vec<u8> = Vec::new();
        append_bytes(&mut v, &self.balance);
        v
    }

    /// Reads arguments from instruction data, which must have exactly their size.
    pub fn try_from_bytes(data: &[u8]) -> (r: Result<AttributeArgs, InstructionError>)
        ensures
            data@.len() == 8 <==> r is Ok,
            r matches Ok(a) ==> a.balance@ == data@,
            r matches Err(e) ==> e == InstructionError::InvalidInstructionData,
    {
        if data.len() == 8 {
            Ok(AttributeArgs { balance: read_array8(data, 0) })
        } else {
            Err(InstructionError::InvalidInstructionData)
        }
    }
}

impl ClaimArgs {
    /// The wire layout: the amount bytes.
    pub open spec fn spec_bytes(self) -> Seq<u8> {
        self.amount@
    }

    /// The bytes of these arguments, in their `repr(C)` layout.
    pub fn to_bytes(&self) -> (v: Vec<u8>)
        ensures
            v@ == self.spec_bytes(),
    {
        let mut v: Vec<u8> = Vec::new();
        append_bytes(&mut v, &self.amount);
        v
    }

    /// Reads arguments from instruction data, which must have exactly their size.
    pub fn try_from_bytes(data: &[u8]) -> (r: Result<ClaimArgs, InstructionError>)
        ensures
            data@.len() == 8 <==> r is Ok,
            r matches Ok(a) ==> a.amount@ == data@,
            r matches Err(e) ==> e == InstructionError::InvalidInstructionData,
    {
        if data.len() == 8 {
            Ok(ClaimArgs { amount: read_array8(data, 0) })
        } else {
            Err(InstructionError::InvalidInstructionData)
        }
    }
}

impl LaunchArgs {
    /// The wire layout: the two bumps in field order.
    pub open spec fn spec_bytes(self) -> Seq<u8> {
        seq![self.pool_bump, self.proof_bump]
    }

    /// The bytes of these arguments, in their `repr(C)` layout.
    pub fn to_bytes(&self) -> (v: Vec<u8>)
        ensures
            v@ == self.spec_bytes(),
    {
        vec![self.pool_bump, self.proof_bump]
    }

    /// Reads arguments from instruction data, which must have exactly their size.
    pub fn try_from_bytes(data: &[u8]) -> (r: Result<LaunchArgs, InstructionError>)
        ensures
            data@.len() == 2 <==> r is Ok,
            r matches Ok(a) ==> a.spec_bytes() == data@,
            r matches Err(e) ==> e == InstructionError::InvalidInstructionData,
    {
        if data.len() == 2 {
            let a = LaunchArgs { pool_bump: data[0], proof_bump: data[1] };
            assert(a.spec_bytes() =~= data@);
            Ok(a)
        } else {
            Err(InstructionError::InvalidInstructionData)
        }
    }
}

impl OpenArgs {
    /// The wire layout: the single bump byte.
    pub open spec fn spec_bytes(self) -> Seq<u8> {
        seq![self.member_bump]
    }

    /// The bytes of these arguments, in their `repr(C)` layout.
    pub fn to_bytes(&self) -> (v: Vec<u8>)
        ensures
            v@ == self.spec_bytes(),
    {
        vec![self.member_bump]
    }

    /// Reads arguments from instruction data, which must have exactly their size.
    pub fn try_from_bytes(data: &[u8]) -> (r: Result<OpenArgs, InstructionError>)
        ensures
            data@.len() == 1 <==> r is Ok,
            r matches Ok(a) ==> a.spec_bytes() == data@,
            r matches Err(e) ==> e == InstructionError::InvalidInstructionData,
    {
        if data.len() == 1 {
            let a = OpenArgs { member_bump: data[0] };
            assert(a.spec_bytes() =~= data@);
            Ok(a)
        } else {
            Err(InstructionError::InvalidInstructionData)
        }
    }
}

impl SubmitArgs {
    /// The wire layout: attestation, digest and nonce, back to back.
    pub open spec fn spec_bytes(self) -> Seq<u8> {
        self.attestation@ + self.digest@ + self.nonce@
    }

    /// The bytes of these arguments, in their `repr(C)` layout.
    pub fn to_bytes(&self) -> (v: Vec<u8>)
        ensures
            v@ == self.spec_bytes(),
    {
        let mut v: Vec<u8> = Vec::new();
        append_bytes(&mut v, &self.attestation);
        append_bytes(&mut v, &self.digest);
        append_bytes(&mut v, &self.nonce);
        v
    }

    /// Reads arguments from instruction data, which must have exactly their size.
    pub fn try_from_bytes(data: &[u8]) -> (r: Result<SubmitArgs, InstructionError>)
        ensures
            data@.len() == 56 <==> r is Ok,
            r matches Ok(a) ==> a.spec_bytes() == data@,
            r matches Ok(a) ==> a.attestation@ == data@.subrange(0, 32)
                && a.digest@ == data@.subrange(32, 48) && a.nonce@ == data@.subrange(48, 56),
            r matches Err(e) ==> e == InstructionError::InvalidInstructionData,
    {
        if data.len() == 56 {
            let a = SubmitArgs {
                attestation: read_array32(data, 0),
                digest: read_array16(data, 32),
                nonce: read_array8(data, 48),
            };
            assert(a.spec_bytes() =~= data@);
            Ok(a)
        } else {
            Err(InstructionError::InvalidInstructionData)
        }
    }
}

/// The encoding of arguments determines them: two argument values with the
/// same bytes are equal.  Together with the contracts of `to_bytes` and
/// `try_from_bytes`, decoding the encoding of arguments gives them back.
pub proof fn lemma_args_encoding_injective(
    a1: AttributeArgs, a2: AttributeArgs,
    c1: ClaimArgs, c2: ClaimArgs,
    l1: LaunchArgs, l2: LaunchArgs,
    o1: OpenArgs, o2: OpenArgs,
    s1: SubmitArgs, s2: SubmitArgs,
)
    ensures
        a1.spec_bytes() == a2.spec_bytes() ==> a1 == a2,
        c1.spec_bytes() == c2.spec_bytes() ==> c1 == c2,
        l1.spec_bytes() == l2.spec_bytes() ==> l1 == l2,
        o1.spec_bytes() == o2.spec_bytes() ==> o1 == o2,
        s1.spec_bytes() == s2.spec_bytes() ==> s1 == s2,
{
    broadcast use vstd::array::group_array_axioms;
    if a1.spec_bytes() == a2.spec_bytes() {
        assert(a1.balance =~= a2.balance);
    }
    if c1.spec_bytes() == c2.spec_bytes() {
        assert(c1.amount =~= c2.amount);
    }
    if l1.spec_bytes() == l2.spec_bytes() {
        assert(l1.spec_bytes()[0] == l2.spec_bytes()[0]);
        assert(l1.spec_bytes()[1] == l2.spec_bytes()[1]);
    }
    if o1.spec_bytes() == o2.spec_bytes() {
        assert(o1.spec_bytes()[0] == o2.spec_bytes()[0]);
    }
    if s1.spec_bytes() == s2.spec_bytes() {
        let b1 = s1.spec_bytes();
        let b2 = s2.spec_bytes();
        assert(b1.subrange(0, 32) =~= s1.attestation@);
        assert(b2.subrange(0, 32) =~= s2.attestation@);
        assert(b1.subrange(32, 48) =~= s1.digest@);
        assert(b2.subrange(32, 48) =~= s2.digest@);
        assert(b1.subrange(48, 56) =~= s1.nonce@);
        assert(b2.subrange(48, 56) =~= s2.nonce@);
        assert(s1.attestation =~= s2.attestation);
        assert(s1.digest =~= s2.digest);
        assert(s1.nonce =~= s2.nonce);
    }
}

/// The address of the pool program.
pub const POOL_PROGRAM_ID: [u8; 32] = [
    12, 63, 53, 27, 94, 104, 84, 87, 245, 31, 139, 186, 168, 15, 241, 100,
    46, 183, 7, 245, 168, 55, 54, 18, 222, 191, 102, 106, 2, 75, 173, 169,
];

/// An account that an instruction reads or writes.
#[derive(Clone, Copy, Debug)]
pub struct AccountMeta {
    pub pubkey: [u8; 32],
    pub is_signer: bool,
    pub is_writable: bool,
}

/// An instruction for the chain: the program to run, its accounts and its data.
#[derive(Debug)]
pub struct Instruction {
    pub program_id: [u8; 32],
    pub accounts: Vec<AccountMeta>,
    pub data: Vec<u8>,
}

/// The only account of the pool's own instructions: the signer, writable.
pub open spec fn signer_meta(signer: [u8; 32]) -> AccountMeta {
    AccountMeta { pubkey: signer, is_signer: true, is_writable: true }
}

/// The data of a `submit` instruction.
pub open spec fn spec_submit_data(solution: Solution, attestation: [u8; 32]) -> Seq<u8> {
    seq![spec_tag(PoolInstruction::Submit)] + attestation@ + solution.d@ + solution.n@
}

/// Builds an initialize instruction.
pub fn initialize(signer: [u8; 32]) -> (ix: Instruction)
    ensures
        ix.program_id == POOL_PROGRAM_ID,
        ix.accounts@ == seq![signer_meta(signer)],
        ix.data@ == seq![spec_tag(PoolInstruction::Launch)],
{
    Instruction {
        program_id: POOL_PROGRAM_ID,
        accounts: vec![AccountMeta { pubkey: signer, is_signer: true, is_writable: true }],
        data: PoolInstruction::Launch.to_vec(),
    }
}

/// Builds a submit instruction.
pub fn submit(signer: [u8; 32], solution: Solution, attestation: [u8; 32]) -> (ix: Instruction)
    ensures
        ix.program_id == POOL_PROGRAM_ID,
        ix.accounts@ == seq![signer_meta(signer)],
        ix.data@ == spec_submit_data(solution, attestation),
{
    let mut data = PoolInstruction::Submit.to_vec();
    let args = SubmitArgs { attestation, digest: solution.d, nonce: solution.n };
    let bytes = args.to_bytes();
    append_bytes(&mut data, bytes.as_slice());
    assert(data@ =~= spec_submit_data(solution, attestation));
    Instruction {
        program_id: POOL_PROGRAM_ID,
        accounts: vec![AccountMeta { pubkey: signer, is_signer: true, is_writable: true }],
        data,
    }
}

/// Reading a submit instruction's data back: its tag decodes to `Submit`, and
/// the rest is the encoding of the submitted attestation, digest and nonce.
pub proof fn lemma_submit_data_decodes(solution: Solution, attestation: [u8; 32])
    ensures
        spec_from_tag(spec_submit_data(solution, attestation)[0]) == Some(PoolInstruction::Submit),
        spec_submit_data(solution, attestation).drop_first() == (SubmitArgs {
            attestation,
            digest: solution.d,
            nonce: solution.n,
        }).spec_bytes(),
{
    let args = SubmitArgs { attestation, digest: solution.d, nonce: solution.n };
    assert(spec_submit_data(solution, attestation).drop_first() =~= args.spec_bytes());
}

} // verus!
