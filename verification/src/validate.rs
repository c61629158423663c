//! Checks that a member's attribution transaction has the shape the pool expects.

use vstd::prelude::*;

use crate::bytes::{bytes32_eq, le_u64, read_array8, u64_from_le_bytes};
use crate::instruction::{
    spec_from_tag, AttributeArgs, ClaimArgs, PoolInstruction, POOL_PROGRAM_ID,
};

verus! {

/// The address of the compute budget program, as `solana_sdk` declares it
/// (`ComputeBudget111111111111111111111111111111` in base 58).
pub const COMPUTE_BUDGET_PROGRAM_ID: [u8; 32] = [
    3, 6, 70, 111, 229, 33, 23, 50, 255, 236, 173, 186, 114, 195, 155, 231,
    188, 140, 229, 187, 197, 247, 18, 107, 44, 67, 155, 58, 64, 0, 0, 0,
];

/// `solana_sdk::compute_budget::id()`.  The contract claims that it returns
/// the address that `solana_sdk` declares for the compute budget program.
#[verifier::external_body]
fn compute_budget_id() -> (id: [u8; 32])
    ensures
        id == COMPUTE_BUDGET_PROGRAM_ID,
{
    #[allow(deprecated)]
    solana_sdk::compute_budget::id().to_bytes()
}

/// An instruction inside a transaction message: the index of its program
/// among the message's account keys, and its data.
#[derive(Clone, Debug)]
pub struct CompiledInstruction {
    pub program_id_index: u8,
    pub data: Vec<u8>,
}

/// The part of a transaction message that the pool inspects.
#[derive(Clone, Debug)]
pub struct Message {
    pub account_keys: Vec<[u8; 32]>,
    pub instructions: Vec<CompiledInstruction>,
}

/// A transaction, as far as the pool inspects it.
#[derive(Clone, Debug)]
pub struct Transaction {
    pub message: Message,
}

/// Why an attribution transaction was refused.
#[derive(Clone, Copy, Debug, PartialEq, Eq, Structural)]
pub enum AttributionError {
    TooFewInstructions,
    MissingProgramId,
    NotComputeBudget,
    MissingThirdProgramId,
    ThirdNotPoolProgram,
    ThirdNotAttribution,
    InvalidTotalBalance,
    MissingFourthProgramId,
    FourthNotPoolProgram,
    FourthNotClaim,
    /// Instruction data that does not decode.
    InvalidInstructionData,
}

/// The description of each error.
pub open spec fn spec_description(e: AttributionError) -> Seq<char> {
    match e {
        AttributionError::TooFewInstructions => "attribution transactions must contain at least three instructions"@,
        AttributionError::MissingProgramId => "missing program id"@,
        AttributionError::NotComputeBudget => "the first two instructions must be compute budget instructions"@,
        AttributionError::MissingThirdProgramId => "missing program id for third instruction"@,
        AttributionError::ThirdNotPoolProgram => "third instruction must be an ore_pool instruction"@,
        AttributionError::ThirdNotAttribution => "third instruction must be an attribution instruction"@,
        AttributionError::InvalidTotalBalance => "invalid total balance arg"@,
        AttributionError::MissingFourthProgramId => "missing program id for fourth instruction"@,
        AttributionError::FourthNotPoolProgram => "fourth instruction must be an ore_pool instruction"@,
        AttributionError::FourthNotClaim => "fourth instruction must be a claim instruction"@,
        AttributionError::InvalidInstructionData => "invalid instruction data"@,
    }
}

impl AttributionError {
    /// A human-readable description of the error.
    pub fn description(&self) -> (d: &'static str)
        ensures
            d@ == spec_description(*self),
    {
        match self {
            AttributionError::TooFewInstructions =>
                "attribution transactions must contain at least three instructions",
            AttributionError::MissingProgramId => "missing program id",
            AttributionError::NotComputeBudget =>
                "the first two instructions must be compute budget instructions",
            AttributionError::MissingThirdProgramId => "missing program id for third instruction",
            AttributionError::ThirdNotPoolProgram => "third instruction must be an ore_pool instruction",
            AttributionError::ThirdNotAttribution => "third instruction must be an attribution instruction",
            AttributionError::InvalidTotalBalance => "invalid total balance arg",
            AttributionError::MissingFourthProgramId => "missing program id for fourth instruction",
            AttributionError::FourthNotPoolProgram => "fourth instruction must be an ore_pool instruction",
            AttributionError::FourthNotClaim => "fourth instruction must be a claim instruction",
            AttributionError::InvalidInstructionData => "invalid instruction data",
        }
    }
}

/// The program that an instruction names, if its index is among the keys.
pub open spec fn program_of(keys: Seq<[u8; 32]>, ix: CompiledInstruction) -> Option<[u8; 32]> {
    if (ix.program_id_index as int) < keys.len() {
        Some(keys[ix.program_id_index as int])
    } else {
        None
    }
}

/// The checks on the optional fourth instruction: a pool `Claim` with valid arguments.
pub open spec fn spec_check_fourth(keys: Seq<[u8; 32]>, ix: CompiledInstruction) -> Result<(), AttributionError> {
    let data = ix.data@;
    if program_of(keys, ix) is None {
        Err(AttributionError::MissingFourthProgramId)
    } else if program_of(keys, ix) != Some(POOL_PROGRAM_ID) {
        Err(AttributionError::FourthNotPoolProgram)
    } else if data.len() == 0 || spec_from_tag(data[0]) is None {
        Err(AttributionError::InvalidInstructionData)
    } else if spec_from_tag(data[0]) != Some(PoolInstruction::Claim) {
        Err(AttributionError::FourthNotClaim)
    } else if data.len() != 9 {
        Err(AttributionError::InvalidInstructionData)
    } else {
        Ok(())
    }
}

/// The checks on the third instruction: a pool `Attribute` whose balance argument
/// is `total_balance` (compared as its two's complement `u64`).
pub open spec fn spec_check_third(keys: Seq<[u8; 32]>, ix: CompiledInstruction, total_balance: i64) -> Result<(), AttributionError> {
    let data = ix.data@;
    if program_of(keys, ix) is None {
        Err(AttributionError::MissingThirdProgramId)
    } else if program_of(keys, ix) != Some(POOL_PROGRAM_ID) {
        Err(AttributionError::ThirdNotPoolProgram)
    } else if data.len() == 0 || spec_from_tag(data[0]) is None {
        Err(AttributionError::InvalidInstructionData)
    } else if spec_from_tag(data[0]) != Some(PoolInstruction::Attribute) {
        Err(AttributionError::ThirdNotAttribution)
    } else if data.len() != 9 {
        Err(AttributionError::InvalidInstructionData)
    } else if le_u64(data.subrange(1, 9)) != (total_balance as u64) {
        Err(AttributionError::InvalidTotalBalance)
    } else {
        Ok(())
    }
}

/// The checks on one of the first two instructions: a compute budget instruction.
pub open spec fn spec_check_budget(keys: Seq<[u8; 32]>, ix: CompiledInstruction) -> Result<(), AttributionError> {
    if program_of(keys, ix) is None {
        Err(AttributionError::MissingProgramId)
    } else if program_of(keys, ix) != Some(COMPUTE_BUDGET_PROGRAM_ID) {
        Err(AttributionError::NotComputeBudget)
    } else {
        Ok(())
    }
}

/// When an attribution transaction is accepted, and otherwise the first check
/// that refuses it.  Instructions after a fourth are not inspected.
pub open spec fn spec_validate_attribution(tx: Transaction, total_balance: i64) -> Result<(), AttributionError> {
    let keys = tx.message.account_keys@;
    let ixs = tx.message.instructions@;
    if ixs.len() < 3 {
        Err(AttributionError::TooFewInstructions)
    } else if spec_check_budget(keys, ixs[0]) is Err {
        spec_check_budget(keys, ixs[0])
    } else if spec_check_budget(keys, ixs[1]) is Err {
        spec_check_budget(keys, ixs[1])
    } else if spec_check_third(keys, ixs[2], total_balance) is Err {
        spec_check_third(keys, ixs[2], total_balance)
    } else if ixs.len() == 4 {
        spec_check_fourth(keys, ixs[3])
    } else {
        Ok(())
    }
}

/// Instruction `ix` names `program` among the keys.
pub open spec fn names_program(keys: Seq<[u8; 32]>, ix: CompiledInstruction, program: [u8; 32]) -> bool {
    (ix.program_id_index as int) < keys.len() && keys[ix.program_id_index as int] == program
}

/// A well-formed attribution transaction for `total_balance`: two compute
/// budget instructions, then a pool instruction of tag 100 (`Attribute`)
/// whose eight-byte argument encodes `total_balance` as `u64`; and, when there
/// are exactly four instructions, a pool instruction of tag 1 (`Claim`) with
/// an eight-byte argument.
pub open spec fn well_formed_attribution(tx: Transaction, total_balance: i64) -> bool {
    let keys = tx.message.account_keys@;
    let ixs = tx.message.instructions@;
    &&& ixs.len() >= 3
    &&& names_program(keys, ixs[0], COMPUTE_BUDGET_PROGRAM_ID)
    &&& names_program(keys, ixs[1], COMPUTE_BUDGET_PROGRAM_ID)
    &&& names_program(keys, ixs[2], POOL_PROGRAM_ID)
    &&& ixs[2].data@.len() == 9
    &&& ixs[2].data@[0] == 100
    &&& le_u64(ixs[2].data@.subrange(1, 9)) == (total_balance as u64)
    &&& ixs.len() == 4 ==> {
        &&& names_program(keys, ixs[3], POOL_PROGRAM_ID)
        &&& ixs[3].data@.len() == 9
        &&& ixs[3].data@[0] == 1
    }
}

/// An attribution transaction is accepted exactly when it is well formed,
/// for every total balance.
pub proof fn lemma_attribution_accepted_iff_well_formed(tx: Transaction, total_balance: i64)
    ensures
        spec_validate_attribution(tx, total_balance) is Ok <==> well_formed_attribution(tx, total_balance),
{
}

/// Looks up the program of an instruction among the account keys.
fn instruction_program(keys: &Vec<[u8; 32]>, ix: &CompiledInstruction) -> (r: Option<[u8; 32]>)
    ensures
        r == program_of(keys@, *ix),
{
    let idx = ix.program_id_index as usize;
    if idx < keys.len() {
        Some(keys[idx])
    } else {
        None
    }
}

/// Splits instruction data into its tag and the instruction it names.
fn decode_tag(data: &Vec<u8>) -> (r: Option<PoolInstruction>)
    ensures
        r == (if data@.len() == 0 { None } else { spec_from_tag(data@[0]) }),
{
    if data.len() == 0 {
        None
    } else {
        PoolInstruction::try_from_u8(data[0])
    }
}

fn check_budget(keys: &Vec<[u8; 32]>, ix: &CompiledInstruction) -> (r: Result<(), AttributionError>)
    ensures
        r == spec_check_budget(keys@, *ix),
{
    let budget = compute_budget_id();
    match instruction_program(keys, ix) {
        None => Err(AttributionError::MissingProgramId),
        Some(program) => {
            if !bytes32_eq(&program, &budget) {
                Err(AttributionError::NotComputeBudget)
            } else {
                Ok(())
            }
        },
    }
}

fn check_third(keys: &Vec<[u8; 32]>, ix: &CompiledInstruction, total_balance: i64) -> (r: Result<(), AttributionError>)
    ensures
        r == spec_check_third(keys@, *ix, total_balance),
{
    let program = match instruction_program(keys, ix) {
        None => return Err(AttributionError::MissingThirdProgramId),
        Some(p) => p,
    };
    if !bytes32_eq(&program, &POOL_PROGRAM_ID) {
        return Err(AttributionError::ThirdNotPoolProgram);
    }
    let tag = match decode_tag(&ix.data) {
        None => return Err(AttributionError::InvalidInstructionData),
        Some(t) => t,
    };
    if tag != PoolInstruction::Attribute {
        return Err(AttributionError::ThirdNotAttribution);
    }
    let rest = ix.data.as_slice().split_at(1).1;
    assert(rest@ =~= ix.data@.subrange(1, ix.data@.len() as int));
    let args = match AttributeArgs::try_from_bytes(rest) {
        Err(_) => return Err(AttributionError::InvalidInstructionData),
        Ok(a) => a,
    };
    let balance = u64_from_le_bytes(args.balance);
    if balance != total_balance as u64 {
        return Err(AttributionError::InvalidTotalBalance);
    }
    Ok(())
}

fn check_fourth(keys: &Vec<[u8; 32]>, ix: &CompiledInstruction) -> (r: Result<(), AttributionError>)
    ensures
        r == spec_check_fourth(keys@, *ix),
{
    let program = match instruction_program(keys, ix) {
        None => return Err(AttributionError::MissingFourthProgramId),
        Some(p) => p,
    };
    if !bytes32_eq(&program, &POOL_PROGRAM_ID) {
        return Err(AttributionError::FourthNotPoolProgram);
    }
    let tag = match decode_tag(&ix.data) {
        None => return Err(AttributionError::InvalidInstructionData),
        Some(t) => t,
    };
    if tag != PoolInstruction::Claim {
        return Err(AttributionError::FourthNotClaim);
    }
    let rest = ix.data.as_slice().split_at(1).1;
    assert(rest@ =~= ix.data@.subrange(1, ix.data@.len() as int));
    match ClaimArgs::try_from_bytes(rest) {
        Err(_) => Err(AttributionError::InvalidInstructionData),
        Ok(_) => Ok(()),
    }
}

/// Validates an attribution transaction against the pool's total balance.
pub fn validate_attribution(transaction: &Transaction, total_balance: i64) -> (r: Result<(), AttributionError>)
    ensures
        r == spec_validate_attribution(*transaction, total_balance),
        r is Ok <==> well_formed_attribution(*transaction, total_balance),
{
    let keys = &transaction.message.account_keys;
    let instructions = &transaction.message.instructions;
    let n = instructions.len();
    if n < 3 {
        return Err(AttributionError::TooFewInstructions);
    }
    check_budget(keys, &instructions[0])?;
    check_budget(keys, &instructions[1])?;
    check_third(keys, &instructions[2], total_balance)?;
    if n == 4 {
        check_fourth(keys, &instructions[3])?;
    }
    proof {
        lemma_attribution_accepted_iff_well_formed(*transaction, total_balance);
    }
    Ok(())
}

/// An accepted attribution transaction has at least three instructions: two
/// compute budget instructions, then a pool `Attribute` instruction whose
/// balance argument is the total balance; a fourth one, when it is the last,
/// is a pool `Claim` instruction with an eight-byte amount.
pub proof fn lemma_accepted_attribution_shape(tx: Transaction, total_balance: i64)
    requires
        spec_validate_attribution(tx, total_balance) is Ok,
    ensures
        ({
            let keys = tx.message.account_keys@;
            let ixs = tx.message.instructions@;
            &&& ixs.len() >= 3
            &&& program_of(keys, ixs[0]) == Some(COMPUTE_BUDGET_PROGRAM_ID)
            &&& program_of(keys, ixs[1]) == Some(COMPUTE_BUDGET_PROGRAM_ID)
            &&& program_of(keys, ixs[2]) == Some(POOL_PROGRAM_ID)
            &&& ixs[2].data@.len() == 9
            &&& spec_from_tag(ixs[2].data@[0]) == Some(PoolInstruction::Attribute)
            &&& le_u64(ixs[2].data@.subrange(1, 9)) == (total_balance as u64)
            &&& ixs.len() == 4 ==> {
                &&& program_of(keys, ixs[3]) == Some(POOL_PROGRAM_ID)
                &&& ixs[3].data@.len() == 9
                &&& spec_from_tag(ixs[3].data@[0]) == Some(PoolInstruction::Claim)
            }
        }),
{
}

} // verus!
