use ore_pool::instruction::POOL_PROGRAM_ID;
use ore_pool::validate::{
    validate_attribution, AttributionError, CompiledInstruction, Message, Transaction,
    COMPUTE_BUDGET_PROGRAM_ID,
};

fn ix(program_id_index: u8, data: Vec<u8>) -> CompiledInstruction {
    CompiledInstruction { program_id_index, data }
}

fn attribute_data(balance: u64) -> Vec<u8> {
    let mut data = vec![100u8];
    data.extend_from_slice(&balance.to_le_bytes());
    data
}

fn tx(instructions: Vec<CompiledInstruction>) -> Transaction {
    Transaction {
        message: Message {
            account_keys: vec![COMPUTE_BUDGET_PROGRAM_ID, POOL_PROGRAM_ID, [42u8; 32]],
            instructions,
        },
    }
}

fn good(balance: u64) -> Vec<CompiledInstruction> {
    vec![ix(0, vec![2, 1]), ix(0, vec![3]), ix(1, attribute_data(balance))]
}

#[test]
fn compute_budget_id_is_the_sdk_one() {
    assert_eq!(COMPUTE_BUDGET_PROGRAM_ID, solana_sdk::compute_budget::id().to_bytes());
}

#[test]
fn accepts_a_well_formed_attribution() {
    assert_eq!(validate_attribution(&tx(good(500)), 500), Ok(()));
}

#[test]
fn accepts_an_attribution_with_a_claim() {
    let mut ixs = good(500);
    let mut claim = vec![1u8];
    claim.extend_from_slice(&10u64.to_le_bytes());
    ixs.push(ix(1, claim));
    assert_eq!(validate_attribution(&tx(ixs), 500), Ok(()));
}

#[test]
fn negative_balance_compares_as_twos_complement() {
    assert_eq!(validate_attribution(&tx(good(u64::MAX)), -1), Ok(()));
}

#[test]
fn refuses_too_few_instructions() {
    let mut ixs = good(1);
    ixs.pop();
    assert_eq!(validate_attribution(&tx(ixs), 1), Err(AttributionError::TooFewInstructions));
}

#[test]
fn refuses_missing_or_wrong_budget_programs() {
    let mut ixs = good(1);
    ixs[1].program_id_index = 9;
    assert_eq!(validate_attribution(&tx(ixs), 1), Err(AttributionError::MissingProgramId));
    let mut ixs = good(1);
    ixs[0].program_id_index = 2;
    assert_eq!(validate_attribution(&tx(ixs), 1), Err(AttributionError::NotComputeBudget));
}

#[test]
fn refuses_a_bad_third_instruction() {
    let mut ixs = good(1);
    ixs[2].program_id_index = 7;
    assert_eq!(validate_attribution(&tx(ixs), 1), Err(AttributionError::MissingThirdProgramId));
    let mut ixs = good(1);
    ixs[2].program_id_index = 2;
    assert_eq!(validate_attribution(&tx(ixs), 1), Err(AttributionError::ThirdNotPoolProgram));
    let mut ixs = good(1);
    ixs[2].data = vec![];
    assert_eq!(validate_attribution(&tx(ixs), 1), Err(AttributionError::InvalidInstructionData));
    let mut ixs = good(1);
    ixs[2].data[0] = 77;
    assert_eq!(validate_attribution(&tx(ixs), 1), Err(AttributionError::InvalidInstructionData));
    let mut ixs = good(1);
    ixs[2].data[0] = 1;
    assert_eq!(validate_attribution(&tx(ixs), 1), Err(AttributionError::ThirdNotAttribution));
    let mut ixs = good(1);
    ixs[2].data.push(0);
    assert_eq!(validate_attribution(&tx(ixs), 1), Err(AttributionError::InvalidInstructionData));
    assert_eq!(validate_attribution(&tx(good(1)), 2), Err(AttributionError::InvalidTotalBalance));
}

#[test]
fn refuses_a_bad_fourth_instruction() {
    let claim = |tag: u8, len: usize| {
        let mut d = vec![tag];
        d.extend(std::iter::repeat(0u8).take(len));
        d
    };
    let with = |fourth: CompiledInstruction| {
        let mut ixs = good(1);
        ixs.push(fourth);
        validate_attribution(&tx(ixs), 1)
    };
    assert_eq!(with(ix(5, claim(1, 8))), Err(AttributionError::MissingFourthProgramId));
    assert_eq!(with(ix(0, claim(1, 8))), Err(AttributionError::FourthNotPoolProgram));
    assert_eq!(with(ix(1, vec![])), Err(AttributionError::InvalidInstructionData));
    assert_eq!(with(ix(1, claim(100, 8))), Err(AttributionError::FourthNotClaim));
    assert_eq!(with(ix(1, claim(1, 7))), Err(AttributionError::InvalidInstructionData));
}

#[test]
fn instructions_after_a_fourth_are_not_inspected() {
    let mut ixs = good(1);
    ixs.push(ix(2, vec![]));
    ixs.push(ix(2, vec![]));
    assert_eq!(validate_attribution(&tx(ixs), 1), Ok(()));
}

#[test]
fn errors_describe_themselves() {
    assert_eq!(
        AttributionError::TooFewInstructions.description(),
        "attribution transactions must contain at least three instructions"
    );
    assert_eq!(AttributionError::InvalidTotalBalance.description(), "invalid total balance arg");
}
