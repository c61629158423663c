use ore_pool::operator::{clock_tick, i64_saturating_add, i64_saturating_sub, ClockStep, Operator, OperatorError, ProofInfo};

const OP: Operator = Operator { authority: [1u8; 32], proof_address: [2u8; 32] };

fn aligned(bytes: &[u8]) -> Vec<u8> {
    let mut v = Vec::with_capacity(bytes.len());
    v.extend_from_slice(bytes);
    v
}

#[test]
fn cutoff_is_a_minute_after_the_last_hash_less_the_buffer() {
    let proof = ProofInfo { challenge: [0; 32], last_hash_at: 1_000 };
    assert_eq!(OP.get_cutoff(&proof, 1_000), 55);
    assert_eq!(OP.get_cutoff(&proof, 1_030), 25);
    assert_eq!(OP.get_cutoff(&proof, 1_055), 0);
    assert_eq!(OP.get_cutoff(&proof, 2_000), 0);
    assert_eq!(OP.get_cutoff(&proof, 990), 65);
}

#[test]
fn cutoff_saturates() {
    let proof = ProofInfo { challenge: [0; 32], last_hash_at: i64::MAX };
    assert_eq!(OP.get_cutoff(&proof, i64::MIN), i64::MAX as u64);
    let proof = ProofInfo { challenge: [0; 32], last_hash_at: i64::MIN };
    assert_eq!(OP.get_cutoff(&proof, i64::MAX), 0);
}

#[test]
fn saturating_arithmetic_matches_std() {
    for (a, b) in [(i64::MAX, 1), (i64::MIN, -1), (5, 7), (-3, i64::MIN), (i64::MIN, i64::MAX)] {
        assert_eq!(i64_saturating_add(a, b), a.saturating_add(b));
        assert_eq!(i64_saturating_sub(a, b), a.saturating_sub(b));
    }
}

#[test]
fn min_score_is_at_least_seven() {
    assert_eq!(OP.min_score(0), 7);
    assert_eq!(OP.min_score(7), 7);
    assert_eq!(OP.min_score(12), 12);
}

#[test]
fn reads_the_proof_account() {
    let mut data = vec![0u8; 176];
    data[0] = 102;
    data[48..80].copy_from_slice(&[7u8; 32]);
    data[112..120].copy_from_slice(&(-5i64).to_le_bytes());
    let data = aligned(&data);
    let proof = OP.get_proof(&data).unwrap();
    assert_eq!(proof.challenge, [7u8; 32]);
    assert_eq!(proof.last_hash_at, -5);
    let mut wrong = data.clone();
    wrong[0] = 101;
    assert_eq!(OP.get_proof(&wrong).unwrap_err(), OperatorError::InvalidAccountData);
    assert_eq!(OP.get_proof(&data[..100]).unwrap_err(), OperatorError::InvalidAccountData);
}

#[test]
fn reads_the_config_account() {
    let mut data = vec![0u8; 40];
    data[0] = 101;
    data[24..32].copy_from_slice(&19u64.to_le_bytes());
    assert_eq!(OP.get_config(&aligned(&data)), Ok(19));
    data[0] = 100;
    assert_eq!(OP.get_config(&aligned(&data)), Err(OperatorError::InvalidAccountData));
}

#[test]
fn reads_the_clock() {
    let clock = solana_program::clock::Clock {
        slot: 1,
        epoch_start_timestamp: 2,
        epoch: 3,
        leader_schedule_epoch: 4,
        unix_timestamp: 1_700_000_000,
    };
    let data = bincode::serialize(&clock).unwrap();
    assert_eq!(OP.get_clock(&data), Ok(1_700_000_000));
    assert_eq!(OP.get_clock(&data[..39]), Err(OperatorError::InvalidClock));
}

#[test]
fn parses_the_authority_and_derives_its_proof() {
    let key = Operator::authority("11111111111111111111111111111111").unwrap();
    assert_eq!(key, [0u8; 32]);
    assert_eq!(Operator::authority("not a key"), Err(OperatorError::InvalidPubkey));
    let authority = [3u8; 32];
    let expected = ore_api::state::proof_pda(solana_program::pubkey::Pubkey::new_from_array(authority)).0;
    assert_eq!(Operator::proof_address(authority), Ok(expected.to_bytes()));
    assert_ne!(Operator::proof_address(authority), Ok(authority));
}

#[test]
fn new_operator_derives_its_proof_address() {
    let op = Operator::new("11111111111111111111111111111111").unwrap();
    assert_eq!(op.authority, [0u8; 32]);
    let expected = ore_api::state::proof_pda(solana_program::pubkey::Pubkey::new_from_array([0u8; 32])).0;
    assert_eq!(op.proof_address, expected.to_bytes());
    assert_eq!(Operator::new("0OIl").unwrap_err(), OperatorError::InvalidPubkey);
}

#[test]
fn short_data_of_another_account_is_refused() {
    assert_eq!(OP.get_proof(&[101, 0, 0]).unwrap_err(), OperatorError::InvalidAccountData);
    assert_eq!(OP.get_config(&[102]), Err(OperatorError::InvalidAccountData));
}

#[test]
fn clock_ticks_nine_times_between_fetches() {
    let mut ticks = 0u32;
    let mut ts = 100i64;
    let mut sent = vec![];
    loop {
        match clock_tick(ticks, ts) {
            ClockStep::Refetch => break,
            ClockStep::Send { unix_timestamp, next_timestamp, ticks: t } => {
                sent.push(unix_timestamp);
                ts = next_timestamp;
                ticks = t;
            }
        }
    }
    assert_eq!(sent, (100..109).collect::<Vec<i64>>());
    assert_eq!(clock_tick(9, i64::MAX), ClockStep::Refetch);
}
