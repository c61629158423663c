use ore_pool::aggregator::{
    find_bus, remaining_time, select_bus, Aggregator, MiningAction, RefreshStep, SolutionVerdict,
    SubmitStep, NOOP_PROGRAM_ID, ORE_PROGRAM_ID,
};
use ore_pool::drill::solution_score;
use ore_pool::miner::mine_step;
use ore_pool::operator::{BusInfo, Operator, ProofInfo};
use solana_program::pubkey::Pubkey;
use ore_pool::types::{Challenge, PoolMessage, Solution};

fn proof_info(last_hash_at: i64) -> ProofInfo {
    ProofInfo { challenge: [11u8; 32], last_hash_at }
}

fn bus_account(id: u64, rewards: u64) -> Vec<u8> {
    let mut data = vec![0u8; 40];
    data[0] = 100;
    data[8..16].copy_from_slice(&id.to_le_bytes());
    data[16..24].copy_from_slice(&rewards.to_le_bytes());
    data
}

/// Mines nonces until one yields a solution with a positive score.
fn mined_solution(challenge: &Challenge) -> (Solution, u64) {
    let mut memory = drillx::equix::SolverMemory::new();
    let mut nonce = 0u64;
    loop {
        let step = mine_step(&mut memory, 1, challenge, 0, nonce);
        if let Some((solution, score)) = step.solutions.first() {
            return (*solution, *score);
        }
        nonce = step.next_nonce;
        assert!(nonce < 500, "no solution found");
    }
}

#[test]
fn new_aggregator_starts_empty() {
    let agg = Aggregator::new(&proof_info(77), 9, 40, 1_700_000_000);
    assert_eq!(agg.current_challenge.challenge, [11u8; 32]);
    assert_eq!(agg.current_challenge.lash_hash_at, 77);
    assert_eq!(agg.current_challenge.min_score, 9);
    assert_eq!(agg.current_challenge.cutoff_time, 40);
    assert_eq!(agg.current_challenge.unix_timestamp, 1_700_000_000);
    assert_eq!(agg.best_score, 0);
    assert_eq!(agg.best_solution.d, [0u8; 16]);
    assert_eq!(agg.next_mining_action(), MiningAction::WaitForContribution);
}

#[test]
fn judge_keeps_only_improvements() {
    let mut agg = Aggregator::new(&proof_info(1), 10, 0, 0);
    let s = Solution::new([1; 16], [2; 8]);
    assert_eq!(agg.judge_solution(s, false, 50), SolutionVerdict::Invalid);
    assert_eq!(agg.best_score, 0);
    assert_eq!(agg.judge_solution(s, true, 9), SolutionVerdict::BelowMinimum { score: 9 });
    assert_eq!(agg.best_score, 0);
    assert_eq!(agg.judge_solution(s, true, 12), SolutionVerdict::NewBest { score: 12 });
    assert_eq!(agg.best_score, 12);
    assert_eq!(agg.best_solution.n, [2; 8]);
    let t = Solution::new([3; 16], [4; 8]);
    assert_eq!(agg.judge_solution(t, true, 12), SolutionVerdict::NotBetter { score: 12 });
    assert_eq!(agg.best_solution.n, [2; 8]);
    assert_eq!(agg.judge_solution(t, true, 13), SolutionVerdict::NewBest { score: 13 });
    assert_eq!(agg.best_solution.n, [4; 8]);
    assert_eq!(agg.next_mining_action(), MiningAction::SubmitAndDispatch);
}

#[test]
fn process_accepts_a_mined_solution_and_refuses_a_forged_one() {
    let mut agg = Aggregator::new(&proof_info(1), 0, 0, 0);
    let (solution, score) = mined_solution(&agg.current_challenge);
    assert!(score > 0);
    assert_eq!(solution_score(&solution), score);
    let hash = drillx::Solution::new(solution.d, solution.n).to_hash();
    assert_eq!(score, hash.difficulty() as u64);
    assert_eq!(agg.process_solution(solution), SolutionVerdict::NewBest { score });
    assert_eq!(agg.best_score, score);
    let mut forged = solution;
    forged.d[0] ^= 0xff;
    assert_eq!(agg.process_solution(forged), SolutionVerdict::Invalid);
    assert_eq!(agg.best_score, score);
}

#[test]
fn a_solution_for_another_challenge_is_invalid() {
    let agg = Aggregator::new(&proof_info(1), 0, 0, 0);
    let (solution, _) = mined_solution(&agg.current_challenge);
    let mut other = Aggregator::new(&ProofInfo { challenge: [12u8; 32], last_hash_at: 1 }, 0, 0, 0);
    assert_eq!(other.process_solution(solution), SolutionVerdict::Invalid);
}

#[test]
fn reset_and_refresh() {
    let mut agg = Aggregator::new(&proof_info(100), 5, 30, 0);
    agg.current_challenge.unix_timestamp = 9;
    assert!(!agg.check_for_reset(100));
    assert!(agg.check_for_reset(160));
    assert_eq!(agg.refresh_step(100, 0), RefreshStep::Retry { retries: 1 });
    assert_eq!(agg.refresh_step(100, 8), RefreshStep::Retry { retries: 9 });
    assert_eq!(agg.refresh_step(100, 9), RefreshStep::GiveUp);
    assert_eq!(agg.refresh_step(160, 9), RefreshStep::Apply);
    agg.judge_solution(Solution::new([1; 16], [1; 8]), true, 20);
    agg.apply_challenge(&ProofInfo { challenge: [13u8; 32], last_hash_at: 160 }, 8, 44, 170);
    assert_eq!(agg.current_challenge.challenge, [13u8; 32]);
    assert_eq!(agg.current_challenge.lash_hash_at, 160);
    assert_eq!(agg.current_challenge.min_score, 8);
    assert_eq!(agg.current_challenge.cutoff_time, 44);
    assert_eq!(agg.current_challenge.unix_timestamp, 170);
    assert_eq!(agg.best_score, 0);
    assert_eq!(agg.best_solution.n, [0u8; 8]);
}

#[test]
fn remaining_time_saturates() {
    assert_eq!(remaining_time(30, 10), 20);
    assert_eq!(remaining_time(30, 30), 0);
    assert_eq!(remaining_time(30, 45), 0);
}

#[test]
fn select_bus_prefers_the_first_richest() {
    let buses = vec![
        Some(BusInfo { id: 3, rewards: 10 }),
        None,
        Some(BusInfo { id: 5, rewards: 30 }),
        Some(BusInfo { id: 6, rewards: 30 }),
        Some(BusInfo { id: 1, rewards: 20 }),
    ];
    assert_eq!(select_bus(7, &buses), Some(5));
    assert_eq!(select_bus(7, &vec![None, Some(BusInfo { id: 2, rewards: 0 })]), Some(7));
    // a bus with an unknown id matters only when it is chosen
    assert_eq!(select_bus(7, &vec![Some(BusInfo { id: 9, rewards: 0 })]), Some(7));
    assert_eq!(select_bus(7, &vec![Some(BusInfo { id: 1, rewards: 5 }), Some(BusInfo { id: 9, rewards: 5 })]), Some(1));
    assert_eq!(select_bus(7, &vec![Some(BusInfo { id: 9, rewards: 5 }), Some(BusInfo { id: 1, rewards: 6 })]), None);
}

#[test]
fn find_bus_reads_the_accounts() {
    let accounts = vec![Some(bus_account(0, 5)), None, Some(bus_account(4, 9)), Some(bus_account(2, 1))];
    assert_eq!(find_bus(6, &accounts), Some(4));
    let mut not_a_bus = bus_account(3, 100);
    not_a_bus[0] = 101;
    assert_eq!(find_bus(6, &vec![Some(not_a_bus)]), Some(6));
    assert_eq!(find_bus(6, &vec![Some(bus_account(9, 1))]), None);
    assert_eq!(find_bus(6, &vec![Some(bus_account(9, 0))]), Some(6));
    assert_eq!(find_bus(6, &vec![Some(vec![55u8, 1, 2])]), Some(6));
}

#[test]
fn challenge_message_carries_the_challenge() {
    let agg = Aggregator::new(&proof_info(3), 1, 2, 0);
    match agg.challenge_message() {
        PoolMessage::NewChallenge { challenge } => assert_eq!(challenge.lash_hash_at, 3),
        other => panic!("unexpected {:?}", other),
    }
}

#[test]
fn there_are_eight_buses() {
    assert_eq!(ore_api::consts::BUS_COUNT, 8);
    let accounts: Vec<Option<Vec<u8>>> = (0..8).map(|i| Some(bus_account(i, 10 + i))).collect();
    assert_eq!(find_bus(0, &accounts), Some(7));
}

#[test]
fn submit_step_resets_or_picks_a_bus() {
    let agg = Aggregator::new(&proof_info(50), 0, 0, 0);
    let accounts = vec![Some(bus_account(2, 5)), Some(bus_account(3, 9))];
    assert_eq!(agg.submit_step(51, 1, &accounts), SubmitStep::Reset);
    assert_eq!(agg.submit_step(50, 1, &accounts), SubmitStep::Submit { bus_index: 3 });
    assert_eq!(agg.submit_step(50, 1, &vec![Some(bus_account(8, 9))]), SubmitStep::UnknownBus);
    assert_eq!(agg.submit_step(50, 4, &vec![]), SubmitStep::Submit { bus_index: 4 });
}

#[test]
fn submission_instructions_match_ore_api() {
    let mut agg = Aggregator::new(&proof_info(50), 0, 0, 0);
    agg.judge_solution(Solution::new([4; 16], [5; 8]), true, 3);
    let operator = Operator::new("11111111111111111111111111111111").unwrap();
    let signer = [7u8; 32];
    let boost = [8u8; 32];
    let (auth, mine) = agg.submission_instructions(&operator, signer, 6, boost).unwrap();
    let expected_auth = ore_api::sdk::auth(Pubkey::new_from_array(operator.proof_address));
    assert_eq!(auth.program_id, expected_auth.program_id.to_bytes());
    assert_eq!(auth.program_id, NOOP_PROGRAM_ID);
    assert!(auth.accounts.is_empty());
    assert_eq!(auth.data, expected_auth.data);
    let expected_mine = ore_api::sdk::mine(
        Pubkey::new_from_array(signer),
        Pubkey::new_from_array(operator.authority),
        ore_api::consts::BUS_ADDRESSES[6],
        drillx::Solution::new([4; 16], [5; 8]),
        Pubkey::new_from_array(boost),
    );
    assert_eq!(mine.program_id, expected_mine.program_id.to_bytes());
    assert_eq!(mine.program_id, ORE_PROGRAM_ID);
    assert_eq!(mine.data, expected_mine.data);
    assert_eq!(mine.data[0], 2);
    assert_eq!(mine.accounts.len(), expected_mine.accounts.len());
    for (a, b) in mine.accounts.iter().zip(expected_mine.accounts.iter()) {
        assert_eq!((a.pubkey, a.is_signer, a.is_writable), (b.pubkey.to_bytes(), b.is_signer, b.is_writable));
    }
    assert_eq!(mine.accounts[1].pubkey, ore_api::consts::BUS_ADDRESSES[6].to_bytes());
}
