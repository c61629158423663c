use ore_pool::drill::DrillHash;
use ore_pool::miner::{mine_step, next_best, select_solutions};
use ore_pool::types::{websocket_url, Challenge, MemberRoute, PoolMessage, ServerRoute, Solution};

fn hash_with_leading_zero_bits(bits: u32) -> [u8; 32] {
    let mut h = [0xffu8; 32];
    let full = (bits / 8) as usize;
    for b in h.iter_mut().take(full) {
        *b = 0;
    }
    if full < 32 {
        h[full] = 0xff >> (bits % 8);
    }
    h
}

#[test]
fn default_challenge_is_zero() {
    let c = Challenge::default();
    assert_eq!(c.challenge, [0u8; 32]);
    assert_eq!((c.lash_hash_at, c.min_score, c.cutoff_time, c.unix_timestamp), (0, 0, 0, 0));
}

#[test]
fn select_sends_hashes_above_the_minimum_and_the_best() {
    let mut challenge = Challenge::default();
    challenge.min_score = 5;
    let hashes = vec![
        DrillHash { d: [1; 16], h: hash_with_leading_zero_bits(4) },
        DrillHash { d: [2; 16], h: hash_with_leading_zero_bits(9) },
        DrillHash { d: [3; 16], h: hash_with_leading_zero_bits(6) },
        DrillHash { d: [4; 16], h: hash_with_leading_zero_bits(12) },
    ];
    let sent = select_solutions(&challenge, 6, [7; 8], &hashes);
    assert_eq!(sent.len(), 2);
    assert_eq!((sent[0].0.d, sent[0].0.n, sent[0].1), ([2; 16], [7; 8], 9));
    assert_eq!((sent[1].0.d, sent[1].1), ([4; 16], 12));
}

#[test]
fn difficulty_counts_leading_zero_bits() {
    let challenge = Challenge::default();
    for bits in [0u32, 1, 7, 8, 13, 255, 256] {
        let hashes = vec![DrillHash { d: [0; 16], h: hash_with_leading_zero_bits(bits) }];
        let sent = select_solutions(&challenge, 0, [0; 8], &hashes);
        if bits == 0 {
            assert!(sent.is_empty());
        } else {
            assert_eq!(sent[0].1, bits as u64);
        }
        assert_eq!(drillx::difficulty(hash_with_leading_zero_bits(bits)), bits);
        assert_eq!(ore_pool::drill::difficulty(hash_with_leading_zero_bits(bits)), bits);
    }
}

#[test]
fn mine_step_matches_drillx() {
    let challenge = Challenge { challenge: [21u8; 32], ..Challenge::default() };
    let mut memory = drillx::equix::SolverMemory::new();
    for nonce in [0u64, 100, 12345] {
        let step = mine_step(&mut memory, 0, &challenge, 0, nonce);
        let expected: Vec<(Solution, u64)> = drillx::hashes_with_memory(&mut memory, &challenge.challenge, &nonce.to_le_bytes())
            .into_iter()
            .filter(|h| h.difficulty() > 0)
            .map(|h| (Solution::new(h.d, nonce.to_le_bytes()), h.difficulty() as u64))
            .collect();
        assert_eq!(step.solutions.len(), expected.len());
        for (a, b) in step.solutions.iter().zip(expected.iter()) {
            assert_eq!((a.0.d, a.0.n, a.1), (b.0.d, b.0.n, b.1));
        }
        assert_eq!(step.report, nonce % 100 == 0);
        assert_eq!(step.next_nonce, nonce + 1);
    }
    let last = mine_step(&mut memory, 3, &challenge, 0, u64::MAX);
    assert_eq!(last.next_nonce, 0);
    assert!(!last.report);
}

#[test]
fn messages_are_routed() {
    let s = Solution::new([1; 16], [2; 8]);
    match (PoolMessage::NewSolution { solution: s }).server_route() {
        ServerRoute::Contribute(t) => assert_eq!(t.d, [1; 16]),
        other => panic!("{:?}", other),
    }
    assert!(matches!((PoolMessage::Error { message: "x".to_string() }).server_route(), ServerRoute::ReportError));
    assert!(matches!((PoolMessage::NewChallenge { challenge: Challenge::default() }).server_route(), ServerRoute::Unexpected));
    assert!(matches!((PoolMessage::NewChallenge { challenge: Challenge::default() }).member_route(), MemberRoute::Mine(_)));
    assert!(matches!((PoolMessage::NewSolution { solution: s }).member_route(), MemberRoute::Unexpected));
}

#[test]
fn mined_solutions_are_valid_with_their_score() {
    let challenge = Challenge { challenge: [33u8; 32], ..Challenge::default() };
    let mut memory = drillx::equix::SolverMemory::new();
    let mut checked = 0;
    for nonce in 0..40u64 {
        let step = mine_step(&mut memory, 2, &challenge, 0, nonce);
        for (solution, score) in step.solutions {
            let s = drillx::Solution::new(solution.d, solution.n);
            assert!(s.is_valid(&challenge.challenge));
            assert_eq!(s.to_hash().difficulty() as u64, score);
            assert_eq!(solution.n, nonce.to_le_bytes());
            checked += 1;
        }
    }
    assert!(checked > 0);
}

#[test]
fn best_score_only_rises() {
    assert_eq!(next_best(5, 9), 9);
    assert_eq!(next_best(9, 5), 9);
    assert_eq!(next_best(7, 7), 7);
}

#[test]
fn websocket_url_replaces_http_and_adds_the_route() {
    let url = |s: &str| String::from_utf8(websocket_url(s.as_bytes())).unwrap();
    assert_eq!(url("http://pool.example:3000"), "ws://pool.example:3000/connect");
    assert_eq!(url("https://pool.example"), "wss://pool.example/connect");
    assert_eq!(url("http://httpbin"), "http://httpbin".replace("http", "ws") + "/connect");
    assert_eq!(url("htt"), "htt/connect");
    assert_eq!(url(""), "/connect");
}
