//! The member's side of mining: which of the hashes found for a nonce are
//! worth sending to the pool.

use vstd::prelude::*;

use crate::bytes::{spec_le_bytes, u64_to_le_bytes};
use crate::drill::{drillx_hash, drillx_is_valid, spec_solution_score, difficulty, drillx_hashes, hashes_with_memory, leading_zero_bits, DrillHash};
use crate::aggregator::{spec_verdict, Aggregator, SolutionVerdict};
use crate::types::{Challenge, Solution};

verus! {

/// Nonces between two progress reports of the first core.
pub const REPORT_INTERVAL: u64 = 100;

/// Whether a hash of this difficulty is sent: it meets the challenge's
/// minimum and beats the best score known when the nonce was started.
pub open spec fn worth_sending(challenge: Challenge, local_best: u64, score: int) -> bool {
    score >= challenge.min_score && score > local_best
}

/// The solutions sent for the hashes of a nonce, in order, with their scores.
pub open spec fn spec_selected(challenge: Challenge, local_best: u64, nonce: [u8; 8], hashes: Seq<DrillHash>) -> Seq<(Solution, u64)>
    decreases hashes.len(),
{
    if hashes.len() == 0 {
        Seq::empty()
    } else {
        let rest = spec_selected(challenge, local_best, nonce, hashes.drop_last());
        let hx = hashes.last();
        let score = leading_zero_bits(hx.h@);
        if worth_sending(challenge, local_best, score as int) {
            rest.push((Solution { d: hx.d, n: nonce }, score as u64))
        } else {
            rest
        }
    }
}

/// Every solution sent meets the challenge's minimum and beats the best
/// score known when the nonce was started, carries the nonce it was found
/// for, and has the difficulty of one of the hashes; no more solutions are
/// sent than hashes were found.
pub proof fn lemma_selected_are_worthy(challenge: Challenge, local_best: u64, nonce: [u8; 8], hashes: Seq<DrillHash>)
    ensures
        spec_selected(challenge, local_best, nonce, hashes).len() <= hashes.len(),
        forall|i: int| 0 <= i < spec_selected(challenge, local_best, nonce, hashes).len() ==> {
            let (solution, score) = #[trigger] spec_selected(challenge, local_best, nonce, hashes)[i];
            &&& score >= challenge.min_score
            &&& score > local_best
            &&& solution.n == nonce
            &&& exists|j: int| 0 <= j < hashes.len() && hashes[j].d == solution.d
                && leading_zero_bits(#[trigger] hashes[j].h@) == score
        },
    decreases hashes.len(),
{
    if hashes.len() > 0 {
        let prefix = hashes.drop_last();
        lemma_selected_are_worthy(challenge, local_best, nonce, prefix);
        let rest = spec_selected(challenge, local_best, nonce, prefix);
        let all = spec_selected(challenge, local_best, nonce, hashes);
        crate::drill::lemma_leading_zero_bits_bound(hashes.last().h@);
        assert forall|i: int| 0 <= i < all.len() implies {
            let (solution, score) = #[trigger] all[i];
            &&& score >= challenge.min_score
            &&& score > local_best
            &&& solution.n == nonce
            &&& exists|j: int| 0 <= j < hashes.len() && hashes[j].d == solution.d
                && leading_zero_bits(#[trigger] hashes[j].h@) == score
        } by {
            if i < rest.len() {
                assert(all[i] == rest[i]);
                let (solution, score) = rest[i];
                let j = choose|j: int| 0 <= j < prefix.len() && prefix[j].d == solution.d
                    && leading_zero_bits(#[trigger] prefix[j].h@) == score;
                assert(hashes[j] == prefix[j]);
            } else {
                let j = hashes.len() - 1;
                assert(hashes[j] == hashes.last());
            }
        }
    }
}

/// Whether a hash is sent: its difficulty meets the challenge's minimum and
/// beats the best score known when the nonce was started.
pub open spec fn hash_is_sent(challenge: Challenge, local_best: u64) -> spec_fn(DrillHash) -> bool {
    |hx: DrillHash| leading_zero_bits(hx.h@) >= challenge.min_score && leading_zero_bits(hx.h@) > local_best
}

/// The solution and score sent for a hash found with `nonce`.
pub open spec fn hash_solution(nonce: [u8; 8]) -> spec_fn(DrillHash) -> (Solution, u64) {
    |hx: DrillHash| (Solution { d: hx.d, n: nonce }, leading_zero_bits(hx.h@) as u64)
}

/// The solutions sent for a nonce are exactly its hashes whose difficulty
/// meets the minimum and beats the local best, in the order they were found,
/// each as its digest with the nonce and its difficulty.
pub proof fn lemma_selected_is_filter(challenge: Challenge, local_best: u64, nonce: [u8; 8], hashes: Seq<DrillHash>)
    ensures
        spec_selected(challenge, local_best, nonce, hashes)
            == hashes.filter(hash_is_sent(challenge, local_best)).map_values(hash_solution(nonce)),
    decreases hashes.len(),
{
    reveal(Seq::filter);
    if hashes.len() > 0 {
        lemma_selected_is_filter(challenge, local_best, nonce, hashes.drop_last());
        let rest = hashes.drop_last().filter(hash_is_sent(challenge, local_best));
        if hash_is_sent(challenge, local_best)(hashes.last()) {
            assert(rest.push(hashes.last()).map_values(hash_solution(nonce))
                =~= rest.map_values(hash_solution(nonce)).push(hash_solution(nonce)(hashes.last())));
        }
    }
}

/// Every hash of a nonce whose difficulty meets the minimum and beats the
/// local best is sent, as its digest with the nonce and its difficulty.
pub proof fn lemma_selected_is_complete(challenge: Challenge, local_best: u64, nonce: [u8; 8], hashes: Seq<DrillHash>, j: int)
    requires
        0 <= j < hashes.len(),
        leading_zero_bits(hashes[j].h@) >= challenge.min_score,
        leading_zero_bits(hashes[j].h@) > local_best,
    ensures
        spec_selected(challenge, local_best, nonce, hashes).contains(
            (Solution { d: hashes[j].d, n: nonce }, leading_zero_bits(hashes[j].h@) as u64),
        ),
{
    broadcast use vstd::seq_lib::group_filter_ensures;
    lemma_selected_is_filter(challenge, local_best, nonce, hashes);
    let kept = hashes.filter(hash_is_sent(challenge, local_best));
    assert(hash_is_sent(challenge, local_best)(hashes[j]));
    assert(kept.contains(hashes[j]));
    let k = choose|k: int| 0 <= k < kept.len() && kept[k] == hashes[j];
    assert(kept.map_values(hash_solution(nonce))[k] == hash_solution(nonce)(hashes[j]));
}

/// A solution that a member sends for the pool's challenge is one the pool
/// accepts: it is valid, and its score, which meets the challenge's minimum,
/// either becomes the new best or does not beat the best one.
pub proof fn lemma_sent_solution_is_accepted(a: Aggregator, challenge: Challenge, solution: Solution, score: u64)
    requires
        a.current_challenge.challenge == challenge.challenge,
        a.current_challenge.min_score <= challenge.min_score,
        drillx_is_valid(challenge.challenge@, solution.n@, solution.d@),
        score == spec_solution_score(solution),
        score >= challenge.min_score,
    ensures
        spec_verdict(a, drillx_is_valid(a.current_challenge.challenge@, solution.n@, solution.d@), spec_solution_score(solution))
            == (if a.best_score < score {
                SolutionVerdict::NewBest { score }
            } else {
                SolutionVerdict::NotBetter { score }
            }),
{
}

/// Picks, among the hashes found for a nonce, those worth sending, as solutions
/// with their scores.
pub fn select_solutions(challenge: &Challenge, local_best: u64, nonce: [u8; 8], hashes: &Vec<DrillHash>) -> (sent: Vec<(Solution, u64)>)
    ensures
        sent@ == spec_selected(*challenge, local_best, nonce, hashes@),
        sent@ == hashes@.filter(hash_is_sent(*challenge, local_best)).map_values(hash_solution(nonce)),
{
    let mut sent: Vec<(Solution, u64)> = Vec::new();
    let mut i: usize = 0;
    while i < hashes.len()
        invariant
            i <= hashes@.len(),
            sent@ == spec_selected(*challenge, local_best, nonce, hashes@.subrange(0, i as int)),
        decreases hashes@.len() - i,
    {
        assert(hashes@.subrange(0, i + 1).drop_last() =~= hashes@.subrange(0, i as int));
        let hx = hashes[i];
        proof {
            crate::drill::lemma_leading_zero_bits_bound(hx.h@);
        }
        let score = difficulty(hx.h) as u64;
        if score >= challenge.min_score && score > local_best {
            sent.push((Solution { d: hx.d, n: nonce }, score));
        }
        i = i + 1;
    }
    assert(hashes@.subrange(0, hashes@.len() as int) =~= hashes@);
    proof {
        lemma_selected_is_filter(*challenge, local_best, nonce, hashes@);
    }
    sent
}

/// The outcome of mining one nonce.
#[derive(Debug)]
pub struct MineStep {
    /// The solutions to send, in order, with their scores.
    pub solutions: Vec<(Solution, u64)>,
    /// Whether to report progress.
    pub report: bool,
    /// The nonce to try next.
    pub next_nonce: u64,
}

/// Mines one nonce on a core: hashes the challenge with it, picks the
/// solutions worth sending, and moves on to the next nonce (wrapping around).
/// The first core reports progress every hundred nonces.
pub fn mine_step(
    memory: &mut drillx::equix::SolverMemory,
    core_id: usize,
    challenge: &Challenge,
    local_best: u64,
    nonce: u64,
) -> (step: MineStep)
    ensures
        ({
            let bytes = spec_le_bytes(nonce);
            let found = drillx_hashes(challenge.challenge@, bytes);
            exists|hashes: Seq<DrillHash>| {
                &&& hashes.len() == found.len()
                &&& (forall|i: int| 0 <= i < hashes.len() ==> (#[trigger] hashes[i]).d@ == found[i].0 && hashes[i].h@ == found[i].1)
                &&& exists|n: [u8; 8]| n@ == bytes && step.solutions@ == spec_selected(*challenge, local_best, n, hashes)
            }
        }),
        forall|i: int| 0 <= i < step.solutions@.len() ==> {
            let (solution, score) = #[trigger] step.solutions@[i];
            &&& drillx_is_valid(challenge.challenge@, solution.n@, solution.d@)
            &&& solution.n@ == spec_le_bytes(nonce)
            &&& score == spec_solution_score(solution)
            &&& score >= challenge.min_score
            &&& score > local_best
        },
        forall|j: int| 0 <= j < drillx_hashes(challenge.challenge@, spec_le_bytes(nonce)).len() ==> {
            let found = #[trigger] drillx_hashes(challenge.challenge@, spec_le_bytes(nonce))[j];
            leading_zero_bits(found.1) >= challenge.min_score && leading_zero_bits(found.1) > local_best ==>
                exists|i: int| 0 <= i < step.solutions@.len() && {
                    let (solution, score) = #[trigger] step.solutions@[i];
                    &&& solution.d@ == found.0
                    &&& solution.n@ == spec_le_bytes(nonce)
                    &&& score == leading_zero_bits(found.1)
                }
        },
        step.report == (core_id == 0 && nonce % REPORT_INTERVAL == 0),
        step.next_nonce == (if nonce == u64::MAX { 0 } else { (nonce + 1) as u64 }),
{
    let bytes = u64_to_le_bytes(nonce);
    let hashes = hashes_with_memory(memory, &challenge.challenge, &bytes);
    let solutions = select_solutions(challenge, local_best, bytes, &hashes);
    proof {
        lemma_selected_are_worthy(*challenge, local_best, bytes, hashes@);
        assert forall|i: int| 0 <= i < solutions@.len() implies {
            let (solution, score) = #[trigger] solutions@[i];
            &&& drillx_is_valid(challenge.challenge@, solution.n@, solution.d@)
            &&& solution.n@ == spec_le_bytes(nonce)
            &&& score == spec_solution_score(solution)
            &&& score >= challenge.min_score
            &&& score > local_best
        } by {
            let (solution, score) = solutions@[i];
            let j = choose|j: int| 0 <= j < hashes@.len() && hashes@[j].d == solution.d
                && leading_zero_bits(#[trigger] hashes@[j].h@) == score;
            assert(hashes@[j].d@ == solution.d@);
            assert(drillx_hash(hashes@[j].d@, bytes@) == hashes@[j].h@);
        }
        let found = drillx_hashes(challenge.challenge@, bytes@);
        assert forall|j: int| 0 <= j < found.len() implies {
            let f = #[trigger] found[j];
            leading_zero_bits(f.1) >= challenge.min_score && leading_zero_bits(f.1) > local_best ==>
                exists|i: int| 0 <= i < solutions@.len() && {
                    let (solution, score) = #[trigger] solutions@[i];
                    &&& solution.d@ == f.0
                    &&& solution.n@ == bytes@
                    &&& score == leading_zero_bits(f.1)
                }
        } by {
            let f = found[j];
            if leading_zero_bits(f.1) >= challenge.min_score && leading_zero_bits(f.1) > local_best {
                assert(hashes@[j].h@ == f.1);
                lemma_selected_is_complete(*challenge, local_best, bytes, hashes@, j);
                crate::drill::lemma_leading_zero_bits_bound(hashes@[j].h@);
                let i = choose|i: int| 0 <= i < solutions@.len() && solutions@[i] == (Solution { d: hashes@[j].d, n: bytes }, leading_zero_bits(hashes@[j].h@) as u64);
                assert(solutions@[i].0.d@ == f.0);
            }
        }
    }
    MineStep {
        solutions,
        report: core_id == 0 && nonce % REPORT_INTERVAL == 0,
        next_nonce: nonce.wrapping_add(1),
    }
}

/// The best score shared by a member's cores after one of them sends a
/// solution with `score`: the best is only ever raised.
pub fn next_best(current: u64, score: u64) -> (best: u64)
    ensures
        best == (if score > current { score } else { current }),
        best >= current,
        best >= score,
{
    if score > current {
        score
    } else {
        current
    }
}

} // verus!
