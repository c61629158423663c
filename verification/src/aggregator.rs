//! The pool operator's aggregator: it keeps the best solution contributed for
//! the current challenge and decides when to submit it and when to move on.

use vstd::prelude::*;

use crate::bytes::le_u64;
use crate::drill::{drillx_is_valid, solution_is_valid, solution_score, spec_solution_score};
use crate::instruction::{AccountMeta, Instruction};
use crate::operator::{spec_bus_read, account_readable, ore_bus_from_bytes, ore_proof_address, proof_address_exists, Operator, BusInfo, ProofInfo, BUS_DISCRIMINATOR};
use crate::types::{Challenge, PoolMessage, Solution};

verus! {

/// Fetches of the proof before the aggregator gives up waiting for a new challenge.
pub const MAX_RETRIES: u32 = 10;

/// Aggregates contributions from the pool members.
#[derive(Clone, Copy, Debug)]
pub struct Aggregator {
    /// The current challenge.
    pub current_challenge: Challenge,
    /// The best solution for the current challenge.
    pub best_solution: Solution,
    /// The score of the best solution.
    pub best_score: u64,
}

/// What became of a contributed solution.
#[derive(Clone, Copy, Debug, PartialEq, Eq, Structural)]
pub enum SolutionVerdict {
    /// The solution does not solve the current challenge.
    Invalid,
    /// The solution's score is under the challenge's minimum; the pool stops
    /// processing contributions.
    BelowMinimum { score: u64 },
    /// The solution is valid but does not beat the best one.
    NotBetter { score: u64 },
    /// The solution is the new best.
    NewBest { score: u64 },
}

/// What the mining loop does once the cutoff time is reached.
#[derive(Clone, Copy, Debug, PartialEq, Eq, Structural)]
pub enum MiningAction {
    /// Submit the best solution, then dispatch the next challenge.
    SubmitAndDispatch,
    /// Nothing was contributed yet: wait for the first contribution.
    WaitForContribution,
}

/// The next step of waiting for a new challenge after a fetch of the proof.
#[derive(Clone, Copy, Debug, PartialEq, Eq, Structural)]
pub enum RefreshStep {
    /// The proof moved on: adopt its challenge.
    Apply,
    /// The proof did not move yet: wait, then fetch again with this retry count.
    Retry { retries: u32 },
    /// The proof did not move in time: fail to fetch a new challenge.
    GiveUp,
}

/// One step of waiting for a new challenge: adopt it if the proof moved on,
/// otherwise retry until `MAX_RETRIES` fetches showed no change.
pub open spec fn spec_refresh_step(a: Aggregator, proof_last_hash_at: i64, retries: u32) -> RefreshStep {
    if proof_last_hash_at != a.current_challenge.lash_hash_at {
        RefreshStep::Apply
    } else if retries + 1 == MAX_RETRIES {
        RefreshStep::GiveUp
    } else {
        RefreshStep::Retry { retries: (retries + 1) as u32 }
    }
}

/// The aggregator's invariant: the best score is zero (nothing contributed), or
/// it is the score of the best solution, which solves the current challenge
/// with at least the minimum score.
pub open spec fn aggregator_inv(a: Aggregator) -> bool {
    a.best_score == 0 || (
        a.best_score == spec_solution_score(a.best_solution)
        && drillx_is_valid(a.current_challenge.challenge@, a.best_solution.n@, a.best_solution.d@)
        && a.best_score >= a.current_challenge.min_score
    )
}

/// The outcome of weighing a solution that is `valid` and has `score`.
pub open spec fn spec_verdict(a: Aggregator, valid: bool, score: u64) -> SolutionVerdict {
    if !valid {
        SolutionVerdict::Invalid
    } else if score < a.current_challenge.min_score {
        SolutionVerdict::BelowMinimum { score }
    } else if a.best_score < score {
        SolutionVerdict::NewBest { score }
    } else {
        SolutionVerdict::NotBetter { score }
    }
}

/// The aggregator after weighing a solution: only a new best changes it.
pub open spec fn spec_after_verdict(a: Aggregator, solution: Solution, valid: bool, score: u64) -> Aggregator {
    if spec_verdict(a, valid, score) is NewBest {
        Aggregator { best_score: score, best_solution: solution, ..a }
    } else {
        a
    }
}

/// An aggregator for a fresh challenge, with nothing contributed yet.
pub open spec fn fresh_for(a: Aggregator, proof: ProofInfo, min_score: u64, cutoff_time: u64, unix_timestamp: i64) -> bool {
    &&& a.current_challenge.challenge == proof.challenge
    &&& a.current_challenge.unix_timestamp == unix_timestamp
    &&& a.current_challenge.lash_hash_at == proof.last_hash_at
    &&& a.current_challenge.min_score == min_score
    &&& a.current_challenge.cutoff_time == cutoff_time
    &&& a.best_score == 0
    &&& a.best_solution.d@ == Seq::new(16, |i: int| 0u8)
    &&& a.best_solution.n@ == Seq::new(8, |i: int| 0u8)
}

impl Aggregator {
    /// The aggregator for the challenge of the operator's proof.
    pub fn new(proof: &ProofInfo, min_score: u64, cutoff_time: u64, unix_timestamp: i64) -> (a: Aggregator)
        ensures
            fresh_for(a, *proof, min_score, cutoff_time, unix_timestamp),
            aggregator_inv(a),
    {
        Aggregator {
            current_challenge: Challenge {
                challenge: proof.challenge,
                lash_hash_at: proof.last_hash_at,
                min_score,
                cutoff_time,
                unix_timestamp,
            },
            best_solution: Solution::zeroed(),
            best_score: 0,
        }
    }

    /// Weighs a solution whose validity and score are known: a valid solution
    /// at or above the minimum that beats the best score becomes the best.
    pub fn judge_solution(&mut self, solution: Solution, valid: bool, score: u64) -> (v: SolutionVerdict)
        ensures
            v == spec_verdict(*old(self), valid, score),
            *final(self) == spec_after_verdict(*old(self), solution, valid, score),
            !(valid) ==> v == SolutionVerdict::Invalid && *final(self) == *old(self),
            (valid) && score < old(self).current_challenge.min_score ==> v == (SolutionVerdict::BelowMinimum { score: score }) && *final(self) == *old(self),
            (valid) && score >= old(self).current_challenge.min_score && old(self).best_score < score ==> {
                &&& v == (SolutionVerdict::NewBest { score: score })
                &&& final(self).best_score == score
                &&& final(self).best_solution == solution
                &&& final(self).current_challenge == old(self).current_challenge
            },
            (valid) && old(self).current_challenge.min_score <= score <= old(self).best_score ==> v == (SolutionVerdict::NotBetter { score: score }) && *final(self) == *old(self),
    {
        if !valid {
            return SolutionVerdict::Invalid;
        }
        if score < self.current_challenge.min_score {
            return SolutionVerdict::BelowMinimum { score };
        }
        if self.best_score < score {
            self.best_score = score;
            self.best_solution = solution;
            SolutionVerdict::NewBest { score }
        } else {
            SolutionVerdict::NotBetter { score }
        }
    }

    /// Verifies a contributed solution against the current challenge, scores it,
    /// and keeps it if it is the new best.
    pub fn process_solution(&mut self, solution: Solution) -> (v: SolutionVerdict)
        ensures
            v == spec_verdict(
                *old(self),
                drillx_is_valid(old(self).current_challenge.challenge@, solution.n@, solution.d@),
                spec_solution_score(solution),
            ),
            *final(self) == spec_after_verdict(
                *old(self),
                solution,
                drillx_is_valid(old(self).current_challenge.challenge@, solution.n@, solution.d@),
                spec_solution_score(solution),
            ),
            !(drillx_is_valid(old(self).current_challenge.challenge@, solution.n@, solution.d@)) ==> v == SolutionVerdict::Invalid && *final(self) == *old(self),
            (drillx_is_valid(old(self).current_challenge.challenge@, solution.n@, solution.d@)) && spec_solution_score(solution) < old(self).current_challenge.min_score ==> v == (SolutionVerdict::BelowMinimum { score: spec_solution_score(solution) }) && *final(self) == *old(self),
            (drillx_is_valid(old(self).current_challenge.challenge@, solution.n@, solution.d@)) && spec_solution_score(solution) >= old(self).current_challenge.min_score && old(self).best_score < spec_solution_score(solution) ==> {
                &&& v == (SolutionVerdict::NewBest { score: spec_solution_score(solution) })
                &&& final(self).best_score == spec_solution_score(solution)
                &&& final(self).best_solution == solution
                &&& final(self).current_challenge == old(self).current_challenge
            },
            (drillx_is_valid(old(self).current_challenge.challenge@, solution.n@, solution.d@)) && old(self).current_challenge.min_score <= spec_solution_score(solution) <= old(self).best_score ==> v == (SolutionVerdict::NotBetter { score: spec_solution_score(solution) }) && *final(self) == *old(self),
    {
        let valid = solution_is_valid(&solution, &self.current_challenge.challenge);
        if !valid {
            return SolutionVerdict::Invalid;
        }
        let score = solution_score(&solution);
        self.judge_solution(solution, valid, score)
    }

    /// The message that announces the current challenge to members.
    pub fn challenge_message(&self) -> (m: PoolMessage)
        ensures
            m matches PoolMessage::NewChallenge { challenge } && challenge == self.current_challenge,
    {
        PoolMessage::NewChallenge { challenge: self.current_challenge }
    }

    /// Whether the proof moved on to a new challenge since this one was set.
    pub fn check_for_reset(&self, proof_last_hash_at: i64) -> (needs_reset: bool)
        ensures
            needs_reset == (proof_last_hash_at != self.current_challenge.lash_hash_at),
    {
        proof_last_hash_at != self.current_challenge.lash_hash_at
    }

    /// What to do after the cutoff: submit when something was contributed.
    pub fn next_mining_action(&self) -> (action: MiningAction)
        ensures
            action == (if self.best_score > 0 {
                MiningAction::SubmitAndDispatch
            } else {
                MiningAction::WaitForContribution
            }),
    {
        if self.best_score > 0 {
            MiningAction::SubmitAndDispatch
        } else {
            MiningAction::WaitForContribution
        }
    }

    /// One step of waiting for a new challenge, after `retries` fetches that
    /// showed no change and a fetch that showed `proof_last_hash_at`.
    pub fn refresh_step(&self, proof_last_hash_at: i64, retries: u32) -> (step: RefreshStep)
        requires
            retries < MAX_RETRIES,
        ensures
            step == spec_refresh_step(*self, proof_last_hash_at, retries),
    {
        if proof_last_hash_at != self.current_challenge.lash_hash_at {
            RefreshStep::Apply
        } else if retries + 1 == MAX_RETRIES {
            RefreshStep::GiveUp
        } else {
            RefreshStep::Retry { retries: retries + 1 }
        }
    }

    /// Adopts the challenge of a proof that moved on, and forgets the best solution.
    pub fn apply_challenge(&mut self, proof: &ProofInfo, min_score: u64, cutoff_time: u64, unix_timestamp: i64)
        ensures
            fresh_for(*final(self), *proof, min_score, cutoff_time, unix_timestamp),
            aggregator_inv(*final(self)),
    {
        self.current_challenge.challenge = proof.challenge;
        self.current_challenge.lash_hash_at = proof.last_hash_at;
        self.current_challenge.min_score = min_score;
        self.current_challenge.cutoff_time = cutoff_time;
        self.current_challenge.unix_timestamp = unix_timestamp;
        self.best_score = 0;
        self.best_solution = Solution::zeroed();
    }
}

/// Seconds still to wait before the cutoff, after `elapsed` seconds.
pub fn remaining_time(cutoff_time: u64, elapsed: u64) -> (r: u64)
    ensures
        r == (if elapsed <= cutoff_time { cutoff_time - elapsed } else { 0 }),
{
    cutoff_time.saturating_sub(elapsed)
}

/// The bus that a scan of the buses settles on, with the balance it saw:
/// starting from bus `start` and balance zero, a bus replaces the current
/// choice when its rewards are strictly larger.
pub open spec fn spec_select_bus(start: int, buses: Seq<Option<BusInfo>>) -> (u64, int)
    decreases buses.len(),
{
    if buses.len() == 0 {
        (0, start)
    } else {
        let (balance, index) = spec_select_bus(start, buses.drop_last());
        match buses.last() {
            Some(bus) => if bus.rewards > balance {
                (bus.rewards, bus.id as int)
            } else {
                (balance, index)
            },
            None => (balance, index),
        }
    }
}

/// `ore_api::consts::BUS_COUNT`: the number of bus accounts, declared as 8.
#[verifier::external_body]
fn bus_count() -> (n: usize)
    ensures
        n == 8,
{
    ore_api::consts::BUS_COUNT
}

/// Whether every bus that becomes the current choice during the scan names
/// one of the `8` bus addresses.
pub open spec fn spec_scan_in_range(start: int, buses: Seq<Option<BusInfo>>) -> bool
    decreases buses.len(),
{
    if buses.len() == 0 {
        true
    } else {
        let (balance, _) = spec_select_bus(start, buses.drop_last());
        &&& spec_scan_in_range(start, buses.drop_last())
        &&& match buses.last() {
            Some(bus) => bus.rewards > balance ==> bus.id < 8,
            None => true,
        }
    }
}

/// A scan that chose an out-of-range bus on a prefix stays out of range.
proof fn lemma_out_of_range_persists(start: int, buses: Seq<Option<BusInfo>>, k: int)
    requires
        0 <= k <= buses.len(),
        !spec_scan_in_range(start, buses.subrange(0, k)),
    ensures
        !spec_scan_in_range(start, buses),
    decreases buses.len() - k,
{
    if k < buses.len() {
        assert(buses.subrange(0, k + 1).drop_last() =~= buses.subrange(0, k));
        lemma_out_of_range_persists(start, buses, k + 1);
    } else {
        assert(buses.subrange(0, k) =~= buses);
    }
}

/// Picks the bus with the largest rewards among those that were read, the
/// first one on a tie; when none has rewards, the bus `random_index`.
/// `None` when a bus chosen along the way names an id that is not a bus.
pub fn select_bus(random_index: usize, buses: &Vec<Option<BusInfo>>) -> (index: Option<usize>)
    requires
        random_index < 8,
    ensures
        index == (if spec_scan_in_range(random_index as int, buses@) {
            Some(spec_select_bus(random_index as int, buses@).1 as usize)
        } else {
            None
        }),
        index matches Some(i) ==> i < 8,
{
    let count = bus_count();
    let mut top_balance: u64 = 0;
    let mut top_index: usize = random_index;
    let mut i: usize = 0;
    while i < buses.len()
        invariant
            i <= buses@.len(),
            count == 8,
            random_index < 8,
            (top_balance, top_index as int) == spec_select_bus(random_index as int, buses@.subrange(0, i as int)),
            spec_scan_in_range(random_index as int, buses@.subrange(0, i as int)),
            top_index < 8,
        decreases buses@.len() - i,
    {
        assert(buses@.subrange(0, i + 1).drop_last() =~= buses@.subrange(0, i as int));
        match buses[i] {
            Some(bus) => {
                if bus.rewards > top_balance {
                    if bus.id >= count as u64 {
                        proof {
                            lemma_out_of_range_persists(random_index as int, buses@, i + 1);
                        }
                        return None;
                    }
                    top_balance = bus.rewards;
                    top_index = bus.id as usize;
                }
            },
            None => {},
        }
        i = i + 1;
    }
    assert(buses@.subrange(0, buses@.len() as int) =~= buses@);
    Some(top_index)
}

/// Position `i` of `buses` holds a bus read with these rewards and id.
pub open spec fn bus_at(buses: Seq<Option<BusInfo>>, i: int, rewards: u64, id: int) -> bool {
    0 <= i < buses.len() && match buses[i] {
        Some(b) => b.rewards == rewards && b.id == id,
        None => false,
    }
}

/// Position `i` holds the first bus with these rewards, and every bus before
/// it has less.
pub open spec fn first_richest_at(buses: Seq<Option<BusInfo>>, i: int, rewards: u64, id: int) -> bool {
    &&& bus_at(buses, i, rewards, id)
    &&& forall|j: int| 0 <= j < i ==> ((#[trigger] buses[j]) matches Some(b) ==> b.rewards < rewards)
}

/// The scan settles on the first bus with the largest rewards among those
/// that were read; when none has rewards, on the start bus.
pub proof fn lemma_select_bus_is_richest(start: int, buses: Seq<Option<BusInfo>>)
    ensures
        ({
            let (balance, index) = spec_select_bus(start, buses);
            &&& forall|i: int| 0 <= i < buses.len() ==> ((#[trigger] buses[i]) matches Some(b) ==> b.rewards <= balance)
            &&& (balance == 0 && index == start) || (balance > 0 && exists|i: int| #[trigger] first_richest_at(buses, i, balance, index))
        }),
    decreases buses.len(),
{
    if buses.len() > 0 {
        let prefix = buses.drop_last();
        lemma_select_bus_is_richest(start, prefix);
        let (balance, index) = spec_select_bus(start, prefix);
        assert forall|i: int| 0 <= i < prefix.len() implies #[trigger] buses[i] == prefix[i] by {}
        let (b2, i2) = spec_select_bus(start, buses);
        if (b2, i2) != (balance, index) {
            let last = buses.len() - 1;
            assert(bus_at(buses, last, b2, i2));
            assert forall|j: int| 0 <= j < last implies ((#[trigger] buses[j]) matches Some(b) ==> b.rewards < b2) by {
                assert(buses[j] == prefix[j]);
            }
            assert(first_richest_at(buses, last, b2, i2));
        } else if balance != 0 || index != start {
            let w = choose|i: int| #[trigger] first_richest_at(prefix, i, balance, index);
            assert(buses[w] == prefix[w]);
            assert forall|j: int| 0 <= j < w implies ((#[trigger] buses[j]) matches Some(b) ==> b.rewards < balance) by {
                assert(buses[j] == prefix[j]);
            }
            assert(first_richest_at(buses, w, balance, index));
        }
        assert forall|i: int| 0 <= i < buses.len() implies ((#[trigger] buses[i]) matches Some(b) ==> b.rewards <= b2) by {
            if i < prefix.len() {
                assert(buses[i] == prefix[i]);
            }
        }
    }
}

/// What the bus parser may have read from an account: nothing from a missing
/// account, and from an account's data either nothing or the bus that the
/// data lays out.
pub open spec fn bus_reading(account: Option<Vec<u8>>, read: Option<BusInfo>) -> bool {
    match account {
        None => read is None,
        Some(data) => read matches Some(b) ==> {
            &&& data@[0] == BUS_DISCRIMINATOR
            &&& data@.len() == 40
            &&& b.id == le_u64(data@.subrange(8, 16))
            &&& b.rewards == le_u64(data@.subrange(16, 24))
        },
    }
}

/// What the bus parser reads from each fetched account, one for one.
pub open spec fn spec_bus_reads(accounts: Seq<Option<Vec<u8>>>) -> Seq<Option<BusInfo>> {
    Seq::new(accounts.len(), |i: int| match accounts[i] {
        Some(data) => spec_bus_read(data@),
        None => None,
    })
}

/// Reads of all the accounts, one for one.
pub open spec fn bus_readings(accounts: Seq<Option<Vec<u8>>>, reads: Seq<Option<BusInfo>>) -> bool {
    &&& reads.len() == accounts.len()
    &&& forall|i: int| 0 <= i < accounts.len() ==> bus_reading(#[trigger] accounts[i], reads[i])
}

/// Finds the bus with the largest rewards among the fetched bus accounts;
/// `None` when a bus chosen along the way names an id that is not a bus.
pub fn find_bus(random_index: usize, accounts: &Vec<Option<Vec<u8>>>) -> (r: Option<usize>)
    requires
        random_index < 8,
        forall|i: int| 0 <= i < accounts@.len() ==> ((#[trigger] accounts@[i]) matches Some(data) ==> account_readable(data@, BUS_DISCRIMINATOR)),
    ensures
        exists|reads: Seq<Option<BusInfo>>| {
            &&& bus_readings(accounts@, reads)
            &&& r == (if spec_scan_in_range(random_index as int, reads) {
                Some(spec_select_bus(random_index as int, reads).1 as usize)
            } else {
                None
            })
        },
        r == (if spec_scan_in_range(random_index as int, spec_bus_reads(accounts@)) {
            Some(spec_select_bus(random_index as int, spec_bus_reads(accounts@)).1 as usize)
        } else {
            None
        }),
        r matches Some(index) ==> index < 8,
{
    let mut reads: Vec<Option<BusInfo>> = Vec::new();
    let mut i: usize = 0;
    while i < accounts.len()
        invariant
            i <= accounts@.len(),
            forall|j: int| 0 <= j < accounts@.len() ==> ((#[trigger] accounts@[j]) matches Some(data) ==> account_readable(data@, BUS_DISCRIMINATOR)),
            bus_readings(accounts@.subrange(0, i as int), reads@),
            reads@.len() == i,
            forall|j: int| 0 <= j < i ==> #[trigger] reads@[j] == spec_bus_reads(accounts@)[j],
        decreases accounts@.len() - i,
    {
        let read = match &accounts[i] {
            Some(data) => {
                if data[0] != BUS_DISCRIMINATOR {
                    None
                } else {
                    ore_bus_from_bytes(data.as_slice())
                }
            },
            None => None,
        };
        let ghost prev = reads@;
        reads.push(read);
        i = i + 1;
        assert(reads@.drop_last() =~= prev);
        assert forall|j: int| 0 <= j < accounts@.subrange(0, i as int).len() implies
            bus_reading(#[trigger] accounts@.subrange(0, i as int)[j], reads@[j]) by {
            if j < i - 1 {
                assert(accounts@.subrange(0, i as int)[j] == accounts@.subrange(0, i - 1)[j]);
            }
        }
    }
    assert(accounts@.subrange(0, accounts@.len() as int) =~= accounts@);
    assert(reads@ =~= spec_bus_reads(accounts@));
    select_bus(random_index, &reads)
}

/// A well-formed bus account: the bus discriminator and the size of a bus.
pub open spec fn is_bus_account(account: Option<Vec<u8>>) -> bool {
    account matches Some(data) && data@.len() == 40 && data@[0] == BUS_DISCRIMINATOR
}

/// The rewards that a well-formed bus account holds.
pub open spec fn account_rewards(account: Option<Vec<u8>>) -> int {
    match account {
        Some(data) => le_u64(data@.subrange(16, 24)),
        None => 0,
    }
}

/// The id that a well-formed bus account holds.
pub open spec fn account_bus_id(account: Option<Vec<u8>>) -> int {
    match account {
        Some(data) => le_u64(data@.subrange(8, 16)),
        None => 0,
    }
}

/// The bus found among fetched accounts is the first richest one: no
/// well-formed bus account holds more rewards than the chosen balance; when
/// that balance is positive, the chosen bus is the id of the first
/// well-formed account holding it, and every earlier one holds less; and
/// when it is zero, the random start bus is kept.
pub proof fn lemma_find_bus_picks_first_richest(start: int, accounts: Seq<Option<Vec<u8>>>)
    ensures
        ({
            let (balance, index) = spec_select_bus(start, spec_bus_reads(accounts));
            &&& forall|i: int| 0 <= i < accounts.len() && is_bus_account(#[trigger] accounts[i]) ==> account_rewards(accounts[i]) <= balance
            &&& (balance == 0 && index == start) || (balance > 0 && exists|i: int| {
                &&& 0 <= i < accounts.len()
                &&& is_bus_account(#[trigger] accounts[i])
                &&& account_rewards(accounts[i]) == balance
                &&& account_bus_id(accounts[i]) == index
                &&& forall|j: int| 0 <= j < i && is_bus_account(#[trigger] accounts[j]) ==> account_rewards(accounts[j]) < balance
            })
        }),
{
    let reads = spec_bus_reads(accounts);
    lemma_select_bus_is_richest(start, reads);
    let (balance, index) = spec_select_bus(start, reads);
    assert forall|i: int| 0 <= i < accounts.len() && is_bus_account(#[trigger] accounts[i]) implies account_rewards(accounts[i]) <= balance by {
        assert(reads[i] matches Some(b) ==> b.rewards <= balance);
    }
    if balance > 0 {
        let w = choose|i: int| #[trigger] first_richest_at(reads, i, balance, index);
        assert(is_bus_account(accounts[w]));
        assert forall|j: int| 0 <= j < w && is_bus_account(#[trigger] accounts[j]) implies account_rewards(accounts[j]) < balance by {
            assert(reads[j] matches Some(b) ==> b.rewards < balance);
        }
    }
}

/// What the operator does when the cutoff came with a best solution.
#[derive(Clone, Copy, Debug, PartialEq, Eq, Structural)]
pub enum SubmitStep {
    /// The proof already moved on: fetch the new challenge instead.
    Reset,
    /// Submit the best solution through bus `bus_index`.
    Submit { bus_index: usize },
    /// A bus account chosen along the way names an id that is not a bus.
    UnknownBus,
}

/// The address of the ORE program (`ore_api::ID`).
pub const ORE_PROGRAM_ID: [u8; 32] = [
    12, 0, 218, 56, 141, 104, 231, 117, 177, 181, 197, 109, 1, 141, 62, 76,
    214, 134, 116, 12, 241, 199, 17, 129, 167, 81, 49, 80, 203, 81, 31, 217,
];

/// The address of the no-op program that carries the proof authentication
/// (`ore_api::consts::NOOP_PROGRAM_ID`).
pub const NOOP_PROGRAM_ID: [u8; 32] = [
    11, 188, 15, 182, 203, 29, 221, 28, 227, 242, 242, 171, 26, 14, 188, 177,
    157, 107, 138, 3, 18, 82, 116, 20, 91, 31, 128, 139, 185, 154, 240, 91,
];

/// The address of bus `index` (`ore_api::consts::BUS_ADDRESSES`).
pub uninterp spec fn ore_bus_address(index: int) -> Seq<u8>;

/// The accounts of an ORE mine instruction, as (address, signer, writable).
pub uninterp spec fn ore_mine_accounts(signer: Seq<u8>, authority: Seq<u8>, bus: Seq<u8>, boost_config: Seq<u8>) -> Seq<(Seq<u8>, bool, bool)>;

/// Whether an instruction's accounts are, in order, the given (address, signer, writable) triples.
pub open spec fn accounts_are(accounts: Seq<AccountMeta>, expected: Seq<(Seq<u8>, bool, bool)>) -> bool {
    &&& accounts.len() == expected.len()
    &&& forall|i: int| 0 <= i < accounts.len() ==> ((#[trigger] accounts[i]).pubkey@, accounts[i].is_signer, accounts[i].is_writable) == expected[i]
}

/// `ore_api::consts::BUS_ADDRESSES[index]`.  The contract names the address.
#[verifier::external_body]
fn bus_address(index: usize) -> (address: [u8; 32])
    requires
        index < 8,
    ensures
        address@ == ore_bus_address(index as int),
{
    ore_api::consts::BUS_ADDRESSES[index].to_bytes()
}

/// `ore_api::sdk::auth`: an instruction of the no-op program, without
/// accounts, whose data is the proof's address.
#[verifier::external_body]
fn ore_auth_instruction(proof: [u8; 32]) -> (ix: Instruction)
    ensures
        ix.program_id == NOOP_PROGRAM_ID,
        ix.accounts@.len() == 0,
        ix.data@ == proof@,
{
    let ix = ore_api::sdk::auth(solana_program::pubkey::Pubkey::new_from_array(proof));
    Instruction {
        program_id: ix.program_id.to_bytes(),
        accounts: ix.accounts.iter().map(|a| AccountMeta { pubkey: a.pubkey.to_bytes(), is_signer: a.is_signer, is_writable: a.is_writable }).collect(),
        data: ix.data,
    }
}

/// `ore_api::sdk::mine`: an instruction of the ORE program whose data is the
/// `Mine` tag (2), the digest and the nonce.  It derives the proof accounts of
/// the authority and of the boost config, panicking where none exists, so
/// `requires` leaves that out.  The contract names the accounts.
#[verifier::external_body]
fn ore_mine_instruction(signer: [u8; 32], authority: [u8; 32], bus: [u8; 32], digest: [u8; 16], nonce: [u8; 8], boost_config: [u8; 32]) -> (ix: Instruction)
    requires
        ore_proof_address(authority@) is Some,
        ore_proof_address(boost_config@) is Some,
    ensures
        ix.program_id == ORE_PROGRAM_ID,
        accounts_are(ix.accounts@, ore_mine_accounts(signer@, authority@, bus@, boost_config@)),
        ix.data@ == seq![2u8] + digest@ + nonce@,
{
    let ix = ore_api::sdk::mine(
        solana_program::pubkey::Pubkey::new_from_array(signer),
        solana_program::pubkey::Pubkey::new_from_array(authority),
        solana_program::pubkey::Pubkey::new_from_array(bus),
        drillx::Solution::new(digest, nonce),
        solana_program::pubkey::Pubkey::new_from_array(boost_config),
    );
    Instruction {
        program_id: ix.program_id.to_bytes(),
        accounts: ix.accounts.iter().map(|a| AccountMeta { pubkey: a.pubkey.to_bytes(), is_signer: a.is_signer, is_writable: a.is_writable }).collect(),
        data: ix.data,
    }
}

impl Aggregator {
    /// Decides what to do with the best solution once the cutoff is reached:
    /// reset when the proof moved on, otherwise submit through the bus that
    /// `find_bus` picks from the fetched bus accounts.
    pub fn submit_step(&self, proof_last_hash_at: i64, random_index: usize, accounts: &Vec<Option<Vec<u8>>>) -> (step: SubmitStep)
        requires
            random_index < 8,
            forall|i: int| 0 <= i < accounts@.len() ==> ((#[trigger] accounts@[i]) matches Some(data) ==> account_readable(data@, BUS_DISCRIMINATOR)),
        ensures
            proof_last_hash_at != self.current_challenge.lash_hash_at ==> step == SubmitStep::Reset,
            proof_last_hash_at == self.current_challenge.lash_hash_at ==> exists|reads: Seq<Option<BusInfo>>| {
                &&& bus_readings(accounts@, reads)
                &&& step == (if spec_scan_in_range(random_index as int, reads) {
                    SubmitStep::Submit { bus_index: spec_select_bus(random_index as int, reads).1 as usize }
                } else {
                    SubmitStep::UnknownBus
                })
            },
            proof_last_hash_at == self.current_challenge.lash_hash_at ==> step == (if spec_scan_in_range(random_index as int, spec_bus_reads(accounts@)) {
                SubmitStep::Submit { bus_index: spec_select_bus(random_index as int, spec_bus_reads(accounts@)).1 as usize }
            } else {
                SubmitStep::UnknownBus
            }),
            step matches SubmitStep::Submit { bus_index } ==> bus_index < 8,
    {
        if self.check_for_reset(proof_last_hash_at) {
            return SubmitStep::Reset;
        }
        match find_bus(random_index, accounts) {
            Some(bus_index) => SubmitStep::Submit { bus_index },
            None => SubmitStep::UnknownBus,
        }
    }

    /// The instructions that submit the best solution through bus `bus_index`:
    /// the authentication of the operator's proof, then the mine instruction.
    /// `None` when the authority or the boost config has no proof address.
    pub fn submission_instructions(&self, operator: &Operator, signer: [u8; 32], bus_index: usize, boost_config: [u8; 32]) -> (r: Option<(Instruction, Instruction)>)
        requires
            bus_index < 8,
        ensures
            r is Some <==> (ore_proof_address(operator.authority@) is Some && ore_proof_address(boost_config@) is Some),
            r matches Some((auth, mine)) ==> {
                &&& auth.program_id == NOOP_PROGRAM_ID
                &&& auth.accounts@.len() == 0
                &&& auth.data@ == operator.proof_address@
                &&& mine.program_id == ORE_PROGRAM_ID
                &&& accounts_are(mine.accounts@, ore_mine_accounts(signer@, operator.authority@, ore_bus_address(bus_index as int), boost_config@))
                &&& mine.data@ == seq![2u8] + self.best_solution.d@ + self.best_solution.n@
            },
    {
        if !proof_address_exists(&operator.authority) || !proof_address_exists(&boost_config) {
            return None;
        }
        let bus = bus_address(bus_index);
        let auth = ore_auth_instruction(operator.proof_address);
        let mine = ore_mine_instruction(
            signer,
            operator.authority,
            bus,
            self.best_solution.d,
            self.best_solution.n,
            boost_config,
        );
        Some((auth, mine))
    }
}

/// While the proof does not move, waiting for a new challenge retries with a
/// count that goes up by one, and gives up at the tenth fetch; as soon as the
/// proof moves, the new challenge is adopted.
pub proof fn lemma_refresh_gives_up_after_max_retries(a: Aggregator, last_hash_at: i64, retries: u32)
    requires
        retries < MAX_RETRIES,
    ensures
        last_hash_at == a.current_challenge.lash_hash_at && retries + 1 < MAX_RETRIES
            ==> spec_refresh_step(a, last_hash_at, retries) == (RefreshStep::Retry { retries: (retries + 1) as u32 }),
        last_hash_at == a.current_challenge.lash_hash_at && retries + 1 == MAX_RETRIES
            ==> spec_refresh_step(a, last_hash_at, retries) == RefreshStep::GiveUp,
        last_hash_at != a.current_challenge.lash_hash_at ==> spec_refresh_step(a, last_hash_at, retries) == RefreshStep::Apply,
{
}

/// Once a proof's challenge is adopted, that proof no longer calls for a
/// reset, and the mining loop waits for a first contribution.
pub proof fn lemma_adopted_challenge_is_current(a: Aggregator, proof: ProofInfo, min_score: u64, cutoff_time: u64, unix_timestamp: i64)
    requires
        fresh_for(a, proof, min_score, cutoff_time, unix_timestamp),
    ensures
        proof.last_hash_at == a.current_challenge.lash_hash_at,
        !(a.best_score > 0),
        aggregator_inv(a),
{
}

/// How a solution is weighed, case by case: one that does not solve the
/// challenge is refused whatever its score; a valid one under the minimum
/// stops the processing; a valid one at or above the minimum becomes the best
/// exactly when it beats the best score; only a new best changes the aggregator.
pub proof fn lemma_verdict_cases(a: Aggregator, solution: Solution, valid: bool, score: u64)
    ensures
        !valid ==> spec_verdict(a, valid, score) == SolutionVerdict::Invalid
            && spec_after_verdict(a, solution, valid, score) == a,
        valid && score < a.current_challenge.min_score
            ==> spec_verdict(a, valid, score) == (SolutionVerdict::BelowMinimum { score })
            && spec_after_verdict(a, solution, valid, score) == a,
        valid && score >= a.current_challenge.min_score && a.best_score < score
            ==> spec_verdict(a, valid, score) == (SolutionVerdict::NewBest { score })
            && spec_after_verdict(a, solution, valid, score) == (Aggregator { best_score: score, best_solution: solution, ..a }),
        valid && a.current_challenge.min_score <= score <= a.best_score
            ==> spec_verdict(a, valid, score) == (SolutionVerdict::NotBetter { score })
            && spec_after_verdict(a, solution, valid, score) == a,
{
}

/// Every operation on the aggregator keeps its invariant, and a solution never
/// lowers the best score nor changes the challenge.
pub proof fn lemma_process_keeps_invariant(a: Aggregator, solution: Solution)
    requires
        aggregator_inv(a),
    ensures
        ({
            let valid = drillx_is_valid(a.current_challenge.challenge@, solution.n@, solution.d@);
            let score = spec_solution_score(solution);
            let after = spec_after_verdict(a, solution, valid, score);
            &&& aggregator_inv(after)
            &&& after.best_score >= a.best_score
            &&& after.current_challenge == a.current_challenge
        }),
{
}

/// A solution becomes the best only when it solves the challenge, meets its
/// minimum, and strictly beats the best score.
pub proof fn lemma_new_best_is_better(a: Aggregator, solution: Solution, valid: bool, score: u64)
    ensures
        spec_verdict(a, valid, score) is NewBest ==> valid && score >= a.current_challenge.min_score
            && score > a.best_score,
        !(spec_verdict(a, valid, score) is NewBest) ==> spec_after_verdict(a, solution, valid, score) == a,
{
}

} // verus!
