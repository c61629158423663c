//! Values exchanged between the pool server and its members.

use vstd::prelude::*;

verus! {

/// A candidate proof of work: an equihash digest and the nonce it was found for.
#[derive(Clone, Copy, Debug)]
pub struct Solution {
    /// The digest.
    pub d: [u8; 16],
    /// The nonce.
    pub n: [u8; 8],
}

impl Solution {
    /// Builds a solution from a digest and a nonce.
    pub fn new(digest: [u8; 16], nonce: [u8; 8]) -> (s: Solution)
        ensures
            s.d == digest,
            s.n == nonce,
    {
        Solution { d: digest, n: nonce }
    }

    /// The empty solution the pool starts every challenge with.
    pub fn zeroed() -> (s: Solution)
        ensures
            s.d@ == Seq::new(16, |i: int| 0u8),
            s.n@ == Seq::new(8, |i: int| 0u8),
    {
        let s = Solution { d: [0u8; 16], n: [0u8; 8] };
        assert(s.d@ =~= Seq::new(16, |i: int| 0u8));
        assert(s.n@ =~= Seq::new(8, |i: int| 0u8));
        s
    }
}

/// The challenge the pool currently accepts solutions for.
#[derive(Clone, Copy, Debug)]
pub struct Challenge {
    /// The current challenge the pool is accepting solutions for.
    pub challenge: [u8; 32],
    /// Foreign key to the ORE proof account.
    pub lash_hash_at: i64,
    /// The current minimum difficulty accepted by the ORE program.
    pub min_score: u64,
    /// The cutoff time when the server will stop accepting contributions.
    pub cutoff_time: u64,
    /// The unix timestamp from the onchain clock.
    pub unix_timestamp: i64,
}

impl Default for Challenge {
    /// The all-zero challenge.
    fn default() -> (c: Self)
        ensures
            c.challenge@ == Seq::new(32, |i: int| 0u8),
            c.lash_hash_at == 0,
            c.min_score == 0,
            c.cutoff_time == 0,
            c.unix_timestamp == 0,
    {
        let c = Challenge {
            challenge: [0u8; 32],
            lash_hash_at: 0,
            min_score: 0,
            cutoff_time: 0,
            unix_timestamp: 0,
        };
        assert(c.challenge@ =~= Seq::new(32, |i: int| 0u8));
        c
    }
}

/// A message on the websocket between the pool and a member.
#[derive(Debug)]
pub enum PoolMessage {
    /// The pool announces a new challenge.
    NewChallenge { challenge: Challenge },
    /// A member contributes a solution.
    NewSolution { solution: Solution },
    /// Either side reports an error.
    Error { message: String },
}

/// What the pool server does with a message from a member.
#[derive(Clone, Copy, Debug)]
pub enum ServerRoute {
    /// Hand the solution to the aggregator.
    Contribute(Solution),
    /// Log the member's error.
    ReportError,
    /// Log a message that members do not send.
    Unexpected,
}

/// What a member does with a message from the pool.
#[derive(Clone, Copy, Debug)]
pub enum MemberRoute {
    /// Mine on the new challenge.
    Mine(Challenge),
    /// Log the pool's error.
    ReportError,
    /// Log a message that the pool does not send.
    Unexpected,
}

impl PoolMessage {
    /// Routes a message received by the pool server.
    pub fn server_route(&self) -> (r: ServerRoute)
        ensures
            match *self {
                PoolMessage::NewSolution { solution } => r == ServerRoute::Contribute(solution),
                PoolMessage::Error { .. } => r == ServerRoute::ReportError,
                PoolMessage::NewChallenge { .. } => r == ServerRoute::Unexpected,
            },
    {
        match self {
            PoolMessage::NewSolution { solution } => ServerRoute::Contribute(*solution),
            PoolMessage::Error { .. } => ServerRoute::ReportError,
            PoolMessage::NewChallenge { .. } => ServerRoute::Unexpected,
        }
    }

    /// Routes a message received by a member.
    pub fn member_route(&self) -> (r: MemberRoute)
        ensures
            match *self {
                PoolMessage::NewChallenge { challenge } => r == MemberRoute::Mine(challenge),
                PoolMessage::Error { .. } => r == MemberRoute::ReportError,
                PoolMessage::NewSolution { .. } => r == MemberRoute::Unexpected,
            },
    {
        match self {
            PoolMessage::NewChallenge { challenge } => MemberRoute::Mine(*challenge),
            PoolMessage::Error { .. } => MemberRoute::ReportError,
            PoolMessage::NewSolution { .. } => MemberRoute::Unexpected,
        }
    }
}

/// The bytes of `http`.
pub open spec fn http_bytes() -> Seq<u8> {
    seq![104u8, 116u8, 116u8, 112u8]
}

/// The bytes of `ws`.
pub open spec fn ws_bytes() -> Seq<u8> {
    seq![119u8, 115u8]
}

/// The bytes of `/connect`, the pool's websocket route.
pub open spec fn connect_route_bytes() -> Seq<u8> {
    seq![47u8, 99u8, 111u8, 110u8, 110u8, 101u8, 99u8, 116u8]
}

/// Every `http` in the text, from left to right and without overlap,
/// replaced by `ws` (what `str::replace` does).
pub open spec fn replace_http_with_ws(s: Seq<u8>) -> Seq<u8>
    decreases s.len(),
{
    if s.len() == 0 {
        s
    } else if s.len() >= 4 && s.subrange(0, 4) == http_bytes() {
        ws_bytes() + replace_http_with_ws(s.subrange(4, s.len() as int))
    } else {
        seq![s[0]] + replace_http_with_ws(s.drop_first())
    }
}

/// The websocket address of a pool, from its http address: every `http`
/// becomes `ws`, and the `/connect` route is appended.  The text is taken as
/// its UTF-8 bytes; ASCII bytes never occur inside a multi-byte character, so
/// this is the replacement on the text itself.
pub fn websocket_url(pool_url: &[u8]) -> (url: Vec<u8>)
    ensures
        url@ == replace_http_with_ws(pool_url@) + connect_route_bytes(),
{
    let mut out: Vec<u8> = Vec::new();
    let mut i: usize = 0;
    let n = pool_url.len();
    assert(pool_url@.subrange(0, n as int) =~= pool_url@);
    while i < n
        invariant
            i <= n,
            n == pool_url@.len(),
            out@ + replace_http_with_ws(pool_url@.subrange(i as int, n as int)) == replace_http_with_ws(pool_url@),
        decreases n - i,
    {
        let ghost rest = pool_url@.subrange(i as int, n as int);
        if n - i >= 4 && pool_url[i] == 104 && pool_url[i + 1] == 116 && pool_url[i + 2] == 116
            && pool_url[i + 3] == 112 {
            assert(rest.subrange(0, 4) =~= http_bytes());
            assert(rest.subrange(4, rest.len() as int) =~= pool_url@.subrange(i + 4, n as int));
            out.push(119);
            out.push(115);
            i = i + 4;
        } else {
            assert(!(rest.len() >= 4 && rest.subrange(0, 4) == http_bytes())) by {
                if rest.len() >= 4 && rest.subrange(0, 4) == http_bytes() {
                    assert(rest.subrange(0, 4)[0] == pool_url@[i as int]);
                    assert(rest.subrange(0, 4)[1] == pool_url@[i + 1]);
                    assert(rest.subrange(0, 4)[2] == pool_url@[i + 2]);
                    assert(rest.subrange(0, 4)[3] == pool_url@[i + 3]);
                }
            }
            assert(rest.drop_first() =~= pool_url@.subrange(i + 1, n as int));
            out.push(pool_url[i]);
            i = i + 1;
        }
        assert(out@ + replace_http_with_ws(pool_url@.subrange(i as int, n as int)) =~= replace_http_with_ws(pool_url@));
    }
    assert(replace_http_with_ws(pool_url@.subrange(n as int, n as int)) =~= Seq::<u8>::empty());
    let route: [u8; 8] = [47, 99, 111, 110, 110, 101, 99, 116];
    crate::bytes::append_bytes(&mut out, &route);
    assert(route@ =~= connect_route_bytes());
    assert(out@ =~= replace_http_with_ws(pool_url@) + connect_route_bytes());
    out
}

} // verus!
