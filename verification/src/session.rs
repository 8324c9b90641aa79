//! Session-boundary arithmetic: the pure mapping between block numbers and
//! session ids.

use vstd::arithmetic::div_mod::{
    lemma_div_is_ordered, lemma_div_multiples_vanish, lemma_fundamental_div_mod,
    lemma_fundamental_div_mod_converse, lemma_mod_bound,
};
use vstd::arithmetic::mul::{lemma_mul_inequality, lemma_mul_is_commutative};
use vstd::prelude::*;

verus! {

/// Position of a block in the chain.
pub type BlockNumber = u32;

/// Index of a session: a fixed-length epoch of blocks during which one
/// authority set and one verifier are valid. Session 0 starts at block 0.
#[derive(Clone, Copy, Debug, PartialEq, Eq, Hash, Structural)]
pub struct SessionId(pub u32);

/// Length of every session, in blocks. Only positive periods are meaningful.
#[derive(Clone, Copy, Debug, PartialEq, Eq, Structural)]
pub struct SessionPeriod(pub u32);

/// Pure session-boundary arithmetic, fixed by the session period: which session
/// a block belongs to, and where a session starts.
#[derive(Clone, Copy, Debug)]
pub struct SessionBoundaryInfo {
    pub period: SessionPeriod,
}

impl SessionBoundaryInfo {
    /// The arithmetic is well defined exactly when the period is positive.
    pub open spec fn wf(self) -> bool {
        self.period.0 >= 1
    }

    pub open spec fn spec_period(self) -> u32 {
        self.period.0
    }

    /// The session id of the session containing block `n`.
    pub open spec fn spec_session_of(self, n: u32) -> u32 {
        n / self.period.0
    }

    /// The number of the first block of session `s`, as an unbounded integer.
    pub open spec fn spec_first_block(self, s: u32) -> int {
        s as int * self.period.0 as int
    }

    pub fn new(period: SessionPeriod) -> (r: Self)
        requires
            period.0 >= 1,
        ensures
            r.period == period,
            r.wf(),
    {
        SessionBoundaryInfo { period }
    }

    /// Returns the id of the session containing block `n`.
    pub fn session_id_from_block_num(&self, n: BlockNumber) -> (r: SessionId)
        requires
            self.wf(),
        ensures
            r.0 == self.spec_session_of(n),
    {
        SessionId(n / self.period.0)
    }

    /// Returns the lowest block number whose session id is `session_id`.
    pub fn first_block_of_session(&self, session_id: SessionId) -> (r: BlockNumber)
        requires
            self.wf(),
            self.spec_first_block(session_id.0) <= u32::MAX as int,
        ensures
            r as int == self.spec_first_block(session_id.0),
    {
        session_id.0 * self.period.0
    }
}

/// Law: the block-to-session mapping is monotone; a later block never belongs
/// to an earlier session.
pub proof fn lemma_session_of_monotone(info: SessionBoundaryInfo, n: u32, m: u32)
    requires
        info.wf(),
        n <= m,
    ensures
        info.spec_session_of(n) <= info.spec_session_of(m),
{
    lemma_div_is_ordered(n as int, m as int, info.period.0 as int);
}

/// Law: the first block of any session at or below the session of block `n`
/// is at most `n`. In particular a session's first block never overflows the
/// block-number type while blocks of that session exist.
pub proof fn lemma_first_block_le(info: SessionBoundaryInfo, s: u32, n: u32)
    requires
        info.wf(),
        s <= info.spec_session_of(n),
    ensures
        info.spec_first_block(s) <= n as int,
{
    let p = info.period.0 as int;
    let q = n as int / p;
    lemma_fundamental_div_mod(n as int, p);
    lemma_mod_bound(n as int, p);
    assert(q * p <= n as int);
    lemma_mul_inequality(s as int, q, p);
}

/// Law: a session's first block is the lowest block of that session: it maps
/// back to the session itself, and the block before it (if any) to the session
/// before.
pub proof fn lemma_first_block_is_lowest(info: SessionBoundaryInfo, s: u32)
    requires
        info.wf(),
        info.spec_first_block(s) <= u32::MAX as int,
    ensures
        info.spec_session_of(info.spec_first_block(s) as u32) == s,
        s >= 1 ==> info.spec_session_of((info.spec_first_block(s) - 1) as u32) == (s - 1) as u32,
{
    let p = info.period.0 as int;
    assert((p * (s as int)) / p == s as int) by {
        lemma_div_multiples_vanish(s as int, p);
    }
    assert(info.spec_first_block(s) == p * (s as int)) by {
        lemma_mul_is_commutative(s as int, p);
    }
    if s >= 1 {
        assert(p * (s as int) - 1 == (s as int - 1) * p + (p - 1)) by (nonlinear_arith);
        assert((p * (s as int) - 1) / p == s as int - 1) by {
            lemma_fundamental_div_mod_converse(p * (s as int) - 1, p, s as int - 1, p - 1);
        }
    }
}

} // verus!
