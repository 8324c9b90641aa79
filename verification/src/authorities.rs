//! Per-session authority data and the verifier built from it.
//!
//! Authority identities are carried in their numeric form; the cryptographic
//! material behind an identity plays no part in the cache's logic.

use vstd::prelude::*;

verus! {

/// Identity of a round-robin (Aura) authority.
pub type AuraId = u64;

/// Raw authority data for one session, as handed out by the authority source.
#[derive(Clone, Debug, PartialEq, Eq)]
pub struct SessionAuthorityData {
    pub authorities: Vec<AuraId>,
}

impl SessionAuthorityData {
    pub fn new(authorities: Vec<AuraId>) -> (r: Self)
        ensures
            r.authorities@ == authorities@,
    {
        SessionAuthorityData { authorities }
    }
}

/// Verifier for one session: stands for the object that checks whether a
/// justification was produced by that session's authority set. It is fully
/// determined by the authority data it was built from.
#[derive(Debug, PartialEq, Eq)]
pub struct SessionVerifier {
    pub authorities: Vec<AuraId>,
}

impl SessionVerifier {
    /// The infallible conversion from raw authority data to a verifier.
    pub fn from_authority_data(data: SessionAuthorityData) -> (r: Self)
        ensures
            r.authorities@ == data.authorities@,
    {
        SessionVerifier { authorities: data.authorities }
    }
}

/// Returns a copy of a list of authority ids.
pub fn copy_ids(v: &Vec<AuraId>) -> (r: Vec<AuraId>)
    ensures
        r@ == v@,
{
    let mut r: Vec<AuraId> = Vec::new();
    let mut i: usize = 0;
    while i < v.len()
        invariant
            i <= v.len(),
            r@ == v@.subrange(0, i as int),
        decreases v.len() - i,
    {
        r.push(v[i]);
        proof {
            assert(r@ =~= v@.subrange(0, i as int + 1));
        }
        i = i + 1;
    }
    proof {
        assert(r@ =~= v@);
    }
    r
}

} // verus!
