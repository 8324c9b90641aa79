//! The session verifier cache: a monotone sliding-window memo table from
//! session ids to verifier data, populated lazily from an authority source and
//! bounded by a fixed window size.

use crate::authorities::{copy_ids, AuraId, SessionAuthorityData, SessionVerifier};
use crate::session::{BlockNumber, SessionBoundaryInfo, SessionId};
use vstd::prelude::*;

verus! {

/// Ways in which serving verifier data for a requested block can fail.
#[derive(Debug, PartialEq, Eq)]
pub enum CacheError {
    /// The authority source has no data for the session, even though the bound
    /// checks say it should.
    UnknownAuthorities(SessionId),
    /// The authority source has no round-robin authority list for the session.
    UnknownAuraAuthorities(SessionId),
    /// The session's data was already evicted; the second field is the oldest
    /// session still served.
    SessionTooOld(SessionId, SessionId),
    /// The session is not yet certain given finalization progress; the second
    /// field is the highest session currently served.
    SessionInFuture(SessionId, SessionId),
    /// Reserved for callers comparing a supplied genesis header against the
    /// cached one; the cache itself never raises it.
    BadGenesisHeader,
}

/// Source of raw authority data. Any answer may be "unknown", and answers may
/// change between calls as chain state advances.
pub trait AuthorityProvider {
    /// Authority data effective at `block_number`.
    fn authority_data(&self, block_number: BlockNumber) -> Option<SessionAuthorityData>;

    /// Authority data effective in the session after the one containing
    /// `block_number`.
    fn next_authority_data(&self, block_number: BlockNumber) -> Option<SessionAuthorityData>;

    /// Round-robin authority list effective at `block_number`.
    fn aura_authorities(&self, block_number: BlockNumber) -> Option<Vec<AuraId>>;

    /// Round-robin authority list effective in the session after the one
    /// containing `block_number`.
    fn next_aura_authorities(&self, block_number: BlockNumber) -> Option<Vec<AuraId>>;
}

/// Source of the chain's currently finalized block number.
pub trait FinalizationInfo {
    fn finalized_number(&self) -> BlockNumber;
}

/// Data cached for one session; immutable once created.
#[derive(Debug, PartialEq, Eq)]
pub struct CachedData {
    pub session_verifier: SessionVerifier,
    pub aura_authorities: Vec<AuraId>,
}

/// One slot of the cache: a session id and the data cached for it.
#[derive(Debug)]
pub struct CacheEntry {
    pub session: SessionId,
    pub data: CachedData,
}

/// No two slots hold the same session id.
pub open spec fn keys_unique(es: Seq<CacheEntry>) -> bool {
    forall|i: int, j: int| 0 <= i < j < es.len() ==> es[i].session.0 != es[j].session.0
}

/// Whether some slot holds session `k`. Defined over the slots from the back,
/// matching how the slot list is consumed.
pub open spec fn has_key(es: Seq<CacheEntry>, k: u32) -> bool
    decreases es.len(),
{
    if es.len() == 0 {
        false
    } else {
        es.last().session.0 == k || has_key(es.drop_last(), k)
    }
}

/// The data held for session `k` (the slot nearest the back, which under
/// `keys_unique` is the only one).
pub open spec fn val_of(es: Seq<CacheEntry>, k: u32) -> CachedData
    decreases es.len(),
{
    if es.len() == 0 {
        arbitrary()
    } else if es.last().session.0 == k {
        es.last().data
    } else {
        val_of(es.drop_last(), k)
    }
}

/// Two cached values carry bit-identical verifier and authority-list data.
pub open spec fn same_data(a: CachedData, b: CachedData) -> bool {
    a.session_verifier.authorities@ == b.session_verifier.authorities@
        && a.aura_authorities@ == b.aura_authorities@
}

/// The window size as a session count: the configured size saturated to the
/// session-id type.
pub open spec fn spec_window(cache_size: usize) -> u32 {
    if cache_size >= u32::MAX as usize {
        u32::MAX
    } else {
        cache_size as u32
    }
}

/// Session `k` lies in the retention window anchored at lower bound `lb`.
pub open spec fn in_window(lb: u32, w: u32, k: u32) -> bool {
    lb <= k && k as int <= lb as int + w as int - 1
}

/// Serving session `s` forces the window forward.
pub open spec fn prune_needed(lb: u32, w: u32, s: u32) -> bool {
    s as int >= lb as int + w as int
}

/// The lower bound after the retention pass for a request of session `s`.
pub open spec fn next_lower_bound(lb: u32, w: u32, s: u32) -> u32 {
    if prune_needed(lb, w, s) {
        if s >= w {
            (s - w + 1) as u32
        } else {
            1u32
        }
    } else {
        lb
    }
}

/// The highest session id servable when block `fin` is finalized: authority
/// data for a session is certain once the first block of the previous session
/// is finalized, hence one session beyond the finalized one.
pub open spec fn spec_upper(period: u32, fin: u32) -> int {
    (fin / period) as int + 1
}

/// `es1` is `es0` with every slot whose session id is below `bound` removed,
/// and nothing else changed.
pub open spec fn entries_pruned(es0: Seq<CacheEntry>, es1: Seq<CacheEntry>, bound: u32) -> bool {
    &&& keys_unique(es1)
    &&& forall|k: u32|
        #![trigger has_key(es1, k)]
        #![trigger has_key(es0, k)]
        has_key(es1, k) <==> (has_key(es0, k) && k >= bound)
    &&& forall|k: u32| #[trigger] has_key(es1, k) ==> val_of(es1, k) == val_of(es0, k)
}

/// Every slot of session `es[i]` is found by `has_key`.
pub proof fn lemma_has_key_from_index(es: Seq<CacheEntry>, i: int)
    requires
        0 <= i < es.len(),
    ensures
        has_key(es, es[i].session.0),
    decreases es.len(),
{
    if i == es.len() - 1 {
    } else {
        lemma_has_key_from_index(es.drop_last(), i);
    }
}

/// A session found by `has_key` sits at some index.
pub proof fn lemma_has_key_to_index(es: Seq<CacheEntry>, k: u32)
    requires
        has_key(es, k),
    ensures
        exists|i: int| 0 <= i < es.len() && #[trigger] es[i].session.0 == k,
    decreases es.len(),
{
    if es.last().session.0 == k {
        assert(es[es.len() - 1].session.0 == k);
    } else {
        lemma_has_key_to_index(es.drop_last(), k);
        let i = choose|i: int| 0 <= i < es.drop_last().len() && #[trigger] es.drop_last()[i].session.0 == k;
        assert(es[i].session.0 == k);
    }
}

/// Under unique keys, the value of the session at index `i` is that slot's data.
pub proof fn lemma_val_at_index(es: Seq<CacheEntry>, i: int)
    requires
        keys_unique(es),
        0 <= i < es.len(),
    ensures
        has_key(es, es[i].session.0),
        val_of(es, es[i].session.0) == es[i].data,
    decreases es.len(),
{
    lemma_has_key_from_index(es, i);
    if i == es.len() - 1 {
    } else {
        assert(es[i].session.0 != es[es.len() - 1].session.0);
        lemma_val_at_index(es.drop_last(), i);
    }
}

/// How `has_key` and `val_of` see one appended slot.
pub proof fn lemma_key_push(es: Seq<CacheEntry>, e: CacheEntry, k: u32)
    ensures
        has_key(es.push(e), k) <==> (e.session.0 == k || has_key(es, k)),
        e.session.0 == k ==> val_of(es.push(e), k) == e.data,
        e.session.0 != k ==> val_of(es.push(e), k) == val_of(es, k),
{
    assert(es.push(e).last() == e);
    assert(es.push(e).drop_last() =~= es);
}

/// Full account of one resolution step of the cache. From lower bound `lb0`
/// and slots `es0`, with window `w` and session period `period`, a request for
/// session `s` while block `fin` is finalized ends with lower bound `lb1`,
/// slots `es1` and result `r`. On a miss the authority source decides between
/// the `Ok` and `Err` outcomes; everything else is determined.
pub open spec fn resolution(
    lb0: u32,
    es0: Seq<CacheEntry>,
    w: u32,
    period: u32,
    s: u32,
    fin: u32,
    lb1: u32,
    es1: Seq<CacheEntry>,
    r: Result<CachedData, CacheError>,
) -> bool {
    if s < lb0 {
        &&& lb1 == lb0
        &&& es1 == es0
        &&& r == Result::<CachedData, CacheError>::Err(
            CacheError::SessionTooOld(SessionId(s), SessionId(lb0)),
        )
    } else if s as int > spec_upper(period, fin) {
        &&& lb1 == lb0
        &&& es1 == es0
        &&& r == Result::<CachedData, CacheError>::Err(
            CacheError::SessionInFuture(SessionId(s), SessionId(spec_upper(period, fin) as u32)),
        )
    } else {
        let lbn = next_lower_bound(lb0, w, s);
        &&& lb1 == lbn
        &&& if has_key(es0, s) {
            &&& entries_pruned(es0, es1, lbn)
            &&& (!prune_needed(lb0, w, s) ==> es1 == es0)
            &&& r is Ok
            &&& same_data(r->Ok_0, val_of(es0, s))
        } else {
            match r {
                Result::Ok(d) => {
                    &&& keys_unique(es1)
                    &&& forall|k: u32|
                        #![trigger has_key(es1, k)]
                        #![trigger has_key(es0, k)]
                        has_key(es1, k) <==> ((has_key(es0, k) && k >= lbn) || k == s)
                    &&& forall|k: u32|
                        #[trigger] has_key(es1, k) && k != s ==> val_of(es1, k) == val_of(es0, k)
                    &&& same_data(val_of(es1, s), d)
                },
                Result::Err(e) => {
                    &&& (e == CacheError::UnknownAuthorities(SessionId(s)) || e
                        == CacheError::UnknownAuraAuthorities(SessionId(s)))
                    &&& entries_pruned(es0, es1, lbn)
                    &&& (!prune_needed(lb0, w, s) ==> es1 == es0)
                },
            }
        }
    }
}

/// Appending a fresh session keeps keys unique.
pub proof fn lemma_unique_push(es: Seq<CacheEntry>, e: CacheEntry)
    requires
        keys_unique(es),
        !has_key(es, e.session.0),
    ensures
        keys_unique(es.push(e)),
{
    assert forall|i: int, j: int| 0 <= i < j < es.push(e).len() implies es.push(e)[i].session.0
        != es.push(e)[j].session.0 by {
        if j == es.len() {
            lemma_has_key_from_index(es, i);
        }
    }
}

/// Returns `entries` with every slot whose session id is below `bound`
/// removed; the surviving slots keep their data.
fn prune_entries(entries: Vec<CacheEntry>, bound: u32) -> (r: Vec<CacheEntry>)
    requires
        keys_unique(entries@),
    ensures
        entries_pruned(entries@, r@, bound),
{
    let ghost orig = entries@;
    let mut work = entries;
    let mut kept: Vec<CacheEntry> = Vec::new();
    while work.len() > 0
        invariant
            keys_unique(orig),
            work@.len() <= orig.len(),
            work@ == orig.subrange(0, work@.len() as int),
            keys_unique(kept@),
            forall|k: u32| #[trigger]
                has_key(kept@, k) ==> k >= bound && has_key(orig, k) && val_of(kept@, k)
                    == val_of(orig, k),
            forall|k: u32|
                #![trigger has_key(orig, k)]
                has_key(orig, k) && k >= bound ==> has_key(work@, k) || has_key(kept@, k),
            forall|k: u32| #[trigger] has_key(kept@, k) ==> !has_key(work@, k),
        decreases work@.len(),
    {
        let ghost pre = work@;
        let ghost l = work@.len() as int;
        proof {
            assert(keys_unique(pre)) by {
                assert forall|i: int, j: int| 0 <= i < j < pre.len() implies pre[i].session.0
                    != pre[j].session.0 by {
                    assert(orig.subrange(0, l)[i] == orig[i]);
                    assert(orig.subrange(0, l)[j] == orig[j]);
                }
            }
        }
        let e = work.pop().unwrap();
        proof {
            assert(e == pre.last());
            assert(work@ =~= pre.drop_last());
            assert(work@ =~= orig.subrange(0, l - 1));
            assert(pre[l - 1] == orig[l - 1]);
        }
        if e.session.0 >= bound {
            proof {
                // the popped session is fresh for `kept`
                lemma_has_key_from_index(pre, l - 1);
                assert(has_key(pre, e.session.0));
                assert(!has_key(kept@, e.session.0));
                lemma_unique_push(kept@, e);
                lemma_val_at_index(orig, l - 1);
            }
            let ghost kept0 = kept@;
            kept.push(e);
            proof {
                assert forall|k: u32| #[trigger] has_key(kept@, k) implies k >= bound && has_key(
                    orig,
                    k,
                ) && val_of(kept@, k) == val_of(orig, k) by {
                    lemma_key_push(kept0, e, k);
                }
                assert forall|k: u32| has_key(orig, k) && k >= bound implies has_key(work@, k)
                    || has_key(kept@, k) by {
                    lemma_key_push(kept0, e, k);
                    if has_key(pre, k) && k != e.session.0 {
                        lemma_has_key_to_index(pre, k);
                        let i = choose|i: int| 0 <= i < pre.len() && #[trigger] pre[i].session.0
                            == k;
                        assert(i != l - 1);
                        assert(work@[i] == pre[i]);
                        lemma_has_key_from_index(work@, i);
                    }
                }
                assert forall|k: u32| #[trigger] has_key(kept@, k) implies !has_key(work@, k) by {
                    lemma_key_push(kept0, e, k);
                    if has_key(work@, k) {
                        lemma_has_key_to_index(work@, k);
                        let i = choose|i: int| 0 <= i < work@.len() && #[trigger] work@[i].session.0
                            == k;
                        assert(pre[i] == work@[i]);
                        lemma_has_key_from_index(pre, i);
                        assert(pre[i].session.0 != pre[l - 1].session.0);
                    }
                }
            }
        } else {
            proof {
                assert forall|k: u32| has_key(orig, k) && k >= bound implies has_key(work@, k)
                    || has_key(kept@, k) by {
                    if has_key(pre, k) {
                        lemma_has_key_to_index(pre, k);
                        let i = choose|i: int| 0 <= i < pre.len() && #[trigger] pre[i].session.0
                            == k;
                        if i < l - 1 {
                            assert(work@[i] == pre[i]);
                            lemma_has_key_from_index(work@, i);
                        }
                    }
                }
                assert forall|k: u32| #[trigger] has_key(kept@, k) implies !has_key(work@, k) by {
                    if has_key(work@, k) {
                        lemma_has_key_to_index(work@, k);
                        let i = choose|i: int| 0 <= i < work@.len() && #[trigger] work@[i].session.0
                            == k;
                        assert(pre[i] == work@[i]);
                        lemma_has_key_from_index(pre, i);
                    }
                }
            }
        }
    }
    kept
}

/// Finds the slot holding session `s`, if any.
fn find_entry(entries: &Vec<CacheEntry>, s: u32) -> (r: Option<usize>)
    requires
        keys_unique(entries@),
    ensures
        match r {
            Option::Some(i) => i < entries@.len() && entries@[i as int].session.0 == s && has_key(
                entries@,
                s,
            ) && val_of(entries@, s) == entries@[i as int].data,
            Option::None => !has_key(entries@, s),
        },
{
    let mut i: usize = 0;
    while i < entries.len()
        invariant
            keys_unique(entries@),
            i <= entries@.len(),
            forall|j: int| 0 <= j < i ==> entries@[j].session.0 != s,
        decreases entries@.len() - i,
    {
        if entries[i].session.0 == s {
            proof {
                lemma_val_at_index(entries@, i as int);
            }
            return Option::Some(i);
        }
        i = i + 1;
    }
    proof {
        if has_key(entries@, s) {
            lemma_has_key_to_index(entries@, s);
            let j = choose|j: int| 0 <= j < entries@.len() && #[trigger] entries@[j].session.0 == s;
            assert(entries@[j].session.0 != s);
        }
    }
    Option::None
}

/// Cache of `SessionVerifier` data and round-robin authority lists for recent
/// sessions. Keeps at most `cache_size` sessions, anchored at the highest
/// session ever served; requests below the retained window or beyond what
/// finalization makes certain are rejected.
pub struct VerifierCache<AP, FI, H> where AP: AuthorityProvider, FI: FinalizationInfo {
    pub cached_data: Vec<CacheEntry>,
    pub session_info: SessionBoundaryInfo,
    pub finalization_info: FI,
    pub authority_provider: AP,
    pub cache_size: usize,
    /// Oldest session the cache is currently willing to serve.
    pub lower_bound: SessionId,
    pub genesis_header: H,
}

impl<AP, FI, H> VerifierCache<AP, FI, H> where AP: AuthorityProvider, FI: FinalizationInfo {
    /// Internal consistency: positive period and window, unique slot keys, and
    /// every slot inside the retention window.
    pub open spec fn wf(&self) -> bool {
        &&& self.session_info.wf()
        &&& spec_window(self.cache_size) >= 1
        &&& keys_unique(self.cached_data@)
        &&& forall|k: u32| #[trigger]
            has_key(self.cached_data@, k) ==> in_window(
                self.lower_bound.0,
                spec_window(self.cache_size),
                k,
            )
    }

    pub fn new(
        session_info: SessionBoundaryInfo,
        finalization_info: FI,
        authority_provider: AP,
        cache_size: usize,
        genesis_header: H,
    ) -> (r: Self)
        requires
            session_info.wf(),
            cache_size >= 1,
        ensures
            r.wf(),
            r.cached_data@.len() == 0,
            r.lower_bound == SessionId(0u32),
            r.session_info == session_info,
            r.finalization_info == finalization_info,
            r.authority_provider == authority_provider,
            r.cache_size == cache_size,
            r.genesis_header == genesis_header,
    {
        VerifierCache {
            cached_data: Vec::new(),
            session_info,
            finalization_info,
            authority_provider,
            cache_size,
            lower_bound: SessionId(0),
            genesis_header,
        }
    }

    /// Returns the immutable genesis header captured at construction.
    pub fn genesis_header(&self) -> (r: &H)
        ensures
            *r == self.genesis_header,
    {
        &self.genesis_header
    }

    /// The configured window size, saturated to the session-id type.
    fn window(&self) -> (r: u32)
        ensures
            r == spec_window(self.cache_size),
    {
        if self.cache_size >= u32::MAX as usize {
            u32::MAX
        } else {
            self.cache_size as u32
        }
    }

    /// Retention pass: if serving `session_id` overruns the window, advance the
    /// lower bound so the window ends at `session_id` and drop every older slot.
    fn try_prune(&mut self, session_id: SessionId)
        requires
            old(self).wf(),
        ensures
            final(self).wf(),
            final(self).lower_bound.0 == next_lower_bound(
                old(self).lower_bound.0,
                spec_window(old(self).cache_size),
                session_id.0,
            ),
            entries_pruned(
                old(self).cached_data@,
                final(self).cached_data@,
                final(self).lower_bound.0,
            ),
            !prune_needed(
                old(self).lower_bound.0,
                spec_window(old(self).cache_size),
                session_id.0,
            ) ==> final(self).cached_data == old(self).cached_data && final(self).lower_bound
                == old(self).lower_bound,
            old(self).lower_bound.0 <= final(self).lower_bound.0,
            final(self).session_info == old(self).session_info,
            final(self).cache_size == old(self).cache_size,
            final(self).genesis_header == old(self).genesis_header,
            final(self).authority_provider == old(self).authority_provider,
            final(self).finalization_info == old(self).finalization_info,
    {
        let w = self.window();
        let s = session_id.0;
        if (s as u64) >= (self.lower_bound.0 as u64) + (w as u64) {
            let new_lower_bound = SessionId(if s >= w {
                s - w + 1
            } else {
                1
            });
            let mut entries: Vec<CacheEntry> = Vec::new();
            core::mem::swap(&mut entries, &mut self.cached_data);
            self.cached_data = prune_entries(entries, new_lower_bound.0);
            self.lower_bound = new_lower_bound;
            proof {
                let lb0 = old(self).lower_bound.0;
                let es0 = old(self).cached_data@;
                assert forall|k: u32| #[trigger] has_key(self.cached_data@, k) implies in_window(
                    self.lower_bound.0,
                    w,
                    k,
                ) by {
                    assert(has_key(es0, k) && k >= new_lower_bound.0);
                    assert(in_window(lb0, w, k));
                }
            }
        } else {
            proof {
                let lb0 = old(self).lower_bound.0;
                let es0 = old(self).cached_data@;
                assert forall|k: u32| #[trigger]
                    has_key(self.cached_data@, k) implies has_key(es0, k) && k
                    >= self.lower_bound.0 by {
                    assert(in_window(lb0, w, k));
                }
            }
        }
    }
}

/// Fetches and assembles the data for one session from the authority source.
/// For session 0 the source is asked for the data effective at block 0; for a
/// later session `N` it is asked for the data that becomes active after the
/// first block of session `N - 1`. A missing answer is reported, never cached.
fn download_data<AP: AuthorityProvider>(
    authority_provider: &AP,
    session_id: SessionId,
    session_info: &SessionBoundaryInfo,
) -> (r: Result<CachedData, CacheError>)
    requires
        session_info.wf(),
        session_id.0 >= 1 ==> session_info.spec_first_block((session_id.0 - 1) as u32)
            <= u32::MAX as int,
    ensures
        r matches Err(e) ==> (e == CacheError::UnknownAuthorities(session_id) || e
            == CacheError::UnknownAuraAuthorities(session_id)),
{
    if session_id.0 == 0 {
        let data = match authority_provider.authority_data(0) {
            Option::Some(d) => d,
            Option::None => {
                return Result::Err(CacheError::UnknownAuthorities(session_id));
            },
        };
        let aura_authorities = match authority_provider.aura_authorities(0) {
            Option::Some(a) => a,
            Option::None => {
                return Result::Err(CacheError::UnknownAuraAuthorities(session_id));
            },
        };
        Result::Ok(
            CachedData {
                session_verifier: SessionVerifier::from_authority_data(data),
                aura_authorities,
            },
        )
    } else {
        let prev_first = session_info.first_block_of_session(SessionId(session_id.0 - 1));
        let data = match authority_provider.next_authority_data(prev_first) {
            Option::Some(d) => d,
            Option::None => {
                return Result::Err(CacheError::UnknownAuthorities(session_id));
            },
        };
        let aura_authorities = match authority_provider.next_aura_authorities(prev_first) {
            Option::Some(a) => a,
            Option::None => {
                return Result::Err(CacheError::UnknownAuraAuthorities(session_id));
            },
        };
        Result::Ok(
            CachedData {
                session_verifier: SessionVerifier::from_authority_data(data),
                aura_authorities,
            },
        )
    }
}

/// Returns a copy of cached data, field by field.
fn copy_data(d: &CachedData) -> (r: CachedData)
    ensures
        same_data(r, *d),
{
    CachedData {
        session_verifier: SessionVerifier { authorities: copy_ids(&d.session_verifier.authorities) },
        aura_authorities: copy_ids(&d.aura_authorities),
    }
}

impl<AP, FI, H> VerifierCache<AP, FI, H> where AP: AuthorityProvider, FI: FinalizationInfo {
    /// Shared resolution: bound checks against the raw requested session,
    /// retention pass, then lookup-or-populate.
    #[verifier::rlimit(60)]
    #[verifier::spinoff_prover]
    fn get_data(&mut self, number: BlockNumber) -> (r: Result<CachedData, CacheError>)
        requires
            old(self).wf(),
        ensures
            final(self).wf(),
            final(self).session_info == old(self).session_info,
            final(self).cache_size == old(self).cache_size,
            final(self).genesis_header == old(self).genesis_header,
            final(self).authority_provider == old(self).authority_provider,
            final(self).finalization_info == old(self).finalization_info,
            old(self).lower_bound.0 <= final(self).lower_bound.0,
            r matches Err(e) && (e is SessionTooOld || e is SessionInFuture) ==> final(self).cached_data == old(self).cached_data && final(self).lower_bound == old(self).lower_bound,
            r matches Err(e) && e is SessionTooOld ==> old(self).session_info.spec_session_of(
                number,
            ) < old(self).lower_bound.0,
            old(self).session_info.spec_session_of(number) < old(self).lower_bound.0 ==> r
                == Result::<CachedData, CacheError>::Err(
                CacheError::SessionTooOld(
                    SessionId(old(self).session_info.spec_session_of(number)),
                    old(self).lower_bound,
                ),
            ),
            r matches Err(CacheError::SessionInFuture(a, b)) ==> a.0
                == old(self).session_info.spec_session_of(number) && b.0 < a.0 && a.0 >= old(self).lower_bound.0,
            r matches Err(CacheError::UnknownAuthorities(a)) ==> a.0
                == old(self).session_info.spec_session_of(number) && !has_key(
                old(self).cached_data@,
                a.0,
            ),
            r matches Err(CacheError::UnknownAuraAuthorities(a)) ==> a.0
                == old(self).session_info.spec_session_of(number) && !has_key(
                old(self).cached_data@,
                a.0,
            ),
            r matches Err(e) ==> !(e is BadGenesisHeader),
            (has_key(old(self).cached_data@, old(self).session_info.spec_session_of(number))
                && old(self).session_info.spec_session_of(number) >= old(self).lower_bound.0 && r
                is Ok) ==> same_data(
                r->Ok_0,
                val_of(old(self).cached_data@, old(self).session_info.spec_session_of(number)),
            ),
            r is Ok ==> has_key(
                final(self).cached_data@,
                old(self).session_info.spec_session_of(number),
            ) && same_data(
                val_of(
                    final(self).cached_data@,
                    old(self).session_info.spec_session_of(number),
                ),
                r->Ok_0,
            ),
            exists|fin: u32|
                resolution(
                    old(self).lower_bound.0,
                    old(self).cached_data@,
                    spec_window(old(self).cache_size),
                    old(self).session_info.spec_period(),
                    old(self).session_info.spec_session_of(number),
                    fin,
                    final(self).lower_bound.0,
                    final(self).cached_data@,
                    r,
                ),
    {
        let ghost lb0 = self.lower_bound.0;
        let ghost es0 = self.cached_data@;
        let ghost w = spec_window(self.cache_size);
        let ghost p = self.session_info.spec_period();
        let session_id = self.session_info.session_id_from_block_num(number);
        let ghost sid = session_id.0;

        if session_id.0 < self.lower_bound.0 {
            let r = Result::Err(CacheError::SessionTooOld(session_id, self.lower_bound));
            proof {
                assert(resolution(lb0, es0, w, p, sid, 0u32, lb0, es0, r));
                assert(exists|fin: u32| resolution(lb0, es0, w, p, sid, fin, lb0, es0, r));
            }
            return r;
        }
        let finalized = self.finalization_info.finalized_number();
        let fin_session = self.session_info.session_id_from_block_num(finalized);
        if (session_id.0 as u64) > (fin_session.0 as u64) + 1u64 {
            let upper = SessionId(fin_session.0 + 1);
            let r = Result::Err(CacheError::SessionInFuture(session_id, upper));
            proof {
                assert(resolution(lb0, es0, w, p, sid, finalized, lb0, es0, r));
                assert(exists|fin: u32| resolution(lb0, es0, w, p, sid, fin, lb0, es0, r));
            }
            return r;
        }
        self.try_prune(session_id);
        let ghost lb1 = self.lower_bound.0;
        proof {
            assert(lb1 <= sid && sid as int <= lb1 as int + w as int - 1) by {
                if prune_needed(lb0, w, sid) {
                } else {
                }
            }
        }
        match find_entry(&self.cached_data, session_id.0) {
            Option::Some(i) => {
                let out = copy_data(&self.cached_data[i].data);
                proof {
                    assert(has_key(es0, sid) && sid >= lb1);
                    assert(val_of(self.cached_data@, sid) == val_of(es0, sid));
                    assert(resolution(
                        lb0,
                        es0,
                        w,
                        p,
                        sid,
                        finalized,
                        lb1,
                        self.cached_data@,
                        Result::Ok(out),
                    ));
                    assert(exists|fin: u32|
                        resolution(lb0, es0, w, p, sid, fin, lb1, self.cached_data@, Result::Ok(out)));
                }
                Result::Ok(out)
            },
            Option::None => {
                proof {
                    if sid >= 1 {
                        crate::session::lemma_first_block_le(
                            self.session_info,
                            (sid - 1) as u32,
                            finalized,
                        );
                    }
                }
                match download_data(&self.authority_provider, session_id, &self.session_info) {
                    Result::Ok(data) => {
                        let out = copy_data(&data);
                        let ghost esp = self.cached_data@;
                        let ghost ge = CacheEntry { session: session_id, data };
                        self.cached_data.push(CacheEntry { session: session_id, data });
                        proof {
                            assert(self.cached_data@ == esp.push(ge));
                            assert(!has_key(esp, sid));
                            lemma_unique_push(esp, ge);
                            assert forall|k: u32| #[trigger]
                                has_key(self.cached_data@, k) implies in_window(lb1, w, k)
                                && ((has_key(es0, k) && k >= lb1) || k == sid) by {
                                lemma_key_push(esp, ge, k);
                                if k != sid {
                                    assert(in_window(lb0, w, k));
                                }
                            }
                            assert forall|k: u32|
                                has_key(es0, k) && k >= lb1 implies #[trigger] has_key(
                                self.cached_data@,
                                k,
                            ) by {
                                lemma_key_push(esp, ge, k);
                            }
                            assert forall|k: u32| #[trigger]
                                has_key(self.cached_data@, k) && k != sid implies val_of(
                                self.cached_data@,
                                k,
                            ) == val_of(es0, k) by {
                                lemma_key_push(esp, ge, k);
                            }
                            lemma_key_push(esp, ge, sid);
                            assert(val_of(self.cached_data@, sid) == ge.data);
                            assert(resolution(
                                lb0,
                                es0,
                                w,
                                p,
                                sid,
                                finalized,
                                lb1,
                                self.cached_data@,
                                Result::Ok(out),
                            ));
                            assert(exists|fin: u32|
                                resolution(lb0, es0, w, p, sid, fin, lb1, self.cached_data@, Result::Ok(out)));
                        }
                        Result::Ok(out)
                    },
                    Result::Err(e) => {
                        let r = Result::Err(e);
                        proof {
                            assert(resolution(
                                lb0,
                                es0,
                                w,
                                p,
                                sid,
                                finalized,
                                lb1,
                                self.cached_data@,
                                r,
                            ));
                            assert(exists|fin: u32|
                                resolution(lb0, es0, w, p, sid, fin, lb1, self.cached_data@, r));
                        }
                        r
                    },
                }
            },
        }
    }

    /// Returns the session verifier for the session containing block `number`.
    /// Must be called with the number of the block being verified. Updates the
    /// cache if necessary.
    pub fn get(&mut self, number: BlockNumber) -> (r: Result<SessionVerifier, CacheError>)
        requires
            old(self).wf(),
        ensures
            final(self).wf(),
            final(self).session_info == old(self).session_info,
            final(self).cache_size == old(self).cache_size,
            final(self).genesis_header == old(self).genesis_header,
            old(self).lower_bound.0 <= final(self).lower_bound.0,
            r matches Err(e) && (e is SessionTooOld || e is SessionInFuture) ==> final(self).cached_data == old(self).cached_data && final(self).lower_bound == old(self).lower_bound,
            r matches Err(e) && e is SessionTooOld ==> old(self).session_info.spec_session_of(
                number,
            ) < old(self).lower_bound.0,
            old(self).session_info.spec_session_of(number) < old(self).lower_bound.0 ==> r
                == Result::<SessionVerifier, CacheError>::Err(
                CacheError::SessionTooOld(
                    SessionId(old(self).session_info.spec_session_of(number)),
                    old(self).lower_bound,
                ),
            ),
            r matches Err(CacheError::SessionInFuture(a, b)) ==> a.0
                == old(self).session_info.spec_session_of(number) && b.0 < a.0 && a.0 >= old(self).lower_bound.0,
            (has_key(old(self).cached_data@, old(self).session_info.spec_session_of(number))
                && old(self).session_info.spec_session_of(number) >= old(self).lower_bound.0 && r
                is Ok) ==> r->Ok_0.authorities@ == val_of(
                old(self).cached_data@,
                old(self).session_info.spec_session_of(number),
            ).session_verifier.authorities@,
            r is Ok ==> has_key(
                final(self).cached_data@,
                old(self).session_info.spec_session_of(number),
            ) && val_of(
                final(self).cached_data@,
                old(self).session_info.spec_session_of(number),
            ).session_verifier.authorities@ == r->Ok_0.authorities@,
            r matches Err(CacheError::UnknownAuthorities(a)) ==> a.0
                == old(self).session_info.spec_session_of(number) && !has_key(
                old(self).cached_data@,
                a.0,
            ),
            r matches Err(CacheError::UnknownAuraAuthorities(a)) ==> a.0
                == old(self).session_info.spec_session_of(number) && !has_key(
                old(self).cached_data@,
                a.0,
            ),
            r matches Err(e) ==> !(e is BadGenesisHeader),
            r is Ok ==> exists|fin: u32, d: CachedData|
                resolution(
                    old(self).lower_bound.0,
                    old(self).cached_data@,
                    spec_window(old(self).cache_size),
                    old(self).session_info.spec_period(),
                    old(self).session_info.spec_session_of(number),
                    fin,
                    final(self).lower_bound.0,
                    final(self).cached_data@,
                    Result::Ok(d),
                ) && r->Ok_0.authorities@ == d.session_verifier.authorities@,
            r is Err ==> exists|fin: u32|
                resolution(
                    old(self).lower_bound.0,
                    old(self).cached_data@,
                    spec_window(old(self).cache_size),
                    old(self).session_info.spec_period(),
                    old(self).session_info.spec_session_of(number),
                    fin,
                    final(self).lower_bound.0,
                    final(self).cached_data@,
                    Result::Err(r->Err_0),
                ),
    {
        let r0 = self.get_data(number);
        let ghost g = r0;
        match r0 {
            Result::Ok(d) => {
                let v = d.session_verifier;
                proof {
                    let fin0 = choose|fin: u32|
                        resolution(
                            old(self).lower_bound.0,
                            old(self).cached_data@,
                            spec_window(old(self).cache_size),
                            old(self).session_info.spec_period(),
                            old(self).session_info.spec_session_of(number),
                            fin,
                            self.lower_bound.0,
                            self.cached_data@,
                            g,
                        );
                    assert(resolution(
                        old(self).lower_bound.0,
                        old(self).cached_data@,
                        spec_window(old(self).cache_size),
                        old(self).session_info.spec_period(),
                        old(self).session_info.spec_session_of(number),
                        fin0,
                        self.lower_bound.0,
                        self.cached_data@,
                        Result::Ok(d),
                    ));
                }
                Result::Ok(v)
            },
            Result::Err(e) => {
                proof {
                    let fin0 = choose|fin: u32|
                        resolution(
                            old(self).lower_bound.0,
                            old(self).cached_data@,
                            spec_window(old(self).cache_size),
                            old(self).session_info.spec_period(),
                            old(self).session_info.spec_session_of(number),
                            fin,
                            self.lower_bound.0,
                            self.cached_data@,
                            g,
                        );
                    assert(resolution(
                        old(self).lower_bound.0,
                        old(self).cached_data@,
                        spec_window(old(self).cache_size),
                        old(self).session_info.spec_period(),
                        old(self).session_info.spec_session_of(number),
                        fin0,
                        self.lower_bound.0,
                        self.cached_data@,
                        Result::Err(e),
                    ));
                }
                Result::Err(e)
            },
        }
    }

    /// Returns the round-robin (Aura) authority list for the session after the
    /// one containing block `number`. Must be called with the number of the
    /// parent of the block being verified; it assumes the queued authorities
    /// will indeed become the next session's authorities, which the caller must
    /// have confirmed. Updates the cache if necessary.
    pub fn get_aura_authorities(&mut self, number: BlockNumber) -> (r: Result<
        Vec<AuraId>,
        CacheError,
    >)
        requires
            old(self).wf(),
        ensures
            final(self).wf(),
            final(self).session_info == old(self).session_info,
            final(self).cache_size == old(self).cache_size,
            final(self).genesis_header == old(self).genesis_header,
            old(self).lower_bound.0 <= final(self).lower_bound.0,
            r matches Err(e) && (e is SessionTooOld || e is SessionInFuture) ==> final(self).cached_data == old(self).cached_data && final(self).lower_bound == old(self).lower_bound,
            old(self).session_info.spec_session_of(number) < old(self).lower_bound.0 ==> r
                == Result::<Vec<AuraId>, CacheError>::Err(
                CacheError::SessionTooOld(
                    SessionId(old(self).session_info.spec_session_of(number)),
                    old(self).lower_bound,
                ),
            ),
            (has_key(old(self).cached_data@, old(self).session_info.spec_session_of(number))
                && old(self).session_info.spec_session_of(number) >= old(self).lower_bound.0 && r
                is Ok) ==> r->Ok_0@ == val_of(
                old(self).cached_data@,
                old(self).session_info.spec_session_of(number),
            ).aura_authorities@,
            r matches Err(e) && e is SessionTooOld ==> old(self).session_info.spec_session_of(
                number,
            ) < old(self).lower_bound.0,
            r matches Err(CacheError::SessionInFuture(a, b)) ==> a.0
                == old(self).session_info.spec_session_of(number) && b.0 < a.0 && a.0 >= old(self).lower_bound.0,
            r matches Err(CacheError::UnknownAuthorities(a)) ==> a.0
                == old(self).session_info.spec_session_of(number) && !has_key(
                old(self).cached_data@,
                a.0,
            ),
            r matches Err(CacheError::UnknownAuraAuthorities(a)) ==> a.0
                == old(self).session_info.spec_session_of(number) && !has_key(
                old(self).cached_data@,
                a.0,
            ),
            r matches Err(e) ==> !(e is BadGenesisHeader),
            r is Ok ==> exists|fin: u32, d: CachedData|
                resolution(
                    old(self).lower_bound.0,
                    old(self).cached_data@,
                    spec_window(old(self).cache_size),
                    old(self).session_info.spec_period(),
                    old(self).session_info.spec_session_of(number),
                    fin,
                    final(self).lower_bound.0,
                    final(self).cached_data@,
                    Result::Ok(d),
                ) && r->Ok_0@ == d.aura_authorities@,
            r is Err ==> exists|fin: u32|
                resolution(
                    old(self).lower_bound.0,
                    old(self).cached_data@,
                    spec_window(old(self).cache_size),
                    old(self).session_info.spec_period(),
                    old(self).session_info.spec_session_of(number),
                    fin,
                    final(self).lower_bound.0,
                    final(self).cached_data@,
                    Result::Err(r->Err_0),
                ),
    {
        let r0 = self.get_data(number);
        let ghost g = r0;
        match r0 {
            Result::Ok(d) => {
                let a = d.aura_authorities;
                proof {
                    let fin0 = choose|fin: u32|
                        resolution(
                            old(self).lower_bound.0,
                            old(self).cached_data@,
                            spec_window(old(self).cache_size),
                            old(self).session_info.spec_period(),
                            old(self).session_info.spec_session_of(number),
                            fin,
                            self.lower_bound.0,
                            self.cached_data@,
                            g,
                        );
                    assert(resolution(
                        old(self).lower_bound.0,
                        old(self).cached_data@,
                        spec_window(old(self).cache_size),
                        old(self).session_info.spec_period(),
                        old(self).session_info.spec_session_of(number),
                        fin0,
                        self.lower_bound.0,
                        self.cached_data@,
                        Result::Ok(d),
                    ));
                }
                Result::Ok(a)
            },
            Result::Err(e) => {
                proof {
                    let fin0 = choose|fin: u32|
                        resolution(
                            old(self).lower_bound.0,
                            old(self).cached_data@,
                            spec_window(old(self).cache_size),
                            old(self).session_info.spec_period(),
                            old(self).session_info.spec_session_of(number),
                            fin,
                            self.lower_bound.0,
                            self.cached_data@,
                            g,
                        );
                    assert(resolution(
                        old(self).lower_bound.0,
                        old(self).cached_data@,
                        spec_window(old(self).cache_size),
                        old(self).session_info.spec_period(),
                        old(self).session_info.spec_session_of(number),
                        fin0,
                        self.lower_bound.0,
                        self.cached_data@,
                        Result::Err(e),
                    ));
                }
                Result::Err(e)
            },
        }
    }
}

/// Law: the retention lower bound never decreases across a resolution step,
/// whatever the request, the finalization state and the authority source do.
pub proof fn lemma_lower_bound_monotone(
    lb0: u32,
    es0: Seq<CacheEntry>,
    w: u32,
    period: u32,
    s: u32,
    fin: u32,
    lb1: u32,
    es1: Seq<CacheEntry>,
    r: Result<CachedData, CacheError>,
)
    requires
        w >= 1,
        resolution(lb0, es0, w, period, s, fin, lb1, es1, r),
    ensures
        lb0 <= lb1,
{
}

/// Law: no eviction leak. If every cached session lay in the retention window
/// before a resolution step, the same holds after it, for the new lower bound.
pub proof fn lemma_no_eviction_leak(
    lb0: u32,
    es0: Seq<CacheEntry>,
    w: u32,
    period: u32,
    s: u32,
    fin: u32,
    lb1: u32,
    es1: Seq<CacheEntry>,
    r: Result<CachedData, CacheError>,
)
    requires
        w >= 1,
        forall|k: u32| #[trigger] has_key(es0, k) ==> in_window(lb0, w, k),
        resolution(lb0, es0, w, period, s, fin, lb1, es1, r),
    ensures
        forall|k: u32| #[trigger] has_key(es1, k) ==> in_window(lb1, w, k),
{
    if s < lb0 || s as int > spec_upper(period, fin) {
    } else {
        assert forall|k: u32| #[trigger] has_key(es1, k) implies in_window(lb1, w, k) by {
            if has_key(es0, s) {
                assert(has_key(es0, k) && k >= lb1);
                assert(in_window(lb0, w, k));
            } else {
                match r {
                    Result::Ok(d) => {
                        if k != s {
                            assert(has_key(es0, k) && k >= lb1);
                            assert(in_window(lb0, w, k));
                        }
                    },
                    Result::Err(e) => {
                        assert(has_key(es0, k) && k >= lb1);
                        assert(in_window(lb0, w, k));
                    },
                }
            }
        }
    }
}

/// Law: rejection purity. A step that ends in `SessionTooOld` or
/// `SessionInFuture` leaves both the slots and the lower bound exactly as they
/// were.
pub proof fn lemma_rejection_purity(
    lb0: u32,
    es0: Seq<CacheEntry>,
    w: u32,
    period: u32,
    s: u32,
    fin: u32,
    lb1: u32,
    es1: Seq<CacheEntry>,
    r: Result<CachedData, CacheError>,
)
    requires
        resolution(lb0, es0, w, period, s, fin, lb1, es1, r),
        r matches Err(e) && (e is SessionTooOld || e is SessionInFuture),
    ensures
        lb1 == lb0,
        es1 == es0,
{
}

/// Law: idempotent hit. After a successful resolution of session `s`, a second
/// resolution of `s` serves data bit-identical to the first and changes
/// nothing, for any authority-source behaviour and any finalization progress
/// (the finalized block number never decreases).
pub proof fn lemma_idempotent_hit(
    lb0: u32,
    es0: Seq<CacheEntry>,
    w: u32,
    period: u32,
    s: u32,
    fin1: u32,
    lb1: u32,
    es1: Seq<CacheEntry>,
    d1: CachedData,
    fin2: u32,
    lb2: u32,
    es2: Seq<CacheEntry>,
    r2: Result<CachedData, CacheError>,
)
    requires
        period >= 1,
        w >= 1,
        forall|k: u32| #[trigger] has_key(es0, k) ==> in_window(lb0, w, k),
        fin1 <= fin2,
        resolution(lb0, es0, w, period, s, fin1, lb1, es1, Result::Ok(d1)),
        resolution(lb1, es1, w, period, s, fin2, lb2, es2, r2),
    ensures
        lb2 == lb1,
        es2 == es1,
        r2 matches Ok(d2) && same_data(d2, d1),
{
    assert(!(s < lb0));
    assert(!(s as int > spec_upper(period, fin1)));
    assert(spec_upper(period, fin1) <= spec_upper(period, fin2)) by {
        vstd::arithmetic::div_mod::lemma_div_is_ordered(
            fin1 as int,
            fin2 as int,
            period as int,
        );
    }
    let lbn = next_lower_bound(lb0, w, s);
    assert(lbn <= s && s as int <= lbn as int + w as int - 1);
    assert(has_key(es1, s));
    assert(same_data(val_of(es1, s), d1));
    assert(!prune_needed(lb1, w, s));
}

} // verus!
