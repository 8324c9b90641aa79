use std::cell::Cell;
use std::collections::HashMap;

use session_verifier_cache::authorities::{AuraId, SessionAuthorityData, SessionVerifier};
use session_verifier_cache::cache::{
    AuthorityProvider, CacheError, FinalizationInfo, VerifierCache,
};
use session_verifier_cache::session::{BlockNumber, SessionBoundaryInfo, SessionId, SessionPeriod};

const SESSION_PERIOD: u32 = 30;
const CACHE_SIZE: usize = 3;

#[derive(Clone, Debug, PartialEq)]
struct MockHeader(u32);

type TestVerifierCache<'a> =
    VerifierCache<MockAuthorityProvider, MockFinalizationInfo<'a>, MockHeader>;

struct MockFinalizationInfo<'a> {
    finalized_number: &'a Cell<BlockNumber>,
}

impl<'a> FinalizationInfo for MockFinalizationInfo<'a> {
    fn finalized_number(&self) -> BlockNumber {
        self.finalized_number.get()
    }
}

struct MockAuthorityProvider {
    session_map: HashMap<SessionId, SessionAuthorityData>,
    aura_authority_map: HashMap<SessionId, Vec<AuraId>>,
    session_info: SessionBoundaryInfo,
}

fn authority_data(from: u32, to: u32) -> SessionAuthorityData {
    SessionAuthorityData::new((from..to).map(|id| id as AuraId).collect())
}

fn authority_data_for_session(session_id: u32) -> SessionAuthorityData {
    authority_data(session_id * 4, (session_id + 1) * 4)
}

fn aura_authority_data_for_session(session_id: u32) -> Vec<AuraId> {
    (session_id * 4..(session_id + 1) * 4)
        .map(|id| id as AuraId)
        .collect()
}

impl MockAuthorityProvider {
    fn new(session_n: u32) -> Self {
        let session_map = (0..session_n + 1)
            .map(|s| (SessionId(s), authority_data_for_session(s)))
            .collect();
        let aura_authority_map = (0..session_n + 1)
            .map(|s| (SessionId(s), aura_authority_data_for_session(s)))
            .collect();
        Self {
            session_map,
            aura_authority_map,
            session_info: SessionBoundaryInfo::new(SessionPeriod(SESSION_PERIOD)),
        }
    }
}

impl AuthorityProvider for MockAuthorityProvider {
    fn authority_data(&self, block_number: BlockNumber) -> Option<SessionAuthorityData> {
        self.session_map
            .get(&self.session_info.session_id_from_block_num(block_number))
            .cloned()
    }

    fn next_authority_data(&self, block_number: BlockNumber) -> Option<SessionAuthorityData> {
        self.session_map
            .get(&SessionId(
                self.session_info
                    .session_id_from_block_num(block_number)
                    .0
                    + 1,
            ))
            .cloned()
    }

    fn aura_authorities(&self, block_number: BlockNumber) -> Option<Vec<AuraId>> {
        self.aura_authority_map
            .get(&self.session_info.session_id_from_block_num(block_number))
            .cloned()
    }

    fn next_aura_authorities(&self, block_number: BlockNumber) -> Option<Vec<AuraId>> {
        self.aura_authority_map
            .get(&SessionId(
                self.session_info
                    .session_id_from_block_num(block_number)
                    .0
                    + 1,
            ))
            .cloned()
    }
}

fn setup_test(max_session_n: u32, finalized_number: &'_ Cell<BlockNumber>) -> TestVerifierCache<'_> {
    let finalization_info = MockFinalizationInfo { finalized_number };
    let authority_provider = MockAuthorityProvider::new(max_session_n);
    let genesis_header = MockHeader(0);

    VerifierCache::new(
        SessionBoundaryInfo::new(SessionPeriod(SESSION_PERIOD)),
        finalization_info,
        authority_provider,
        CACHE_SIZE,
        genesis_header,
    )
}

fn finalize_first_in_session(finalized_number: &Cell<BlockNumber>, session_id: u32) {
    finalized_number.set(session_id * SESSION_PERIOD);
}

fn session_verifier(
    verifier: &mut TestVerifierCache,
    session_id: u32,
) -> Result<SessionVerifier, CacheError> {
    verifier.get((session_id + 1) * SESSION_PERIOD - 1)
}

fn check_session_verifier(verifier: &mut TestVerifierCache, session_id: u32) {
    let session_verifier =
        session_verifier(verifier, session_id).expect("Should return verifier. Got error");
    let expected_verifier =
        SessionVerifier::from_authority_data(authority_data_for_session(session_id));
    assert_eq!(session_verifier, expected_verifier);
}

#[test]
fn genesis_session() {
    let finalized_number = Cell::new(0);

    let mut verifier = setup_test(0, &finalized_number);

    check_session_verifier(&mut verifier, 0);
}

#[test]
fn normal_session() {
    let finalized_number = Cell::new(0);

    let mut verifier = setup_test(3, &finalized_number);

    check_session_verifier(&mut verifier, 0);
    check_session_verifier(&mut verifier, 1);

    finalize_first_in_session(&finalized_number, 1);
    check_session_verifier(&mut verifier, 0);
    check_session_verifier(&mut verifier, 1);
    check_session_verifier(&mut verifier, 2);

    finalize_first_in_session(&finalized_number, 2);
    check_session_verifier(&mut verifier, 1);
    check_session_verifier(&mut verifier, 2);
    check_session_verifier(&mut verifier, 3);
}

#[test]
fn prunes_old_sessions() {
    assert_eq!(CACHE_SIZE, 3);

    let finalized_number = Cell::new(0);

    let mut verifier = setup_test(4, &finalized_number);

    check_session_verifier(&mut verifier, 0);
    check_session_verifier(&mut verifier, 1);

    finalize_first_in_session(&finalized_number, 1);
    check_session_verifier(&mut verifier, 2);

    finalize_first_in_session(&finalized_number, 2);
    check_session_verifier(&mut verifier, 3);

    // Should no longer have verifier for session 0
    assert_eq!(
        session_verifier(&mut verifier, 0),
        Err(CacheError::SessionTooOld(SessionId(0), SessionId(1)))
    );

    finalize_first_in_session(&finalized_number, 3);
    check_session_verifier(&mut verifier, 4);

    // Should no longer have verifier for session 1
    assert_eq!(
        session_verifier(&mut verifier, 1),
        Err(CacheError::SessionTooOld(SessionId(1), SessionId(2)))
    );
}

#[test]
fn session_from_future() {
    let finalized_number = Cell::new(0);

    let mut verifier = setup_test(3, &finalized_number);

    finalize_first_in_session(&finalized_number, 1);

    // Did not finalize first block in session 2 yet
    assert_eq!(
        session_verifier(&mut verifier, 3),
        Err(CacheError::SessionInFuture(SessionId(3), SessionId(2)))
    );
}

#[test]
fn authority_provider_error() {
    let finalized_number = Cell::new(0);
    let mut verifier = setup_test(0, &finalized_number);

    assert_eq!(
        session_verifier(&mut verifier, 1),
        Err(CacheError::UnknownAuthorities(SessionId(1)))
    );

    finalize_first_in_session(&finalized_number, 1);

    assert_eq!(
        session_verifier(&mut verifier, 2),
        Err(CacheError::UnknownAuthorities(SessionId(2)))
    );
}

#[test]
fn genesis_header_is_echoed() {
    let finalized_number = Cell::new(0);
    let verifier = setup_test(0, &finalized_number);
    assert_eq!(verifier.genesis_header(), &MockHeader(0));
}

#[test]
fn aura_authorities_serve_next_session() {
    let finalized_number = Cell::new(0);
    let mut verifier = setup_test(2, &finalized_number);

    // Session 0's entry holds the list effective at block 0; session 1's holds
    // the list queued at session 0's first block.
    let aura = verifier.get_aura_authorities(29).expect("genesis aura data");
    assert_eq!(aura, aura_authority_data_for_session(0));

    finalize_first_in_session(&finalized_number, 1);
    let aura1 = verifier.get_aura_authorities(59).expect("session 1 aura data");
    assert_eq!(aura1, aura_authority_data_for_session(1));
}

#[test]
fn missing_authorities_are_not_cached() {
    // The authority source knows only session 0; a query for session 1 fails
    // and must not poison the cache once the data becomes available.
    let finalized_number = Cell::new(0);
    let finalization_info = MockFinalizationInfo {
        finalized_number: &finalized_number,
    };
    let authority_provider = MockAuthorityProvider::new(0);
    let mut verifier: TestVerifierCache = VerifierCache::new(
        SessionBoundaryInfo::new(SessionPeriod(SESSION_PERIOD)),
        finalization_info,
        authority_provider,
        CACHE_SIZE,
        MockHeader(0),
    );

    assert_eq!(
        session_verifier(&mut verifier, 1),
        Err(CacheError::UnknownAuthorities(SessionId(1)))
    );

    // The data for session 1 turns up: the same query now succeeds.
    let richer = MockAuthorityProvider::new(1);
    verifier.authority_provider = richer;
    check_session_verifier(&mut verifier, 1);
}

#[test]
fn lower_bound_is_monotone() {
    let finalized_number = Cell::new(0);
    let mut verifier = setup_test(4, &finalized_number);

    let mut last = verifier.lower_bound.0;
    let steps: [u32; 7] = [0, 1, 0, 2, 3, 1, 4];
    for (i, s) in steps.iter().enumerate() {
        finalize_first_in_session(&finalized_number, i as u32);
        let _ = session_verifier(&mut verifier, *s);
        assert!(verifier.lower_bound.0 >= last);
        last = verifier.lower_bound.0;
    }
}

#[test]
fn entries_stay_inside_window() {
    let finalized_number = Cell::new(0);
    let mut verifier = setup_test(4, &finalized_number);

    for s in 0..5u32 {
        finalize_first_in_session(&finalized_number, s);
        let _ = session_verifier(&mut verifier, s);
        let lb = verifier.lower_bound.0;
        for entry in verifier.cached_data.iter() {
            assert!(entry.session.0 >= lb);
            assert!(entry.session.0 <= lb + CACHE_SIZE as u32 - 1);
        }
    }
}

#[test]
fn rejections_change_nothing() {
    let finalized_number = Cell::new(0);
    let mut verifier = setup_test(4, &finalized_number);

    finalize_first_in_session(&finalized_number, 2);
    check_session_verifier(&mut verifier, 3);
    finalize_first_in_session(&finalized_number, 3);
    check_session_verifier(&mut verifier, 4);

    let lb_before = verifier.lower_bound.0;
    let keys_before: Vec<u32> = verifier.cached_data.iter().map(|e| e.session.0).collect();

    // Too old
    assert!(matches!(
        session_verifier(&mut verifier, 0),
        Err(CacheError::SessionTooOld(_, _))
    ));
    // Too far in the future
    assert!(matches!(
        session_verifier(&mut verifier, 6),
        Err(CacheError::SessionInFuture(_, _))
    ));

    let keys_after: Vec<u32> = verifier.cached_data.iter().map(|e| e.session.0).collect();
    assert_eq!(verifier.lower_bound.0, lb_before);
    assert_eq!(keys_after, keys_before);
}

#[test]
fn repeated_hit_returns_identical_data() {
    let finalized_number = Cell::new(0);
    let mut verifier = setup_test(2, &finalized_number);

    let first = session_verifier(&mut verifier, 0).expect("first call succeeds");
    let lb = verifier.lower_bound.0;
    let n_entries = verifier.cached_data.len();
    let second = session_verifier(&mut verifier, 0).expect("second call succeeds");
    assert_eq!(first, second);
    assert_eq!(verifier.lower_bound.0, lb);
    assert_eq!(verifier.cached_data.len(), n_entries);
}
