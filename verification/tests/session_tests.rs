use session_verifier_cache::session::{SessionBoundaryInfo, SessionId, SessionPeriod};

#[test]
fn block_to_session_mapping() {
    let info = SessionBoundaryInfo::new(SessionPeriod(30));
    assert_eq!(info.session_id_from_block_num(0), SessionId(0));
    assert_eq!(info.session_id_from_block_num(29), SessionId(0));
    assert_eq!(info.session_id_from_block_num(30), SessionId(1));
    assert_eq!(info.session_id_from_block_num(89), SessionId(2));
    assert_eq!(info.session_id_from_block_num(90), SessionId(3));
}

#[test]
fn session_to_first_block_mapping() {
    let info = SessionBoundaryInfo::new(SessionPeriod(30));
    assert_eq!(info.first_block_of_session(SessionId(0)), 0);
    assert_eq!(info.first_block_of_session(SessionId(1)), 30);
    assert_eq!(info.first_block_of_session(SessionId(4)), 120);
}
