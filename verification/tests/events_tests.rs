use session_verifier_cache::events::{make_fs_event, Error, Event, Pallet};

#[test]
fn records_a_disassembly_event() {
    let mut pallet = Pallet::new();
    let r = pallet.disassembled(7, vec![1, 2, 3], vec![b'/', b'a'], vec![9]);
    match r {
        Ok(Event::FileDisassembled { who, event }) => {
            assert_eq!(who, 7);
            assert_eq!(event.creationtime.len(), 64);
            assert_eq!(event.filepath.len(), 256);
            assert_eq!(event.eventkey.len(), 128);
            assert_eq!(&event.creationtime[..3], &[1, 2, 3]);
            assert!(event.creationtime[3..].iter().all(|b| *b == 0));
            assert_eq!(&event.filepath[..2], &[b'/', b'a']);
            assert_eq!(event.eventkey[0], 9);
        }
        other => panic!("unexpected result: {:?}", other),
    }
    let stored = pallet.info(7).expect("record stored");
    assert_eq!(&stored.creationtime[..3], &[1, 2, 3]);
}

#[test]
fn records_a_reassembly_event() {
    let mut pallet = Pallet::new();
    let r = pallet.reassembled(3, vec![5], vec![6], vec![7]);
    assert!(matches!(r, Ok(Event::FileReassembled { who: 3, .. })));
    assert!(pallet.info(3).is_some());
    assert!(pallet.info(4).is_none());
}

#[test]
fn rejects_long_creation_time() {
    let mut pallet = Pallet::new();
    let r = pallet.disassembled(1, vec![0; 65], vec![], vec![]);
    assert_eq!(r, Err(Error::CreationTimeTooLong));
    assert!(pallet.info(1).is_none());
}

#[test]
fn rejects_long_file_path() {
    let mut pallet = Pallet::new();
    let r = pallet.reassembled(1, vec![0; 64], vec![0; 257], vec![]);
    assert_eq!(r, Err(Error::FilePathTooLong));
}

#[test]
fn rejects_long_event_key() {
    let r = make_fs_event(&vec![0; 64], &vec![0; 256], &vec![0; 129]);
    assert_eq!(r, Err(Error::EventKeyTooLong));
}

#[test]
fn widths_at_the_limit_are_accepted() {
    let e = make_fs_event(&vec![1; 64], &vec![2; 256], &vec![3; 128]).expect("limit widths fit");
    assert_eq!(e.creationtime, vec![1; 64]);
    assert_eq!(e.filepath, vec![2; 256]);
    assert_eq!(e.eventkey, vec![3; 128]);
}

#[test]
fn latest_write_wins() {
    let mut pallet = Pallet::new();
    pallet.disassembled(1, vec![1], vec![], vec![]).unwrap();
    pallet.reassembled(1, vec![2], vec![], vec![]).unwrap();
    let stored = pallet.info(1).expect("record stored");
    assert_eq!(stored.creationtime[0], 2);
}
