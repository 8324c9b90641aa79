//! Decision logic of the file-event recording pallet: field validation,
//! zero-padding to fixed widths, and the per-account record store. The
//! dispatch plumbing around it (origin checking, weights, event deposit)
//! belongs to the runtime, which hands this module plain values.

use vstd::prelude::*;

verus! {

/// Identity of the account that signed a call.
pub type AccountId = u64;

/// Ways in which recording a file event can fail.
#[derive(Clone, Copy, Debug, PartialEq, Eq)]
pub enum Error {
    CreationTimeTooLong,
    FilePathTooLong,
    EventKeyTooLong,
}

/// A recorded file-system event. Each field is a fixed-width byte string,
/// zero-padded on the right.
#[derive(Debug, PartialEq, Eq)]
pub struct FSEvent {
    pub creationtime: Vec<u8>,
    pub filepath: Vec<u8>,
    pub eventkey: Vec<u8>,
}

impl FSEvent {
    /// The fields have their fixed widths.
    pub open spec fn wf(&self) -> bool {
        self.creationtime@.len() == 64 && self.filepath@.len() == 256 && self.eventkey@.len()
            == 128
    }
}

/// Events the pallet deposits on success.
#[derive(Debug, PartialEq, Eq)]
pub enum Event {
    FileDisassembled { who: AccountId, event: FSEvent },
    FileReassembled { who: AccountId, event: FSEvent },
}

/// `src` extended with zeroes up to length `n`.
pub open spec fn padded(src: Seq<u8>, n: int) -> Seq<u8> {
    src + Seq::new((n - src.len()) as nat, |i: int| 0u8)
}

/// `e` holds exactly the three inputs, zero-padded to the fixed widths.
pub open spec fn event_from(ct: Seq<u8>, fp: Seq<u8>, ek: Seq<u8>, e: FSEvent) -> bool {
    e.creationtime@ == padded(ct, 64) && e.filepath@ == padded(fp, 256) && e.eventkey@ == padded(
        ek,
        128,
    )
}

/// The record stored for `who`: the most recently written one, if any.
pub open spec fn rec_lookup(rs: Seq<(AccountId, FSEvent)>, who: AccountId) -> Option<FSEvent>
    decreases rs.len(),
{
    if rs.len() == 0 {
        Option::None
    } else if rs.last().0 == who {
        Option::Some(rs.last().1)
    } else {
        rec_lookup(rs.drop_last(), who)
    }
}

/// Writing a record for `who` changes the lookup for `who` alone.
pub proof fn lemma_rec_lookup_push(rs: Seq<(AccountId, FSEvent)>, e: (AccountId, FSEvent), who: AccountId)
    ensures
        e.0 == who ==> rec_lookup(rs.push(e), who) == Option::Some(e.1),
        e.0 != who ==> rec_lookup(rs.push(e), who) == rec_lookup(rs, who),
{
    assert(rs.push(e).last() == e);
    assert(rs.push(e).drop_last() =~= rs);
}

/// Returns a copy of a byte string.
fn copy_bytes(v: &Vec<u8>) -> (r: Vec<u8>)
    ensures
        r@ == v@,
{
    let mut r: Vec<u8> = Vec::new();
    let mut i: usize = 0;
    while i < v.len()
        invariant
            i <= v.len(),
            r@ == v@.subrange(0, i as int),
        decreases v.len() - i,
    {
        r.push(v[i]);
        proof {
            assert(r@ =~= v@.subrange(0, i as int + 1));
        }
        i = i + 1;
    }
    proof {
        assert(r@ =~= v@);
    }
    r
}

/// Returns `v` zero-padded on the right to length `n`.
fn pad_to(v: &Vec<u8>, n: usize) -> (r: Vec<u8>)
    requires
        v@.len() <= n,
    ensures
        r@ == padded(v@, n as int),
{
    let mut r = copy_bytes(v);
    while r.len() < n
        invariant
            v@.len() <= r@.len() <= n,
            r@.subrange(0, v@.len() as int) == v@,
            forall|i: int| v@.len() <= i < r@.len() ==> r@[i] == 0u8,
        decreases n - r.len(),
    {
        let ghost pre = r@;
        r.push(0u8);
        proof {
            assert(r@.subrange(0, v@.len() as int) =~= pre.subrange(0, v@.len() as int));
        }
    }
    proof {
        assert(r@ =~= padded(v@, n as int));
    }
    r
}

/// Returns a copy of a recorded event, field by field.
fn copy_event(e: &FSEvent) -> (r: FSEvent)
    ensures
        r.creationtime@ == e.creationtime@,
        r.filepath@ == e.filepath@,
        r.eventkey@ == e.eventkey@,
{
    FSEvent {
        creationtime: copy_bytes(&e.creationtime),
        filepath: copy_bytes(&e.filepath),
        eventkey: copy_bytes(&e.eventkey),
    }
}

/// Validates the three inputs and builds the fixed-width record: rejected
/// exactly when a field is over its width, checking the creation time, the
/// file path and the event key in that order.
pub fn make_fs_event(creation_time: &Vec<u8>, file_path: &Vec<u8>, event_key: &Vec<u8>) -> (r:
    Result<FSEvent, Error>)
    ensures
        r is Ok <==> (creation_time@.len() <= 64 && file_path@.len() <= 256 && event_key@.len()
            <= 128),
        r == Result::<FSEvent, Error>::Err(Error::CreationTimeTooLong) <==> creation_time@.len()
            > 64,
        r == Result::<FSEvent, Error>::Err(Error::FilePathTooLong) <==> (creation_time@.len() <= 64
            && file_path@.len() > 256),
        r == Result::<FSEvent, Error>::Err(Error::EventKeyTooLong) <==> (creation_time@.len() <= 64
            && file_path@.len() <= 256 && event_key@.len() > 128),
        r matches Ok(e) ==> event_from(creation_time@, file_path@, event_key@, e) && e.wf(),
{
    if creation_time.len() > 64 {
        return Result::Err(Error::CreationTimeTooLong);
    }
    if file_path.len() > 256 {
        return Result::Err(Error::FilePathTooLong);
    }
    if event_key.len() > 128 {
        return Result::Err(Error::EventKeyTooLong);
    }
    Result::Ok(
        FSEvent {
            creationtime: pad_to(creation_time, 64),
            filepath: pad_to(file_path, 256),
            eventkey: pad_to(event_key, 128),
        },
    )
}

/// The pallet's state: one record per account, latest write wins.
pub struct Pallet {
    pub dis_re_assembly: Vec<(AccountId, FSEvent)>,
}

impl Pallet {
    pub fn new() -> (r: Pallet)
        ensures
            r.dis_re_assembly@.len() == 0,
    {
        Pallet { dis_re_assembly: Vec::new() }
    }

    /// Getter for the stored record of `who`.
    pub fn info(&self, who: AccountId) -> (r: Option<FSEvent>)
        ensures
            r is Some <==> rec_lookup(self.dis_re_assembly@, who) is Some,
            r matches Some(a) ==> rec_lookup(self.dis_re_assembly@, who) matches Some(b)
                && a.creationtime@ == b.creationtime@ && a.filepath@ == b.filepath@ && a.eventkey@
                == b.eventkey@,
    {
        let rs = &self.dis_re_assembly;
        let mut i: usize = rs.len();
        proof {
            assert(rs@.subrange(0, rs@.len() as int) =~= rs@);
        }
        while i > 0
            invariant
                i <= rs@.len(),
                rs@ == self.dis_re_assembly@,
                rec_lookup(rs@, who) == rec_lookup(rs@.subrange(0, i as int), who),
            decreases i,
        {
            i = i - 1;
            let ghost cur = rs@.subrange(0, i as int + 1);
            proof {
                assert(cur.last() == rs@[i as int]);
                assert(cur.drop_last() =~= rs@.subrange(0, i as int));
            }
            if rs[i].0 == who {
                proof {
                    assert(rec_lookup(cur, who) == Option::Some(rs@[i as int].1));
                    assert(rec_lookup(rs@, who) == rec_lookup(cur, who));
                }
                let out = copy_event(&rs[i].1);
                return Option::Some(out);
            }
        }
        proof {
            assert(rs@.subrange(0, 0) =~= Seq::<(AccountId, FSEvent)>::empty());
        }
        Option::None
    }

    /// Records a file-disassembly event for `sender`: validates the fields,
    /// stores the fixed-width record under `sender`, and returns the event the
    /// runtime should deposit. Rejected calls change nothing.
    pub fn disassembled(
        &mut self,
        sender: AccountId,
        creation_time: Vec<u8>,
        file_path: Vec<u8>,
        event_key: Vec<u8>,
    ) -> (r: Result<Event, Error>)
        ensures
            r is Ok <==> (creation_time@.len() <= 64 && file_path@.len() <= 256
                && event_key@.len() <= 128),
            r is Err ==> final(self).dis_re_assembly == old(self).dis_re_assembly && r
                == make_err(creation_time@, file_path@, event_key@),
            r matches Ok(ev) ==> ev matches Event::FileDisassembled { who, event } && who == sender
                && event_from(creation_time@, file_path@, event_key@, event),
            r is Ok ==> (rec_lookup(final(self).dis_re_assembly@, sender) matches Option::Some(st)
                && event_from(creation_time@, file_path@, event_key@, st)),
            r is Ok ==> forall|k: AccountId|
                k != sender ==> #[trigger] rec_lookup(final(self).dis_re_assembly@, k)
                    == rec_lookup(old(self).dis_re_assembly@, k),
    {
        match make_fs_event(&creation_time, &file_path, &event_key) {
            Result::Ok(event) => {
                let stored = copy_event(&event);
                let ghost rs0 = self.dis_re_assembly@;
                let ghost ge = (sender, stored);
                self.dis_re_assembly.push((sender, stored));
                proof {
                    assert forall|k: AccountId| k != sender implies #[trigger] rec_lookup(
                        self.dis_re_assembly@,
                        k,
                    ) == rec_lookup(rs0, k) by {
                        lemma_rec_lookup_push(rs0, ge, k);
                    }
                    lemma_rec_lookup_push(rs0, ge, sender);
                }
                Result::Ok(Event::FileDisassembled { who: sender, event })
            },
            Result::Err(e) => Result::Err(e),
        }
    }

    /// Records a file-reassembly event for `sender`; the same contract as
    /// `disassembled`, with a `FileReassembled` event.
    pub fn reassembled(
        &mut self,
        sender: AccountId,
        creation_time: Vec<u8>,
        file_path: Vec<u8>,
        event_key: Vec<u8>,
    ) -> (r: Result<Event, Error>)
        ensures
            r is Ok <==> (creation_time@.len() <= 64 && file_path@.len() <= 256
                && event_key@.len() <= 128),
            r is Err ==> final(self).dis_re_assembly == old(self).dis_re_assembly && r
                == make_err(creation_time@, file_path@, event_key@),
            r matches Ok(ev) ==> ev matches Event::FileReassembled { who, event } && who == sender
                && event_from(creation_time@, file_path@, event_key@, event),
            r is Ok ==> (rec_lookup(final(self).dis_re_assembly@, sender) matches Option::Some(st)
                && event_from(creation_time@, file_path@, event_key@, st)),
            r is Ok ==> forall|k: AccountId|
                k != sender ==> #[trigger] rec_lookup(final(self).dis_re_assembly@, k)
                    == rec_lookup(old(self).dis_re_assembly@, k),
    {
        match make_fs_event(&creation_time, &file_path, &event_key) {
            Result::Ok(event) => {
                let stored = copy_event(&event);
                let ghost rs0 = self.dis_re_assembly@;
                let ghost ge = (sender, stored);
                self.dis_re_assembly.push((sender, stored));
                proof {
                    assert forall|k: AccountId| k != sender implies #[trigger] rec_lookup(
                        self.dis_re_assembly@,
                        k,
                    ) == rec_lookup(rs0, k) by {
                        lemma_rec_lookup_push(rs0, ge, k);
                    }
                    lemma_rec_lookup_push(rs0, ge, sender);
                }
                Result::Ok(Event::FileReassembled { who: sender, event })
            },
            Result::Err(e) => Result::Err(e),
        }
    }
}

/// The error a rejected call reports, by the order the fields are checked.
pub open spec fn make_err(ct: Seq<u8>, fp: Seq<u8>, ek: Seq<u8>) -> Result<Event, Error> {
    if ct.len() > 64 {
        Result::Err(Error::CreationTimeTooLong)
    } else if fp.len() > 256 {
        Result::Err(Error::FilePathTooLong)
    } else {
        Result::Err(Error::EventKeyTooLong)
    }
}

} // verus!
