//! Call correlator: a cache of pending function-entry records keyed by
//! invocation identifier, resolved into completed call records when the
//! matching exit arrives.

use std::collections::HashMap;

use vstd::prelude::*;
use vstd::map::*;

use crate::records::EntryV;
use crate::records::FnV;
use crate::records::XtraceEntryRecord;
use crate::records::XtraceExitRecord;
use crate::records::XtraceFnRecord;

verus! {

broadcast use vstd::std_specs::hash::group_hash_axioms;

/// The pending entries of an in-progress parse, keyed by invocation
/// identifier.  Observing an entry stores it, silently overwriting any
/// pending entry with the same identifier; observing an exit consumes the
/// matching pending entry, if any, into a completed call record.
pub struct Correlator {
    pending: HashMap<u32, XtraceEntryRecord>,
}

impl View for Correlator {
    type V = Map<u32, EntryV>;

    closed spec fn view(&self) -> Map<u32, EntryV> {
        self.pending@.map_values(|r: XtraceEntryRecord| r@)
    }
}

impl Correlator {
    /// An empty cache: no call is pending.
    pub fn new() -> (r: Correlator)
        ensures
            r@ == Map::<u32, EntryV>::empty(),
    {
        let c = Correlator { pending: HashMap::new() };
        proof {
            assert(c@ =~= Map::<u32, EntryV>::empty());
        }
        c
    }

    /// Store a decoded entry under its invocation identifier.  If the same
    /// identifier is already pending, the previous entry is silently
    /// replaced: last write wins.
    pub fn observe_entry(&mut self, rec: XtraceEntryRecord)
        ensures
            final(self)@ == old(self)@.insert(rec.fn_num, rec@),
    {
        let ghost key = rec.fn_num;
        let ghost v = rec@;
        self.pending.insert(rec.fn_num, rec);
        proof {
            assert(self@ =~= old(self)@.insert(key, v));
        }
    }

    /// Resolve an exit record against the pending entries.  When the
    /// identifier is pending, the entry is removed and paired with the
    /// exit into a completed call record; when it is not, nothing changes
    /// and the exit is dropped.
    pub fn observe_exit(&mut self, exit: XtraceExitRecord) -> (r: Option<XtraceFnRecord>)
        ensures
            old(self)@.contains_key(exit.fn_num) ==> {
                &&& r matches Some(rec)
                &&& rec@ == (FnV {
                    fn_num: exit.fn_num,
                    entry: Some(old(self)@[exit.fn_num]),
                    exit: Some(exit@),
                })
                &&& final(self)@ == old(self)@.remove(exit.fn_num)
            },
            !old(self)@.contains_key(exit.fn_num) ==> {
                &&& r is None
                &&& final(self)@ == old(self)@
            },
    {
        let ghost key = exit.fn_num;
        match self.pending.remove(&exit.fn_num) {
            Some(entry) => {
                proof {
                    assert(self@ =~= old(self)@.remove(key));
                }
                Some(
                    XtraceFnRecord {
                        fn_num: exit.fn_num,
                        entry_record: Some(entry),
                        exit_record: Some(exit),
                    },
                )
            },
            None => {
                proof {
                    assert(self@ =~= old(self)@);
                }
                None
            },
        }
    }
}

} // verus!
