//! Incremental file tailing state: one record per watched file deciding,
//! on each modification notice, whether to read and from which offset —
//! including truncation handling. The actual file I/O happens outside; only
//! plain observations (modification time, size, end-of-read offset) come in.

use vstd::prelude::*;

verus! {

/// What one modification notice asks the tailer to do.
#[derive(Clone, Copy, PartialEq, Eq, Structural, Debug)]
pub enum ReadPlan {
    /// The notice is redundant (the modification time did not advance):
    /// read nothing.
    Skip,
    /// Read every newly available byte from this offset to the end.
    ReadFrom(u64),
}

/// Model of a tail record: last seen modification time (as an opaque,
/// totally ordered reading), last seen size, and the offset up to which the
/// file's content has been consumed.
#[verifier::ext_equal]
pub ghost struct TailModel {
    pub last_modified: int,
    pub last_size: nat,
    pub last_read_offset: nat,
}

/// Tailing state of one watched file.
pub struct TailState {
    last_modified: i64,
    last_size: u64,
    last_read_offset: u64,
}

impl View for TailState {
    type V = TailModel;

    closed spec fn view(&self) -> TailModel {
        TailModel {
            last_modified: self.last_modified as int,
            last_size: self.last_size as nat,
            last_read_offset: self.last_read_offset as nat,
        }
    }
}

impl TailState {
    /// The record for a file just read in full: its end offset becomes the
    /// initial consumed offset.
    pub fn initial(modified: i64, size: u64, end_offset: u64) -> (r: Self)
        ensures
            r@ == (TailModel {
                last_modified: modified as int,
                last_size: size as nat,
                last_read_offset: end_offset as nat,
            }),
    {
        let r = TailState { last_modified: modified, last_size: size, last_read_offset: end_offset };
        proof {
            assert(r@ =~= (TailModel {
                last_modified: modified as int,
                last_size: size as nat,
                last_read_offset: end_offset as nat,
            }));
        }
        r
    }

    /// The offset up to which the file has been consumed.
    pub fn last_read_offset(&self) -> (r: u64)
        ensures
            r == self@.last_read_offset,
    {
        self.last_read_offset
    }

    /// Decides what one modification notice means. A notice whose
    /// modification time has not advanced past the recorded one is redundant
    /// and changes nothing. Otherwise the time and size are recorded; a
    /// shrunken file counts as truncated and resets the consumed offset to
    /// 0; the plan is to read from the consumed offset on.
    pub fn on_modify_event(&mut self, modified: i64, current_size: u64) -> (plan: ReadPlan)
        ensures
            old(self)@.last_modified >= modified ==> plan == ReadPlan::Skip && final(self)@
                == old(self)@,
            old(self)@.last_modified < modified ==> {
                &&& final(self)@.last_modified == modified as int
                &&& final(self)@.last_size == current_size as nat
                &&& final(self)@.last_read_offset == (if (current_size as nat)
                    < old(self)@.last_size {
                    0int
                } else {
                    old(self)@.last_read_offset as int
                })
                &&& plan == ReadPlan::ReadFrom(
                    if (current_size as nat) < old(self)@.last_size {
                        0u64
                    } else {
                        old(self)@.last_read_offset as u64
                    },
                )
            },
    {
        if self.last_modified >= modified {
            return ReadPlan::Skip;
        }
        self.last_modified = modified;
        if current_size < self.last_size {
            self.last_read_offset = 0;
        }
        self.last_size = current_size;
        ReadPlan::ReadFrom(self.last_read_offset)
    }

    /// Records where a successful read stopped — the end of the last
    /// complete line consumed, not necessarily the end of the file. A failed
    /// read simply never calls this, leaving the offset where it was.
    pub fn record_read_end(&mut self, end_offset: u64)
        ensures
            final(self)@ == (TailModel { last_read_offset: end_offset as nat, ..old(self)@ }),
    {
        self.last_read_offset = end_offset;
        proof {
            assert(self@ =~= (TailModel { last_read_offset: end_offset as nat, ..old(self)@ }));
        }
    }
}

} // verus!
