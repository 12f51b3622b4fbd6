//! Delivering a whole buffer through writes that may come up short.
//!
//! The driver writes `contents[from..]` and reports how many bytes were taken;
//! the progress kept here says where the next write starts, when the buffer is
//! through, and when two writes in a row have delivered nothing.

use vstd::prelude::*;

verus! {

/// How far a buffer has been delivered.
#[derive(Clone, Copy, Debug, PartialEq, Eq, Structural)]
pub struct WriteAll {
    /// The number of bytes delivered so far, a prefix of the buffer.
    pub written: usize,
    /// Whether the last write delivered nothing.
    pub had_zero: bool,
}

/// What the driver does next.
#[derive(Clone, Copy, Debug, PartialEq, Eq, Structural)]
pub enum WriteStep {
    /// Write the buffer from this offset on.
    Continue { from: usize },
    /// Every byte has been delivered.
    Complete,
    /// Two writes in a row delivered nothing: give up.
    Stalled,
}

impl WriteAll {
    /// The progress fits a buffer of `len` bytes.
    pub open spec fn wf(self, len: nat) -> bool {
        self.written <= len
    }

    /// The step that is due when nothing is in flight: another write unless the
    /// buffer is through.
    pub open spec fn spec_pending(self, len: nat) -> WriteStep {
        if self.written == len {
            WriteStep::Complete
        } else {
            WriteStep::Continue { from: self.written }
        }
    }

    /// The progress and the step after a write that delivered `amount` bytes.
    ///
    /// A write that delivered something moves the offset and clears the mark; a
    /// first empty write sets the mark and is tried again from the same offset;
    /// a second one in a row stalls.
    pub open spec fn spec_record(self, len: nat, amount: nat) -> (WriteAll, WriteStep) {
        if amount > 0 {
            let moved = WriteAll { written: (self.written + amount) as usize, had_zero: false };
            (moved, moved.spec_pending(len))
        } else if !self.had_zero {
            (
                WriteAll { written: self.written, had_zero: true },
                WriteStep::Continue { from: self.written },
            )
        } else {
            (self, WriteStep::Stalled)
        }
    }

    /// The part of `contents` that has been delivered.
    pub open spec fn delivered(self, contents: Seq<u8>) -> Seq<u8>
        recommends
            self.wf(contents.len()),
    {
        contents.subrange(0, self.written as int)
    }

    /// Nothing delivered yet.
    pub fn new() -> (fresh: WriteAll)
        ensures
            fresh == (WriteAll { written: 0, had_zero: false }),
    {
        WriteAll { written: 0, had_zero: false }
    }

    /// The step that is due when nothing is in flight.
    pub fn pending(&self, len: usize) -> (step: WriteStep)
        ensures
            step == self.spec_pending(len as nat),
    {
        if self.written == len {
            WriteStep::Complete
        } else {
            WriteStep::Continue { from: self.written }
        }
    }

    /// Takes note of a write that delivered `amount` bytes of a buffer of `len`
    /// bytes, and says what comes next.
    pub fn record(&mut self, len: usize, amount: usize) -> (step: WriteStep)
        requires
            old(self).written < len,
            amount <= len - old(self).written,
        ensures
            (*final(self), step) == old(self).spec_record(len as nat, amount as nat),
            final(self).wf(len as nat),
    {
        if amount > 0 {
            self.written = self.written + amount;
            self.had_zero = false;
            self.pending(len)
        } else if !self.had_zero {
            self.had_zero = true;
            WriteStep::Continue { from: self.written }
        } else {
            WriteStep::Stalled
        }
    }
}

/// The amounts of a script of writes can all be reported, one after another,
/// starting from `start`: none exceeds what was offered to it, and none comes
/// after the buffer is through or the delivery has stalled.
pub open spec fn script_fits(len: nat, start: WriteAll, amounts: Seq<nat>) -> bool
    decreases amounts.len(),
{
    if amounts.len() == 0 {
        true
    } else {
        &&& start.written < len
        &&& amounts[0] <= len - start.written
        &&& {
            let (after, step) = start.spec_record(len, amounts[0]);
            if amounts.len() == 1 {
                true
            } else {
                step is Continue && script_fits(len, after, amounts.drop_first())
            }
        }
    }
}

/// The progress and the step after a whole script of writes; before any write
/// the step is the pending one.
pub open spec fn replay(len: nat, start: WriteAll, amounts: Seq<nat>) -> (WriteAll, WriteStep)
    decreases amounts.len(),
{
    if amounts.len() == 0 {
        (start, start.spec_pending(len))
    } else {
        let (after, step) = start.spec_record(len, amounts[0]);
        if amounts.len() == 1 {
            (after, step)
        } else {
            replay(len, after, amounts.drop_first())
        }
    }
}

/// The bytes that the writes of a script have put out, in the order in which
/// they were written: each write takes its amount from the offset it was given.
pub open spec fn output(contents: Seq<u8>, start: WriteAll, amounts: Seq<nat>) -> Seq<u8>
    decreases amounts.len(),
{
    if amounts.len() == 0 {
        Seq::<u8>::empty()
    } else {
        let from = start.written as int;
        let chunk = contents.subrange(from, from + amounts[0]);
        let (after, _) = start.spec_record(contents.len(), amounts[0]);
        chunk + output(contents, after, amounts.drop_first())
    }
}

/// Whatever the writes deliver, short or empty, what has been put out after a
/// script is exactly the stretch of the buffer between the offset at the start
/// and the offset reached: nothing twice, nothing left out. When the step after
/// the script is `Complete`, that stretch ends with the buffer.
pub proof fn lemma_output_is_contiguous(contents: Seq<u8>, start: WriteAll, amounts: Seq<nat>)
    requires
        contents.len() <= usize::MAX,
        start.wf(contents.len()),
        script_fits(contents.len(), start, amounts),
    ensures
        replay(contents.len(), start, amounts).0.wf(contents.len()),
        start.written <= replay(contents.len(), start, amounts).0.written,
        output(contents, start, amounts) == contents.subrange(
            start.written as int,
            replay(contents.len(), start, amounts).0.written as int,
        ),
        replay(contents.len(), start, amounts).1 is Complete ==> start.delivered(contents)
            + output(contents, start, amounts) == contents,
    decreases amounts.len(),
{
    let len = contents.len();
    if amounts.len() == 0 {
        assert(output(contents, start, amounts) =~= contents.subrange(
            start.written as int,
            start.written as int,
        ));
        if start.spec_pending(len) is Complete {
            assert(start.delivered(contents) + output(contents, start, amounts) =~= contents);
        }
    } else {
        let (after, step) = start.spec_record(len, amounts[0]);
        let rest = amounts.drop_first();
        if amounts.len() == 1 {
            assert(rest.len() == 0);
            assert(output(contents, after, rest) =~= Seq::<u8>::empty());
        } else {
            lemma_output_is_contiguous(contents, after, rest);
        }
        let end = replay(len, start, amounts).0;
        assert(output(contents, start, amounts) =~= contents.subrange(
            start.written as int,
            end.written as int,
        ));
        if replay(len, start, amounts).1 is Complete {
            assert(end.written == len);
            assert(start.delivered(contents) + output(contents, start, amounts) =~= contents);
        }
    }
}

/// A short write followed by a write of the rest completes the delivery, and
/// the two together put out the buffer exactly once.
pub proof fn lemma_short_write_then_rest(contents: Seq<u8>, first: nat)
    requires
        contents.len() <= usize::MAX,
        0 < first < contents.len(),
    ensures
        ({
            let fresh = WriteAll { written: 0, had_zero: false };
            let script = seq![first, (contents.len() - first) as nat];
            &&& replay(contents.len(), fresh, script).1 is Complete
            &&& output(contents, fresh, script) == contents
        }),
{
    let fresh = WriteAll { written: 0, had_zero: false };
    let script = seq![first, (contents.len() - first) as nat];
    let tail = script.drop_first();
    assert(tail =~= seq![(contents.len() - first) as nat]);
    let (after, step) = fresh.spec_record(contents.len(), first);
    assert(script_fits(contents.len(), after, tail));
    assert(script_fits(contents.len(), fresh, script));
    assert(replay(contents.len(), after, tail).1 is Complete);
    lemma_output_is_contiguous(contents, fresh, script);
    assert(fresh.delivered(contents) =~= Seq::<u8>::empty());
    assert(fresh.delivered(contents) + output(contents, fresh, script) =~= output(
        contents,
        fresh,
        script,
    ));
}

/// Two empty writes in a row stall the delivery, wherever it stands; one empty
/// write alone is tried again from the same offset.
pub proof fn lemma_two_empty_writes_stall(len: nat, start: WriteAll)
    requires
        start.written < len,
    ensures
        start.had_zero ==> start.spec_record(len, 0).1 is Stalled,
        !start.had_zero ==> start.spec_record(len, 0).1 == (WriteStep::Continue {
            from: start.written,
        }),
        start.spec_record(len, 0).0.spec_record(len, 0).1 is Stalled || start.had_zero,
        replay(len, WriteAll { written: start.written, had_zero: false }, seq![0nat, 0nat]).1
            is Stalled,
{
    let clear = WriteAll { written: start.written, had_zero: false };
    let script = seq![0nat, 0nat];
    let tail = script.drop_first();
    assert(tail =~= seq![0nat]);
    let marked = clear.spec_record(len, 0).0;
    assert(replay(len, marked, tail) == marked.spec_record(len, 0));
    assert(replay(len, clear, script) == replay(len, marked, tail));
}

} // verus!
