//! In-order replay window for authenticated sequence numbers.
//!
//! The window remembers the next sequence number it expects. A frame with that
//! number is accepted, an older one is dropped as a replay or duplicate, and a
//! newer one is accepted while reporting how many numbers were skipped.

use vstd::prelude::*;

verus! {

#[derive(Debug, Clone)]
pub struct InOrder {
    expected_seq: u64,
}

#[derive(Debug, Clone, Copy, PartialEq, Eq)]
pub enum InOrderDecision {
    Accept,
    DropOldOrDuplicate,
    AcceptWithGap { missed: u64 },
}

impl View for InOrder {
    type V = u64;

    /// The next sequence number the window expects.
    closed spec fn view(&self) -> u64 {
        self.expected_seq
    }
}

/// The decision for `seq` when `expected` is the next expected number.
pub open spec fn spec_decide(expected: u64, seq: u64) -> InOrderDecision {
    if seq == expected {
        InOrderDecision::Accept
    } else if seq < expected {
        InOrderDecision::DropOldOrDuplicate
    } else {
        InOrderDecision::AcceptWithGap { missed: (seq - expected) as u64 }
    }
}

/// The next expected number after `seq` has been marked accepted.
pub open spec fn spec_after_accept(expected: u64, seq: u64) -> u64 {
    if seq >= expected {
        if seq == u64::MAX {
            0
        } else {
            (seq + 1) as u64
        }
    } else {
        expected
    }
}

/// Whether a decision lets the frame through.
pub open spec fn is_accepted(d: InOrderDecision) -> bool {
    d != InOrderDecision::DropOldOrDuplicate
}

impl Default for InOrder {
    fn default() -> (r: Self)
        ensures
            r@ == 0,
    {
        InOrder { expected_seq: 0 }
    }
}

impl InOrder {
    pub fn decide(&self, seq: u64) -> (r: InOrderDecision)
        ensures
            r == spec_decide(self@, seq),
    {
        if seq == self.expected_seq {
            return InOrderDecision::Accept;
        }
        if seq < self.expected_seq {
            InOrderDecision::DropOldOrDuplicate
        } else {
            InOrderDecision::AcceptWithGap { missed: seq - self.expected_seq }
        }
    }

    pub fn mark_accepted(&mut self, seq: u64)
        ensures
            final(self)@ == spec_after_accept(old(self)@, seq),
    {
        if seq >= self.expected_seq {
            self.expected_seq = seq.wrapping_add(1);
        }
    }

    pub fn decide_and_update(&mut self, seq: u64) -> (r: InOrderDecision)
        ensures
            r == spec_decide(old(self)@, seq),
            is_accepted(r) ==> final(self)@ == spec_after_accept(old(self)@, seq),
            !is_accepted(r) ==> final(self)@ == old(self)@,
    {
        let decision = self.decide(seq);
        match decision {
            InOrderDecision::Accept | InOrderDecision::AcceptWithGap { .. } => {
                self.mark_accepted(seq);
            },
            InOrderDecision::DropOldOrDuplicate => {},
        }
        decision
    }

    pub fn expected(&self) -> (r: u64)
        ensures
            r == self@,
    {
        self.expected_seq
    }
}

/// A sequence number, once accepted, is refused if it comes again: the window
/// never lets the same frame through twice. (The one exception is
/// `u64::MAX`, after which the expected number wraps to 0.)
pub proof fn lemma_accepted_seq_not_accepted_again(expected: u64, seq: u64)
    requires
        is_accepted(spec_decide(expected, seq)),
        seq < u64::MAX,
    ensures
        spec_decide(spec_after_accept(expected, seq), seq) == InOrderDecision::DropOldOrDuplicate,
{
}

/// Accepted sequence numbers strictly increase.
pub proof fn lemma_accepted_seqs_increase(expected: u64, first: u64, second: u64)
    requires
        is_accepted(spec_decide(expected, first)),
        first < u64::MAX,
        is_accepted(spec_decide(spec_after_accept(expected, first), second)),
    ensures
        first < second,
{
}

/// The expected number never moves backwards, and never moves on a drop.
pub proof fn lemma_expected_is_monotone(expected: u64, seq: u64)
    requires
        seq < u64::MAX,
    ensures
        expected <= spec_after_accept(expected, seq),
        !is_accepted(spec_decide(expected, seq)) ==> spec_after_accept(expected, seq) == expected,
{
}

/// The gap reported for a frame ahead of the expected one is exactly the
/// number of sequence numbers skipped over.
pub proof fn lemma_gap_counts_skipped(expected: u64, seq: u64)
    requires
        seq > expected,
    ensures
        spec_decide(expected, seq) == (InOrderDecision::AcceptWithGap {
            missed: (seq - expected) as u64,
        }),
        seq < u64::MAX ==> spec_after_accept(expected, seq) == seq + 1,
{
}

/// How a window expecting `expected` classifies `seq`: exactly the
/// expected number is accepted as in order, a smaller one is a replay or
/// duplicate, and a larger one is accepted with a gap of at least one
/// skipped number, the gap being the distance from the expected number.
pub proof fn lemma_decide_classifies(expected: u64, seq: u64)
    ensures
        spec_decide(expected, seq) == InOrderDecision::Accept <==> seq == expected,
        spec_decide(expected, seq) == InOrderDecision::DropOldOrDuplicate <==> seq < expected,
        spec_decide(expected, seq) is AcceptWithGap <==> seq > expected,
        spec_decide(expected, seq) matches InOrderDecision::AcceptWithGap { missed } ==> missed > 0
            && seq == expected + missed,
        is_accepted(spec_decide(expected, seq)) <==> seq >= expected,
{
}

} // verus!
