//! The failure rate over the most recent outcomes of a guarded operation.

use vstd::prelude::*;
use crate::bitset::padded_capacity;
use crate::ringbitset::RingBitSet;
use crate::window::{
    count_true, lemma_count_true_bounded, lemma_replay_keeps_most_recent, most_recent, replay,
    slide,
};

verus! {

/// What is known of the failure rate after an outcome has been recorded.
#[derive(Clone, Copy, Debug, PartialEq, Eq, Structural)]
pub enum FailureReport {
    /// Fewer outcomes have been recorded than the window holds, so no rate
    /// is given.
    NotEnoughData,
    /// `failures` of the last `out_of` outcomes failed: the failure rate is
    /// `failures * 100 / out_of` percent.
    PercentFailed { failures: usize, out_of: usize },
}

impl FailureReport {
    /// Whether this is the report owed for a window of `window_size`
    /// outcomes that holds `outcomes`, failures being `true`: no rate until
    /// the window is full, and from then on the number of failures in it,
    /// out of its size.
    pub open spec fn describes(self, outcomes: Seq<bool>, window_size: nat) -> bool {
        match self {
            FailureReport::NotEnoughData => outcomes.len() < window_size,
            FailureReport::PercentFailed { failures, out_of } => {
                &&& outcomes.len() >= window_size
                &&& failures == count_true(outcomes)
                &&& out_of == window_size
            },
        }
    }

    /// A report of a rate is owed only for a full window of one outcome at
    /// least, and counts no more failures than that window holds: the rate
    /// lies between 0 and 100 percent.
    pub proof fn lemma_rate_in_range(self, outcomes: Seq<bool>, window_size: nat)
        requires
            self.describes(outcomes, window_size),
            window_size >= 1,
            outcomes.len() <= window_size,
        ensures
            self matches FailureReport::PercentFailed { failures, out_of } ==> out_of >= 1
                && failures <= out_of && failures * 100 <= 100 * out_of,
    {
        lemma_count_true_bounded(outcomes);
    }

    /// The report on a window that started empty and has taken each of
    /// `outcomes` in turn withholds the rate while fewer outcomes than the
    /// window size have been recorded, and from then on counts the failures
    /// among the last `window_size` of them.
    pub proof fn lemma_reports_most_recent(self, outcomes: Seq<bool>, window_size: nat)
        requires
            window_size >= 1,
            self.describes(replay(Seq::empty(), outcomes, window_size), window_size),
        ensures
            self == FailureReport::NotEnoughData <==> outcomes.len() < window_size,
            self matches FailureReport::PercentFailed { failures, out_of } ==> out_of
                == window_size && failures == count_true(most_recent(outcomes, window_size)),
    {
        lemma_replay_keeps_most_recent(outcomes, window_size);
    }
}

/// Records the outcomes of an operation one at a time and reports the share
/// of failures among the most recent ones.
///
/// Seen through its view it is the sequence of the outcomes in the window,
/// from the oldest to the newest, a failure being `true`.
pub struct CircuitBreakerMetrics {
    bitset: RingBitSet,
}

impl View for CircuitBreakerMetrics {
    type V = Seq<bool>;

    closed spec fn view(&self) -> Seq<bool> {
        self.bitset@
    }
}

impl CircuitBreakerMetrics {
    /// The number of outcomes that the rate is taken over.
    pub closed spec fn window_size(&self) -> nat {
        self.bitset.capacity()
    }

    /// The window of outcomes is well formed.
    pub closed spec fn wf(&self) -> bool {
        self.bitset.wf()
    }

    /// The window size is at least 1, and the window never holds more
    /// outcomes than its size.
    pub proof fn lemma_within_window(&self)
        requires
            self.wf(),
        ensures
            self.window_size() >= 1,
            self@.len() <= self.window_size(),
    {
        self.bitset.lemma_within_capacity();
    }

    /// Starts with no outcome recorded, for a rate over the last
    /// `request_buffer_size` outcomes.
    pub fn new(request_buffer_size: usize) -> (metrics: CircuitBreakerMetrics)
        requires
            request_buffer_size >= 1,
            padded_capacity(request_buffer_size as nat) <= usize::MAX,
        ensures
            metrics.wf(),
            metrics@ == Seq::<bool>::empty(),
            metrics.window_size() == request_buffer_size,
    {
        CircuitBreakerMetrics { bitset: RingBitSet::new(request_buffer_size) }
    }

    /// Records a success and reports on the window that results.
    pub fn on_success(&mut self) -> (report: FailureReport)
        requires
            old(self).wf(),
        ensures
            final(self).wf(),
            final(self).window_size() == old(self).window_size(),
            final(self)@ == slide(old(self)@, false, old(self).window_size()),
            report.describes(final(self)@, final(self).window_size()),
    {
        let failures = self.bitset.set_next_bit(false);
        self.failure_report(failures)
    }

    /// Records a failure and reports on the window that results.
    pub fn on_failure(&mut self) -> (report: FailureReport)
        requires
            old(self).wf(),
        ensures
            final(self).wf(),
            final(self).window_size() == old(self).window_size(),
            final(self)@ == slide(old(self)@, true, old(self).window_size()),
            report.describes(final(self)@, final(self).window_size()),
    {
        let failures = self.bitset.set_next_bit(true);
        self.failure_report(failures)
    }

    /// The report owed for the window as it stands, `failures` being the
    /// number of failures in it.
    fn failure_report(&self, failures: usize) -> (report: FailureReport)
        requires
            self.wf(),
            failures == count_true(self@),
        ensures
            report.describes(self@, self.window_size()),
    {
        proof {
            self.bitset.lemma_within_capacity();
        }
        if self.bitset.length() < self.bitset.capacity_in_bits() {
            FailureReport::NotEnoughData
        } else {
            FailureReport::PercentFailed { failures, out_of: self.bitset.capacity_in_bits() }
        }
    }
}

} // verus!
