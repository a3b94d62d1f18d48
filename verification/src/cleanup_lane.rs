//! The prestarted priority-cleanup lane. Producers publish a request by
//! advancing one sequence word; the worker runs the cleanup once for the
//! newest sequence it sees, so any number of requests made while it runs are
//! coalesced into one more run. Closing shares the word with the sequence, so
//! no request can be accepted behind a closed lane, and identities never wrap
//! or repeat.

use vstd::prelude::*;

verus! {

/// The bit of the request word that marks the lane closed.
pub const LANE_CLOSED: u64 = 0x8000_0000_0000_0000u64;

/// The bits of the request word that hold the newest request's sequence.
pub const LANE_SEQUENCE: u64 = 0x7fff_ffff_ffff_ffffu64;

/// The sequence part of a request word.
pub open spec fn word_sequence(word: u64) -> u64 {
    word & LANE_SEQUENCE
}

/// Whether a request word marks the lane closed.
pub open spec fn word_closed(word: u64) -> bool {
    word & LANE_CLOSED != 0
}

proof fn lemma_open_word(word: u64)
    requires
        word < LANE_CLOSED,
    ensures
        word_sequence(word) == word,
        !word_closed(word),
        word < LANE_SEQUENCE ==> word_sequence((word + 1) as u64) == word + 1 && !word_closed(
            (word + 1) as u64,
        ),
{
    assert(word & 0x7fff_ffff_ffff_ffffu64 == word) by (bit_vector)
        requires
            word < 0x8000_0000_0000_0000u64,
    ;
    assert(word & 0x8000_0000_0000_0000u64 == 0) by (bit_vector)
        requires
            word < 0x8000_0000_0000_0000u64,
    ;
    if word < LANE_SEQUENCE {
        let next = (word + 1) as u64;
        assert(next & 0x7fff_ffff_ffff_ffffu64 == next && next & 0x8000_0000_0000_0000u64 == 0)
            by (bit_vector)
            requires
                next < 0x8000_0000_0000_0000u64,
        ;
    }
}

proof fn lemma_close_word(word: u64)
    ensures
        word_closed(word | LANE_CLOSED),
        word_sequence(word | LANE_CLOSED) == word_sequence(word),
        word_closed(word) ==> word | LANE_CLOSED == word,
{
    assert((word | 0x8000_0000_0000_0000u64) & 0x8000_0000_0000_0000u64 != 0) by (bit_vector);
    assert((word | 0x8000_0000_0000_0000u64) & 0x7fff_ffff_ffff_ffffu64 == word
        & 0x7fff_ffff_ffff_ffffu64) by (bit_vector);
    assert(word & 0x8000_0000_0000_0000u64 != 0 ==> (word | 0x8000_0000_0000_0000u64) == word)
        by (bit_vector);
}

/// What the worker does at one turn of its loop.
#[derive(Debug, Clone, Copy, PartialEq, Eq, Structural)]
pub enum LaneStep {
    /// Run the cleanup for this sequence.
    Run(u64),
    /// The lane is closed and nothing is pending: exit.
    Exit,
    /// Nothing is pending: wait for a wake-up.
    Park,
}

/// The shared state of the cleanup lane.
#[derive(Debug)]
pub struct PriorityCleanup {
    requests: u64,
    completed: u64,
    active: bool,
    failed: bool,
    exited: bool,
}

impl PriorityCleanup {
    /// The sequence of the newest accepted request.
    pub closed spec fn spec_requested(&self) -> u64 {
        word_sequence(self.requests)
    }

    /// Whether the lane was closed.
    pub closed spec fn spec_closed(&self) -> bool {
        word_closed(self.requests)
    }

    /// The sequence whose cleanup last completed.
    pub closed spec fn spec_completed(&self) -> u64 {
        self.completed
    }

    /// Whether a cleanup run failed; the worker then stops for good.
    pub closed spec fn spec_failed(&self) -> bool {
        self.failed
    }

    /// Whether a cleanup run is in progress.
    pub closed spec fn spec_active(&self) -> bool {
        self.active
    }

    /// Whether the worker left its loop after the lane closed.
    pub closed spec fn spec_exited(&self) -> bool {
        self.exited
    }

    /// The worker never completes more than was requested.
    pub closed spec fn wf(&self) -> bool {
        self.completed <= word_sequence(self.requests)
    }

    /// An open lane with nothing requested.
    pub fn new() -> (r: Self)
        ensures
            r.wf(),
            r.spec_requested() == 0,
            r.spec_completed() == 0,
            !r.spec_closed(),
            !r.spec_failed(),
            !r.spec_active(),
            !r.spec_exited(),
    {
        proof {
            lemma_open_word(0);
        }
        PriorityCleanup { requests: 0, completed: 0, active: false, failed: false, exited: false }
    }

    /// Publishes a cleanup request and returns its sequence. Refused once the
    /// lane is closed, after a failed run, or when the sequences are used up.
    pub fn request(&mut self) -> (r: Option<u64>)
        requires
            old(self).wf(),
        ensures
            final(self).wf(),
            r is Some <==> request_admissible(*old(self)),
            r matches Some(s) ==> s == old(self).spec_requested() + 1 && final(self).spec_requested()
                == s,
            r is None ==> final(self).spec_requested() == old(self).spec_requested(),
            final(self).spec_closed() == old(self).spec_closed(),
            final(self).spec_completed() == old(self).spec_completed(),
            final(self).spec_failed() == old(self).spec_failed(),
            final(self).spec_active() == old(self).spec_active(),
            final(self).spec_exited() == old(self).spec_exited(),
    {
        let value = self.requests;
        if value & LANE_CLOSED != 0 || value == LANE_SEQUENCE || self.failed {
            proof {
                if value & LANE_CLOSED == 0 {
                    assert(value & 0x8000_0000_0000_0000u64 == 0 ==> value < 0x8000_0000_0000_0000u64)
                        by (bit_vector);
                    lemma_open_word(value);
                }
            }
            return None;
        }
        proof {
            assert(value & 0x8000_0000_0000_0000u64 == 0 ==> value < 0x8000_0000_0000_0000u64)
                by (bit_vector);
            lemma_open_word(value);
        }
        self.requests = value + 1;
        Some(value + 1)
    }

    /// Closes the lane for good; the worker exits once nothing is pending.
    pub fn close(&mut self)
        requires
            old(self).wf(),
        ensures
            final(self).wf(),
            final(self).spec_closed(),
            final(self).spec_requested() == old(self).spec_requested(),
            final(self).spec_completed() == old(self).spec_completed(),
            final(self).spec_failed() == old(self).spec_failed(),
            final(self).spec_active() == old(self).spec_active(),
            final(self).spec_exited() == old(self).spec_exited(),
    {
        proof {
            lemma_close_word(self.requests);
        }
        self.requests = self.requests | LANE_CLOSED;
    }

    /// Whether the lane was closed.
    pub fn is_closed(&self) -> (r: bool)
        ensures
            r == self.spec_closed(),
    {
        self.requests & LANE_CLOSED != 0
    }

    /// Whether the lane accepts requests, given whether its worker thread is
    /// confirmed running.
    pub fn is_ready(&self, thread_running: bool) -> (r: bool)
        ensures
            r == (!self.spec_closed() && self.spec_requested() != LANE_SEQUENCE && !self.spec_failed()
                && thread_running),
    {
        !self.is_closed() && self.requests & LANE_SEQUENCE != LANE_SEQUENCE && !self.failed
            && thread_running
    }

    /// Whether every accepted request has been cleaned up and nothing runs.
    pub fn work_complete(&self) -> (r: bool)
        ensures
            r == (!self.spec_failed() && !self.spec_active() && self.spec_requested()
                == self.spec_completed()),
    {
        !self.failed && !self.active && self.requests & LANE_SEQUENCE == self.completed
    }

    /// Ready and with nothing left to do.
    pub fn is_idle(&self, thread_running: bool) -> (r: bool)
        ensures
            r == (!self.spec_closed() && self.spec_requested() != LANE_SEQUENCE && !self.spec_failed()
                && thread_running && !self.spec_active() && self.spec_requested()
                == self.spec_completed()),
    {
        self.is_ready(thread_running) && self.work_complete()
    }

    /// Closed, with every request cleaned up and the worker gone, given
    /// whether the worker thread's exit is confirmed.
    pub fn is_quiescent(&self, thread_exited: bool) -> (r: bool)
        ensures
            r == (self.spec_closed() && !self.spec_failed() && !self.spec_active()
                && self.spec_requested() == self.spec_completed() && self.spec_exited()
                && thread_exited),
    {
        self.is_closed() && self.work_complete() && self.exited && thread_exited
    }

    /// The worker's next step: run for the newest request when it is newer
    /// than the last completed one, exit when the lane is closed and nothing
    /// is pending, and wait otherwise.
    pub fn worker_step(&self) -> (r: LaneStep)
        ensures
            self.spec_requested() != self.spec_completed() ==> r == LaneStep::Run(
                self.spec_requested(),
            ),
            self.spec_requested() == self.spec_completed() ==> r == (if self.spec_closed() {
                LaneStep::Exit
            } else {
                LaneStep::Park
            }),
    {
        let sequence = self.requests & LANE_SEQUENCE;
        if sequence != self.completed {
            LaneStep::Run(sequence)
        } else if self.requests & LANE_CLOSED != 0 {
            LaneStep::Exit
        } else {
            LaneStep::Park
        }
    }

    /// Marks the start of a cleanup run.
    pub fn begin_run(&mut self)
        ensures
            final(self).spec_active(),
            final(self).spec_requested() == old(self).spec_requested(),
            final(self).spec_closed() == old(self).spec_closed(),
            final(self).spec_completed() == old(self).spec_completed(),
            final(self).spec_failed() == old(self).spec_failed(),
            final(self).spec_exited() == old(self).spec_exited(),
            old(self).wf() ==> final(self).wf(),
    {
        self.active = true;
    }

    /// Records the end of the run for `sequence`: a success completes it, a
    /// failure marks the lane failed (the run stays active and is never
    /// retried).
    pub fn finish_run(&mut self, sequence: u64, successful: bool)
        requires
            old(self).wf(),
            sequence <= old(self).spec_requested(),
        ensures
            final(self).wf(),
            successful ==> final(self).spec_completed() == sequence && !final(self).spec_active()
                && final(self).spec_failed() == old(self).spec_failed(),
            !successful ==> final(self).spec_failed() && final(self).spec_completed() == old(
                self,
            ).spec_completed() && final(self).spec_active() == old(self).spec_active(),
            final(self).spec_requested() == old(self).spec_requested(),
            final(self).spec_closed() == old(self).spec_closed(),
            final(self).spec_exited() == old(self).spec_exited(),
    {
        if successful {
            self.completed = sequence;
            self.active = false;
        } else {
            self.failed = true;
        }
    }

    /// Records that the worker left its loop.
    pub fn mark_exited(&mut self)
        ensures
            final(self).spec_exited(),
            final(self).spec_requested() == old(self).spec_requested(),
            final(self).spec_closed() == old(self).spec_closed(),
            final(self).spec_completed() == old(self).spec_completed(),
            final(self).spec_failed() == old(self).spec_failed(),
            final(self).spec_active() == old(self).spec_active(),
            old(self).wf() ==> final(self).wf(),
    {
        self.exited = true;
    }
}

/// Whether the lane accepts another request.
pub open spec fn request_admissible(lane: PriorityCleanup) -> bool {
    !lane.spec_closed() && !lane.spec_failed() && lane.spec_requested() < LANE_SEQUENCE
}

/// A closed or failed lane accepts no request, so nothing is published behind
/// a close and a failed cleanup is never replayed.
pub proof fn lemma_closed_or_failed_lane_refuses(lane: PriorityCleanup)
    requires
        lane.spec_closed() || lane.spec_failed(),
    ensures
        !request_admissible(lane),
{
}

} // verus!
