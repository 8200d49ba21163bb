//! Completion tracking: the aggregator's side of the completion channel.
//!
//! Workers report "one frame done" with no payload. The aggregator counts the
//! reports and releases the assembly step once the count reaches the total.
//! The count never passes the total: a report beyond it changes nothing.

use vstd::prelude::*;

verus! {

/// What the run does next, as decided after looking at the counter.
#[derive(Clone, Copy, Debug, PartialEq, Eq, Structural)]
pub enum Phase {
    /// Frames are still outstanding: wait for the next completion signal.
    Rendering,
    /// Every frame is accounted for: the video may be assembled.
    Assembling,
}

/// The counter after one more signal: one higher, unless it stands at the
/// total already.
pub open spec fn count_after_signal(done: nat, total: nat) -> nat {
    if done < total {
        done + 1
    } else {
        done
    }
}

/// The counter after the signals `signals` have been observed one by one,
/// starting from `done`. The entries name the workers that sent them; the
/// counter does not look at them.
pub open spec fn count_after(done: nat, total: nat, signals: Seq<nat>) -> nat
    decreases signals.len(),
{
    if signals.len() == 0 {
        done
    } else {
        count_after_signal(count_after(done, total, signals.drop_last()), total)
    }
}

/// The phase that belongs to a counter value.
pub open spec fn phase_of(done: nat, total: nat) -> Phase {
    if done >= total {
        Phase::Assembling
    } else {
        Phase::Rendering
    }
}

/// Progress of one render run: how many of `total` frames are done.
pub struct Progress {
    total: usize,
    done: usize,
}

impl Progress {
    /// The number of frames of the run.
    pub closed spec fn total(&self) -> nat {
        self.total as nat
    }

    /// The number of completion signals counted so far.
    pub closed spec fn done(&self) -> nat {
        self.done as nat
    }

    /// The counter never exceeds the total.
    pub open spec fn wf(&self) -> bool {
        self.done() <= self.total()
    }

    /// A fresh counter for a run of `total` frames.
    pub fn new(total: usize) -> (p: Progress)
        ensures
            p.wf(),
            p.total() == total,
            p.done() == 0,
    {
        Progress { total, done: 0 }
    }

    /// The number of frames of the run.
    pub fn frame_count(&self) -> (n: usize)
        ensures
            n == self.total(),
    {
        self.total
    }

    /// The number of completion signals counted so far.
    pub fn completed(&self) -> (n: usize)
        ensures
            n == self.done(),
    {
        self.done
    }

    /// Whether every frame is accounted for.
    pub fn is_complete(&self) -> (b: bool)
        ensures
            b == (self.done() >= self.total()),
            b == (phase_of(self.done(), self.total()) == Phase::Assembling),
    {
        self.done >= self.total
    }

    /// The phase the run is in.
    pub fn phase(&self) -> (ph: Phase)
        ensures
            ph == phase_of(self.done(), self.total()),
    {
        if self.done >= self.total {
            Phase::Assembling
        } else {
            Phase::Rendering
        }
    }

    /// Counts one completion signal and says what the run does next.
    pub fn signal(&mut self) -> (ph: Phase)
        ensures
            old(self).wf() ==> final(self).wf(),
            final(self).total() == old(self).total(),
            final(self).done() == count_after_signal(old(self).done(), old(self).total()),
            ph == phase_of(final(self).done(), final(self).total()),
    {
        if self.done < self.total {
            self.done = self.done + 1;
        }
        self.phase()
    }
}

/// Whatever order the signals arrive in and whoever sent them, the counter
/// started at zero stands at the number of signals, capped at the total.
pub proof fn lemma_count_is_number_of_signals(total: nat, signals: Seq<nat>)
    ensures
        count_after(0, total, signals) == if signals.len() <= total {
            signals.len()
        } else {
            total
        },
    decreases signals.len(),
{
    if signals.len() > 0 {
        lemma_count_is_number_of_signals(total, signals.drop_last());
    }
}

/// After exactly `total` signals the counter equals `total` and the run
/// moves on to assembly; after fewer it does not.
pub proof fn lemma_assembly_after_exactly_total(total: nat, signals: Seq<nat>)
    ensures
        signals.len() == total ==> count_after(0, total, signals) == total,
        signals.len() < total ==> phase_of(count_after(0, total, signals), total)
            == Phase::Rendering,
        signals.len() >= total ==> phase_of(count_after(0, total, signals), total)
            == Phase::Assembling,
{
    lemma_count_is_number_of_signals(total, signals);
}

/// The counter does not depend on the order of the signals: two runs that
/// see equally many end with the same count.
pub proof fn lemma_count_ignores_order(total: nat, a: Seq<nat>, b: Seq<nat>)
    requires
        a.len() == b.len(),
    ensures
        count_after(0, total, a) == count_after(0, total, b),
{
    lemma_count_is_number_of_signals(total, a);
    lemma_count_is_number_of_signals(total, b);
}

} // verus!
