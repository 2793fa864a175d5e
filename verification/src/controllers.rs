//! Controllers that act after a stretch of musical time.
use crate::time::{group_time_facts, MusicalTime};
use crate::uid::Uid;
use vstd::prelude::*;

verus! {

broadcast use group_time_facts;

/// [Timer] runs for a specified amount of time, then indicates that it's done.
/// The first time slice it sees while performing marks its start.
#[derive(Debug)]
pub struct Timer {
    uid: Uid,
    duration: MusicalTime,
    is_performing: bool,
    is_finished: bool,
    end_time: Option<MusicalTime>,
}

/// The timer's state after it sees the time slice `start..end`: whether it
/// is finished, and when it ends, if it has started.
pub open spec fn timer_step(
    performing: bool,
    duration: nat,
    finished: bool,
    end_time: Option<nat>,
    start: nat,
    end: nat,
) -> (bool, Option<nat>) {
    if !performing {
        (finished, end_time)
    } else if duration == 0 {
        (true, end_time)
    } else {
        match end_time {
            Some(e) => (finished || (start <= e && e < end), end_time),
            None => (finished, Some(start + duration)),
        }
    }
}

/// A timer that has finished stays finished, whatever slice comes next.
pub proof fn lemma_timer_stays_finished(
    performing: bool,
    duration: nat,
    end_time: Option<nat>,
    start: nat,
    end: nat,
)
    ensures
        timer_step(performing, duration, true, end_time, start, end).0,
{
}

/// A started timer of nonzero length finishes in the slice that holds its
/// end, and keeps its end time.
pub proof fn lemma_timer_finishes_at_end(duration: nat, finished: bool, e: nat, start: nat, end: nat)
    requires
        duration != 0,
        start <= e < end,
    ensures
        timer_step(true, duration, finished, Some(e), start, end) == (true, Some(e)),
{
}

impl Timer {
    /// How long the timer runs.
    pub closed spec fn spec_duration(&self) -> MusicalTime {
        self.duration
    }

    /// Whether a performance is under way.
    pub closed spec fn performing(&self) -> bool {
        self.is_performing
    }

    /// Whether the timer has run out.
    pub closed spec fn finished(&self) -> bool {
        self.is_finished
    }

    /// When the timer runs out, in units, once it has started.
    pub closed spec fn end_units(&self) -> Option<nat> {
        match self.end_time {
            Some(t) => Some(t@),
            None => None,
        }
    }

    /// Whether starting the timer in the slice beginning at `start` keeps
    /// its end time within range.
    pub open spec fn can_start_at(&self, start: nat) -> bool {
        self.performing() && self.spec_duration()@ != 0 && self.end_units() is None
            ==> start + self.spec_duration()@ <= usize::MAX
    }

    /// Makes a stopped, unstarted timer of the given duration.
    pub fn new_with(duration: MusicalTime) -> (r: Self)
        ensures
            r.spec_duration() == duration,
            !r.performing(),
            !r.finished(),
            r.end_units() is None,
    {
        Timer { uid: Uid(0), duration, is_performing: false, is_finished: false, end_time: None }
    }

    /// How long the timer runs.
    pub fn duration(&self) -> (r: MusicalTime)
        ensures
            r == self.spec_duration(),
    {
        self.duration
    }

    /// Sets how long the timer runs.
    pub fn set_duration(&mut self, duration: MusicalTime)
        ensures
            final(self).spec_duration() == duration,
            final(self).performing() == old(self).performing(),
            final(self).finished() == old(self).finished(),
            final(self).end_units() == old(self).end_units(),
    {
        self.duration = duration;
    }

    /// Tells the timer about the next time slice. While performing, a timer
    /// of zero length finishes at once; otherwise the first slice starts it,
    /// and it finishes in the slice that holds its end.
    pub fn update_time(&mut self, range: &core::ops::Range<MusicalTime>)
        requires
            old(self).can_start_at(range.start@),
        ensures
            (final(self).finished(), final(self).end_units()) == timer_step(
                old(self).performing(),
                old(self).spec_duration()@,
                old(self).finished(),
                old(self).end_units(),
                range.start@,
                range.end@,
            ),
            final(self).performing() == old(self).performing(),
            final(self).spec_duration() == old(self).spec_duration(),
    {
        if self.is_performing {
            if self.duration == MusicalTime::start() {
                self.is_finished = true;
            } else {
                match self.end_time {
                    Some(end_time) => {
                        if !end_time.is_before(&range.start) && end_time.is_before(&range.end) {
                            self.is_finished = true;
                        }
                    },
                    None => {
                        self.end_time = Some(range.start + self.duration);
                    },
                }
            }
        }
    }

    /// Whether the timer has run out.
    pub fn is_finished(&self) -> (r: bool)
        ensures
            r == self.finished(),
    {
        self.is_finished
    }

    /// Starts performing.
    pub fn play(&mut self)
        ensures
            final(self).performing(),
            final(self).finished() == old(self).finished(),
            final(self).end_units() == old(self).end_units(),
            final(self).spec_duration() == old(self).spec_duration(),
    {
        self.is_performing = true;
    }

    /// Stops performing.
    pub fn stop(&mut self)
        ensures
            !final(self).performing(),
            final(self).finished() == old(self).finished(),
            final(self).end_units() == old(self).end_units(),
            final(self).spec_duration() == old(self).spec_duration(),
    {
        self.is_performing = false;
    }

    /// Whether a performance is under way.
    pub fn is_performing(&self) -> (r: bool)
        ensures
            r == self.performing(),
    {
        self.is_performing
    }
}

/// [Trigger] issues a control signal once its timer has run out. The control
/// value is held as the bit pattern of a 64-bit float.
#[derive(Debug)]
pub struct Trigger {
    uid: Uid,
    timer: Timer,
    value: u64,
    has_triggered: bool,
    is_performing: bool,
}

impl Trigger {
    /// The trigger's timer.
    pub closed spec fn spec_timer(&self) -> Timer {
        self.timer
    }

    /// The bits of the control value the trigger sends.
    pub closed spec fn spec_value(&self) -> u64 {
        self.value
    }

    /// Whether the trigger has sent its value since the last skip to start.
    pub closed spec fn triggered(&self) -> bool {
        self.has_triggered
    }

    /// Whether a performance is under way.
    pub closed spec fn performing(&self) -> bool {
        self.is_performing
    }

    /// Makes a stopped trigger with the given timer and control value bits.
    pub fn new_with(timer: Timer, value: u64) -> (r: Self)
        ensures
            r.spec_timer() == timer,
            r.spec_value() == value,
            !r.triggered(),
            !r.performing(),
    {
        Trigger { uid: Uid(0), timer, value, has_triggered: false, is_performing: false }
    }

    /// The bits of the control value the trigger sends.
    pub fn value(&self) -> (r: u64)
        ensures
            r == self.spec_value(),
    {
        self.value
    }

    /// Sets the bits of the control value the trigger sends.
    pub fn set_value(&mut self, value: u64)
        ensures
            final(self).spec_value() == value,
            final(self).spec_timer() == old(self).spec_timer(),
            final(self).triggered() == old(self).triggered(),
            final(self).performing() == old(self).performing(),
    {
        self.value = value;
    }

    /// Tells the timer about the next time slice.
    pub fn update_time(&mut self, range: &core::ops::Range<MusicalTime>)
        requires
            old(self).spec_timer().can_start_at(range.start@),
        ensures
            (final(self).spec_timer().finished(), final(self).spec_timer().end_units()) == timer_step(
                old(self).spec_timer().performing(),
                old(self).spec_timer().spec_duration()@,
                old(self).spec_timer().finished(),
                old(self).spec_timer().end_units(),
                range.start@,
                range.end@,
            ),
            final(self).spec_timer().performing() == old(self).spec_timer().performing(),
            final(self).spec_timer().spec_duration() == old(self).spec_timer().spec_duration(),
            final(self).spec_value() == old(self).spec_value(),
            final(self).triggered() == old(self).triggered(),
            final(self).performing() == old(self).performing(),
    {
        self.timer.update_time(range)
    }

    /// Sends the control value once: the first time it is asked while
    /// performing after the timer ran out.
    pub fn work(&mut self) -> (r: Option<u64>)
        ensures
            old(self).spec_timer().finished() && old(self).performing() && !old(self).triggered() ==> {
                &&& r == Some(old(self).spec_value())
                &&& final(self).triggered()
            },
            !(old(self).spec_timer().finished() && old(self).performing() && !old(self).triggered()) ==> {
                &&& r is None
                &&& final(self).triggered() == old(self).triggered()
            },
            final(self).spec_timer() == old(self).spec_timer(),
            final(self).spec_value() == old(self).spec_value(),
            final(self).performing() == old(self).performing(),
    {
        if self.timer.is_finished() && self.is_performing && !self.has_triggered {
            self.has_triggered = true;
            Some(self.value)
        } else {
            None
        }
    }

    /// Whether the timer has run out.
    pub fn is_finished(&self) -> (r: bool)
        ensures
            r == self.spec_timer().finished(),
    {
        self.timer.is_finished()
    }

    /// Starts performing, and the timer with it.
    pub fn play(&mut self)
        ensures
            final(self).performing(),
            final(self).spec_timer().performing(),
            final(self).spec_timer().finished() == old(self).spec_timer().finished(),
            final(self).spec_timer().end_units() == old(self).spec_timer().end_units(),
            final(self).spec_timer().spec_duration() == old(self).spec_timer().spec_duration(),
            final(self).spec_value() == old(self).spec_value(),
            final(self).triggered() == old(self).triggered(),
    {
        self.is_performing = true;
        self.timer.play();
    }

    /// Stops performing, and the timer with it.
    pub fn stop(&mut self)
        ensures
            !final(self).performing(),
            !final(self).spec_timer().performing(),
            final(self).spec_timer().finished() == old(self).spec_timer().finished(),
            final(self).spec_timer().end_units() == old(self).spec_timer().end_units(),
            final(self).spec_timer().spec_duration() == old(self).spec_timer().spec_duration(),
            final(self).spec_value() == old(self).spec_value(),
            final(self).triggered() == old(self).triggered(),
    {
        self.is_performing = false;
        self.timer.stop();
    }

    /// Makes the trigger ready to send its value again.
    pub fn skip_to_start(&mut self)
        ensures
            !final(self).triggered(),
            final(self).spec_timer() == old(self).spec_timer(),
            final(self).spec_value() == old(self).spec_value(),
            final(self).performing() == old(self).performing(),
    {
        self.has_triggered = false;
    }

    /// Whether a performance is under way.
    pub fn is_performing(&self) -> (r: bool)
        ensures
            r == self.performing(),
    {
        self.is_performing
    }
}

} // verus!
