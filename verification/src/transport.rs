//! The global clock.
use crate::time::{group_time_facts, MusicalTime, SampleRate, TimeSignature};
use crate::uid::Uid;
use vstd::prelude::*;

verus! {

broadcast use group_time_facts;

/// The bits of 128.0 as a 64-bit float: the default tempo in beats per minute.
pub const DEFAULT_TEMPO_BITS: u64 = 0x4060_0000_0000_0000;

/// Parts of [Transport] that are not kept with a project.
#[derive(Debug)]
pub struct TransportEphemerals {
    /// The global time pointer within the song.
    current_time: MusicalTime,
    /// The number of frames that have gone by.
    current_frame: usize,
    /// Frames per second.
    sample_rate: SampleRate,
    /// Whether a performance is under way.
    is_performing: bool,
}

/// [Transport] is the global clock. It keeps track of the current position in
/// the song, and how time should advance. Its tempo is held as the bit
/// pattern of a 64-bit float (beats per minute).
#[derive(Debug)]
pub struct Transport {
    uid: Uid,
    time_signature: TimeSignature,
    tempo: u64,
    e: TransportEphemerals,
}

impl Transport {
    /// The current position in the song.
    pub closed spec fn now(&self) -> MusicalTime {
        self.e.current_time
    }

    /// The number of frames that have gone by.
    pub closed spec fn frame(&self) -> nat {
        self.e.current_frame as nat
    }

    /// Whether a performance is under way.
    pub closed spec fn performing(&self) -> bool {
        self.e.is_performing
    }

    /// The bits of the tempo.
    pub closed spec fn tempo_bits(&self) -> u64 {
        self.tempo
    }

    /// Frames per second.
    pub closed spec fn spec_sample_rate(&self) -> SampleRate {
        self.e.sample_rate
    }

    /// The time signature.
    pub closed spec fn spec_time_signature(&self) -> TimeSignature {
        self.time_signature
    }

    /// The bits of the current tempo.
    pub fn tempo(&self) -> (r: u64)
        ensures
            r == self.tempo_bits(),
    {
        self.tempo
    }

    /// Sets the bits of a new tempo.
    pub fn set_tempo(&mut self, tempo: u64)
        ensures
            final(self).tempo_bits() == tempo,
            final(self).now() == old(self).now(),
            final(self).frame() == old(self).frame(),
            final(self).performing() == old(self).performing(),
            final(self).spec_sample_rate() == old(self).spec_sample_rate(),
            final(self).spec_time_signature() == old(self).spec_time_signature(),
    {
        self.tempo = tempo;
    }

    /// Advances the clock by `frames` frames. `new_time` is the musical time
    /// that the new frame count comes to at the current tempo and sample
    /// rate. Returns the time range from the prior time to `new_time`. Only a
    /// performing clock moves; a stopped one still hands out the range.
    pub fn advance(&mut self, frames: usize, new_time: MusicalTime) -> (r: core::ops::Range<MusicalTime>)
        requires
            old(self).frame() + frames <= usize::MAX,
            old(self).now()@ <= new_time@,
        ensures
            r.start == old(self).now(),
            r.end == new_time,
            old(self).performing() ==> final(self).now() == new_time && final(self).frame() == old(
                self,
            ).frame() + frames,
            !old(self).performing() ==> final(self).now() == old(self).now() && final(self).frame()
                == old(self).frame(),
            final(self).performing() == old(self).performing(),
            final(self).tempo_bits() == old(self).tempo_bits(),
            final(self).spec_sample_rate() == old(self).spec_sample_rate(),
            final(self).spec_time_signature() == old(self).spec_time_signature(),
    {
        let new_frames = self.e.current_frame + frames;
        let length = new_time - self.e.current_time;
        let range = self.e.current_time..self.e.current_time + length;
        assert(range.end@ == new_time@);
        if self.e.is_performing {
            self.e.current_frame = new_frames;
            self.e.current_time = new_time;
        }
        range
    }

    /// The current position in the song.
    pub fn current_time(&self) -> (r: MusicalTime)
        ensures
            r == self.now(),
    {
        self.e.current_time
    }

    /// The number of frames that have gone by.
    pub fn current_frame(&self) -> (r: usize)
        ensures
            r == self.frame(),
    {
        self.e.current_frame
    }

    /// Frames per second.
    pub fn sample_rate(&self) -> (r: SampleRate)
        ensures
            r == self.spec_sample_rate(),
    {
        self.e.sample_rate
    }

    /// Sets the frames per second.
    pub fn update_sample_rate(&mut self, sample_rate: SampleRate)
        ensures
            final(self).spec_sample_rate() == sample_rate,
            final(self).now() == old(self).now(),
            final(self).frame() == old(self).frame(),
            final(self).performing() == old(self).performing(),
            final(self).tempo_bits() == old(self).tempo_bits(),
            final(self).spec_time_signature() == old(self).spec_time_signature(),
    {
        self.e.sample_rate = sample_rate;
    }

    /// Sets the bits of a new tempo.
    pub fn update_tempo(&mut self, tempo: u64)
        ensures
            final(self).tempo_bits() == tempo,
            final(self).now() == old(self).now(),
            final(self).frame() == old(self).frame(),
            final(self).performing() == old(self).performing(),
            final(self).spec_sample_rate() == old(self).spec_sample_rate(),
            final(self).spec_time_signature() == old(self).spec_time_signature(),
    {
        self.tempo = tempo;
    }

    /// The time signature.
    pub fn time_signature(&self) -> (r: TimeSignature)
        ensures
            r == self.spec_time_signature(),
    {
        self.time_signature
    }

    /// Sets the time signature.
    pub fn update_time_signature(&mut self, time_signature: TimeSignature)
        ensures
            final(self).spec_time_signature() == time_signature,
            final(self).now() == old(self).now(),
            final(self).frame() == old(self).frame(),
            final(self).performing() == old(self).performing(),
            final(self).tempo_bits() == old(self).tempo_bits(),
            final(self).spec_sample_rate() == old(self).spec_sample_rate(),
    {
        self.time_signature = time_signature;
    }

    /// The clock never holds anything back.
    pub fn is_finished(&self) -> (r: bool)
        ensures
            r,
    {
        true
    }

    /// Starts performing.
    pub fn play(&mut self)
        ensures
            final(self).performing(),
            final(self).now() == old(self).now(),
            final(self).frame() == old(self).frame(),
            final(self).tempo_bits() == old(self).tempo_bits(),
            final(self).spec_sample_rate() == old(self).spec_sample_rate(),
            final(self).spec_time_signature() == old(self).spec_time_signature(),
    {
        self.e.is_performing = true;
    }

    /// Stops performing.
    pub fn stop(&mut self)
        ensures
            !final(self).performing(),
            final(self).now() == old(self).now(),
            final(self).frame() == old(self).frame(),
            final(self).tempo_bits() == old(self).tempo_bits(),
            final(self).spec_sample_rate() == old(self).spec_sample_rate(),
            final(self).spec_time_signature() == old(self).spec_time_signature(),
    {
        self.e.is_performing = false;
    }

    /// Moves the clock back to the start of the song.
    pub fn skip_to_start(&mut self)
        ensures
            final(self).now()@ == 0,
            final(self).frame() == 0,
            final(self).performing() == old(self).performing(),
            final(self).tempo_bits() == old(self).tempo_bits(),
            final(self).spec_sample_rate() == old(self).spec_sample_rate(),
            final(self).spec_time_signature() == old(self).spec_time_signature(),
    {
        self.e.current_time = MusicalTime::start();
        self.e.current_frame = 0;
    }

    /// Whether a performance is under way.
    pub fn is_performing(&self) -> (r: bool)
        ensures
            r == self.performing(),
    {
        self.e.is_performing
    }
}

impl Default for Transport {
    /// A stopped clock at the start, at 128 beats per minute in 4/4 time.
    fn default() -> (r: Self)
        ensures
            r.now()@ == 0,
            r.frame() == 0,
            !r.performing(),
            r.tempo_bits() == DEFAULT_TEMPO_BITS,
            r.spec_sample_rate().0 == 44100,
            r.spec_time_signature() == (TimeSignature { top: 4, bottom: 4 }),
    {
        Transport {
            uid: Uid(0),
            time_signature: TimeSignature::default(),
            tempo: DEFAULT_TEMPO_BITS,
            e: TransportEphemerals {
                current_time: MusicalTime::start(),
                current_frame: 0,
                sample_rate: SampleRate::default(),
                is_performing: false,
            },
        }
    }
}

} // verus!
