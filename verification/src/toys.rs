//! Toy controllers, handy in tests and demonstrations.
use crate::midi::{new_note_off, new_note_on, u7_of, MidiChannel, MidiMessage, U7};
use crate::time::{group_time_facts, MusicalTime};
use crate::uid::Uid;
use crate::traits::HandlesMidi;
use vstd::prelude::*;

verus! {

broadcast use group_time_facts;

/// Whether a time falls on a beat: no parts and no units past the beat.
pub open spec fn on_beat(t: nat) -> bool {
    t % 4096 == 0 && (t / 4096) % 16 == 0
}

/// Whether a time falls on a half beat: eight parts and no units past the beat.
pub open spec fn on_half_beat(t: nat) -> bool {
    t % 4096 == 0 && (t / 4096) % 16 == 8
}

/// What the [ToyController] does in a time slice.
enum TestControllerAction {
    Nothing,
    NoteOn,
    NoteOff,
}

/// A controller that emits a MIDI note-on event on each beat, and a note-off
/// event on each half-beat, while enabled by a note-on.
#[derive(Debug)]
pub struct ToyController {
    uid: Uid,
    midi_channel_out: MidiChannel,
    is_enabled: bool,
    is_playing: bool,
    is_performing: bool,
    time_range: core::ops::Range<MusicalTime>,
    last_time_handled: MusicalTime,
}

impl ToyController {
    /// The output channel.
    pub closed spec fn channel_out(&self) -> MidiChannel {
        self.midi_channel_out
    }

    /// Whether a note-on enabled the controller.
    pub closed spec fn enabled(&self) -> bool {
        self.is_enabled
    }

    /// Whether the controller has sent a note-on.
    pub closed spec fn playing(&self) -> bool {
        self.is_playing
    }

    /// Whether a performance is under way.
    pub closed spec fn performing(&self) -> bool {
        self.is_performing
    }

    /// The current time slice.
    pub closed spec fn slice(&self) -> (MusicalTime, MusicalTime) {
        (self.time_range.start, self.time_range.end)
    }

    /// The start of the last slice the controller acted on.
    pub closed spec fn last_handled(&self) -> MusicalTime {
        self.last_time_handled
    }

    /// Makes a controller that sends on `midi_channel_out`.
    pub fn new_with(midi_channel_out: MidiChannel) -> (r: Self)
        ensures
            r.channel_out() == midi_channel_out,
            !r.enabled(),
            !r.playing(),
            !r.performing(),
            r.slice().0@ == 0 && r.slice().1@ == 0,
            r.last_handled()@ == 0,
    {
        ToyController {
            uid: Uid(0),
            midi_channel_out,
            is_enabled: false,
            is_playing: false,
            is_performing: false,
            time_range: MusicalTime::start()..MusicalTime::start(),
            last_time_handled: MusicalTime::start(),
        }
    }

    /// Sets the current time slice.
    pub fn update_time(&mut self, range: &core::ops::Range<MusicalTime>)
        ensures
            final(self).slice() == (range.start, range.end),
            final(self).last_handled() == old(self).last_handled(),
            final(self).channel_out() == old(self).channel_out(),
            final(self).enabled() == old(self).enabled(),
            final(self).playing() == old(self).playing(),
            final(self).performing() == old(self).performing(),
    {
        self.time_range = range.start..range.end;
    }

    /// Decides what to do in the current slice: the first time a slice that
    /// does not hold the last handled time comes, it becomes the last
    /// handled, and a start on a beat means note-on, on a half beat note-off.
    fn what_to_do(&mut self) -> (r: TestControllerAction)
        ensures
            ({
                let fresh = !(old(self).slice().0@ <= old(self).last_handled()@
                    && old(self).last_handled()@ < old(self).slice().1@);
                &&& final(self).last_handled() == if fresh {
                    old(self).slice().0
                } else {
                    old(self).last_handled()
                }
                &&& (r is NoteOn) == (fresh && on_beat(old(self).slice().0@))
                &&& (r is NoteOff) == (fresh && on_half_beat(old(self).slice().0@))
            }),
            final(self).slice() == old(self).slice(),
            final(self).channel_out() == old(self).channel_out(),
            final(self).enabled() == old(self).enabled(),
            final(self).playing() == old(self).playing(),
            final(self).performing() == old(self).performing(),
    {
        if !(!self.last_time_handled.is_before(&self.time_range.start) && self.last_time_handled.is_before(
            &self.time_range.end,
        )) {
            self.last_time_handled = self.time_range.start;
            if self.time_range.start.units() == 0 {
                if self.time_range.start.parts() == 0 {
                    return TestControllerAction::NoteOn;
                }
                if self.time_range.start.parts() == 8 {
                    return TestControllerAction::NoteOff;
                }
            }
        }
        TestControllerAction::Nothing
    }

    /// The message for this slice, if any: on a fresh slice starting on a
    /// beat, a note-on for middle C while enabled and performing; on a fresh
    /// slice starting on a half beat, its note-off once a note-on was sent.
    pub fn work(&mut self) -> (r: Option<(MidiChannel, MidiMessage)>)
        ensures
            ({
                let fresh = !(old(self).slice().0@ <= old(self).last_handled()@
                    && old(self).last_handled()@ < old(self).slice().1@);
                let start = old(self).slice().0@;
                let sends_on = fresh && on_beat(start) && old(self).enabled() && old(self).performing();
                &&& final(self).last_handled() == if fresh {
                    old(self).slice().0
                } else {
                    old(self).last_handled()
                }
                &&& r == if sends_on {
                    Some((old(self).channel_out(), MidiMessage::NoteOn { key: u7_of(60), vel: u7_of(127) }))
                } else if fresh && on_half_beat(start) && old(self).playing() {
                    Some((old(self).channel_out(), MidiMessage::NoteOff { key: u7_of(60), vel: u7_of(0) }))
                } else {
                    None::<(MidiChannel, MidiMessage)>
                }
                &&& final(self).playing() == (old(self).playing() || sends_on)
            }),
            final(self).slice() == old(self).slice(),
            final(self).channel_out() == old(self).channel_out(),
            final(self).enabled() == old(self).enabled(),
            final(self).performing() == old(self).performing(),
    {
        proof {
            crate::midi::lemma_u7_of(60);
            crate::midi::lemma_u7_of(127);
            crate::midi::lemma_u7_of(0);
        }
        match self.what_to_do() {
            TestControllerAction::Nothing => None,
            TestControllerAction::NoteOn => {
                if self.is_enabled && self.is_performing {
                    self.is_playing = true;
                    let m = new_note_on(60, 127);
                    proof {
                        if let MidiMessage::NoteOn { key, vel } = m {
                            crate::midi::lemma_u7_injective(key, u7_of(60));
                            crate::midi::lemma_u7_injective(vel, u7_of(127));
                        }
                    }
                    Some((self.midi_channel_out, m))
                } else {
                    None
                }
            },
            TestControllerAction::NoteOff => {
                if self.is_playing {
                    let m = new_note_off(60, 0);
                    proof {
                        if let MidiMessage::NoteOff { key, vel } = m {
                            crate::midi::lemma_u7_injective(key, u7_of(60));
                            crate::midi::lemma_u7_injective(vel, u7_of(0));
                        }
                    }
                    Some((self.midi_channel_out, m))
                } else {
                    None
                }
            },
        }
    }

    /// The controller never holds anything back.
    pub fn is_finished(&self) -> (r: bool)
        ensures
            r,
    {
        true
    }

    /// Starts performing.
    pub fn play(&mut self)
        ensures
            final(self).performing(),
            final(self).enabled() == old(self).enabled(),
            final(self).playing() == old(self).playing(),
            final(self).slice() == old(self).slice(),
            final(self).last_handled() == old(self).last_handled(),
            final(self).channel_out() == old(self).channel_out(),
    {
        self.is_performing = true;
    }

    /// Stops performing.
    pub fn stop(&mut self)
        ensures
            !final(self).performing(),
            final(self).enabled() == old(self).enabled(),
            final(self).playing() == old(self).playing(),
            final(self).slice() == old(self).slice(),
            final(self).last_handled() == old(self).last_handled(),
            final(self).channel_out() == old(self).channel_out(),
    {
        self.is_performing = false;
    }

    /// Whether a performance is under way.
    pub fn is_performing(&self) -> (r: bool)
        ensures
            r == self.performing(),
    {
        self.is_performing
    }
}

impl HandlesMidi for ToyController {
    open spec fn takes_message(&self, message: MidiMessage) -> bool {
        message is NoteOn || message is NoteOff
    }

    /// A note-on enables the controller and a note-off disables it. Other
    /// messages are not handled.
    fn handle_midi_message(&mut self, channel: MidiChannel, message: MidiMessage)
        ensures
            final(self).enabled() == (message is NoteOn),
            final(self).playing() == old(self).playing(),
            final(self).performing() == old(self).performing(),
            final(self).slice() == old(self).slice(),
            final(self).last_handled() == old(self).last_handled(),
            final(self).channel_out() == old(self).channel_out(),
    {
        match message {
            MidiMessage::NoteOff { .. } => {
                self.is_enabled = false;
            },
            MidiMessage::NoteOn { .. } => {
                self.is_enabled = true;
            },
            _ => {},
        }
    }
}

impl Default for ToyController {
    fn default() -> (r: Self)
        ensures
            r.channel_out() == MidiChannel(0),
            !r.enabled(),
            !r.playing(),
            !r.performing(),
            r.slice().0@ == 0 && r.slice().1@ == 0,
            r.last_handled()@ == 0,
    {
        Self::new_with(MidiChannel(0))
    }
}

/// A controller that, while performing, sends a note-on each time it works,
/// each a key higher than the last, wrapping from 127 back to 1.
#[derive(Debug)]
pub struct ToyControllerAlwaysSendsMidiMessage {
    uid: Uid,
    midi_note: u8,
    is_performing: bool,
}

impl ToyControllerAlwaysSendsMidiMessage {
    /// The key stays a MIDI key.
    #[verifier::type_invariant]
    spec fn key_in_range(&self) -> bool {
        self.midi_note <= 127
    }

    /// The key of the next note-on.
    pub closed spec fn next_key(&self) -> nat {
        self.midi_note as nat
    }

    /// Whether a performance is under way.
    pub closed spec fn performing(&self) -> bool {
        self.is_performing
    }

    /// While performing, a full-velocity note-on for the next key on channel
    /// zero; the key then moves up by one, from 127 back to 1.
    pub fn work(&mut self) -> (r: Option<(MidiChannel, MidiMessage)>)
        ensures
            old(self).performing() ==> {
                &&& r == Some(
                    (MidiChannel(0), MidiMessage::NoteOn { key: u7_of(old(self).next_key()), vel: u7_of(127) }),
                )
                &&& final(self).next_key() == if old(self).next_key() < 127 {
                    old(self).next_key() + 1
                } else {
                    1
                }
            },
            !old(self).performing() ==> r is None && final(self).next_key() == old(self).next_key(),
            final(self).performing() == old(self).performing(),
            final(self).next_key() <= 127,
    {
        proof {
            use_type_invariant(&*self);
        }
        if self.is_performing {
            let key = U7::from_int_lossy(self.midi_note);
            let vel = U7::max_value();
            proof {
                crate::midi::lemma_u7_of(self.midi_note as nat);
                crate::midi::lemma_u7_of(127);
                crate::midi::lemma_u7_injective(key, u7_of(self.midi_note as nat));
                crate::midi::lemma_u7_injective(vel, u7_of(127));
            }
            let r = Some((MidiChannel(0), MidiMessage::NoteOn { key, vel }));
            if self.midi_note < 127 {
                self.midi_note = self.midi_note + 1;
            } else {
                self.midi_note = 1;
            }
            r
        } else {
            None
        }
    }

    /// The controller is never finished.
    pub fn is_finished(&self) -> (r: bool)
        ensures
            !r,
    {
        false
    }

    /// Starts performing.
    pub fn play(&mut self)
        ensures
            final(self).performing(),
            final(self).next_key() == old(self).next_key(),
    {
        proof {
            use_type_invariant(&*self);
        }
        self.is_performing = true;
    }

    /// Stops performing.
    pub fn stop(&mut self)
        ensures
            !final(self).performing(),
            final(self).next_key() == old(self).next_key(),
    {
        proof {
            use_type_invariant(&*self);
        }
        self.is_performing = false;
    }

    /// Whether a performance is under way.
    pub fn is_performing(&self) -> (r: bool)
        ensures
            r == self.performing(),
    {
        self.is_performing
    }
}

impl Default for ToyControllerAlwaysSendsMidiMessage {
    fn default() -> (r: Self)
        ensures
            r.next_key() == 0,
            !r.performing(),
    {
        ToyControllerAlwaysSendsMidiMessage { uid: Uid(0), midi_note: 0, is_performing: false }
    }
}

} // verus!
