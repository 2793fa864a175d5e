//! Notes and arrangements: the structs that represent music.
use crate::midi::{group_u7_facts, u7_of, MidiEvent, MidiMessage, MidiNote, U7};
use crate::piano_roll::PatternUid;
use crate::time::{group_time_facts, time_of_units, MusicalTime, TimeRange};
use vstd::prelude::*;

verus! {

broadcast use {group_time_facts, group_u7_facts};

/// A [Note] is a single played note. It knows which key it's playing (which
/// is more or less assumed to be a MIDI key value), and when (start/end) it's
/// supposed to play, relative to time zero.
#[derive(Debug, PartialEq, Eq)]
pub struct Note {
    /// The MIDI key code for the note. 69 is (usually) A4.
    pub key: u8,
    /// The range of time when this note should play.
    pub range: TimeRange,
}

impl Clone for Note {
    fn clone(&self) -> (r: Self)
        ensures
            r == *self,
    {
        Note { key: self.key, range: self.range.clone() }
    }
}

/// The note `n` moved later by `offset` units.
pub open spec fn shifted_note(n: Note, offset: nat) -> Note {
    Note {
        key: n.key,
        range: TimeRange(
            time_of_units(n.range.0.start@ + offset)..time_of_units(n.range.0.end@ + offset),
        ),
    }
}

/// Whether `n` can be moved later by `offset` units without overflow.
pub open spec fn can_shift_note(n: Note, offset: nat) -> bool {
    n.range.0.start@ + offset <= usize::MAX && n.range.0.end@ + offset <= usize::MAX
}

/// The note-on event a note plays: full velocity at its start, with the key
/// kept to seven bits.
pub open spec fn note_on_event(n: Note) -> MidiEvent {
    MidiEvent {
        message: MidiMessage::NoteOn { key: u7_of((n.key % 128) as nat), vel: u7_of(127) },
        time: n.range.0.start,
    }
}

/// The note-off event a note plays: full velocity at its end, with the key
/// kept to seven bits.
pub open spec fn note_off_event(n: Note) -> MidiEvent {
    MidiEvent {
        message: MidiMessage::NoteOff { key: u7_of((n.key % 128) as nat), vel: u7_of(127) },
        time: n.range.0.end,
    }
}

/// The two events a note plays, note-on first.
pub open spec fn note_events(n: Note) -> Seq<MidiEvent> {
    seq![note_on_event(n), note_off_event(n)]
}

impl Note {
    /// Creates a [Note] from a key and a start/end (inclusive start, exclusive end).
    pub fn new_with_start_and_end(key: u8, start: MusicalTime, end: MusicalTime) -> (r: Self)
        ensures
            r.key == key,
            r.range.0.start == start,
            r.range.0.end == end,
    {
        Self { key, range: TimeRange(start..end) }
    }

    /// Creates a [Note] from a key and a start/duration.
    pub fn new_with(key: u8, start: MusicalTime, duration: MusicalTime) -> (r: Self)
        requires
            start@ + duration@ <= usize::MAX,
        ensures
            r.key == key,
            r.range.0.start == start,
            r.range.0.end@ == start@ + duration@,
    {
        let end = MusicalTime::new_with_units(start.total_units() + duration.total_units());
        Self::new_with_start_and_end(key, start, end)
    }

    /// Creates a [Note] from a [MidiNote] and a start/duration.
    pub fn new_with_midi_note(key: MidiNote, start: MusicalTime, duration: MusicalTime) -> (r: Self)
        requires
            start@ + duration@ <= usize::MAX,
        ensures
            r.key == key.spec_key(),
            r.range.0.start == start,
            r.range.0.end@ == start@ + duration@,
    {
        Self::new_with(key.key(), start, duration)
    }

    /// Whether the two notes have the same key and range.
    pub fn same_as(&self, other: &Note) -> (r: bool)
        ensures
            r == (*self == *other),
    {
        self.key == other.key && self.range.0.start == other.range.0.start && self.range.0.end
            == other.range.0.end
    }

    /// The note moved later by `offset`.
    pub fn shifted(&self, offset: MusicalTime) -> (r: Note)
        requires
            can_shift_note(*self, offset@),
        ensures
            r == shifted_note(*self, offset@),
    {
        Note { key: self.key, range: TimeRange((self.range.0.start + offset)..(self.range.0.end + offset)) }
    }

    /// The MIDI events that play this note: a note-on at the start and a
    /// note-off at the end, both at full velocity.
    pub fn to_midi_events(&self) -> (r: Vec<MidiEvent>)
        ensures
            r@ == note_events(*self),
    {
        let key = U7::from_int_lossy(self.key);
        let vel = U7::max_value();
        let mut v = Vec::new();
        v.push(MidiEvent { message: MidiMessage::NoteOn { key, vel }, time: self.range.0.start });
        v.push(MidiEvent { message: MidiMessage::NoteOff { key, vel }, time: self.range.0.end });
        proof {
            crate::midi::lemma_u7_of((self.key % 128) as nat);
            crate::midi::lemma_u7_of(127);
            crate::midi::lemma_u7_injective(key, u7_of((self.key % 128) as nat));
            crate::midi::lemma_u7_injective(vel, u7_of(127));
            assert(v@ =~= note_events(*self));
        }
        v
    }
}

impl core::ops::Add<MusicalTime> for Note {
    type Output = Note;

    fn add(self, rhs: MusicalTime) -> (r: Note) {
        self.shifted(rhs)
    }
}

impl vstd::std_specs::ops::AddSpecImpl<MusicalTime> for Note {
    open spec fn obeys_add_spec() -> bool {
        true
    }

    open spec fn add_req(self, rhs: MusicalTime) -> bool {
        can_shift_note(self, rhs@)
    }

    open spec fn add_spec(self, rhs: MusicalTime) -> Note {
        shifted_note(self, rhs@)
    }
}

/// A placement of a pattern on the timeline.
#[derive(Debug, Default, PartialEq, Eq, Clone, Copy, Structural)]
pub struct Arrangement {
    /// The pattern that is placed.
    pub pattern_uid: PatternUid,
    /// Where it starts.
    pub position: MusicalTime,
    /// How long it lasts.
    pub duration: MusicalTime,
}

} // verus!
