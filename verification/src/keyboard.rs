//! Turns a computer keyboard into a MIDI keyboard.
use crate::midi::{u7_of, MidiChannel, MidiMessage, U7};
use vstd::prelude::*;

verus! {

/// The keys of a computer keyboard that the [KeyboardController] knows. The
/// row A S D F G H J K plays white keys, W E T Y U O the black keys between
/// them, and the arrows change the octave.
#[derive(Clone, Copy, Debug, PartialEq, Eq, Structural)]
pub enum KeyboardKey {
    A,
    W,
    S,
    E,
    D,
    F,
    T,
    G,
    Y,
    H,
    U,
    J,
    K,
    O,
    ArrowLeft,
    ArrowRight,
    /// Any other key.
    Other,
}

/// How many semitones above the octave's C a key plays, if it plays a note.
pub open spec fn key_offset(key: KeyboardKey) -> Option<nat> {
    match key {
        KeyboardKey::A => Some(0),
        KeyboardKey::W => Some(1),
        KeyboardKey::S => Some(2),
        KeyboardKey::E => Some(3),
        KeyboardKey::D => Some(4),
        KeyboardKey::F => Some(5),
        KeyboardKey::T => Some(6),
        KeyboardKey::G => Some(7),
        KeyboardKey::Y => Some(8),
        KeyboardKey::H => Some(9),
        KeyboardKey::U => Some(10),
        KeyboardKey::J => Some(11),
        KeyboardKey::K => Some(12),
        KeyboardKey::O => Some(13),
        _ => None,
    }
}

/// The note keys follow a piano's layout. The home row A S D F G H J K plays
/// the white keys C D E F G A B C of an octave, and W E T Y U O above it the
/// black keys between them, so that A W S E D F T G Y H U J K O play fourteen
/// consecutive semitones from the octave's C. No two note keys play the same
/// note, and the arrows and other keys play none.
pub proof fn lemma_keys_follow_piano_layout()
    ensures
        key_offset(KeyboardKey::A) == Some(0nat),
        key_offset(KeyboardKey::W) == Some(1nat),
        key_offset(KeyboardKey::S) == Some(2nat),
        key_offset(KeyboardKey::E) == Some(3nat),
        key_offset(KeyboardKey::D) == Some(4nat),
        key_offset(KeyboardKey::F) == Some(5nat),
        key_offset(KeyboardKey::T) == Some(6nat),
        key_offset(KeyboardKey::G) == Some(7nat),
        key_offset(KeyboardKey::Y) == Some(8nat),
        key_offset(KeyboardKey::H) == Some(9nat),
        key_offset(KeyboardKey::U) == Some(10nat),
        key_offset(KeyboardKey::J) == Some(11nat),
        key_offset(KeyboardKey::K) == Some(12nat),
        key_offset(KeyboardKey::O) == Some(13nat),
        key_offset(KeyboardKey::ArrowLeft) is None,
        key_offset(KeyboardKey::ArrowRight) is None,
        key_offset(KeyboardKey::Other) is None,
        forall|k1: KeyboardKey, k2: KeyboardKey|
            #![trigger key_offset(k1), key_offset(k2)]
            key_offset(k1) is Some && key_offset(k1) == key_offset(k2) ==> k1 == k2,
{
}

/// The message for MIDI note `n`: a full-velocity note-on when the key goes
/// down, a zero-velocity note-off when it comes up, on channel zero.
pub open spec fn keyboard_message(n: nat, pressed: bool) -> (MidiChannel, MidiMessage) {
    if pressed {
        (MidiChannel(0), MidiMessage::NoteOn { key: u7_of(n), vel: u7_of(127) })
    } else {
        (MidiChannel(0), MidiMessage::NoteOff { key: u7_of(n), vel: u7_of(0) })
    }
}

/// The note a key plays in an octave: its offset above the octave's C,
/// capped at 127.
pub open spec fn keyboard_note(offset: nat, octave: nat) -> nat {
    if offset + octave * 12 < 127 {
        offset + octave * 12
    } else {
        127
    }
}

/// The octave after a key that plays no note goes down (`pressed`) or up:
/// the left arrow going down moves one octave down, the right arrow one up,
/// within 0 to 10; anything else leaves the octave as it is.
pub open spec fn octave_after(key: KeyboardKey, pressed: bool, octave: nat) -> nat {
    if pressed && key == KeyboardKey::ArrowLeft && octave > 0 {
        (octave - 1) as nat
    } else if pressed && key == KeyboardKey::ArrowRight && octave < 10 {
        octave + 1
    } else {
        octave
    }
}

/// The octave arrows undo each other: right then left, from below the top
/// octave, or left then right, from above the bottom one, comes back to the
/// octave it started from.
pub proof fn lemma_octave_arrows_undo(octave: nat)
    ensures
        octave < 10 ==> octave_after(
            KeyboardKey::ArrowLeft,
            true,
            octave_after(KeyboardKey::ArrowRight, true, octave),
        ) == octave,
        0 < octave <= 10 ==> octave_after(
            KeyboardKey::ArrowRight,
            true,
            octave_after(KeyboardKey::ArrowLeft, true, octave),
        ) == octave,
{
}

/// Letting a note key up sends the note-off for the very note that pressing
/// it sent, as long as the octave has not changed in between.
pub proof fn lemma_release_matches_press(offset: nat, octave: nat)
    ensures
        keyboard_message(keyboard_note(offset, octave), true).1 matches MidiMessage::NoteOn { key: on, .. }
            && keyboard_message(keyboard_note(offset, octave), false).1 matches MidiMessage::NoteOff {
            key: off,
            ..
        } && on == off,
{
}

/// Plays MIDI notes from computer-keyboard keys, in one of eleven octaves.
#[derive(Debug)]
pub struct KeyboardController {
    octave: u8,
}

impl KeyboardController {
    /// The octave is between 0 and 10.
    #[verifier::type_invariant]
    spec fn octave_in_range(&self) -> bool {
        self.octave <= 10
    }

    /// The octave the keys play in.
    pub closed spec fn current_octave(&self) -> nat {
        self.octave as nat
    }

    /// Handles a key going down (`pressed`) or up. A note key gives the
    /// message for its note; an arrow going down moves the octave one down
    /// or up, as far as 0 or 10, and gives nothing.
    pub fn handle_key(&mut self, key: &KeyboardKey, pressed: bool) -> (r: Option<(MidiChannel, MidiMessage)>)
        ensures
            match key_offset(*key) {
                Some(offset) => {
                    &&& r == Some(keyboard_message(keyboard_note(offset, old(self).current_octave()), pressed))
                    &&& final(self).current_octave() == old(self).current_octave()
                },
                None => {
                    &&& r is None
                    &&& final(self).current_octave() == octave_after(*key, pressed, old(self).current_octave())
                },
            },
    {
        proof {
            use_type_invariant(&*self);
        }
        match key {
            KeyboardKey::A => Some(self.midi_note_message(0, pressed)),
            KeyboardKey::W => Some(self.midi_note_message(1, pressed)),
            KeyboardKey::S => Some(self.midi_note_message(2, pressed)),
            KeyboardKey::E => Some(self.midi_note_message(3, pressed)),
            KeyboardKey::D => Some(self.midi_note_message(4, pressed)),
            KeyboardKey::F => Some(self.midi_note_message(5, pressed)),
            KeyboardKey::T => Some(self.midi_note_message(6, pressed)),
            KeyboardKey::G => Some(self.midi_note_message(7, pressed)),
            KeyboardKey::Y => Some(self.midi_note_message(8, pressed)),
            KeyboardKey::H => Some(self.midi_note_message(9, pressed)),
            KeyboardKey::U => Some(self.midi_note_message(10, pressed)),
            KeyboardKey::J => Some(self.midi_note_message(11, pressed)),
            KeyboardKey::K => Some(self.midi_note_message(12, pressed)),
            KeyboardKey::O => Some(self.midi_note_message(13, pressed)),
            KeyboardKey::ArrowLeft => {
                if pressed {
                    self.decrease_octave();
                }
                None
            },
            KeyboardKey::ArrowRight => {
                if pressed {
                    self.increase_octave();
                }
                None
            },
            KeyboardKey::Other => None,
        }
    }

    /// The message for the note `midi_note_number` semitones above the
    /// current octave's C, capped at 127.
    fn midi_note_message(&self, midi_note_number: u8, pressed: bool) -> (r: (MidiChannel, MidiMessage))
        requires
            midi_note_number <= 13,
        ensures
            r == keyboard_message(keyboard_note(midi_note_number as nat, self.current_octave()), pressed),
    {
        proof {
            use_type_invariant(self);
        }
        let sum = midi_note_number + self.octave * 12;
        let midi_note_number = if sum < 127 {
            sum
        } else {
            127
        };
        let key = U7::from_int_lossy(midi_note_number);
        proof {
            crate::midi::lemma_u7_of(midi_note_number as nat);
            crate::midi::lemma_u7_injective(key, u7_of(midi_note_number as nat));
        }
        if pressed {
            let vel = U7::max_value();
            proof {
                crate::midi::lemma_u7_of(127);
                crate::midi::lemma_u7_injective(vel, u7_of(127));
            }
            (MidiChannel(0), MidiMessage::NoteOn { key, vel })
        } else {
            let vel = U7::from_int_lossy(0);
            proof {
                crate::midi::lemma_u7_of(0);
                crate::midi::lemma_u7_injective(vel, u7_of(0));
            }
            (MidiChannel(0), MidiMessage::NoteOff { key, vel })
        }
    }

    fn decrease_octave(&mut self)
        ensures
            final(self).current_octave() == if old(self).current_octave() > 0 {
                (old(self).current_octave() - 1) as nat
            } else {
                old(self).current_octave()
            },
    {
        proof {
            use_type_invariant(&*self);
        }
        if self.octave > 0 {
            self.octave = self.octave - 1;
        }
    }

    fn increase_octave(&mut self)
        ensures
            final(self).current_octave() == if old(self).current_octave() < 10 {
                old(self).current_octave() + 1
            } else {
                old(self).current_octave()
            },
    {
        if self.octave < 10 {
            self.octave = self.octave + 1;
        }
    }

    /// A keyboard is always finished: it has nothing scheduled.
    pub fn is_finished(&self) -> (r: bool)
        ensures
            r,
    {
        true
    }

    /// A keyboard never performs.
    pub fn is_performing(&self) -> (r: bool)
        ensures
            !r,
    {
        false
    }
}

impl Default for KeyboardController {
    /// Starts in octave 5, where A plays middle C (MIDI note 60).
    fn default() -> (r: Self)
        ensures
            r.current_octave() == 5,
    {
        KeyboardController { octave: 5 }
    }
}

impl PartialEq for KeyboardController {
    fn eq(&self, other: &Self) -> (r: bool) {
        self.octave == other.octave
    }
}

impl vstd::std_specs::cmp::PartialEqSpecImpl for KeyboardController {
    open spec fn obeys_eq_spec() -> bool {
        true
    }

    open spec fn eq_spec(&self, other: &Self) -> bool {
        self.current_octave() == other.current_octave()
    }
}

} // verus!
