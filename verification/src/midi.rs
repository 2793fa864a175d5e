//! MIDI messages, channels, events and note names.
use crate::time::MusicalTime;
use vstd::prelude::*;

verus! {

/// A seven-bit MIDI data value (0..=127).
#[derive(Clone, Copy, Debug, PartialEq, Eq, Structural, Hash, Default)]
pub struct U7(u8);

impl U7 {
    #[verifier::type_invariant]
    spec fn fits(self) -> bool {
        self.0 < 128
    }

    /// The value held.
    pub closed spec fn value(self) -> nat {
        self.0 as nat
    }

    /// Keeps the low seven bits of `raw`.
    pub fn from_int_lossy(raw: u8) -> (r: U7)
        ensures
            r.value() == raw % 128,
    {
        assert(raw & 0x7f == raw % 128 && raw % 128 < 128) by (bit_vector);
        U7(raw & 0x7f)
    }

    /// The largest seven-bit value.
    pub fn max_value() -> (r: U7)
        ensures
            r.value() == 127,
    {
        U7(127)
    }

    /// The value held, as a byte.
    pub fn as_int(&self) -> (r: u8)
        ensures
            r == self.value(),
            r < 128,
    {
        proof {
            use_type_invariant(self);
        }
        self.0
    }
}

/// The [U7] holding `v`, for `v` below 128.
pub closed spec fn u7_of(v: nat) -> U7 {
    U7(v as u8)
}

/// [u7_of] holds the value it is given.
pub broadcast proof fn lemma_u7_of(v: nat)
    requires
        v < 128,
    ensures
        #[trigger] u7_of(v).value() == v,
{
}

/// A [U7] is determined by its value.
pub broadcast proof fn lemma_u7_injective(a: U7, b: U7)
    ensures
        #![trigger a.value(), b.value()]
        a.value() == b.value() ==> a == b,
{
}

pub broadcast group group_u7_facts {
    lemma_u7_of,
    lemma_u7_injective,
}

/// A fourteen-bit pitch-bend value (0..=16383).
#[derive(Clone, Copy, Debug, PartialEq, Eq, Structural, Hash, Default)]
pub struct PitchBend(u16);

impl PitchBend {
    #[verifier::type_invariant]
    spec fn fits(self) -> bool {
        self.0 < 16384
    }

    /// The value held.
    pub closed spec fn value(self) -> nat {
        self.0 as nat
    }

    /// Keeps the low fourteen bits of `raw`.
    pub fn from_int_lossy(raw: u16) -> (r: PitchBend)
        ensures
            r.value() == raw % 16384,
    {
        assert(raw & 0x3fff == raw % 16384 && raw % 16384 < 16384) by (bit_vector);
        PitchBend(raw & 0x3fff)
    }

    /// The value held.
    pub fn as_int(&self) -> (r: u16)
        ensures
            r == self.value(),
            r < 16384,
    {
        proof {
            use_type_invariant(self);
        }
        self.0
    }
}

/// A MIDI channel message.
#[derive(Clone, Copy, Debug, PartialEq, Eq, Structural, Hash)]
pub enum MidiMessage {
    /// Stop playing a note.
    NoteOff { key: U7, vel: U7 },
    /// Start playing a note.
    NoteOn { key: U7, vel: U7 },
    /// Modify the velocity of a note after it has been played.
    Aftertouch { key: U7, vel: U7 },
    /// Modify the value of a MIDI controller.
    Controller { controller: U7, value: U7 },
    /// Change the program (also known as instrument) for a channel.
    ProgramChange { program: U7 },
    /// Change the note velocity of a whole channel at once.
    ChannelAftertouch { vel: U7 },
    /// Set the pitch bend value for the entire channel.
    PitchBend { bend: PitchBend },
}

/// A note-on message for `key` at velocity `vel`, each kept to seven bits.
pub fn new_note_on(key: u8, vel: u8) -> (r: MidiMessage)
    ensures
        r matches MidiMessage::NoteOn { key: k, vel: v } && k.value() == key % 128 && v.value()
            == vel % 128,
{
    MidiMessage::NoteOn { key: U7::from_int_lossy(key), vel: U7::from_int_lossy(vel) }
}

/// A note-off message for `key` at velocity `vel`, each kept to seven bits.
pub fn new_note_off(key: u8, vel: u8) -> (r: MidiMessage)
    ensures
        r matches MidiMessage::NoteOff { key: k, vel: v } && k.value() == key % 128 && v.value()
            == vel % 128,
{
    MidiMessage::NoteOff { key: U7::from_int_lossy(key), vel: U7::from_int_lossy(vel) }
}

/// A MIDI channel, numbered from zero.
#[derive(Clone, Copy, Debug, PartialEq, Eq, Structural, Hash, Default)]
pub struct MidiChannel(pub u8);

/// A [MidiMessage] that happens at a [MusicalTime].
#[derive(Clone, Copy, Debug, PartialEq, Eq, Structural)]
pub struct MidiEvent {
    /// What happens.
    pub message: MidiMessage,
    /// When it happens.
    pub time: MusicalTime,
}

/// Note names, from CSub0 (key 0) up to G9 (key 127). `s` marks a sharp.
#[derive(Clone, Copy, Debug, PartialEq, Eq, Structural, Hash)]
pub enum MidiNote {
    CSub0,
    CsSub0,
    DSub0,
    DsSub0,
    ESub0,
    FSub0,
    FsSub0,
    GSub0,
    GsSub0,
    ASub0,
    AsSub0,
    BSub0,
    C0,
    Cs0,
    D0,
    Ds0,
    E0,
    F0,
    Fs0,
    G0,
    Gs0,
    A0,
    As0,
    B0,
    C1,
    Cs1,
    D1,
    Ds1,
    E1,
    F1,
    Fs1,
    G1,
    Gs1,
    A1,
    As1,
    B1,
    C2,
    Cs2,
    D2,
    Ds2,
    E2,
    F2,
    Fs2,
    G2,
    Gs2,
    A2,
    As2,
    B2,
    C3,
    Cs3,
    D3,
    Ds3,
    E3,
    F3,
    Fs3,
    G3,
    Gs3,
    A3,
    As3,
    B3,
    C4,
    Cs4,
    D4,
    Ds4,
    E4,
    F4,
    Fs4,
    G4,
    Gs4,
    A4,
    As4,
    B4,
    C5,
    Cs5,
    D5,
    Ds5,
    E5,
    F5,
    Fs5,
    G5,
    Gs5,
    A5,
    As5,
    B5,
    C6,
    Cs6,
    D6,
    Ds6,
    E6,
    F6,
    Fs6,
    G6,
    Gs6,
    A6,
    As6,
    B6,
    C7,
    Cs7,
    D7,
    Ds7,
    E7,
    F7,
    Fs7,
    G7,
    Gs7,
    A7,
    As7,
    B7,
    C8,
    Cs8,
    D8,
    Ds8,
    E8,
    F8,
    Fs8,
    G8,
    Gs8,
    A8,
    As8,
    B8,
    C9,
    Cs9,
    D9,
    Ds9,
    E9,
    F9,
    Fs9,
    G9,
}

impl MidiNote {
    /// The MIDI key number of the note.
    pub open spec fn spec_key(self) -> u8 {
        match self {
            MidiNote::CSub0 => 0,
            MidiNote::CsSub0 => 1,
            MidiNote::DSub0 => 2,
            MidiNote::DsSub0 => 3,
            MidiNote::ESub0 => 4,
            MidiNote::FSub0 => 5,
            MidiNote::FsSub0 => 6,
            MidiNote::GSub0 => 7,
            MidiNote::GsSub0 => 8,
            MidiNote::ASub0 => 9,
            MidiNote::AsSub0 => 10,
            MidiNote::BSub0 => 11,
            MidiNote::C0 => 12,
            MidiNote::Cs0 => 13,
            MidiNote::D0 => 14,
            MidiNote::Ds0 => 15,
            MidiNote::E0 => 16,
            MidiNote::F0 => 17,
            MidiNote::Fs0 => 18,
            MidiNote::G0 => 19,
            MidiNote::Gs0 => 20,
            MidiNote::A0 => 21,
            MidiNote::As0 => 22,
            MidiNote::B0 => 23,
            MidiNote::C1 => 24,
            MidiNote::Cs1 => 25,
            MidiNote::D1 => 26,
            MidiNote::Ds1 => 27,
            MidiNote::E1 => 28,
            MidiNote::F1 => 29,
            MidiNote::Fs1 => 30,
            MidiNote::G1 => 31,
            MidiNote::Gs1 => 32,
            MidiNote::A1 => 33,
            MidiNote::As1 => 34,
            MidiNote::B1 => 35,
            MidiNote::C2 => 36,
            MidiNote::Cs2 => 37,
            MidiNote::D2 => 38,
            MidiNote::Ds2 => 39,
            MidiNote::E2 => 40,
            MidiNote::F2 => 41,
            MidiNote::Fs2 => 42,
            MidiNote::G2 => 43,
            MidiNote::Gs2 => 44,
            MidiNote::A2 => 45,
            MidiNote::As2 => 46,
            MidiNote::B2 => 47,
            MidiNote::C3 => 48,
            MidiNote::Cs3 => 49,
            MidiNote::D3 => 50,
            MidiNote::Ds3 => 51,
            MidiNote::E3 => 52,
            MidiNote::F3 => 53,
            MidiNote::Fs3 => 54,
            MidiNote::G3 => 55,
            MidiNote::Gs3 => 56,
            MidiNote::A3 => 57,
            MidiNote::As3 => 58,
            MidiNote::B3 => 59,
            MidiNote::C4 => 60,
            MidiNote::Cs4 => 61,
            MidiNote::D4 => 62,
            MidiNote::Ds4 => 63,
            MidiNote::E4 => 64,
            MidiNote::F4 => 65,
            MidiNote::Fs4 => 66,
            MidiNote::G4 => 67,
            MidiNote::Gs4 => 68,
            MidiNote::A4 => 69,
            MidiNote::As4 => 70,
            MidiNote::B4 => 71,
            MidiNote::C5 => 72,
            MidiNote::Cs5 => 73,
            MidiNote::D5 => 74,
            MidiNote::Ds5 => 75,
            MidiNote::E5 => 76,
            MidiNote::F5 => 77,
            MidiNote::Fs5 => 78,
            MidiNote::G5 => 79,
            MidiNote::Gs5 => 80,
            MidiNote::A5 => 81,
            MidiNote::As5 => 82,
            MidiNote::B5 => 83,
            MidiNote::C6 => 84,
            MidiNote::Cs6 => 85,
            MidiNote::D6 => 86,
            MidiNote::Ds6 => 87,
            MidiNote::E6 => 88,
            MidiNote::F6 => 89,
            MidiNote::Fs6 => 90,
            MidiNote::G6 => 91,
            MidiNote::Gs6 => 92,
            MidiNote::A6 => 93,
            MidiNote::As6 => 94,
            MidiNote::B6 => 95,
            MidiNote::C7 => 96,
            MidiNote::Cs7 => 97,
            MidiNote::D7 => 98,
            MidiNote::Ds7 => 99,
            MidiNote::E7 => 100,
            MidiNote::F7 => 101,
            MidiNote::Fs7 => 102,
            MidiNote::G7 => 103,
            MidiNote::Gs7 => 104,
            MidiNote::A7 => 105,
            MidiNote::As7 => 106,
            MidiNote::B7 => 107,
            MidiNote::C8 => 108,
            MidiNote::Cs8 => 109,
            MidiNote::D8 => 110,
            MidiNote::Ds8 => 111,
            MidiNote::E8 => 112,
            MidiNote::F8 => 113,
            MidiNote::Fs8 => 114,
            MidiNote::G8 => 115,
            MidiNote::Gs8 => 116,
            MidiNote::A8 => 117,
            MidiNote::As8 => 118,
            MidiNote::B8 => 119,
            MidiNote::C9 => 120,
            MidiNote::Cs9 => 121,
            MidiNote::D9 => 122,
            MidiNote::Ds9 => 123,
            MidiNote::E9 => 124,
            MidiNote::F9 => 125,
            MidiNote::Fs9 => 126,
            MidiNote::G9 => 127,
        }
    }

    /// Returns the MIDI key number of the note.
    pub fn key(&self) -> (r: u8)
        ensures
            r == self.spec_key(),
            r < 128,
    {
        match self {
            MidiNote::CSub0 => 0,
            MidiNote::CsSub0 => 1,
            MidiNote::DSub0 => 2,
            MidiNote::DsSub0 => 3,
            MidiNote::ESub0 => 4,
            MidiNote::FSub0 => 5,
            MidiNote::FsSub0 => 6,
            MidiNote::GSub0 => 7,
            MidiNote::GsSub0 => 8,
            MidiNote::ASub0 => 9,
            MidiNote::AsSub0 => 10,
            MidiNote::BSub0 => 11,
            MidiNote::C0 => 12,
            MidiNote::Cs0 => 13,
            MidiNote::D0 => 14,
            MidiNote::Ds0 => 15,
            MidiNote::E0 => 16,
            MidiNote::F0 => 17,
            MidiNote::Fs0 => 18,
            MidiNote::G0 => 19,
            MidiNote::Gs0 => 20,
            MidiNote::A0 => 21,
            MidiNote::As0 => 22,
            MidiNote::B0 => 23,
            MidiNote::C1 => 24,
            MidiNote::Cs1 => 25,
            MidiNote::D1 => 26,
            MidiNote::Ds1 => 27,
            MidiNote::E1 => 28,
            MidiNote::F1 => 29,
            MidiNote::Fs1 => 30,
            MidiNote::G1 => 31,
            MidiNote::Gs1 => 32,
            MidiNote::A1 => 33,
            MidiNote::As1 => 34,
            MidiNote::B1 => 35,
            MidiNote::C2 => 36,
            MidiNote::Cs2 => 37,
            MidiNote::D2 => 38,
            MidiNote::Ds2 => 39,
            MidiNote::E2 => 40,
            MidiNote::F2 => 41,
            MidiNote::Fs2 => 42,
            MidiNote::G2 => 43,
            MidiNote::Gs2 => 44,
            MidiNote::A2 => 45,
            MidiNote::As2 => 46,
            MidiNote::B2 => 47,
            MidiNote::C3 => 48,
            MidiNote::Cs3 => 49,
            MidiNote::D3 => 50,
            MidiNote::Ds3 => 51,
            MidiNote::E3 => 52,
            MidiNote::F3 => 53,
            MidiNote::Fs3 => 54,
            MidiNote::G3 => 55,
            MidiNote::Gs3 => 56,
            MidiNote::A3 => 57,
            MidiNote::As3 => 58,
            MidiNote::B3 => 59,
            MidiNote::C4 => 60,
            MidiNote::Cs4 => 61,
            MidiNote::D4 => 62,
            MidiNote::Ds4 => 63,
            MidiNote::E4 => 64,
            MidiNote::F4 => 65,
            MidiNote::Fs4 => 66,
            MidiNote::G4 => 67,
            MidiNote::Gs4 => 68,
            MidiNote::A4 => 69,
            MidiNote::As4 => 70,
            MidiNote::B4 => 71,
            MidiNote::C5 => 72,
            MidiNote::Cs5 => 73,
            MidiNote::D5 => 74,
            MidiNote::Ds5 => 75,
            MidiNote::E5 => 76,
            MidiNote::F5 => 77,
            MidiNote::Fs5 => 78,
            MidiNote::G5 => 79,
            MidiNote::Gs5 => 80,
            MidiNote::A5 => 81,
            MidiNote::As5 => 82,
            MidiNote::B5 => 83,
            MidiNote::C6 => 84,
            MidiNote::Cs6 => 85,
            MidiNote::D6 => 86,
            MidiNote::Ds6 => 87,
            MidiNote::E6 => 88,
            MidiNote::F6 => 89,
            MidiNote::Fs6 => 90,
            MidiNote::G6 => 91,
            MidiNote::Gs6 => 92,
            MidiNote::A6 => 93,
            MidiNote::As6 => 94,
            MidiNote::B6 => 95,
            MidiNote::C7 => 96,
            MidiNote::Cs7 => 97,
            MidiNote::D7 => 98,
            MidiNote::Ds7 => 99,
            MidiNote::E7 => 100,
            MidiNote::F7 => 101,
            MidiNote::Fs7 => 102,
            MidiNote::G7 => 103,
            MidiNote::Gs7 => 104,
            MidiNote::A7 => 105,
            MidiNote::As7 => 106,
            MidiNote::B7 => 107,
            MidiNote::C8 => 108,
            MidiNote::Cs8 => 109,
            MidiNote::D8 => 110,
            MidiNote::Ds8 => 111,
            MidiNote::E8 => 112,
            MidiNote::F8 => 113,
            MidiNote::Fs8 => 114,
            MidiNote::G8 => 115,
            MidiNote::Gs8 => 116,
            MidiNote::A8 => 117,
            MidiNote::As8 => 118,
            MidiNote::B8 => 119,
            MidiNote::C9 => 120,
            MidiNote::Cs9 => 121,
            MidiNote::D9 => 122,
            MidiNote::Ds9 => 123,
            MidiNote::E9 => 124,
            MidiNote::F9 => 125,
            MidiNote::Fs9 => 126,
            MidiNote::G9 => 127,
        }
    }
}

} // verus!
