//! An arpeggiator: played with MIDI, it answers with more MIDI.
use crate::composition::{note_events, Note};
use crate::midi::{MidiChannel, MidiMessage};
use crate::sequencers::{in_slice, recorded_all, sent, ChannelEvent, NoteSequencer};
use crate::time::{group_time_facts, time_of_units, units_per_part, MusicalTime, TimeRange};
use crate::traits::Sequences;
use crate::uid::Uid;
use crate::traits::HandlesMidi;
use vstd::prelude::*;

verus! {

broadcast use group_time_facts;

/// The semitone steps of the major scale that an arpeggio climbs.
pub open spec fn arp_offset(i: int) -> nat {
    seq![0nat, 2, 4, 5, 7, 9, 11][i]
}

/// The `i`-th note of the arpeggio on `key`: a quarter-beat note, `i`
/// quarter beats in.
pub open spec fn arp_note(key: nat, i: nat) -> Note {
    Note {
        key: (key + arp_offset(i as int)) as u8,
        range: TimeRange(time_of_units(16384 * i)..time_of_units(16384 * i + 16384)),
    }
}

/// The first `k` notes of the arpeggio on `key`.
pub open spec fn arp_notes(key: nat, k: nat) -> Seq<Note> {
    Seq::new(k, |i: int| arp_note(key, i as nat))
}

/// The events after recording the first `k` notes of the arpeggio on `key`,
/// in order, on `channel`, starting from no events.
pub open spec fn arp_events(channel: MidiChannel, key: nat, k: nat) -> Seq<ChannelEvent>
    decreases k,
{
    if k == 0 {
        Seq::empty()
    } else {
        recorded_all(
            arp_events(channel, key, (k - 1) as nat),
            channel,
            note_events(arp_note(key, (k - 1) as nat)),
        )
    }
}

/// The arpeggio on `key` is seven notes played back to back: the first
/// starts at the beginning, each lasts a quarter beat (four parts), each
/// starts where the one before it ends, so the `i`-th starts `4 * i` parts
/// in. Its keys climb the major scale from `key`: whole, whole, half, whole,
/// whole and whole steps.
pub proof fn lemma_arpeggio_is_back_to_back_major_scale(key: nat)
    requires
        key < 128,
    ensures
        arp_notes(key, 7).len() == 7,
        arp_notes(key, 7)[0].range.0.start@ == 0,
        arp_notes(key, 7)[0].key == key,
        forall|i: int|
            0 <= i < 7 ==> (#[trigger] arp_notes(key, 7)[i]).range.0.start@ == 4 * i * units_per_part()
                && arp_notes(key, 7)[i].range.0.end@ - arp_notes(key, 7)[i].range.0.start@ == 4
                * units_per_part(),
        forall|i: int|
            1 <= i < 7 ==> (#[trigger] arp_notes(key, 7)[i]).range.0.start == arp_notes(key, 7)[i
                - 1].range.0.end,
        forall|i: int|
            1 <= i < 7 ==> (#[trigger] arp_notes(key, 7)[i]).key - arp_notes(key, 7)[i - 1].key == if i
                == 3 {
                1int
            } else {
                2int
            },
{
    assert forall|i: int| 1 <= i < 7 implies (#[trigger] arp_notes(key, 7)[i]).range.0.start == arp_notes(
        key,
        7,
    )[i - 1].range.0.end by {
        assert(16384 * (i - 1) + 16384 == 16384 * i);
    }
    assert forall|i: int| 1 <= i < 7 implies (#[trigger] arp_notes(key, 7)[i]).key - arp_notes(key, 7)[i
        - 1].key == if i == 3 {
        1int
    } else {
        2int
    } by {
        if i == 1 {} else if i == 2 {} else if i == 3 {} else if i == 4 {} else if i == 5 {} else {}
    }
}

/// [Arpeggiator] creates [arpeggios](https://en.wikipedia.org/wiki/Arpeggio),
/// which "is a type of broken chord in which the notes that compose a chord are
/// individually and quickly sounded in a progressive rising or descending
/// order." You can also think of it as a hybrid MIDI instrument and MIDI
/// controller; you play it with MIDI, but instead of producing audio, it
/// produces more MIDI. Its tempo is held as the bit pattern of a 64-bit float.
#[derive(Debug)]
pub struct Arpeggiator {
    uid: Uid,
    midi_channel_out: MidiChannel,
    sequencer: NoteSequencer,
    is_sequencer_enabled: bool,
    bpm: u64,
    // A poor-man's semaphore that allows note-off events to overlap with the
    // current note without causing it to shut off.
    note_semaphore: i16,
}

impl Arpeggiator {
    /// The sequencer that plays the arpeggio.
    pub closed spec fn spec_sequencer(&self) -> NoteSequencer {
        self.sequencer
    }

    /// How many notes are held down.
    pub closed spec fn held(&self) -> int {
        self.note_semaphore as int
    }

    /// Whether the arpeggio is switched on.
    pub closed spec fn enabled(&self) -> bool {
        self.is_sequencer_enabled
    }

    /// The output channel.
    pub closed spec fn channel_out(&self) -> MidiChannel {
        self.midi_channel_out
    }

    /// The bits of the tempo.
    pub closed spec fn spec_bpm(&self) -> u64 {
        self.bpm
    }

    /// The sequencer's events are in time order, and the count of held notes
    /// is not negative.
    pub open spec fn wf(&self) -> bool {
        self.spec_sequencer().wf() && self.held() >= 0
    }

    /// Makes an arpeggiator with the given tempo bits, sending on
    /// `midi_channel_out`.
    pub fn new_with(bpm: u64, midi_channel_out: MidiChannel) -> (r: Self)
        ensures
            r.wf(),
            r.spec_bpm() == bpm,
            r.channel_out() == midi_channel_out,
            r.held() == 0,
            !r.enabled(),
            r.spec_sequencer().note_list().len() == 0,
            r.spec_sequencer().midi().events().len() == 0,
    {
        Arpeggiator {
            uid: Uid(0),
            midi_channel_out,
            sequencer: NoteSequencer::default(),
            is_sequencer_enabled: false,
            bpm,
            note_semaphore: 0,
        }
    }

    /// Records one note of the arpeggio at `at`.
    fn insert_one_note(&mut self, at: &MusicalTime, duration: &MusicalTime, key: u8, vel: u8)
        requires
            old(self).wf(),
            at@ + duration@ <= usize::MAX,
        ensures
            final(self).wf(),
            final(self).spec_sequencer().note_list() == old(self).spec_sequencer().note_list().push(
                Note {
                    key,
                    range: TimeRange(time_of_units(at@)..time_of_units(at@ + duration@)),
                },
            ),
            final(self).spec_sequencer().midi().events() == recorded_all(
                old(self).spec_sequencer().midi().events(),
                old(self).channel_out(),
                note_events(
                    Note {
                        key,
                        range: TimeRange(time_of_units(at@)..time_of_units(at@ + duration@)),
                    },
                ),
            ),
            final(self).spec_sequencer().midi().slice_start() == old(self).spec_sequencer().midi().slice_start(),
            final(self).spec_sequencer().midi().slice_end() == old(self).spec_sequencer().midi().slice_end(),
            final(self).spec_sequencer().midi().performing() == old(self).spec_sequencer().midi().performing(),
            final(self).spec_sequencer().midi().recording() == old(self).spec_sequencer().midi().recording(),
            final(self).held() == old(self).held(),
            final(self).enabled() == old(self).enabled(),
            final(self).channel_out() == old(self).channel_out(),
            final(self).spec_bpm() == old(self).spec_bpm(),
    {
        let note = Note::new_with(key, MusicalTime::start(), *duration);
        let _ = self.sequencer.record(self.midi_channel_out, &note, *at);
    }

    /// Replaces the sequence with the arpeggio on `key`: seven quarter-beat
    /// notes climbing the major scale from `key`.
    fn rebuild_sequence(&mut self, key: u8, vel: u8)
        requires
            old(self).wf(),
            key < 128,
        ensures
            final(self).wf(),
            final(self).spec_sequencer().note_list() == arp_notes(key as nat, 7),
            final(self).spec_sequencer().midi().events() == arp_events(old(self).channel_out(), key as nat, 7),
            final(self).spec_sequencer().midi().slice_start() == old(self).spec_sequencer().midi().slice_start(),
            final(self).spec_sequencer().midi().slice_end() == old(self).spec_sequencer().midi().slice_end(),
            final(self).spec_sequencer().midi().performing() == old(self).spec_sequencer().midi().performing(),
            final(self).spec_sequencer().midi().recording() == old(self).spec_sequencer().midi().recording(),
            final(self).held() == old(self).held(),
            final(self).enabled() == old(self).enabled(),
            final(self).channel_out() == old(self).channel_out(),
            final(self).spec_bpm() == old(self).spec_bpm(),
    {
        self.sequencer.clear();
        let start_beat = MusicalTime::start();
        let duration = MusicalTime::new_with_parts(4);
        let scale_notes: [u8; 7] = [0, 2, 4, 5, 7, 9, 11];
        assert(self.spec_sequencer().note_list() =~= arp_notes(key as nat, 0));
        assert(self.spec_sequencer().midi().events() =~= arp_events(old(self).channel_out(), key as nat, 0));
        let mut index: usize = 0;
        while index < 7
            invariant
                index <= 7,
                key < 128,
                duration@ == 16384,
                start_beat@ == 0,
                scale_notes@ == seq![0u8, 2, 4, 5, 7, 9, 11],
                self.wf(),
                self.spec_sequencer().note_list() == arp_notes(key as nat, index as nat),
                self.spec_sequencer().midi().events() == arp_events(old(self).channel_out(), key as nat, index as nat),
                self.spec_sequencer().midi().slice_start() == old(self).spec_sequencer().midi().slice_start(),
                self.spec_sequencer().midi().slice_end() == old(self).spec_sequencer().midi().slice_end(),
                self.spec_sequencer().midi().performing() == old(self).spec_sequencer().midi().performing(),
                self.spec_sequencer().midi().recording() == old(self).spec_sequencer().midi().recording(),
                self.held() == old(self).held(),
                self.enabled() == old(self).enabled(),
                self.channel_out() == old(self).channel_out(),
                self.spec_bpm() == old(self).spec_bpm(),
            decreases 7 - index,
        {
            let offset = scale_notes[index];
            let at = start_beat + MusicalTime::new_with_parts(4 * index);
            assert(offset as nat == arp_offset(index as int));
            self.insert_one_note(&at, &duration, key + offset, vel);
            proof {
                let n = arp_note(key as nat, index as nat);
                assert(self.spec_sequencer().note_list() =~= arp_notes(key as nat, (index + 1) as nat));
            }
            index = index + 1;
        }
    }

    /// The bits of the tempo.
    pub fn bpm(&self) -> (r: u64)
        ensures
            r == self.spec_bpm(),
    {
        self.bpm
    }

    /// Sets the bits of the tempo.
    pub fn set_bpm(&mut self, bpm: u64)
        ensures
            final(self).spec_bpm() == bpm,
            final(self).spec_sequencer() == old(self).spec_sequencer(),
            final(self).held() == old(self).held(),
            final(self).enabled() == old(self).enabled(),
            final(self).channel_out() == old(self).channel_out(),
    {
        self.bpm = bpm;
    }

    /// Sets the time slice that the next [Arpeggiator::work] applies to.
    pub fn update_time(&mut self, range: &core::ops::Range<MusicalTime>)
        ensures
            final(self).spec_sequencer().note_list() == old(self).spec_sequencer().note_list(),
            final(self).spec_sequencer().midi().events() == old(self).spec_sequencer().midi().events(),
            final(self).spec_sequencer().midi().slice_start() == range.start,
            final(self).spec_sequencer().midi().slice_end() == range.end,
            final(self).held() == old(self).held(),
            final(self).enabled() == old(self).enabled(),
            final(self).channel_out() == old(self).channel_out(),
            final(self).spec_bpm() == old(self).spec_bpm(),
    {
        self.sequencer.update_time(range);
    }

    /// The channel and message of every arpeggio event in the current time
    /// slice.
    pub fn work(&self) -> (r: Vec<(MidiChannel, MidiMessage)>)
        ensures
            r@ == self.spec_sequencer().midi().events().filter(
                in_slice(
                    self.spec_sequencer().midi().slice_start()@,
                    self.spec_sequencer().midi().slice_end()@,
                ),
            ).map_values(|x: ChannelEvent| sent(x)),
    {
        self.sequencer.work()
    }

    /// Whether no arpeggio event is at or after the end of the current time slice.
    pub fn is_finished(&self) -> (r: bool)
        requires
            self.wf(),
        ensures
            r == forall|i: int| 0 <= i < self.spec_sequencer().midi().events().len() ==> (
            #[trigger] self.spec_sequencer().midi().events()[i]).1.time@
                < self.spec_sequencer().midi().slice_end()@,
    {
        self.sequencer.is_finished()
    }

    /// Starts a performance.
    pub fn play(&mut self)
        ensures
            final(self).spec_sequencer().midi().performing(),
            final(self).spec_sequencer().midi().events() == old(self).spec_sequencer().midi().events(),
    {
        self.sequencer.play();
    }

    /// Stops the performance.
    pub fn stop(&mut self)
        ensures
            !final(self).spec_sequencer().midi().performing(),
            final(self).spec_sequencer().midi().events() == old(self).spec_sequencer().midi().events(),
    {
        self.sequencer.stop();
    }

    /// Moves the time slice back to the start.
    pub fn skip_to_start(&mut self)
        ensures
            final(self).spec_sequencer().midi().slice_start()@ == 0,
            final(self).spec_sequencer().midi().slice_end()@ == 0,
            final(self).spec_sequencer().midi().events() == old(self).spec_sequencer().midi().events(),
    {
        self.sequencer.skip_to_start();
    }

    /// Whether a performance is under way.
    pub fn is_performing(&self) -> (r: bool)
        ensures
            r == self.spec_sequencer().midi().performing(),
    {
        self.sequencer.is_performing()
    }
}

impl HandlesMidi for Arpeggiator {
    open spec fn takes_message(&self, message: MidiMessage) -> bool {
        self.wf() && (message is NoteOn || message is NoteOff) && (message is NoteOn ==> self.held()
            < i16::MAX)
    }

    /// A note-on adds a held note and starts an arpeggio on its key; a
    /// note-off lets go of one held note, and the arpeggio stays on while any
    /// is held. Other messages are not handled.
    fn handle_midi_message(&mut self, channel: MidiChannel, message: MidiMessage)
        ensures
            final(self).wf(),
            final(self).channel_out() == old(self).channel_out(),
            final(self).spec_bpm() == old(self).spec_bpm(),
            final(self).spec_sequencer().midi().slice_start() == old(self).spec_sequencer().midi().slice_start(),
            final(self).spec_sequencer().midi().slice_end() == old(self).spec_sequencer().midi().slice_end(),
            final(self).spec_sequencer().midi().performing() == old(self).spec_sequencer().midi().performing(),
            final(self).spec_sequencer().midi().recording() == old(self).spec_sequencer().midi().recording(),
            match message {
                MidiMessage::NoteOff { key, vel } => {
                    &&& final(self).held() == if old(self).held() > 0 {
                        old(self).held() - 1
                    } else {
                        0
                    }
                    &&& final(self).enabled() == (final(self).held() > 0)
                    &&& final(self).spec_sequencer() == old(self).spec_sequencer()
                },
                MidiMessage::NoteOn { key, vel } => {
                    &&& final(self).held() == old(self).held() + 1
                    &&& final(self).enabled()
                    &&& final(self).spec_sequencer().note_list() == arp_notes(key.value(), 7)
                    &&& final(self).spec_sequencer().midi().events() == arp_events(
                        old(self).channel_out(),
                        key.value(),
                        7,
                    )
                },
                _ => false,
            },
    {
        match message {
            MidiMessage::NoteOff { key, vel } => {
                self.note_semaphore = self.note_semaphore - 1;
                if self.note_semaphore < 0 {
                    self.note_semaphore = 0;
                }
                self.is_sequencer_enabled = self.note_semaphore > 0;
            },
            MidiMessage::NoteOn { key, vel } => {
                self.note_semaphore = self.note_semaphore + 1;
                self.rebuild_sequence(key.as_int(), vel.as_int());
                self.is_sequencer_enabled = true;
            },
            _ => {},
        }
    }
}

} // verus!
