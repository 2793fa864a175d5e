//! The ways a sequencer can be driven: with MIDI messages, with recorded
//! MIDI events, and with musical units such as notes and patterns.
use crate::midi::{MidiChannel, MidiEvent, MidiMessage};
use crate::sequencers::SequencerError;
use crate::time::MusicalTime;
use vstd::prelude::*;

verus! {

/// Something that takes MIDI messages.
pub trait HandlesMidi {
    /// Whether the handler can take `message` in its present state.
    spec fn takes_message(&self, message: MidiMessage) -> bool;

    /// Handles an incoming MIDI message on a channel.
    fn handle_midi_message(&mut self, channel: MidiChannel, message: MidiMessage)
        requires
            old(self).takes_message(message),
    ;
}

/// Something that records and replays MIDI events.
pub trait SequencesMidi: HandlesMidi {
    /// Whether the sequencer is in a state to record and remove events.
    spec fn midi_ready(&self) -> bool;

    /// Records a [MidiMessage] at the given [MusicalTime] on the given
    /// [MidiChannel].
    fn record_midi_message(&mut self, channel: MidiChannel, message: MidiMessage, time: MusicalTime) -> (r:
        Result<(), SequencerError>)
        requires
            old(self).midi_ready(),
    ;

    /// Records a [MidiEvent] on the given [MidiChannel].
    fn record_midi_event(&mut self, channel: MidiChannel, event: MidiEvent) -> (r: Result<(), SequencerError>)
        requires
            old(self).midi_ready(),
    ;

    /// Removes all recorded messages.
    fn clear(&mut self);

    /// Deletes all recorded [MidiMessage]s matching the provided parameters.
    fn remove_midi_message(&mut self, channel: MidiChannel, message: MidiMessage, time: MusicalTime) -> (r:
        Result<(), SequencerError>)
        requires
            old(self).midi_ready(),
    ;

    /// Deletes all recorded [MidiEvent]s matching the provided parameters.
    fn remove_midi_event(&mut self, channel: MidiChannel, event: MidiEvent) -> (r: Result<(), SequencerError>)
        requires
            old(self).midi_ready(),
    ;

    /// Starts recording. Messages that come in through
    /// [HandlesMidi::handle_midi_message] are recorded as of the start of the
    /// current time slice.
    fn start_recording(&mut self);

    /// Whether the sequencer is recording.
    fn is_recording(&self) -> bool;
}

/// Something that records and replays musical units: notes, patterns, and
/// the like.
pub trait Sequences {
    /// The musical unit.
    type MU;

    /// Whether `unit` can be placed at `position` in the present state.
    spec fn can_place(&self, unit: &Self::MU, position: MusicalTime) -> bool;

    /// Whether the sequencer is in a state to be cleared.
    spec fn sequences_ready(&self) -> bool;

    /// Records `unit` on `channel`, with its times taken relative to `position`.
    fn record(&mut self, channel: MidiChannel, unit: &Self::MU, position: MusicalTime) -> (r: Result<
        (),
        SequencerError,
    >)
        requires
            old(self).can_place(unit, position),
    ;

    /// Removes `unit` placed at `position` on `channel`, if it was recorded.
    fn remove(&mut self, channel: MidiChannel, unit: &Self::MU, position: MusicalTime) -> (r: Result<
        (),
        SequencerError,
    >)
        requires
            old(self).can_place(unit, position),
    ;

    /// Removes all recorded units.
    fn clear(&mut self)
        requires
            old(self).sequences_ready(),
    ;
}

/// Something that has work to do right after it is read back from storage.
pub trait Serializable {
    /// Whether the value is in a state to finish loading.
    spec fn loadable(&self) -> bool;

    /// Called just after loading from storage.
    fn after_deser(&mut self)
        requires
            old(self).loadable(),
    ;
}

} // verus!
