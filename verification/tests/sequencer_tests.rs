use ensnare::composition::Note;
use ensnare::even_smaller_sequencer::{ESSequencer, ESSequencerBuilder};
use ensnare::live_pattern::LivePatternSequencer;
use ensnare::midi::{new_note_off, new_note_on, MidiChannel, MidiMessage, MidiNote, U7};
use ensnare::midi_note_minder::MidiNoteMinder;
use ensnare::piano_roll::{Pattern, PatternBuilder, PatternUid, PianoRoll};
use ensnare::sequencers::{MidiSequencer, NoteSequencer, PatternSequencer};
use ensnare::time::{MusicalTime, TimeRange};
use ensnare::traits::{HandlesMidi, Sequences, SequencesMidi, Serializable};
use ensnare::uid::Uid;

const SAMPLE_MIDI_CHANNEL: MidiChannel = MidiChannel(7);

fn note_on_60() -> MidiMessage {
    MidiMessage::NoteOn {
        key: U7::from_int_lossy(60),
        vel: U7::from_int_lossy(100),
    }
}

fn note_off_60() -> MidiMessage {
    MidiMessage::NoteOff {
        key: U7::from_int_lossy(60),
        vel: U7::from_int_lossy(100),
    }
}

fn replay_midi(
    s: &mut MidiSequencer,
    start_time: MusicalTime,
    duration: MusicalTime,
) -> Vec<(MidiChannel, MidiMessage)> {
    s.update_time(&(start_time..start_time + duration));
    s.work()
}

fn replay_all_midi(s: &mut MidiSequencer) -> Vec<(MidiChannel, MidiMessage)> {
    replay_midi(s, MusicalTime::time_zero(), MusicalTime::time_max())
}

fn replay_all_notes(s: &mut NoteSequencer) -> Vec<(MidiChannel, MidiMessage)> {
    s.update_time(&(MusicalTime::time_zero()..MusicalTime::time_zero() + MusicalTime::time_max()));
    s.work()
}

fn replay_all_patterns(s: &mut PatternSequencer) -> Vec<(MidiChannel, MidiMessage)> {
    s.update_time(&(MusicalTime::time_zero()..MusicalTime::time_zero() + MusicalTime::time_max()));
    s.work()
}

fn replay_all_live(s: &mut LivePatternSequencer) -> Vec<(MidiChannel, MidiMessage)> {
    s.update_time(&(MusicalTime::time_zero()..MusicalTime::time_zero() + MusicalTime::time_max()));
    s.work()
}

fn four_note_pattern() -> Pattern {
    PatternBuilder::default()
        .note(Note::new_with_midi_note(
            MidiNote::C0,
            MusicalTime::new_with_beats(0),
            MusicalTime::duration_whole(),
        ))
        .note(Note::new_with_midi_note(
            MidiNote::C0,
            MusicalTime::new_with_beats(1),
            MusicalTime::duration_whole(),
        ))
        .note(Note::new_with_midi_note(
            MidiNote::C0,
            MusicalTime::new_with_beats(2),
            MusicalTime::duration_whole(),
        ))
        .note(Note::new_with_midi_note(
            MidiNote::C0,
            MusicalTime::new_with_beats(3),
            MusicalTime::duration_whole(),
        ))
        .build()
        .unwrap()
}

#[test]
fn midi_sequencer_passes_trait_validation() {
    let mut sequences = MidiSequencer::default();

    assert!(replay_all_midi(&mut sequences).is_empty());
    assert!(sequences
        .record_midi_message(SAMPLE_MIDI_CHANNEL, note_off_60(), MusicalTime::start())
        .is_ok());
    assert_eq!(
        replay_all_midi(&mut sequences).len(),
        1,
        "sequencer should contain one recorded message"
    );
    sequences.clear();
    assert!(replay_all_midi(&mut sequences).is_empty());

    assert!(
        sequences.is_finished(),
        "An empty sequencer should always be finished."
    );
    assert!(
        !sequences.is_performing(),
        "A sequencer should not be performing before play()"
    );

    assert!(!sequences.is_recording());
    sequences.handle_midi_message(MidiChannel::default(), note_on_60());
    assert!(
        replay_all_midi(&mut sequences).is_empty(),
        "sequencer should ignore incoming messages when not recording"
    );

    sequences.start_recording();
    assert!(sequences.is_recording());
    sequences.update_time(&(MusicalTime::new_with_beats(1)..MusicalTime::duration_quarter()));
    sequences.handle_midi_message(MidiChannel::default(), note_on_60());
    sequences.update_time(&(MusicalTime::new_with_beats(2)..MusicalTime::duration_quarter()));
    sequences.handle_midi_message(MidiChannel::default(), note_off_60());
    assert_eq!(
        replay_all_midi(&mut sequences).len(),
        2,
        "sequencer should reflect recorded messages even while recording"
    );
    sequences.stop();
    assert_eq!(
        replay_all_midi(&mut sequences).len(),
        2,
        "sequencer should reflect recorded messages after recording"
    );

    assert!(
        replay_midi(
            &mut sequences,
            MusicalTime::new_with_beats(0),
            MusicalTime::duration_quarter(),
        )
        .is_empty(),
        "sequencer should replay no events for time slice before recorded events"
    );

    assert_eq!(
        replay_midi(
            &mut sequences,
            MusicalTime::new_with_beats(1),
            MusicalTime::duration_quarter(),
        )
        .len(),
        1,
        "sequencer should produce appropriate messages for time slice"
    );

    assert_eq!(
        replay_all_midi(&mut sequences).len(),
        2,
        "sequencer should produce appropriate messages for time slice"
    );
}

fn validate_note_sequencer(s: &mut NoteSequencer) {
    let sample_note = Note::new_with(60, MusicalTime::start(), MusicalTime::duration_quarter());

    s.clear();

    assert!(replay_all_notes(s).is_empty());
    assert!(s
        .record(SAMPLE_MIDI_CHANNEL, &sample_note, MusicalTime::start())
        .is_ok());
    let message_count = replay_all_notes(s).len();
    assert_eq!(
        message_count, 2,
        "After recording a Note, two new messages should be recorded."
    );

    assert!(s
        .remove(
            SAMPLE_MIDI_CHANNEL,
            &sample_note,
            MusicalTime::start() + MusicalTime::new_with_units(1)
        )
        .is_ok());
    assert_eq!(
        replay_all_notes(s).len(),
        message_count,
        "Number of messages should remain unchanged after removing nonexistent Note"
    );

    assert!(s
        .remove(SAMPLE_MIDI_CHANNEL, &sample_note, MusicalTime::start())
        .is_ok());
    assert!(
        replay_all_notes(s).is_empty(),
        "Sequencer should be empty after removing last note"
    );
}

#[test]
fn sequencer_works() {
    let mut s = NoteSequencer::default();

    validate_note_sequencer(&mut s);
}

#[test]
fn note_sequencer_passes_trait_validation() {
    let mut s = NoteSequencer::default();

    validate_note_sequencer(&mut s);
}

#[test]
fn pattern_sequencer_passes_trait_validation() {
    let mut s = PatternSequencer::default();

    s.clear();

    {
        let pattern = PatternBuilder::default().build().unwrap();

        assert!(replay_all_patterns(&mut s).is_empty());
        assert!(s
            .record(SAMPLE_MIDI_CHANNEL, &pattern, MusicalTime::start())
            .is_ok());
        let message_count = replay_all_patterns(&mut s).len();
        assert_eq!(
            message_count, 0,
            "After recording an empty pattern, no new messages should be recorded."
        );
    }
    {
        let pattern = four_note_pattern();

        assert!(s
            .record(SAMPLE_MIDI_CHANNEL, &pattern, MusicalTime::start())
            .is_ok());
        let message_count = replay_all_patterns(&mut s).len();
        assert_eq!(
            message_count, 8,
            "After recording an pattern with four notes, eight new messages should be recorded."
        );

        assert!(s
            .remove(
                SAMPLE_MIDI_CHANNEL,
                &pattern,
                MusicalTime::start() + MusicalTime::new_with_units(1)
            )
            .is_ok());
        assert_eq!(
            replay_all_patterns(&mut s).len(),
            message_count,
            "Number of messages should remain unchanged after removing nonexistent item"
        );

        assert!(s
            .remove(SAMPLE_MIDI_CHANNEL, &pattern, MusicalTime::start())
            .is_ok());
        assert!(
            replay_all_patterns(&mut s).is_empty(),
            "Sequencer should be empty after removing pattern"
        );
    }
}

#[test]
fn live_pattern_sequencer_passes_trait_validation() {
    let mut piano_roll = PianoRoll::default();
    let mut s = LivePatternSequencer::new_with(Uid(2048));

    let empty_pattern_uid = piano_roll.insert(PatternBuilder::default().build().unwrap());
    let ordinary_pattern_uid = piano_roll.insert(four_note_pattern());

    s.clear();

    {
        assert!(replay_all_live(&mut s).is_empty());
        assert!(s
            .record(
                &piano_roll,
                SAMPLE_MIDI_CHANNEL,
                &empty_pattern_uid,
                MusicalTime::start()
            )
            .is_ok());
        let message_count = replay_all_live(&mut s).len();
        assert_eq!(
            message_count, 0,
            "After recording an empty pattern, no new messages should be recorded."
        );
    }
    {
        assert!(s
            .record(
                &piano_roll,
                SAMPLE_MIDI_CHANNEL,
                &ordinary_pattern_uid,
                MusicalTime::start()
            )
            .is_ok());
        let message_count = replay_all_live(&mut s).len();
        assert_eq!(
            message_count, 8,
            "After recording an pattern with four notes, eight new messages should be recorded."
        );

        assert!(s
            .remove(
                &piano_roll,
                SAMPLE_MIDI_CHANNEL,
                &ordinary_pattern_uid,
                MusicalTime::start() + MusicalTime::new_with_units(1)
            )
            .is_ok());
        assert_eq!(
            replay_all_live(&mut s).len(),
            message_count,
            "Number of messages should remain unchanged after removing nonexistent item"
        );

        assert!(s
            .remove(
                &piano_roll,
                SAMPLE_MIDI_CHANNEL,
                &ordinary_pattern_uid,
                MusicalTime::start()
            )
            .is_ok());
        assert!(
            replay_all_live(&mut s).is_empty(),
            "Sequencer should be empty after removing pattern"
        );
    }
    assert_eq!(s.uid(), Uid(2048));
}

#[test]
fn live_sequencer_can_find_patterns() {
    let mut piano_roll = PianoRoll::default();
    let pattern_uid = piano_roll.insert(four_note_pattern());

    let mut s = LivePatternSequencer::new_with(Uid(1024));
    let _ = s.record(
        &piano_roll,
        MidiChannel::default(),
        &pattern_uid,
        MusicalTime::new_with_beats(20),
    );

    assert!(s.pattern_uid_for_position(MusicalTime::start()).is_none());
    assert!(s.pattern_uid_for_position(MusicalTime::time_max()).is_none());
    assert!(s
        .pattern_uid_for_position(MusicalTime::new_with_beats(19))
        .is_none());
    // The pattern is four beats long.
    assert!(s
        .pattern_uid_for_position(MusicalTime::new_with_beats(20) + MusicalTime::new_with_beats(4))
        .is_none());

    assert!(s
        .pattern_uid_for_position(MusicalTime::new_with_beats(20))
        .is_some());
    assert!(s
        .pattern_uid_for_position(MusicalTime::new_with_beats(24) - MusicalTime::new_with_units(1))
        .is_some());

    s.clear();
}

#[test]
fn live_sequencer_reports_missing_pattern() {
    let piano_roll = PianoRoll::new();
    let mut s = LivePatternSequencer::new_with(Uid(1));
    assert_eq!(
        s.record(
            &piano_roll,
            MidiChannel::default(),
            &PatternUid(5),
            MusicalTime::start()
        ),
        Err(ensnare::sequencers::SequencerError::PatternNotFound)
    );
    assert!(replay_all_live(&mut s).is_empty());
}

#[test]
fn live_sequencer_plays_pattern_as_edited() {
    let mut piano_roll = PianoRoll::new();
    let uid = piano_roll.insert(four_note_pattern());
    let mut s = LivePatternSequencer::new_with(Uid(1));
    assert!(s
        .record(&piano_roll, MidiChannel(3), &uid, MusicalTime::new_with_beats(4))
        .is_ok());
    assert_eq!(s.pattern_uid_for_position(MusicalTime::new_with_beats(5)), Some(uid));
    let first = replay_all_live(&mut s);
    assert_eq!(first.len(), 8);
    assert!(first.iter().all(|(c, _)| *c == MidiChannel(3)));

    // Edit the pattern, then remove an arrangement that does not exist: the
    // replay picks up the edit, on channel zero.
    if let Some(p) = piano_roll.get_pattern_mut(&uid) {
        p.clear();
    }
    assert!(s
        .remove(&piano_roll, MidiChannel(3), &uid, MusicalTime::start())
        .is_ok());
    assert!(replay_all_live(&mut s).is_empty());
    assert_eq!(s.pattern_uid_for_position(MusicalTime::new_with_beats(5)), Some(uid));
}

#[test]
fn midi_events_are_kept_in_time_order() {
    let mut s = MidiSequencer::default();
    let _ = s.record_midi_message(MidiChannel(1), note_off_60(), MusicalTime::new_with_beats(2));
    let _ = s.record_midi_message(MidiChannel(2), note_on_60(), MusicalTime::new_with_beats(1));
    let _ = s.record_midi_message(MidiChannel(3), note_on_60(), MusicalTime::new_with_beats(2));
    let all = replay_all_midi(&mut s);
    assert_eq!(
        all,
        vec![
            (MidiChannel(2), note_on_60()),
            (MidiChannel(1), note_off_60()),
            (MidiChannel(3), note_on_60()),
        ]
    );
    let _ = s.remove_midi_message(MidiChannel(1), note_off_60(), MusicalTime::new_with_beats(2));
    assert_eq!(replay_all_midi(&mut s).len(), 2);
    s.play();
    assert!(s.is_performing());
    s.skip_to_start();
    assert!(!s.is_finished(), "events after the slice are still to come");
}

fn replay_es(
    s: &mut ESSequencer,
    start_time: MusicalTime,
    duration: MusicalTime,
) -> Vec<(MidiChannel, MidiMessage)> {
    s.update_time(&(start_time..start_time + duration));
    s.work()
}

fn replay_all_es(s: &mut ESSequencer) -> Vec<(MidiChannel, MidiMessage)> {
    replay_es(s, MusicalTime::time_zero(), MusicalTime::time_max())
}

#[test]
fn basic() {
    let mut s = ESSequencer::default();
    assert!(s.notes().is_empty(), "default sequencer has no notes");
    assert!(replay_all_es(&mut s).is_empty(), "default sequencer has no events");
}

#[test]
fn adding_notes_translates_to_events() {
    let mut s = ESSequencerBuilder::default()
        .note(Note {
            key: 69,
            range: TimeRange(
                MusicalTime::duration_whole()
                    ..MusicalTime::duration_whole() + MusicalTime::duration_quarter(),
            ),
        })
        .build()
        .unwrap();
    s.after_deser();
    assert_eq!(
        replay_all_es(&mut s).len(),
        2,
        "Adding one note should create two events"
    );

    let _ = s.append_note(&Note {
        key: 70,
        range: TimeRange(
            MusicalTime::duration_whole()
                ..MusicalTime::duration_whole() + MusicalTime::duration_quarter(),
        ),
    });
    assert_eq!(
        replay_all_es(&mut s).len(),
        4,
        "Adding a second note should create two more events"
    );
}

#[test]
fn adding_patterns_translates_to_events() {
    let mut s = ESSequencerBuilder::default()
        .pattern((
            MusicalTime::duration_quarter(),
            PatternBuilder::default()
                .note(Note {
                    key: 1,
                    range: TimeRange(
                        MusicalTime::start()..MusicalTime::start() + MusicalTime::duration_quarter(),
                    ),
                })
                .build()
                .unwrap(),
        ))
        .build()
        .unwrap();
    s.after_deser();
    assert_eq!(
        replay_all_es(&mut s).len(),
        2,
        "Adding a pattern with one note should create two events"
    );

    let _ = s.append_pattern(
        &PatternBuilder::default()
            .note(Note {
                key: 1,
                range: TimeRange(
                    MusicalTime::start()..MusicalTime::start() + MusicalTime::duration_quarter(),
                ),
            })
            .build()
            .unwrap(),
    );
    assert_eq!(
        replay_all_es(&mut s).len(),
        4,
        "Appending another pattern with one note should create two more events"
    );
}

#[test]
fn sequencer_passes_sequences_trait_validation() {
    let mut s = ESSequencerBuilder::default().build().unwrap();

    // The MIDI sequencing checks.
    assert!(replay_all_es(&mut s).is_empty());
    assert!(s
        .record_midi_message(SAMPLE_MIDI_CHANNEL, note_off_60(), MusicalTime::start())
        .is_ok());
    assert_eq!(
        replay_all_es(&mut s).len(),
        1,
        "sequencer should contain one recorded message"
    );
    SequencesMidi::clear(&mut s);
    assert!(replay_all_es(&mut s).is_empty());
    assert!(
        s.is_finished(),
        "An empty sequencer should always be finished."
    );
    assert!(
        !s.is_performing(),
        "A sequencer should not be performing before play()"
    );
    assert!(!s.is_recording());
    s.handle_midi_message(MidiChannel::default(), note_on_60());
    assert!(
        replay_all_es(&mut s).is_empty(),
        "sequencer should ignore incoming messages when not recording"
    );
    s.start_recording();
    assert!(s.is_recording());
    s.update_time(&(MusicalTime::new_with_beats(1)..MusicalTime::duration_quarter()));
    s.handle_midi_message(MidiChannel::default(), note_on_60());
    s.update_time(&(MusicalTime::new_with_beats(2)..MusicalTime::duration_quarter()));
    s.handle_midi_message(MidiChannel::default(), note_off_60());
    assert_eq!(
        replay_all_es(&mut s).len(),
        2,
        "sequencer should reflect recorded messages even while recording"
    );
    s.stop();
    assert_eq!(
        replay_all_es(&mut s).len(),
        2,
        "sequencer should reflect recorded messages after recording"
    );
    assert!(
        replay_es(
            &mut s,
            MusicalTime::new_with_beats(0),
            MusicalTime::duration_quarter()
        )
        .is_empty(),
        "sequencer should replay no events for time slice before recorded events"
    );
    assert_eq!(
        replay_es(
            &mut s,
            MusicalTime::new_with_beats(1),
            MusicalTime::duration_quarter()
        )
        .len(),
        1,
        "sequencer should produce appropriate messages for time slice"
    );
    assert_eq!(
        replay_all_es(&mut s).len(),
        2,
        "sequencer should produce appropriate messages for time slice"
    );

    // The note sequencing checks.
    let sample_note = Note::new_with(60, MusicalTime::start(), MusicalTime::duration_quarter());
    Sequences::clear(&mut s);
    assert!(replay_all_es(&mut s).is_empty());
    assert!(s
        .record(SAMPLE_MIDI_CHANNEL, &sample_note, MusicalTime::start())
        .is_ok());
    let message_count = replay_all_es(&mut s).len();
    assert_eq!(
        message_count, 2,
        "After recording a Note, two new messages should be recorded."
    );
    assert!(s
        .remove(
            SAMPLE_MIDI_CHANNEL,
            &sample_note,
            MusicalTime::start() + MusicalTime::new_with_units(1)
        )
        .is_ok());
    assert_eq!(
        replay_all_es(&mut s).len(),
        message_count,
        "Number of messages should remain unchanged after removing nonexistent Note"
    );
    assert!(s
        .remove(SAMPLE_MIDI_CHANNEL, &sample_note, MusicalTime::start())
        .is_ok());
    assert!(
        replay_all_es(&mut s).is_empty(),
        "Sequencer should be empty after removing last note"
    );
}

#[test]
fn es_sequencer_events_are_in_time_order() {
    let mut s = ESSequencer::default();
    let _ = s.insert_note(
        &Note::new_with(64, MusicalTime::new_with_beats(2), MusicalTime::duration_quarter()),
        MusicalTime::start(),
    );
    let _ = s.insert_note(
        &Note::new_with(62, MusicalTime::start(), MusicalTime::duration_quarter()),
        MusicalTime::new_with_beats(1),
    );
    let all = replay_all_es(&mut s);
    assert_eq!(all.len(), 4);
    assert_eq!(
        all[0],
        (
            MidiChannel(0),
            MidiMessage::NoteOn {
                key: U7::from_int_lossy(62),
                vel: U7::from_int_lossy(127)
            }
        )
    );
    assert_eq!(
        all[3],
        (
            MidiChannel(0),
            MidiMessage::NoteOff {
                key: U7::from_int_lossy(64),
                vel: U7::from_int_lossy(0)
            }
        )
    );
    let _ = s.remove_midi_message(
        MidiChannel(9),
        MidiMessage::NoteOn {
            key: U7::from_int_lossy(62),
            vel: U7::from_int_lossy(127),
        },
        MusicalTime::new_with_beats(1),
    );
    assert_eq!(replay_all_es(&mut s).len(), 3);
    s.toggle_note(Note::new_with(1, MusicalTime::start(), MusicalTime::duration_quarter()));
    assert_eq!(s.notes().len(), 3);
    s.toggle_note(Note::new_with(1, MusicalTime::start(), MusicalTime::duration_quarter()));
    assert_eq!(s.notes().len(), 2);
    assert!(s.is_finished(), "the last slice ran to the end of time");
    s.update_time(&(MusicalTime::start()..MusicalTime::new_with_beats(1)));
    assert!(!s.is_finished(), "the last note ends after the second beat");
}

#[test]
fn random_es_notes_fall_in_range() {
    let s = ESSequencerBuilder::default()
        .random(MusicalTime::new_with_beats(4)..MusicalTime::new_with_beats(8))
        .build()
        .unwrap();
    assert_eq!(s.notes().len(), 32);
    for n in s.notes() {
        assert!((16..100).contains(&n.key));
        assert!(n.range.0.start >= MusicalTime::new_with_beats(4));
        assert!(n.range.0.start < MusicalTime::new_with_beats(8));
    }
}

fn gather_all_messages(mnm: &mut MidiNoteMinder) -> Vec<MidiMessage> {
    mnm.work().into_iter().map(|(_, m)| m).collect()
}

#[test]
fn midi_note_minder() {
    let mut mnm = MidiNoteMinder::default();

    assert!(gather_all_messages(&mut mnm).is_empty());

    // Unexpected note-off doesn't explode
    mnm.handle_midi_message(MidiChannel::default(), new_note_off(42, 111));
    assert!(gather_all_messages(&mut mnm).is_empty());

    // normal
    mnm.handle_midi_message(MidiChannel::default(), new_note_on(42, 99));
    let msgs = gather_all_messages(&mut mnm);
    assert_eq!(msgs.len(), 1);
    assert_eq!(
        msgs[0],
        MidiMessage::NoteOff {
            key: U7::from_int_lossy(42),
            vel: U7::from_int_lossy(0)
        }
    );

    // duplicate on doesn't explode or add twice
    mnm.handle_midi_message(MidiChannel::default(), new_note_on(42, 88));
    let msgs = gather_all_messages(&mut mnm);
    assert_eq!(msgs.len(), 1);
    assert_eq!(
        msgs[0],
        MidiMessage::NoteOff {
            key: U7::from_int_lossy(42),
            vel: U7::from_int_lossy(0)
        }
    );

    // normal
    mnm.handle_midi_message(MidiChannel::default(), new_note_off(42, 77));
    assert!(gather_all_messages(&mut mnm).is_empty());

    // duplicate off doesn't explode
    mnm.handle_midi_message(MidiChannel::default(), new_note_off(42, 66));
    assert!(gather_all_messages(&mut mnm).is_empty());

    // velocity zero treated same as note-off
    mnm.handle_midi_message(MidiChannel::default(), new_note_on(42, 99));
    assert_eq!(gather_all_messages(&mut mnm).len(), 1);
    mnm.handle_midi_message(MidiChannel::default(), new_note_off(42, 99));
    assert!(gather_all_messages(&mut mnm).is_empty());
    mnm.handle_midi_message(MidiChannel::default(), new_note_on(42, 99));
    assert_eq!(gather_all_messages(&mut mnm).len(), 1);
    mnm.handle_midi_message(MidiChannel::default(), new_note_on(42, 0));
    assert!(gather_all_messages(&mut mnm).is_empty());
}

#[test]
fn midi_note_minder_turns_off_notes_in_key_order() {
    let mut mnm = MidiNoteMinder::default();
    mnm.handle_midi_message(MidiChannel(3), new_note_on(90, 10));
    mnm.handle_midi_message(MidiChannel(3), new_note_on(5, 10));
    mnm.handle_midi_message(MidiChannel(3), new_note_on(127, 10));
    let msgs = mnm.work();
    let keys: Vec<(MidiChannel, MidiMessage)> = vec![5u8, 90, 127]
        .into_iter()
        .map(|k| {
            (
                MidiChannel(0),
                MidiMessage::NoteOff {
                    key: U7::from_int_lossy(k),
                    vel: U7::from_int_lossy(0),
                },
            )
        })
        .collect();
    assert_eq!(msgs, keys);
    assert!(mnm.work().is_empty());
}

#[test]
fn pattern_sequencer_replays_its_patterns_after_loading() {
    let mut s = PatternSequencer::default();
    assert!(s
        .record(SAMPLE_MIDI_CHANNEL, &four_note_pattern(), MusicalTime::new_with_beats(8))
        .is_ok());
    assert_eq!(replay_all_patterns(&mut s).len(), 8);
    s.after_deser();
    let all = replay_all_patterns(&mut s);
    assert_eq!(all.len(), 16, "loading records the pattern's events once more");
    assert_eq!(all.iter().filter(|(c, _)| *c == MidiChannel(0)).count(), 8);
}

#[test]
fn live_sequencer_after_deser_replays_arrangements() {
    let mut piano_roll = PianoRoll::new();
    let uid = piano_roll.insert(four_note_pattern());
    let mut s = LivePatternSequencer::new_with(Uid(3));
    let _ = s.record(&piano_roll, MidiChannel(5), &uid, MusicalTime::start());
    let _ = s.record(&piano_roll, MidiChannel(5), &uid, MusicalTime::new_with_beats(4));
    // Removing nothing replays both arrangements on channel zero.
    let _ = s.remove(&piano_roll, MidiChannel(5), &uid, MusicalTime::new_with_beats(1));
    let all = replay_all_live(&mut s);
    assert_eq!(all.len(), 16);
    assert!(all.iter().all(|(c, _)| *c == MidiChannel(0)));
}

#[test]
fn toggling_an_absent_note_twice_restores_the_notes() {
    let mut s = ESSequencerBuilder::default()
        .note(Note::new_with(60, MusicalTime::start(), MusicalTime::duration_quarter()))
        .note(Note::new_with(62, MusicalTime::new_with_beats(1), MusicalTime::duration_quarter()))
        .build()
        .unwrap();
    let before: Vec<Note> = s.notes().to_vec();
    let extra = Note::new_with(64, MusicalTime::new_with_beats(2), MusicalTime::duration_quarter());
    s.toggle_note(extra.clone());
    assert_eq!(s.notes().len(), 3);
    assert_eq!(s.notes()[2], extra);
    s.toggle_note(extra);
    assert_eq!(s.notes(), before.as_slice());
}
