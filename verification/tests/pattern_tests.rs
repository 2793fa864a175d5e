use ensnare::composition::Note;
use ensnare::midi::MidiNote;
use ensnare::piano_roll::{Pattern, PatternBuilder, PatternError, PatternUid, PianoRoll};
use ensnare::time::{MusicalTime, TimeRange, TimeSignature};

/// half-note
fn test_c4() -> Note {
    Note {
        key: MidiNote::C4.key(),
        range: TimeRange(MusicalTime::start()..MusicalTime::duration_half()),
    }
}

/// whole note
fn test_d4() -> Note {
    Note {
        key: MidiNote::D4.key(),
        range: TimeRange(MusicalTime::start()..MusicalTime::duration_whole()),
    }
}

/// two whole notes
fn test_e4() -> Note {
    Note {
        key: MidiNote::E4.key(),
        range: TimeRange(MusicalTime::start()..MusicalTime::duration_breve()),
    }
}

#[test]
fn pattern_defaults() {
    let p = Pattern::default();
    assert_eq!(p.note_count(), 0, "Default pattern should have zero notes");

    let p = PatternBuilder::default().build().unwrap();
    assert_eq!(
        p.note_count(),
        0,
        "Default built pattern should have zero notes"
    );

    assert_eq!(
        p.time_signature(),
        TimeSignature::common_time(),
        "Default built pattern should have 4/4 time signature"
    );

    assert_eq!(
        p.duration(),
        MusicalTime::new_with_bars(&TimeSignature::common_time(), 1),
        "Default built pattern's duration should be one measure"
    );
}

#[test]
fn pattern_one_half_note_is_one_bar() {
    let mut p = PatternBuilder::default().build().unwrap();
    p.add_note(test_c4());
    assert_eq!(
        p.duration().total_bars(&p.time_signature()),
        1,
        "Pattern with one half-note should be 1 bar"
    );
}

#[test]
fn pattern_one_breve_is_one_bar() {
    let mut p = PatternBuilder::default().build().unwrap();
    p.add_note(test_e4());
    assert_eq!(
        p.duration().total_bars(&p.time_signature()),
        1,
        "Pattern with one note of length breve should be 1 bar"
    );
}

#[test]
fn pattern_one_long_note_is_one_bar() {
    let p = PatternBuilder::default()
        .note(Note::new_with_midi_note(
            MidiNote::C0,
            MusicalTime::new_with_beats(0),
            MusicalTime::new_with_beats(4),
        ))
        .build()
        .unwrap();
    assert_eq!(
        p.duration().total_bars(&p.time_signature()),
        1,
        "Pattern with a single bar-long note is one bar"
    );
}

#[test]
fn pattern_one_beat_with_1_4_time_signature_is_one_bar() {
    let p = PatternBuilder::default()
        .time_signature(TimeSignature::new_with(1, 4).unwrap())
        .note(Note::new_with_midi_note(
            MidiNote::C0,
            MusicalTime::new_with_beats(0),
            MusicalTime::new_with_beats(1),
        ))
        .build()
        .unwrap();
    assert_eq!(
        p.duration().total_bars(&p.time_signature()),
        1,
        "Pattern with a single whole note in 1/4 time is one bar"
    );
}

#[test]
fn pattern_three_half_notes_is_one_bar() {
    let p = PatternBuilder::default()
        .note(Note::new_with_midi_note(
            MidiNote::C0,
            MusicalTime::new_with_beats(0),
            MusicalTime::duration_half(),
        ))
        .note(Note::new_with_midi_note(
            MidiNote::C0,
            MusicalTime::new_with_beats(1),
            MusicalTime::duration_half(),
        ))
        .note(Note::new_with_midi_note(
            MidiNote::C0,
            MusicalTime::new_with_beats(2),
            MusicalTime::duration_half(),
        ))
        .build()
        .unwrap();
    assert_eq!(
        p.duration().total_bars(&p.time_signature()),
        1,
        "Pattern with three half-notes on beat should be 1 bar"
    );
}

fn four_whole_notes(builder: &mut PatternBuilder) -> &mut PatternBuilder {
    builder
        .note(Note::new_with_midi_note(
            MidiNote::C0,
            MusicalTime::new_with_beats(0),
            MusicalTime::duration_whole(),
        ))
        .note(Note::new_with_midi_note(
            MidiNote::C0,
            MusicalTime::new_with_beats(1),
            MusicalTime::duration_whole(),
        ))
        .note(Note::new_with_midi_note(
            MidiNote::C0,
            MusicalTime::new_with_beats(2),
            MusicalTime::duration_whole(),
        ))
        .note(Note::new_with_midi_note(
            MidiNote::C0,
            MusicalTime::new_with_beats(3),
            MusicalTime::duration_whole(),
        ))
}

#[test]
fn pattern_four_whole_notes_is_one_bar() {
    let p = four_whole_notes(&mut PatternBuilder::default()).build().unwrap();
    assert_eq!(
        p.duration().total_bars(&p.time_signature()),
        1,
        "Pattern with four whole notes on beat should be 1 bar"
    );
}

#[test]
fn pattern_five_notes_is_two_bars() {
    let p = four_whole_notes(&mut PatternBuilder::default())
        .note(Note::new_with_midi_note(
            MidiNote::C0,
            MusicalTime::new_with_beats(4),
            MusicalTime::duration_sixteenth(),
        ))
        .build()
        .unwrap();
    assert_eq!(
        p.duration().total_bars(&p.time_signature()),
        2,
        "Pattern with four whole notes and then a sixteenth should be 2 bars"
    );
}

#[test]
fn default_pattern_builder() {
    let p = PatternBuilder::default().build().unwrap();
    assert_eq!(
        p.notes.len(),
        0,
        "Default PatternBuilder yields pattern with zero notes"
    );
    assert_eq!(
        p.duration,
        MusicalTime::new_with_bars(&p.time_signature(), 1),
        "Default PatternBuilder yields one-measure pattern"
    );
}

#[test]
fn pattern_api_is_ergonomic() {
    let mut p = PatternBuilder::default()
        .note(test_c4().clone())
        .note(test_d4().clone())
        .build()
        .unwrap();
    assert_eq!(p.notes.len(), 2, "PatternBuilder can add multiple notes");

    p.add_note(test_c4().clone());
    assert_eq!(
        p.notes.len(),
        3,
        "Pattern can add duplicate notes. This is probably not desirable to allow."
    );

    assert!(p
        .move_note(&test_c4(), MusicalTime::new_with_beats(4))
        .is_ok());
    assert_eq!(p.notes.len(), 3, "Moving a note doesn't copy or destroy");
    p.remove_note(&test_d4());
    assert_eq!(p.notes.len(), 2, "remove_note() removes notes");
    p.remove_note(&test_c4());
    assert_eq!(
        p.notes.len(),
        2,
        "remove_note() must specify the note correctly."
    );
    p.remove_note(&Note::new_with_midi_note(
        MidiNote::C4,
        MusicalTime::new_with_beats(4),
        MusicalTime::duration_half(),
    ));
    assert!(p.notes.is_empty(), "remove_note() removes duplicate notes.");
}

#[test]
fn move_note_inside_pattern() {
    let mut p = PatternBuilder::default().build().unwrap();

    p.add_note(test_c4().clone());
    assert!(p
        .move_note(
            &test_c4(),
            MusicalTime::start() + MusicalTime::duration_sixteenth(),
        )
        .is_ok());
    assert_eq!(
        p.notes[0].range.0.start,
        MusicalTime::start() + MusicalTime::duration_sixteenth(),
        "moving a note works"
    );
    assert_eq!(
        p.duration,
        MusicalTime::new_with_beats(4),
        "Moving a note in pattern doesn't change duration"
    );

    assert!(
        p.move_note(&test_e4(), MusicalTime::default()).is_err(),
        "moving nonexistent note should fail"
    );
}

#[test]
fn move_note_outside_pattern() {
    let mut p = PatternBuilder::default().build().unwrap();

    p.add_note(test_c4().clone());
    assert!(p
        .move_note(&test_c4(), MusicalTime::new_with_beats(4))
        .is_ok());
    assert_eq!(
        p.duration,
        MusicalTime::new_with_beats(4 * 2),
        "Moving a note out of pattern increases duration"
    );
}

#[test]
fn move_and_resize_note() {
    let mut p = PatternBuilder::default().build().unwrap();

    p.add_note(test_c4().clone());

    assert!(p
        .move_and_resize_note(
            &test_c4(),
            MusicalTime::start() + MusicalTime::duration_eighth(),
            MusicalTime::duration_whole(),
        )
        .is_ok());
    let expected_range = TimeRange(
        (MusicalTime::start() + MusicalTime::duration_eighth())
            ..(MusicalTime::start() + MusicalTime::duration_eighth() + MusicalTime::duration_whole()),
    );
    assert_eq!(
        p.notes[0].range, expected_range,
        "moving/resizing a note works"
    );
    assert_eq!(
        p.duration,
        MusicalTime::new_with_beats(4),
        "moving/resizing within pattern doesn't change duration"
    );

    assert!(p
        .move_and_resize_note(
            &Note::new_with_midi_note(
                MidiNote::C4,
                expected_range.0.start,
                expected_range.0.end - expected_range.0.start,
            ),
            MusicalTime::new_with_beats(4),
            MusicalTime::duration_whole(),
        )
        .is_ok());
    assert_eq!(
        p.duration,
        MusicalTime::new_with_beats(8),
        "moving/resizing outside current pattern makes the pattern longer"
    );

    assert!(
        p.move_and_resize_note(
            &test_e4(),
            MusicalTime::default(),
            MusicalTime::default()
        )
        .is_err(),
        "moving/resizing nonexistent note should fail"
    );
}

#[test]
fn change_note_key() {
    let mut p = PatternBuilder::default().build().unwrap();

    p.add_note(test_c4().clone());
    assert_eq!(p.notes[0].key, MidiNote::C4.key());
    assert!(p
        .change_note_key(&test_c4(), MidiNote::C5.key())
        .is_ok());
    assert_eq!(p.notes[0].key, MidiNote::C5.key());

    assert!(
        p.change_note_key(&test_c4(), 254).is_err(),
        "changing key of nonexistent note should fail"
    );
}

#[test]
fn pattern_dimensions_are_valid() {
    let p = Pattern::default();
    assert_eq!(
        p.time_signature(),
        TimeSignature::common_time(),
        "default pattern should have sensible time signature"
    );

    for ts in [
        TimeSignature::common_time(),
        TimeSignature::cut_time(),
        TimeSignature::new_with(7, 64).unwrap(),
    ] {
        let p = PatternBuilder::default()
            .time_signature(ts)
            .build()
            .unwrap();
        assert_eq!(
            p.duration,
            MusicalTime::new_with_beats(ts.top),
            "Pattern's beat count matches its time signature"
        );

        // A typical 4/4 pattern has 16 subdivisions, which is a common
        // pattern resolution in other pattern-based sequencers and piano
        // rolls.
        assert_eq!(p.default_grid_value(), ts.bottom * ts.top,
            "Pattern's default grid value should be the time signature's beat count times its note value");
    }
}

#[test]
fn pattern_note_insertion_is_easy() {
    let sixteen_notes = vec![
        60, 61, 62, 63, 64, 65, 66, 67, 60, 61, 62, 63, 64, 65, 66, 67,
    ];
    let len_16 = sixteen_notes.len();
    let p = PatternBuilder::default()
        .note_sequence(sixteen_notes, None)
        .build()
        .unwrap();
    assert_eq!(p.note_count(), len_16, "sixteen quarter notes");
    assert_eq!(p.notes[15].key, 67);
    assert_eq!(
        p.notes[15].range,
        TimeRange(
            MusicalTime::duration_quarter() * 15
                ..MusicalTime::duration_whole() * p.time_signature().top
        )
    );
    assert_eq!(
        p.duration,
        MusicalTime::duration_whole() * p.time_signature().top
    );

    let seventeen_notes = vec![
        60, 61, 62, 63, 64, 65, 66, 67, 60, 61, 62, 63, 64, 65, 66, 67, 68,
    ];
    let p = PatternBuilder::default()
        .note_sequence(seventeen_notes, None)
        .build()
        .unwrap();
    assert_eq!(
        p.duration,
        MusicalTime::duration_whole() * p.time_signature().top * 2,
        "17 notes in 4/4 pattern produces two bars"
    );

    let four_notes = vec![60, 61, 62, 63];
    let len_4 = four_notes.len();
    let p = PatternBuilder::default()
        .note_sequence(four_notes, Some(4))
        .build()
        .unwrap();
    assert_eq!(p.note_count(), len_4, "four quarter notes");
    assert_eq!(
        p.duration,
        MusicalTime::duration_whole() * p.time_signature().top
    );

    let three_notes_and_silence = vec![60, 0, 62, 63];
    let len_3_1 = three_notes_and_silence.len();
    let p = PatternBuilder::default()
        .note_sequence(three_notes_and_silence, Some(4))
        .build()
        .unwrap();
    assert_eq!(p.note_count(), len_3_1, "three quarter notes with one rest");
    assert_eq!(
        p.duration,
        MusicalTime::duration_whole() * p.time_signature().top
    );

    let eight_notes = vec![60, 61, 62, 63, 64, 65, 66, 67];
    let len_8 = eight_notes.len();
    let p = PatternBuilder::default()
        .time_signature(TimeSignature::cut_time())
        .note_sequence(eight_notes, None)
        .build()
        .unwrap();
    assert_eq!(
        p.note_count(),
        len_8,
        "eight eighth notes in 2/2 time is two bars long"
    );
    assert_eq!(
        p.duration,
        MusicalTime::duration_whole() * p.time_signature().top * 2
    );

    let one_note = vec![60];
    let len_1 = one_note.len();
    let p = PatternBuilder::default()
        .note_sequence(one_note, None)
        .build()
        .unwrap();
    assert_eq!(
        p.note_count(),
        len_1,
        "one quarter note, and the rest is silence"
    );
    assert_eq!(p.notes[0].key, 60);
    assert_eq!(
        p.notes[0].range,
        TimeRange(MusicalTime::start()..MusicalTime::duration_quarter())
    );
    assert_eq!(
        p.duration,
        MusicalTime::duration_whole() * p.time_signature().top
    );
}

#[test]
fn note_sequence_rests_are_silent() {
    let p = PatternBuilder::default()
        .note_sequence(vec![60, 255, 62], Some(4))
        .build()
        .unwrap();
    assert_eq!(p.note_count(), 2);
    assert_eq!(p.notes[1].range.0.start, MusicalTime::duration_quarter() * 2);
}

#[test]
fn cut_time_duration() {
    let p = PatternBuilder::default()
        .time_signature(TimeSignature::cut_time())
        .build()
        .unwrap();
    assert_eq!(p.duration, MusicalTime::new_with_beats(2));
}

#[test]
fn pattern_duration_law_on_values() {
    // Every note fits, the duration is whole bars, and no shorter whole-bar
    // length would hold the last note.
    let p = PatternBuilder::default()
        .time_signature(TimeSignature::new_with(3, 4).unwrap())
        .note(Note::new_with(1, MusicalTime::new_with_beats(5), MusicalTime::duration_whole()))
        .build()
        .unwrap();
    assert_eq!(p.duration, MusicalTime::new_with_beats(6));
    let p = PatternBuilder::default()
        .time_signature(TimeSignature::new_with(3, 4).unwrap())
        .note(Note::new_with(1, MusicalTime::new_with_beats(5), MusicalTime::new_with_units(65537)))
        .build()
        .unwrap();
    assert_eq!(p.duration, MusicalTime::new_with_beats(9));
}

#[test]
fn pattern_clear_and_shift() {
    let mut p = four_whole_notes(&mut PatternBuilder::default()).build().unwrap();
    let shifted = p.shifted(MusicalTime::new_with_beats(1));
    assert_eq!(shifted.notes[0].range.0.start, MusicalTime::new_with_beats(1));
    assert_eq!(shifted.duration(), p.duration());
    assert_eq!(p.to_midi_events().len(), 8);
    p.clear();
    assert_eq!(p.note_count(), 0);
    assert_eq!(p.duration(), MusicalTime::new_with_beats(4));
    assert!(p.notes().is_empty());
}

#[test]
fn replace_note_reports_missing_note() {
    let mut p = PatternBuilder::default().build().unwrap();
    assert_eq!(p.replace_note(&test_c4(), test_d4()), Err(PatternError::NoteNotFound));
    p.add_note(test_c4());
    p.add_note(test_c4());
    assert_eq!(p.replace_note(&test_c4(), test_d4()), Ok(test_d4()));
    assert_eq!(p.notes, vec![test_d4(), test_d4()]);
}

#[test]
fn random_patterns_are_well_formed() {
    let p = PatternBuilder::default().random().build().unwrap();
    assert!(p.note_count() >= 8 && p.note_count() < 16);
    for n in p.notes() {
        assert!(n.key >= 32 && n.key < 96);
        assert_eq!(n.range.0.end - n.range.0.start, MusicalTime::duration_quarter());
    }
}

#[test]
fn piano_roll_crud() {
    let mut pr = PianoRoll::new();
    let uid = pr.insert(PatternBuilder::default().build().unwrap());
    assert!(pr.get_pattern(&uid).is_some());
    if let Some(p) = pr.get_pattern_mut(&uid) {
        p.add_note(test_d4());
    }
    assert_eq!(pr.get_pattern(&uid).unwrap().note_count(), 1);
    let (uid2, len, duration) = pr.populate_pattern(1);
    assert_ne!(uid, uid2);
    assert_eq!(len, 3);
    assert_eq!(duration, MusicalTime::new_with_beats(4));
    assert_eq!(pr.get_pattern(&uid2).unwrap().notes()[0].key, MidiNote::C5.key());
    pr.remove(&uid);
    assert!(pr.get_pattern(&uid).is_none());
    assert!(pr.get_pattern(&uid2).is_some());
}

#[test]
fn default_piano_roll_has_sixteen_patterns() {
    let pr = PianoRoll::default();
    for i in 1..=16 {
        assert!(pr.get_pattern(&ensnare::piano_roll::PatternUid(i)).is_some());
    }
    assert!(pr.get_pattern(&ensnare::piano_roll::PatternUid(17)).is_none());
}

#[test]
fn populate_pattern_places_three_one_beat_notes() {
    let mut pr = PianoRoll::default();
    let nt = |k: MidiNote, b: usize| {
        Note::new_with_midi_note(k, MusicalTime::new_with_beats(b), MusicalTime::duration_whole())
    };
    let (uid, len, duration) = pr.populate_pattern(0);
    assert_eq!(uid, PatternUid(17));
    assert_eq!(len, 3);
    assert_eq!(duration, MusicalTime::new_with_beats(4));
    assert_eq!(
        pr.get_pattern(&uid).unwrap().notes(),
        &[nt(MidiNote::C4, 0), nt(MidiNote::D4, 1), nt(MidiNote::E4, 2)]
    );
    for (i, note) in pr.get_pattern(&uid).unwrap().notes().iter().enumerate() {
        assert_eq!(note.range.0.start, MusicalTime::new_with_beats(i));
        assert_eq!(note.range.0.end, MusicalTime::new_with_beats(i + 1));
    }
}
