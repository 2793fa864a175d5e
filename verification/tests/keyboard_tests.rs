use ensnare::keyboard::{KeyboardController, KeyboardKey};
use ensnare::midi::{MidiMessage, MidiNote, U7};

fn note_on(note: MidiNote) -> MidiMessage {
    MidiMessage::NoteOn {
        key: U7::from_int_lossy(note.key()),
        vel: U7::from_int_lossy(127),
    }
}

#[test]
fn keyboard_expected_messages_for_keystrokes() {
    let mut k = KeyboardController::default();
    let (_, message) = k.handle_key(&KeyboardKey::A, true).unwrap();
    assert_eq!(message, note_on(MidiNote::C4));
}

#[test]
fn octaves() {
    let mut k = KeyboardController::default();

    // Play a note at initial octave 4.
    let (_, message) = k.handle_key(&KeyboardKey::A, true).unwrap();
    let (_, _) = k.handle_key(&KeyboardKey::A, false).unwrap();
    assert_eq!(message, note_on(MidiNote::C4));

    // Increase octave and try again.
    let _ = k.handle_key(&KeyboardKey::ArrowRight, true);
    let (_, message) = k.handle_key(&KeyboardKey::A, true).unwrap();
    let (_, _) = k.handle_key(&KeyboardKey::A, false).unwrap();
    assert_eq!(message, note_on(MidiNote::C5));

    // Up to maximum octave 10 (AKA octave 9).
    let _ = k.handle_key(&KeyboardKey::ArrowRight, true);
    let _ = k.handle_key(&KeyboardKey::ArrowRight, true);
    let _ = k.handle_key(&KeyboardKey::ArrowRight, true);
    let _ = k.handle_key(&KeyboardKey::ArrowRight, true);
    let (_, message) = k.handle_key(&KeyboardKey::A, true).unwrap();
    let (_, _) = k.handle_key(&KeyboardKey::A, false).unwrap();
    assert_eq!(message, note_on(MidiNote::C9));

    let _ = k.handle_key(&KeyboardKey::ArrowRight, true);
    let (_, message) = k.handle_key(&KeyboardKey::A, true).unwrap();
    let (_, _) = k.handle_key(&KeyboardKey::A, false).unwrap();
    assert_eq!(
        message,
        note_on(MidiNote::C9),
        "Trying to go higher than max octave shouldn't change anything."
    );

    // Now start over and try again with lower octaves.
    let mut k = KeyboardController::default();
    let _ = k.handle_key(&KeyboardKey::ArrowLeft, true);
    let (_, message) = k.handle_key(&KeyboardKey::A, true).unwrap();
    let (_, _) = k.handle_key(&KeyboardKey::A, false).unwrap();
    assert_eq!(message, note_on(MidiNote::C3));
    let _ = k.handle_key(&KeyboardKey::ArrowLeft, true);
    let (_, message) = k.handle_key(&KeyboardKey::A, true).unwrap();
    let (_, _) = k.handle_key(&KeyboardKey::A, false).unwrap();
    assert_eq!(message, note_on(MidiNote::C2));
    let _ = k.handle_key(&KeyboardKey::ArrowLeft, true);
    let (_, message) = k.handle_key(&KeyboardKey::A, true).unwrap();
    let (_, _) = k.handle_key(&KeyboardKey::A, false).unwrap();
    assert_eq!(message, note_on(MidiNote::C1));
    let _ = k.handle_key(&KeyboardKey::ArrowLeft, true);
    let (_, message) = k.handle_key(&KeyboardKey::A, true).unwrap();
    let (_, _) = k.handle_key(&KeyboardKey::A, false).unwrap();
    assert_eq!(message, note_on(MidiNote::C0));
    let _ = k.handle_key(&KeyboardKey::ArrowLeft, true);
    let (_, message) = k.handle_key(&KeyboardKey::A, true).unwrap();
    let (_, _) = k.handle_key(&KeyboardKey::A, false).unwrap();
    assert_eq!(message, note_on(MidiNote::CSub0));
    let _ = k.handle_key(&KeyboardKey::ArrowLeft, true);
    let (_, message) = k.handle_key(&KeyboardKey::A, true).unwrap();
    let (_, _) = k.handle_key(&KeyboardKey::A, false).unwrap();
    assert_eq!(
        message,
        note_on(MidiNote::CSub0),
        "Trying to go below the lowest octave should stay at lowest octave."
    );
}

#[test]
fn key_release_and_top_of_range() {
    let mut k = KeyboardController::default();
    let (channel, message) = k.handle_key(&KeyboardKey::O, false).unwrap();
    assert_eq!(channel.0, 0);
    assert_eq!(
        message,
        MidiMessage::NoteOff {
            key: U7::from_int_lossy(73),
            vel: U7::from_int_lossy(0)
        }
    );
    assert!(k.handle_key(&KeyboardKey::Other, true).is_none());
    for _ in 0..5 {
        let _ = k.handle_key(&KeyboardKey::ArrowRight, true);
    }
    // Octave 10: O would be 133, which is capped at 127.
    let (_, message) = k.handle_key(&KeyboardKey::O, true).unwrap();
    assert_eq!(message, note_on(MidiNote::G9));
    // An arrow going up changes nothing.
    let _ = k.handle_key(&KeyboardKey::ArrowLeft, false);
    let (_, message) = k.handle_key(&KeyboardKey::O, true).unwrap();
    assert_eq!(message, note_on(MidiNote::G9));
    assert!(k != KeyboardController::default());
}

#[test]
fn octave_arrows_undo_each_other() {
    let mut k = KeyboardController::default();
    let (_, before) = k.handle_key(&KeyboardKey::A, true).unwrap();
    assert!(k.handle_key(&KeyboardKey::ArrowRight, true).is_none());
    let (_, up) = k.handle_key(&KeyboardKey::A, true).unwrap();
    assert_eq!(up, note_on(MidiNote::C5));
    assert!(k.handle_key(&KeyboardKey::ArrowLeft, true).is_none());
    let (_, after) = k.handle_key(&KeyboardKey::A, true).unwrap();
    assert_eq!(before, after);
    assert!(k == KeyboardController::default());
}

#[test]
fn release_matches_press() {
    let mut k = KeyboardController::default();
    let (_, on) = k.handle_key(&KeyboardKey::H, true).unwrap();
    let (_, off) = k.handle_key(&KeyboardKey::H, false).unwrap();
    match (on, off) {
        (MidiMessage::NoteOn { key: a, .. }, MidiMessage::NoteOff { key: b, .. }) => {
            assert_eq!(a, b);
            assert_eq!(a.as_int(), 69);
        }
        _ => panic!("expected a note-on and then a note-off"),
    }
}
