use ensnare::controllers::{Timer, Trigger};
use ensnare::time::{MusicalTime, TimeSignature};

#[test]
fn instantiate_trigger() {
    let ts = TimeSignature::default();
    let mut trigger = Trigger::new_with(
        Timer::new_with(MusicalTime::new_with_bars(&ts, 1)),
        0.5f64.to_bits(),
    );
    trigger.play();

    trigger.update_time(&(MusicalTime::default()..MusicalTime::new_with_parts(1)));
    let mut count = 0;
    if trigger.work().is_some() {
        count += 1;
    }
    assert_eq!(count, 0);
    assert!(!trigger.is_finished());

    trigger.update_time(&(MusicalTime::new_with_bars(&ts, 1)..MusicalTime::new(&ts, 1, 0, 0, 1)));
    let mut count = 0;
    if let Some(bits) = trigger.work() {
        assert_eq!(f64::from_bits(bits), 0.5);
        count += 1;
    }
    assert!(count != 0);
    assert!(trigger.is_finished());
}

#[test]
fn trigger_fires_once_until_skipped_to_start() {
    let mut trigger = Trigger::new_with(Timer::new_with(MusicalTime::default()), 7);
    trigger.play();
    assert!(trigger.work().is_none(), "timer has not seen a slice yet");
    trigger.update_time(&(MusicalTime::default()..MusicalTime::new_with_beats(1)));
    assert!(trigger.is_finished(), "a zero-length timer finishes at once");
    assert_eq!(trigger.work(), Some(7));
    assert_eq!(trigger.work(), None);
    trigger.skip_to_start();
    assert_eq!(trigger.work(), Some(7));
    trigger.stop();
    trigger.skip_to_start();
    assert_eq!(trigger.work(), None, "a stopped trigger sends nothing");
}

#[test]
fn timer_starts_with_first_slice() {
    let mut timer = Timer::new_with(MusicalTime::new_with_beats(2));
    timer.update_time(&(MusicalTime::new_with_beats(5)..MusicalTime::new_with_beats(6)));
    assert!(!timer.is_finished(), "a stopped timer ignores slices");
    timer.play();
    assert!(timer.is_performing());
    timer.update_time(&(MusicalTime::new_with_beats(5)..MusicalTime::new_with_beats(6)));
    assert!(!timer.is_finished());
    timer.update_time(&(MusicalTime::new_with_beats(6)..MusicalTime::new_with_beats(7)));
    assert!(!timer.is_finished());
    timer.update_time(&(MusicalTime::new_with_beats(7)..MusicalTime::new_with_beats(8)));
    assert!(timer.is_finished(), "ends two beats after the first slice began");
    assert_eq!(timer.duration(), MusicalTime::new_with_beats(2));
}

use ensnare::arpeggiator::Arpeggiator;
use ensnare::traits::HandlesMidi;
use ensnare::midi::{new_note_off, new_note_on, MidiChannel, MidiMessage};

#[test]
fn arpeggiator_climbs_the_major_scale() {
    let mut arp = Arpeggiator::new_with(120.0f64.to_bits(), MidiChannel(3));
    assert_eq!(f64::from_bits(arp.bpm()), 120.0);
    arp.handle_midi_message(MidiChannel(0), new_note_on(60, 100));
    arp.update_time(&(MusicalTime::time_zero()..MusicalTime::time_max()));
    let events = arp.work();
    assert_eq!(events.len(), 14);
    let on_keys: Vec<u8> = events
        .iter()
        .filter_map(|(c, m)| {
            assert_eq!(*c, MidiChannel(3));
            match m {
                MidiMessage::NoteOn { key, .. } => Some(key.as_int()),
                _ => None,
            }
        })
        .collect();
    assert_eq!(on_keys, vec![60, 62, 64, 65, 67, 69, 71]);

    // The first quarter beat holds only the first note-on.
    arp.update_time(&(MusicalTime::time_zero()..MusicalTime::new_with_parts(4)));
    assert_eq!(arp.work().len(), 1);

    // A new note replaces the arpeggio.
    arp.handle_midi_message(MidiChannel(0), new_note_on(50, 100));
    arp.update_time(&(MusicalTime::time_zero()..MusicalTime::new_with_parts(1)));
    assert_eq!(
        arp.work()[0].1,
        new_note_on(50, 127),
        "the arpeggio plays at full velocity"
    );
    arp.handle_midi_message(MidiChannel(0), new_note_off(50, 0));
    arp.handle_midi_message(MidiChannel(0), new_note_off(60, 0));
    arp.handle_midi_message(MidiChannel(0), new_note_off(60, 0));
    arp.set_bpm(90.0f64.to_bits());
    assert_eq!(f64::from_bits(arp.bpm()), 90.0);
    assert!(!arp.is_performing());
    arp.play();
    assert!(arp.is_performing());
    arp.stop();
    arp.skip_to_start();
    assert!(!arp.is_finished());
}

use ensnare::toys::{ToyController, ToyControllerAlwaysSendsMidiMessage};

#[test]
fn toy_controller_plays_on_beats_when_enabled() {
    let mut c = ToyController::new_with(MidiChannel(2));
    c.play();
    assert!(c.is_performing());
    c.handle_midi_message(MidiChannel(0), new_note_on(60, 1));

    // The first slice holds the start time, which counts as handled.
    c.update_time(&(MusicalTime::start()..MusicalTime::new_with_parts(1)));
    assert_eq!(c.work(), None);
    c.update_time(&(MusicalTime::new_with_parts(1)..MusicalTime::new_with_parts(2)));
    assert_eq!(c.work(), None);
    c.update_time(&(MusicalTime::new_with_beats(1)..MusicalTime::new_with_parts(17)));
    assert_eq!(c.work(), Some((MidiChannel(2), new_note_on(60, 127))));
    // The same slice again does nothing.
    assert_eq!(c.work(), None);
    c.update_time(&(MusicalTime::new_with_parts(24)..MusicalTime::new_with_parts(25)));
    assert_eq!(c.work(), Some((MidiChannel(2), new_note_off(60, 0))));

    c.handle_midi_message(MidiChannel(0), new_note_off(60, 1));
    c.update_time(&(MusicalTime::new_with_beats(2)..MusicalTime::new_with_parts(33)));
    assert_eq!(c.work(), None, "disabled controllers send no note-on");
    c.stop();
    assert!(c.is_finished());
}

#[test]
fn toy_controller_always_sends_wraps_keys() {
    let mut c = ToyControllerAlwaysSendsMidiMessage::default();
    assert_eq!(c.work(), None);
    c.play();
    for k in 0..=127u8 {
        assert_eq!(c.work(), Some((MidiChannel(0), new_note_on(k, 127))));
    }
    assert_eq!(c.work(), Some((MidiChannel(0), new_note_on(1, 127))));
    c.stop();
    assert!(!c.is_performing());
    assert!(!c.is_finished());
}
