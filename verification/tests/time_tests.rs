use ensnare::time::{BeatValue, MusicalTime, SampleRate, TimeRange, TimeSignature, TimeSignatureError};
use ensnare::transport::Transport;

#[test]
fn sample_rate_default_is_sane() {
    let sr = SampleRate::default();
    assert_eq!(sr.value(), 44100);
}

#[test]
fn sample_rate_zero_becomes_default() {
    assert_eq!(SampleRate::new(0).value(), 44100);
    assert_eq!(SampleRate::new(48000).value(), 48000);
}

#[test]
fn valid_time_signatures_can_be_instantiated() {
    let ts = TimeSignature::default();
    assert_eq!(ts.top, 4);
    assert_eq!(ts.bottom, 4);

    let _ts = TimeSignature::new_with(ts.top, ts.bottom).ok().unwrap();
}

#[test]
fn time_signature_with_bad_top_is_invalid() {
    assert!(TimeSignature::new_with(0, 4).is_err());
}

#[test]
fn time_signature_with_bottom_not_power_of_two_is_invalid() {
    assert!(TimeSignature::new_with(4, 5).is_err());
}

#[test]
fn time_signature_invalid_bottom_below_range() {
    assert!(TimeSignature::new_with(4, 0).is_err());
}

#[test]
fn time_signature_errors_say_why() {
    assert_eq!(TimeSignature::new_with(0, 4), Err(TimeSignatureError::TopIsZero));
    assert_eq!(TimeSignature::new_with(4, 1024), Err(TimeSignatureError::BottomOutOfRange));
    assert_eq!(TimeSignature::new_with(3, 512).unwrap().bottom(), 512);
    assert_eq!(TimeSignature::new_with(7, 1).unwrap().top(), 7);
}

#[test]
fn beat_value_matches_bottom() {
    assert_eq!(TimeSignature::default().beat_value(), BeatValue::Quarter);
    assert_eq!(TimeSignature::cut_time().beat_value(), BeatValue::Half);
    assert_eq!(BeatValue::from_repr(1048576), None);
    assert_eq!(BeatValue::from_repr(128), Some(BeatValue::Octuple));
    assert_eq!(BeatValue::default().repr(), 4096);
}

#[test]
fn time_signature_setters() {
    let mut ts = TimeSignature::default();
    ts.set_top(3);
    ts.set_bottom(8);
    assert_eq!(ts.top(), 3);
    assert_eq!(ts.bottom(), 8);
    assert_eq!(ts.duration(), MusicalTime::new_with_beats(3));
}

#[test]
fn musical_time_at_time_zero() {
    // Default is time zero
    let t = MusicalTime::default();
    assert_eq!(t.total_bars(&TimeSignature::default()), 0);
    assert_eq!(t.total_beats(), 0);
    assert_eq!(t.parts(), 0);
    assert_eq!(t.units(), 0);
}

#[test]
fn musical_time_components() {
    let ts = TimeSignature::default();
    let t = MusicalTime::new(&ts, 2, 3, 5, 7);
    assert_eq!(t.bars(&ts), 2);
    assert_eq!(t.beats(&ts), 3);
    assert_eq!(t.parts(), 5);
    assert_eq!(t.units(), 7);
    assert_eq!(t.total_beats(), 11);
    assert_eq!(t.total_parts(), 11 * 16 + 5);
    assert_eq!(t.total_units(), (11 * 16 + 5) * 4096 + 7);
    assert_eq!(t.quantized(), MusicalTime::new_with_parts(11 * 16 + 5));
    assert_eq!(MusicalTime::bars_to_units(&ts, 2), 8 * 65536);
    assert_eq!(MusicalTime::beats_to_units(3), 3 * 65536);
    assert_eq!(MusicalTime::parts_to_units(5), 5 * 4096);
    let mut t = t;
    t.reset();
    assert_eq!(t, MusicalTime::start());
}

#[test]
fn musical_time_empty_range() {
    let r = MusicalTime::empty_range();
    assert_eq!(r.start, MusicalTime::time_max());
    assert_eq!(r.end, MusicalTime::time_max());
    assert_eq!(MusicalTime::time_max().total_units(), usize::MAX);
}

#[test]
fn musical_time_math() {
    let ts = TimeSignature::default();
    // Advancing by bar works
    let mut t = MusicalTime::default();
    t += MusicalTime::new_with_bars(&ts, 1);
    assert_eq!(t.beats(&ts), 0);
    assert_eq!(t.bars(&ts), 1);

    // Advancing by beat works
    let mut t = MusicalTime::default();
    t += MusicalTime::new_with_beats(1);
    assert_eq!(t.beats(&ts), 1);
    let mut t = MusicalTime::new(&ts, 0, ts.top - 1, 0, 0);
    t += MusicalTime::new_with_beats(1);
    assert_eq!(t.beats(&ts), 0);
    assert_eq!(t.bars(&ts), 1);

    // Advancing by part works
    let mut t = MusicalTime::default();
    t += MusicalTime::new_with_parts(1);
    assert_eq!(t.bars(&ts), 0);
    assert_eq!(t.beats(&ts), 0);
    assert_eq!(t.parts(), 1);
    let mut t = MusicalTime::new(&ts, 0, 0, MusicalTime::PARTS_IN_BEAT - 1, 0);
    t += MusicalTime::new_with_parts(1);
    assert_eq!(t.bars(&ts), 0);
    assert_eq!(t.beats(&ts), 1);
    assert_eq!(t.parts(), 0);

    // Advancing by subpart works
    let mut t = MusicalTime::default();
    t += MusicalTime::new_with_units(1);
    assert_eq!(t.bars(&ts), 0);
    assert_eq!(t.beats(&ts), 0);
    assert_eq!(t.parts(), 0);
    assert_eq!(t.units(), 1);
    let mut t = MusicalTime::new(&ts, 0, 0, 0, MusicalTime::UNITS_IN_PART - 1);
    t += MusicalTime::new_with_units(1);
    assert_eq!(t.bars(&ts), 0);
    assert_eq!(t.beats(&ts), 0);
    assert_eq!(t.parts(), 1);
    assert_eq!(t.units(), 0);

    // One more big rollover to be sure
    let mut t = MusicalTime::new(&ts, 0, 3, 15, MusicalTime::UNITS_IN_PART - 1);
    t += MusicalTime::new_with_units(1);
    assert_eq!(t.bars(&ts), 1);
    assert_eq!(t.beats(&ts), 0);
    assert_eq!(t.parts(), 0);
    assert_eq!(t.units(), 0);
}

#[test]
fn musical_time_math_add_trait() {
    let ts = TimeSignature::default();

    let bar_unit = MusicalTime::new(&ts, 1, 0, 0, 0);
    let beat_unit = MusicalTime::new(&ts, 0, 1, 0, 0);
    let part_unit = MusicalTime::new(&ts, 0, 0, 1, 0);
    let unit_unit = MusicalTime::new(&ts, 0, 0, 0, 1);

    // Advancing by bar works
    let t = MusicalTime::default() + bar_unit;
    assert_eq!(t.beats(&ts), 0);
    assert_eq!(t.bars(&ts), 1);

    // Advancing by beat works
    let mut t = MusicalTime::default() + beat_unit;

    assert_eq!(t.beats(&ts), 1);
    t += beat_unit;
    assert_eq!(t.beats(&ts), 2);
    assert_eq!(t.bars(&ts), 0);
    t += beat_unit;
    assert_eq!(t.beats(&ts), 3);
    assert_eq!(t.bars(&ts), 0);
    t += beat_unit;
    assert_eq!(t.beats(&ts), 0);
    assert_eq!(t.bars(&ts), 1);

    // Advancing by part works
    let mut t = MusicalTime::default();
    assert_eq!(t.bars(&ts), 0);
    assert_eq!(t.beats(&ts), 0);
    for i in 0..MusicalTime::PARTS_IN_BEAT {
        assert_eq!(t.parts(), i);
        t += part_unit;
    }
    assert_eq!(t.beats(&ts), 1);
    assert_eq!(t.parts(), 0);

    // Advancing by unit works
    let mut t = MusicalTime::default();
    assert_eq!(t.beats(&ts), 0);
    assert_eq!(t.bars(&ts), 0);
    assert_eq!(t.parts(), 0);
    for i in 0..MusicalTime::UNITS_IN_PART {
        assert_eq!(t.units(), i);
        t += unit_unit;
    }
    assert_eq!(t.parts(), 1);
    assert_eq!(t.units(), 0);

    // One more big rollover to be sure
    let mut t = MusicalTime::new(
        &ts,
        0,
        3,
        MusicalTime::PARTS_IN_BEAT - 1,
        MusicalTime::UNITS_IN_PART - 1,
    );
    t += unit_unit;
    assert_eq!(t.bars(&ts), 1);
    assert_eq!(t.beats(&ts), 0);
    assert_eq!(t.parts(), 0);
    assert_eq!(t.units(), 0);
}

#[test]
fn musical_time_math_other_time_signatures() {
    let ts = TimeSignature { top: 9, bottom: 64 };
    let t = MusicalTime::new(&ts, 0, 8, 15, 4095) + MusicalTime::new(&ts, 0, 0, 0, 1);
    assert_eq!(t.bars(&ts), 1);
    assert_eq!(t.beats(&ts), 0);
    assert_eq!(t.parts(), 0);
    assert_eq!(t.units(), 0);
}

#[test]
fn musical_time_overflow() {
    let ts = TimeSignature::new_with(4, 256).unwrap();

    let time = MusicalTime::new(
        &ts,
        0,
        ts.top - 1,
        MusicalTime::PARTS_IN_BEAT - 1,
        MusicalTime::UNITS_IN_PART - 1,
    );

    let t = time + MusicalTime::new_with_beats(1);
    assert_eq!(t.beats(&ts), 0);
    assert_eq!(t.bars(&ts), 1);

    let t = time + MusicalTime::new_with_parts(1);
    assert_eq!(t.parts(), 0);
    assert_eq!(t.beats(&ts), 0);
    assert_eq!(t.bars(&ts), 1);

    let t = time + MusicalTime::new_with_units(1);
    assert_eq!(t.units(), 0);
    assert_eq!(t.parts(), 0);
    assert_eq!(t.beats(&ts), 0);
    assert_eq!(t.bars(&ts), 1);
}

#[test]
fn musical_time_operators() {
    let a = MusicalTime::new_with_units(10);
    let b = MusicalTime::new_with_units(3);
    assert_eq!((a - b).total_units(), 7);
    assert_eq!((a * 3).total_units(), 30);
    assert_eq!((a / 3).total_units(), 3);
    assert_eq!((a + 5usize).total_units(), 15);
    let mut c = a;
    c -= b;
    assert_eq!(c.total_units(), 7);
    assert_eq!(a.checked_add(&MusicalTime::time_max()), None);
    assert!(b.is_before(&a));
    assert!(!a.is_before(&b));
}

#[test]
fn note_value_durations() {
    assert_eq!(MusicalTime::duration_breve().total_units(), 2 * 65536);
    assert_eq!(MusicalTime::duration_whole().total_units(), 65536);
    assert_eq!(MusicalTime::duration_half().total_units(), 8 * 4096);
    assert_eq!(MusicalTime::duration_quarter().total_units(), 4 * 4096);
    assert_eq!(MusicalTime::duration_eighth().total_units(), 2 * 4096);
    assert_eq!(MusicalTime::duration_sixteenth().total_units(), 4096);
    assert_eq!(MusicalTime::duration_zero().total_units(), 0);
    assert_eq!(MusicalTime::time_zero().total_units(), 0);
    assert_eq!(MusicalTime::time_end_of_first_beat().total_units(), 65536);
}

#[test]
fn time_range_contains() {
    let r = TimeRange::new_with_start_and_duration(MusicalTime::new_with_beats(1), MusicalTime::duration_whole());
    assert!(r.contains(&MusicalTime::new_with_beats(1)));
    assert!(!r.contains(&MusicalTime::new_with_beats(2)));
    assert!(!r.contains(&MusicalTime::start()));
}

#[test]
fn transport_moves_only_while_performing() {
    let mut t = Transport::default();
    assert_eq!(f64::from_bits(t.tempo()), 128.0);
    assert_eq!(t.sample_rate().value(), 44100);
    let r = t.advance(100, MusicalTime::new_with_units(50));
    assert_eq!(r, MusicalTime::start()..MusicalTime::new_with_units(50));
    assert_eq!(t.current_time(), MusicalTime::start(), "a stopped clock stays put");
    assert_eq!(t.current_frame(), 0);
    t.play();
    assert!(t.is_performing());
    let r = t.advance(100, MusicalTime::new_with_units(50));
    assert_eq!(r, MusicalTime::start()..MusicalTime::new_with_units(50));
    assert_eq!(t.current_time(), MusicalTime::new_with_units(50));
    assert_eq!(t.current_frame(), 100);
    let r = t.advance(100, MusicalTime::new_with_units(120));
    assert_eq!(r, MusicalTime::new_with_units(50)..MusicalTime::new_with_units(120));
    t.stop();
    t.skip_to_start();
    assert_eq!(t.current_time(), MusicalTime::start());
    assert_eq!(t.current_frame(), 0);
    t.set_tempo(90.0f64.to_bits());
    assert_eq!(f64::from_bits(t.tempo()), 90.0);
    assert!(t.is_finished());
}

#[test]
fn tempo() {
    let t = Transport::default();
    assert_eq!(f64::from_bits(t.tempo()), 128.0);
}

#[test]
fn time_signature_invalid_bottom_above_range() {
    // 2^10 = 1024, 1024 * 1024 = 1048576, which is higher than
    // BeatValue::FiveHundredTwelfth value of 524288
    let bv = BeatValue::from_repr((2.0f32.powi(10) * 1024.0) as usize);
    assert!(bv.is_none());
    assert!(TimeSignature::new_with(4, 1024).is_err());
}

/// The musical time that `frames` frames come to at `bpm` beats per minute.
fn frames_to_time(bpm: f64, sample_rate: usize, frames: usize) -> MusicalTime {
    let elapsed_beats = (frames as f64 / sample_rate as f64) * (bpm / 60.0);
    let fractional_units = (elapsed_beats.fract() * 65536.0 + 0.5) as usize;
    MusicalTime::new_with_units(elapsed_beats.floor() as usize * 65536 + fractional_units)
}

#[test]
fn advances_time_correctly_with_various_sample_rates() {
    let mut transport = Transport::default();
    transport.update_tempo(60.0f64.to_bits());

    let vec = vec![100, 997, 22050, 44100, 48000, 88200, 98689, 100000, 262144];
    for sample_rate in vec {
        transport.play();
        transport.update_sample_rate(SampleRate(sample_rate));

        let mut time_range_covered = 0;
        for _ in 0..transport.sample_rate().0 {
            let new_time = frames_to_time(
                f64::from_bits(transport.tempo()),
                transport.sample_rate().0,
                transport.current_frame() + 1,
            );
            let range = transport.advance(1, new_time);
            let delta_units = (range.end - range.start).total_units();
            time_range_covered += delta_units;
        }
        assert_eq!(
            time_range_covered, 65536,
            "Sample rate {} Hz: after advancing one second of frames at 60 BPM, we should have covered a beat of units",
            sample_rate
        );

        assert_eq!(
            transport.current_time(),
            MusicalTime::new_with_beats(1),
            "Transport should be exactly on the one-beat mark."
        );

        transport.skip_to_start();
    }
}
