# ensnare

The music model of the Ensnare digital audio workstation, written in Verus:
the public functions carry contracts, and Verus proves the code meets them.
The random-number generator's draws are the exception: they state only what
holds of every outcome (a value in the requested range, or any value of the
type).

## Layout

- `src/` — the verified library.
  - `time.rs`: musical time (beats, parts, units), time signatures, sample rates.
  - `midi.rs`: seven-bit values, MIDI messages, channels, events and note names.
  - `composition.rs`: notes and arrangements.
  - `piano_roll.rs`: patterns, the pattern builder and the piano roll.
  - `sequencers.rs`, `live_pattern.rs`, `even_smaller_sequencer.rs`: sequencers
    of MIDI events, notes and patterns.
  - `traits.rs`: the sequencing traits the sequencers implement.
  - `midi_note_minder.rs`, `keyboard.rs`, `arpeggiator.rs`, `controllers.rs`,
    `toys.rs`: controllers that answer MIDI or time with MIDI or control values.
  - `transport.rs`: the global clock.
  - `control.rs`, `sequence_repository.rs`, `track.rs`, `uid.rs`, `rng.rs`:
    control routing, the sequence store, track names, identifiers and random
    numbers.
- `tests/` — tests run against the compiled library.
- `app/` — ordinary Rust beside the library: tempo and control values as
  floating point, frame conversions, and conversions to the `midly` crate's
  MIDI types.

Floating-point values that the library keeps (tempo, control values) are held
as the bit patterns of 64-bit floats; `app/` turns them back into floats.
