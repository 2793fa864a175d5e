//! Ensnare's music model: musical time, notes and patterns, MIDI messages,
//! and the sequencers and controllers that turn them into MIDI over time,
//! each with its behavior stated as a contract and proved.
use vstd::prelude::*;

pub mod time;
pub mod midi;
pub mod uid;
pub mod composition;
pub mod piano_roll;
pub mod rng;
pub mod control;
pub mod track;
pub mod sequence_repository;
pub mod traits;
pub mod sequencers;
pub mod live_pattern;
pub mod even_smaller_sequencer;
pub mod midi_note_minder;
pub mod keyboard;
pub mod controllers;
pub mod arpeggiator;
pub mod toys;
pub mod transport;
