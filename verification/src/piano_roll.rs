//! Patterns of notes, the builder that makes them, and the piano roll that
//! keeps them.
use crate::composition::{can_shift_note, note_events, shifted_note, Note};
use crate::midi::{MidiEvent, MidiNote};
use crate::time::{
    group_time_facts, time_of_units, units_per_bar, units_per_beat, MusicalTime, TimeRange,
    TimeSignature,
};
use crate::rng::Rng;
use crate::uid::IsUid;
use vstd::prelude::*;

verus! {

broadcast use {group_time_facts, vstd::std_specs::hash::group_hash_axioms};

/// Identifies a [Pattern].
#[derive(Copy, Clone, Debug, Default, Eq, PartialEq, Ord, PartialOrd, Hash, Structural)]
pub struct PatternUid(pub usize);

impl IsUid for PatternUid {
    open spec fn number(&self) -> nat {
        self.0 as nat
    }

    open spec fn spec_first_uid() -> nat {
        1
    }

    fn as_usize(&self) -> (r: usize) {
        self.0
    }

    fn from_usize(value: usize) -> (r: Self) {
        PatternUid(value)
    }

    fn first_uid() -> (r: usize) {
        1
    }
}

/// The latest end time, in units, of all the notes (zero when there are none).
pub open spec fn max_note_end(notes: Seq<Note>) -> nat
    decreases notes.len(),
{
    if notes.len() == 0 {
        0
    } else {
        let rest = max_note_end(notes.drop_last());
        let last = notes.last().range.0.end@;
        if rest < last {
            last
        } else {
            rest
        }
    }
}

/// The beat that holds the last unit of the last note. A note that ends
/// exactly on a bar line does not reach into the next bar.
pub open spec fn last_sounding_beat(notes: Seq<Note>) -> nat {
    let end = max_note_end(notes);
    if end == 0 {
        0
    } else {
        ((end - 1) as nat) / units_per_beat()
    }
}

/// The number of whole bars a pattern with these notes lasts.
pub open spec fn pattern_bars(top: nat, notes: Seq<Note>) -> nat {
    (last_sounding_beat(notes) + top) / top
}

/// The duration, in units, of a pattern with these notes: the notes' extent
/// rounded up to whole bars, and never less than one bar.
pub open spec fn pattern_duration_units(top: nat, notes: Seq<Note>) -> nat {
    pattern_bars(top, notes) * units_per_bar(top)
}

/// Whether a pattern with these notes and `top` beats per bar can compute its
/// duration without overflow or division by zero.
pub open spec fn duration_fits(top: nat, notes: Seq<Note>) -> bool {
    &&& top > 0
    &&& last_sounding_beat(notes) + top <= usize::MAX
    &&& pattern_duration_units(top, notes) <= usize::MAX
}

/// Maps a note equal to `target` to `replacement`, and any other note to itself.
pub open spec fn replace_matching(target: Note, replacement: Note) -> spec_fn(Note) -> Note {
    |n: Note| if n == target { replacement } else { n }
}

/// Holds of the notes that differ from `target`.
pub open spec fn differs_from(target: Note) -> spec_fn(Note) -> bool {
    |n: Note| n != target
}

/// The notes with every note equal to `target` replaced by `replacement`.
pub open spec fn replaced_notes(notes: Seq<Note>, target: Note, replacement: Note) -> Seq<Note> {
    notes.map_values(replace_matching(target, replacement))
}

/// The notes that differ from `target`.
pub open spec fn notes_without(notes: Seq<Note>, target: Note) -> Seq<Note> {
    notes.filter(differs_from(target))
}

/// The MIDI events of the notes, two per note in note order.
pub open spec fn notes_events(notes: Seq<Note>) -> Seq<MidiEvent>
    decreases notes.len(),
{
    if notes.len() == 0 {
        Seq::empty()
    } else {
        notes_events(notes.drop_last()) + note_events(notes.last())
    }
}

/// Every note end is at most [max_note_end].
pub proof fn lemma_max_note_end_bounds(notes: Seq<Note>, i: int)
    requires
        0 <= i < notes.len(),
    ensures
        notes[i].range.0.end@ <= max_note_end(notes),
    decreases notes.len(),
{
    if i < notes.len() - 1 {
        lemma_max_note_end_bounds(notes.drop_last(), i);
        assert(notes.drop_last()[i] == notes[i]);
    }
}

/// [max_note_end] is zero or the end of one of the notes.
proof fn lemma_max_note_end_attained(notes: Seq<Note>)
    ensures
        max_note_end(notes) == 0 || exists|i: int|
            0 <= i < notes.len() && #[trigger] notes[i].range.0.end@ == max_note_end(notes),
    decreases notes.len(),
{
    if notes.len() > 0 {
        let rest = notes.drop_last();
        lemma_max_note_end_attained(rest);
        if max_note_end(rest) != 0 && max_note_end(notes) == max_note_end(rest) {
            let i = choose|i: int| 0 <= i < rest.len() && #[trigger] rest[i].range.0.end@ == max_note_end(rest);
            assert(notes[i] == rest[i]);
        } else {
            assert(notes[notes.len() - 1].range.0.end@ == max_note_end(notes) || max_note_end(notes) == 0);
        }
    }
}

/// Dropping notes never moves the latest end later.
proof fn lemma_max_note_end_of_subset(small: Seq<Note>, big: Seq<Note>)
    requires
        forall|i: int| 0 <= i < small.len() ==> big.contains(#[trigger] small[i]),
    ensures
        max_note_end(small) <= max_note_end(big),
{
    lemma_max_note_end_attained(small);
    if max_note_end(small) != 0 {
        let i = choose|i: int| 0 <= i < small.len() && #[trigger] small[i].range.0.end@ == max_note_end(small);
        assert(big.contains(small[i]));
        let j = choose|j: int| 0 <= j < big.len() && big[j] == small[i];
        lemma_max_note_end_bounds(big, j);
    }
}

/// A later latest-end never gives a shorter pattern.
proof fn lemma_duration_monotone(top: nat, small: Seq<Note>, big: Seq<Note>)
    requires
        top > 0,
        max_note_end(small) <= max_note_end(big),
    ensures
        last_sounding_beat(small) <= last_sounding_beat(big),
        pattern_duration_units(top, small) <= pattern_duration_units(top, big),
{
    let es = max_note_end(small);
    let eb = max_note_end(big);
    if es > 0 {
        vstd::arithmetic::div_mod::lemma_div_is_ordered((es - 1) as int, (eb - 1) as int, 65536);
    }
    let bs = last_sounding_beat(small);
    let bb = last_sounding_beat(big);
    vstd::arithmetic::div_mod::lemma_div_is_ordered((bs + top) as int, (bb + top) as int, top as int);
    let ps = pattern_bars(top, small);
    let pb = pattern_bars(top, big);
    vstd::arithmetic::mul::lemma_mul_inequality(ps as int, pb as int, (top * 65536) as int);
}

/// Whether the pattern's computed duration is in step with its notes.
pub open spec fn pattern_is_consistent(sig: TimeSignature, duration: MusicalTime, notes: Seq<Note>) -> bool {
    &&& duration_fits(sig.top as nat, notes)
    &&& duration@ == pattern_duration_units(sig.top as nat, notes)
}

/// Why an edit of a [Pattern] failed.
#[derive(Clone, Copy, Debug, PartialEq, Eq, Structural)]
pub enum PatternError {
    /// No note in the pattern matched the one given.
    NoteNotFound,
}

/// A [Pattern] contains a musical sequence that is suitable for
/// pattern-based composition. It is a series of [Note]s and a
/// [TimeSignature]. All the notes should fit into the pattern's duration, and
/// the duration should be a round multiple of the length implied by the time
/// signature.
#[derive(Debug, PartialEq)]
pub struct Pattern {
    time_signature: TimeSignature,
    /// The duration is the amount of time from the start of the pattern to the
    /// point when the next pattern should start. An empty 4/4 pattern lasts
    /// for 4 beats.
    pub duration: MusicalTime,
    /// The notes that make up this pattern, relative to its start.
    pub notes: Vec<Note>,
}

impl Clone for Pattern {
    fn clone(&self) -> (r: Self)
        ensures
            r.sig() == self.sig(),
            r.dur() == self.dur(),
            r.note_seq() == self.note_seq(),
    {
        let notes = self.notes.clone();
        assert(notes@ =~= self.notes@);
        Pattern { time_signature: self.time_signature, duration: self.duration, notes }
    }
}

impl Pattern {
    /// The pattern's time signature.
    pub closed spec fn sig(&self) -> TimeSignature {
        self.time_signature
    }

    /// The pattern's duration.
    pub closed spec fn dur(&self) -> MusicalTime {
        self.duration
    }

    /// The pattern's notes.
    pub closed spec fn note_seq(&self) -> Seq<Note> {
        self.notes@
    }

    /// Whether the duration was computed from the current notes.
    pub open spec fn wf(&self) -> bool {
        pattern_is_consistent(self.sig(), self.dur(), self.note_seq())
    }

    /// Makes a pattern with a freshly computed duration.
    fn new_refreshed(time_signature: TimeSignature, notes: Vec<Note>) -> (r: Pattern)
        requires
            duration_fits(time_signature.top as nat, notes@),
        ensures
            r.sig() == time_signature,
            r.note_seq() == notes@,
            r.wf(),
    {
        let mut r = Pattern { time_signature, duration: MusicalTime::start(), notes };
        r.refresh_internals();
        r
    }

    /// Recomputes the duration from the notes.
    fn refresh_internals(&mut self)
        requires
            duration_fits(old(self).time_signature.top as nat, old(self).note_seq()),
        ensures
            final(self).time_signature == old(self).time_signature,
            final(self).notes == old(self).notes,
            final(self).wf(),
    {
        let mut final_event_time: usize = 0;
        let n = self.notes.len();
        let mut i: usize = 0;
        while i < n
            invariant
                n == self.notes@.len(),
                i <= n,
                final_event_time == max_note_end(self.notes@.take(i as int)),
            decreases n - i,
        {
            assert(self.notes@.take(i + 1).drop_last() =~= self.notes@.take(i as int));
            let end = self.notes[i].range.0.end.total_units();
            if end > final_event_time {
                final_event_time = end;
            }
            i = i + 1;
        }
        assert(self.notes@.take(n as int) =~= self.notes@);
        let final_event_time = if final_event_time == 0 {
            final_event_time
        } else {
            final_event_time - 1
        };
        let beats = final_event_time / MusicalTime::UNITS_IN_BEAT;
        let top = self.time_signature.top;
        let rounded_up_bars = (beats + top) / top;
        self.duration = MusicalTime::new_with_bars(&self.time_signature, rounded_up_bars);
    }

    /// Returns the number of notes in the pattern.
    pub fn note_count(&self) -> (r: usize)
        ensures
            r == self.note_seq().len(),
    {
        self.notes.len()
    }

    /// Returns the pattern grid's number of subdivisions: the time signature's
    /// top times its bottom.
    pub fn default_grid_value(&self) -> (r: usize)
        requires
            self.sig().top * self.sig().bottom <= usize::MAX,
        ensures
            r == self.sig().top * self.sig().bottom,
    {
        self.time_signature.top * self.time_signature.bottom
    }

    /// Adds a note to this pattern. Does not check for duplicates. It's OK to
    /// add notes in any time order.
    pub fn add_note(&mut self, note: Note)
        requires
            old(self).wf(),
            duration_fits(old(self).sig().top as nat, old(self).note_seq().push(note)),
        ensures
            final(self).sig() == old(self).sig(),
            final(self).note_seq() == old(self).note_seq().push(note),
            final(self).wf(),
    {
        self.notes.push(note);
        self.refresh_internals();
    }

    /// Removes all notes matching this one in this pattern.
    pub fn remove_note(&mut self, note: &Note)
        requires
            old(self).wf(),
        ensures
            final(self).sig() == old(self).sig(),
            final(self).note_seq() == notes_without(old(self).note_seq(), *note),
            final(self).wf(),
    {
        let ghost pred = differs_from(*note);
        let mut kept: Vec<Note> = Vec::new();
        let n = self.notes.len();
        let mut i: usize = 0;
        while i < n
            invariant
                n == self.notes@.len(),
                i <= n,
                pred == differs_from(*note),
                kept@ == self.notes@.take(i as int).filter(pred),
            decreases n - i,
        {
            if !self.notes[i].same_as(note) {
                kept.push(self.notes[i].clone());
            }
            proof {
                reveal_with_fuel(Seq::filter, 1);
                assert(self.notes@.take(i + 1).drop_last() =~= self.notes@.take(i as int));
                assert(self.notes@.take(i + 1).last() == self.notes@[i as int]);
            }
            i = i + 1;
        }
        assert(self.notes@.take(n as int) =~= self.notes@);
        proof {
            let old_notes = self.notes@;
            assert forall|k: int| 0 <= k < kept@.len() implies old_notes.contains(#[trigger] kept@[k]) by {
                let f = old_notes.filter(pred);
                assert(f[k] == kept@[k]);
                assert(f.contains(f[k]));
                old_notes.lemma_filter_contains_rev(pred, f[k]);
            }
            lemma_max_note_end_of_subset(kept@, old_notes);
            lemma_duration_monotone(self.time_signature.top as nat, kept@, old_notes);
        }
        self.notes = kept;
        self.refresh_internals();
    }

    /// Removes all notes in this pattern.
    pub fn clear(&mut self)
        requires
            old(self).wf(),
        ensures
            final(self).sig() == old(self).sig(),
            final(self).note_seq().len() == 0,
            final(self).wf(),
    {
        proof {
            lemma_duration_monotone(self.time_signature.top as nat, Seq::<Note>::empty(), self.notes@);
        }
        self.notes = Vec::new();
        self.refresh_internals();
    }

    /// This pattern's duration in [MusicalTime].
    pub fn duration(&self) -> (r: MusicalTime)
        ensures
            r == self.dur(),
    {
        self.duration
    }

    /// Sets a new start time for all notes in the Pattern matching the given
    /// [Note], keeping their length. If any are found, returns the new version.
    pub fn move_note(&mut self, note: &Note, new_start: MusicalTime) -> (r: Result<Note, PatternError>)
        requires
            old(self).wf(),
            note.range.0.start@ <= note.range.0.end@,
            new_start@ + (note.range.0.end@ - note.range.0.start@) <= usize::MAX,
            duration_fits(
                old(self).sig().top as nat,
                replaced_notes(
                    old(self).note_seq(),
                    *note,
                    Note {
                        key: note.key,
                        range: TimeRange(
                            new_start..time_of_units(
                                (new_start@ + (note.range.0.end@ - note.range.0.start@)) as nat,
                            ),
                        ),
                    },
                ),
            ),
        ensures
            ({
                let moved = Note {
                    key: note.key,
                    range: TimeRange(
                        new_start..time_of_units(
                            (new_start@ + (note.range.0.end@ - note.range.0.start@)) as nat,
                        ),
                    ),
                };
                edit_outcome(*old(self), *final(self), *note, moved, r)
            }),
    {
        let length = note.range.0.end - note.range.0.start;
        let new_note = Note { key: note.key, range: TimeRange(new_start..new_start + length) };
        self.replace_note(note, new_note)
    }

    /// Sets a new start time and duration for all notes in the Pattern
    /// matching the given [Note]. If any are found, returns the new version.
    pub fn move_and_resize_note(
        &mut self,
        note: &Note,
        new_start: MusicalTime,
        duration: MusicalTime,
    ) -> (r: Result<Note, PatternError>)
        requires
            old(self).wf(),
            new_start@ + duration@ <= usize::MAX,
            duration_fits(
                old(self).sig().top as nat,
                replaced_notes(
                    old(self).note_seq(),
                    *note,
                    Note {
                        key: note.key,
                        range: TimeRange(new_start..time_of_units(new_start@ + duration@)),
                    },
                ),
            ),
        ensures
            edit_outcome(
                *old(self),
                *final(self),
                *note,
                Note {
                    key: note.key,
                    range: TimeRange(new_start..time_of_units(new_start@ + duration@)),
                },
                r,
            ),
    {
        let new_note = Note { key: note.key, range: TimeRange(new_start..new_start + duration) };
        self.replace_note(note, new_note)
    }

    /// Sets a new key for all notes in the Pattern matching the given [Note].
    /// If any are found, returns the new version.
    pub fn change_note_key(&mut self, note: &Note, new_key: u8) -> (r: Result<Note, PatternError>)
        requires
            old(self).wf(),
        ensures
            edit_outcome(
                *old(self),
                *final(self),
                *note,
                Note { key: new_key, range: note.range },
                r,
            ),
    {
        let new_note = Note { key: new_key, range: note.range.clone() };
        proof {
            lemma_rekey_keeps_extent(self.notes@, *note, new_note);
        }
        self.replace_note(note, new_note)
    }

    /// Replaces all notes in the Pattern matching the given [Note] with a new
    /// [Note]. If any are found, returns the new version.
    pub fn replace_note(&mut self, note: &Note, new_note: Note) -> (r: Result<Note, PatternError>)
        requires
            old(self).wf(),
            duration_fits(old(self).sig().top as nat, replaced_notes(old(self).note_seq(), *note, new_note)),
        ensures
            edit_outcome(*old(self), *final(self), *note, new_note, r),
    {
        let ghost target = *note;
        let ghost f = replace_matching(target, new_note);
        let mut found = false;
        let mut replaced: Vec<Note> = Vec::new();
        let n = self.notes.len();
        let mut i: usize = 0;
        while i < n
            invariant
                n == self.notes@.len(),
                i <= n,
                target == *note,
                f == replace_matching(target, new_note),
                replaced@ == self.notes@.take(i as int).map_values(f),
                found <==> exists|k: int| 0 <= k < i && #[trigger] self.notes@[k] == target,
            decreases n - i,
        {
            proof {
                assert(self.notes@.take(i + 1).drop_last() =~= self.notes@.take(i as int));
                assert(self.notes@.take(i + 1)[i as int] == self.notes@[i as int]);
            }
            let ghost before = replaced@;
            if self.notes[i].same_as(note) {
                replaced.push(new_note.clone());
                found = true;
                assert(self.notes@[i as int] == target);
            } else {
                replaced.push(self.notes[i].clone());
            }
            proof {
                let t = self.notes@.take(i + 1);
                assert forall|k: int| 0 <= k < i + 1 implies #[trigger] replaced@[k] == f(t[k]) by {
                    if k < i {
                        assert(before[k] == f(self.notes@.take(i as int)[k]));
                    }
                }
                assert(replaced@ =~= t.map_values(f));
            }
            i = i + 1;
        }
        assert(self.notes@.take(n as int) =~= self.notes@);
        if found {
            self.notes = replaced;
            self.refresh_internals();
            Ok(new_note)
        } else {
            proof {
                assert(replaced@ =~= self.notes@);
            }
            Err(PatternError::NoteNotFound)
        }
    }

    /// The pattern's time signature.
    pub fn time_signature(&self) -> (r: TimeSignature)
        ensures
            r == self.sig(),
    {
        self.time_signature
    }

    /// Returns a read-only slice of all the [Note]s in this pattern. No order
    /// is currently defined.
    pub fn notes(&self) -> (r: &[Note])
        ensures
            r@ == self.note_seq(),
    {
        self.notes.as_slice()
    }

    /// Whether two patterns have the same time signature, duration and notes.
    pub fn same_as(&self, other: &Pattern) -> (r: bool)
        ensures
            r == (self.sig() == other.sig() && self.dur() == other.dur() && self.note_seq()
                == other.note_seq()),
    {
        if self.time_signature != other.time_signature || self.duration != other.duration
            || self.notes.len() != other.notes.len() {
            return false;
        }
        let n = self.notes.len();
        let mut i: usize = 0;
        while i < n
            invariant
                n == self.notes@.len(),
                n == other.note_seq().len(),
                i <= n,
                forall|k: int| 0 <= k < i ==> self.notes@[k] == other.notes@[k],
            decreases n - i,
        {
            if !self.notes[i].same_as(&other.notes[i]) {
                return false;
            }
            i = i + 1;
        }
        assert(self.notes@ =~= other.notes@);
        true
    }

    /// A copy of the pattern with every note moved later by `offset`. The
    /// time signature and duration are kept as they are.
    pub fn shifted(&self, offset: MusicalTime) -> (r: Pattern)
        requires
            forall|i: int| 0 <= i < self.note_seq().len() ==> can_shift_note(#[trigger] self.note_seq()[i], offset@),
        ensures
            r.sig() == self.sig(),
            r.dur() == self.dur(),
            r.note_seq() == self.note_seq().map_values(|n: Note| shifted_note(n, offset@)),
    {
        let mut notes: Vec<Note> = Vec::new();
        let n = self.notes.len();
        let mut i: usize = 0;
        while i < n
            invariant
                n == self.notes@.len(),
                i <= n,
                forall|k: int| 0 <= k < self.note_seq().len() ==> can_shift_note(#[trigger] self.note_seq()[k], offset@),
                notes@ == self.notes@.take(i as int).map_values(|n: Note| shifted_note(n, offset@)),
            decreases n - i,
        {
            assert(self.note_seq()[i as int] == self.notes@[i as int]);
            notes.push(self.notes[i].shifted(offset));
            proof {
                assert(notes@ =~= self.notes@.take(i + 1).map_values(|n: Note| shifted_note(n, offset@)));
            }
            i = i + 1;
        }
        assert(self.notes@.take(n as int) =~= self.notes@);
        Pattern { time_signature: self.time_signature, duration: self.duration, notes }
    }

    /// The MIDI events that play the pattern: each note's note-on and note-off,
    /// note by note.
    pub fn to_midi_events(&self) -> (r: Vec<MidiEvent>)
        ensures
            r@ == notes_events(self.note_seq()),
    {
        let mut events: Vec<MidiEvent> = Vec::new();
        let n = self.notes.len();
        let mut i: usize = 0;
        while i < n
            invariant
                n == self.notes@.len(),
                i <= n,
                events@ == notes_events(self.notes@.take(i as int)),
            decreases n - i,
        {
            let pair = self.notes[i].to_midi_events();
            events.push(pair[0]);
            events.push(pair[1]);
            proof {
                let t = self.notes@.take(i + 1);
                assert(t.drop_last() =~= self.notes@.take(i as int));
                assert(t.last() == self.notes@[i as int]);
                assert(events@ =~= notes_events(t));
            }
            i = i + 1;
        }
        assert(self.notes@.take(n as int) =~= self.notes@);
        events
    }
}

/// Changing only the key keeps every note's extent, so the latest end stays.
proof fn lemma_rekey_keeps_extent(notes: Seq<Note>, target: Note, new_note: Note)
    requires
        new_note.range == target.range,
    ensures
        max_note_end(replaced_notes(notes, target, new_note)) == max_note_end(notes),
    decreases notes.len(),
{
    let r = replaced_notes(notes, target, new_note);
    if notes.len() > 0 {
        lemma_rekey_keeps_extent(notes.drop_last(), target, new_note);
        assert(r.drop_last() =~= replaced_notes(notes.drop_last(), target, new_note));
    }
}

/// What an edit of matching notes leaves behind: where some note matched,
/// every match is replaced, the duration is recomputed and the new note is
/// returned; where none matched, the pattern is unchanged and the error
/// says so.
pub open spec fn edit_outcome(
    before: Pattern,
    after: Pattern,
    target: Note,
    replacement: Note,
    r: Result<Note, PatternError>,
) -> bool {
    &&& after.sig() == before.sig()
    &&& after.wf()
    &&& if before.note_seq().contains(target) {
        &&& r == Ok::<Note, PatternError>(replacement)
        &&& after.note_seq() == replaced_notes(before.note_seq(), target, replacement)
    } else {
        &&& r == Err::<Note, PatternError>(PatternError::NoteNotFound)
        &&& after.note_seq() == before.note_seq()
        &&& after.dur() == before.dur()
    }
}

impl Default for Pattern {
    fn default() -> (r: Self)
        ensures
            r.sig() == (TimeSignature { top: 4, bottom: 4 }),
            r.note_seq().len() == 0,
            r.wf(),
    {
        proof {
            let empty = Seq::<Note>::empty();
            assert(max_note_end(empty) == 0);
            assert(pattern_bars(4, empty) == 1);
        }
        Pattern::new_refreshed(TimeSignature::default(), Vec::new())
    }
}

/// A pattern's duration is a whole number of bars, at least one bar, long
/// enough to hold every note, and the shortest such length.
pub proof fn lemma_pattern_duration_is_whole_bars(p: Pattern)
    requires
        p.wf(),
    ensures
        p.dur()@ % units_per_bar(p.sig().top as nat) == 0,
        p.dur()@ >= units_per_bar(p.sig().top as nat),
        forall|i: int| 0 <= i < p.note_seq().len() ==> #[trigger] p.note_seq()[i].range.0.end@ <= p.dur()@,
        p.dur()@ == units_per_bar(p.sig().top as nat) || p.dur()@ - units_per_bar(
            p.sig().top as nat,
        ) < max_note_end(p.note_seq()),
{
    let top = p.sig().top as nat;
    let f = max_note_end(p.note_seq());
    let b = last_sounding_beat(p.note_seq());
    let bars = pattern_bars(top, p.note_seq());
    let bar = units_per_bar(top);
    vstd::arithmetic::div_mod::lemma_fundamental_div_mod((b + top) as int, top as int);
    vstd::arithmetic::div_mod::lemma_mod_bound((b + top) as int, top as int);
    assert(bars >= 1) by {
        vstd::arithmetic::div_mod::lemma_div_is_ordered(top as int, (b + top) as int, top as int);
        vstd::arithmetic::div_mod::lemma_div_basics(top as int);
    }
    assert(p.dur()@ % bar == 0) by {
        vstd::arithmetic::div_mod::lemma_mod_multiples_basic(bars as int, bar as int);
    }
    assert(bar <= p.dur()@) by {
        vstd::arithmetic::mul::lemma_mul_inequality(1, bars as int, bar as int);
    }
    // bars * top > b, so the duration reaches past the last sounding beat.
    assert(top * bars >= b + 1);
    if f > 0 {
        vstd::arithmetic::div_mod::lemma_fundamental_div_mod((f - 1) as int, 65536);
        vstd::arithmetic::div_mod::lemma_mod_bound((f - 1) as int, 65536);
    }
    assert(p.dur()@ >= f) by (nonlinear_arith)
        requires
            p.dur()@ == bars * (top * 65536),
            top * bars >= b + 1,
            f == 0 || (f - 1) == 65536 * b + (f - 1) % 65536,
            f == 0 || (f - 1) % 65536 < 65536,
    ;
    assert forall|i: int| 0 <= i < p.note_seq().len() implies #[trigger] p.note_seq()[i].range.0.end@ <= p.dur()@ by {
        lemma_max_note_end_bounds(p.note_seq(), i);
    }
    if bars > 1 {
        assert((bars - 1) * top <= b) by (nonlinear_arith)
            requires
                b + top == top * bars + (b + top) % top,
                (b + top) % top >= 0,
        ;
        assert(f > 0) by {
            if f == 0 {
                assert(b == 0);
                assert((bars - 1) * top >= top) by (nonlinear_arith)
                    requires
                        bars >= 2,
                        top > 0,
                ;
            }
        }
        assert(p.dur()@ - bar < f) by (nonlinear_arith)
            requires
                p.dur()@ == bars * (top * 65536),
                bar == top * 65536,
                (bars - 1) * top <= b,
                (f - 1) == 65536 * b + (f - 1) % 65536,
                (f - 1) % 65536 >= 0,
                f > 0,
        ;
    } else {
        assert(p.dur()@ == bar) by (nonlinear_arith)
            requires
                p.dur()@ == bars * bar,
                bars == 1,
        ;
    }
}

/// The notes a note sequence produces: the `i`th key becomes a note from
/// `i * step` to `(i + 1) * step`, and the key 255 is a rest.
pub open spec fn sequence_notes(keys: Seq<u8>, step: nat) -> Seq<Note>
    decreases keys.len(),
{
    if keys.len() == 0 {
        Seq::empty()
    } else {
        let i = (keys.len() - 1) as nat;
        let before = sequence_notes(keys.drop_last(), step);
        if keys.last() == 255 {
            before
        } else {
            before.push(
                Note {
                    key: keys.last(),
                    range: TimeRange(time_of_units(i * step)..time_of_units((i + 1) * step)),
                },
            )
        }
    }
}

/// The length of one note-sequence step for a grid value: a beat divided by
/// the grid value, or the longest time there is for a grid value of zero.
pub open spec fn grid_step(grid_value: nat) -> nat {
    if grid_value == 0 {
        usize::MAX as nat
    } else {
        units_per_beat() / grid_value
    }
}

/// Why a [PatternBuilder] could not build.
#[derive(Clone, Copy, Debug, PartialEq, Eq, Structural)]
pub enum PatternBuilderError {
    /// A required field was not set.
    UninitializedField,
}

/// Builds a [Pattern] from a time signature (4/4 unless set) and notes.
#[derive(Debug)]
pub struct PatternBuilder {
    time_signature: Option<TimeSignature>,
    notes: Vec<Note>,
}

impl Default for PatternBuilder {
    fn default() -> (r: Self)
        ensures
            r.built_sig() == (TimeSignature { top: 4, bottom: 4 }),
            r.built_notes().len() == 0,
    {
        PatternBuilder { time_signature: None, notes: Vec::new() }
    }
}

impl PatternBuilder {
    /// The time signature the pattern will have.
    pub closed spec fn built_sig(&self) -> TimeSignature {
        match self.time_signature {
            Some(ts) => ts,
            None => TimeSignature { top: 4, bottom: 4 },
        }
    }

    /// The notes the pattern will have.
    pub closed spec fn built_notes(&self) -> Seq<Note> {
        self.notes@
    }

    /// Sets the time signature.
    pub fn time_signature(&mut self, time_signature: TimeSignature) -> (r: &mut Self)
        ensures
            r.built_sig() == time_signature,
            r.built_notes() == old(self).built_notes(),
            *final(self) == *final(r),
    {
        self.time_signature = Some(time_signature);
        self
    }

    /// Adds one note.
    pub fn note(&mut self, note: Note) -> (r: &mut Self)
        ensures
            r.built_sig() == old(self).built_sig(),
            r.built_notes() == old(self).built_notes().push(note),
            *final(self) == *final(r),
    {
        self.notes.push(note);
        self
    }

    /// Replaces all the notes.
    pub fn notes(&mut self, notes: Vec<Note>) -> (r: &mut Self)
        ensures
            r.built_sig() == old(self).built_sig(),
            r.built_notes() == notes@,
            *final(self) == *final(r),
    {
        self.notes = notes;
        self
    }

    /// Builds the [Pattern], computing its duration from its notes.
    pub fn build(&self) -> (r: Result<Pattern, PatternBuilderError>)
        requires
            duration_fits(self.built_sig().top as nat, self.built_notes()),
        ensures
            r matches Ok(p) && p.sig() == self.built_sig() && p.note_seq() == self.built_notes()
                && p.wf(),
    {
        let mut notes: Vec<Note> = Vec::new();
        let n = self.notes.len();
        let mut i: usize = 0;
        while i < n
            invariant
                n == self.notes@.len(),
                i <= n,
                notes@ == self.notes@.take(i as int),
            decreases n - i,
        {
            notes.push(self.notes[i].clone());
            assert(notes@ =~= self.notes@.take(i + 1));
            i = i + 1;
        }
        assert(notes@ =~= self.notes@);
        let time_signature = match self.time_signature {
            Some(ts) => ts,
            None => TimeSignature::default(),
        };
        Ok(Pattern::new_refreshed(time_signature, notes))
    }

    /// Given a sequence of MIDI note numbers and an optional grid value that
    /// overrides the one implied by the time signature, adds [Note]s one after
    /// another into the pattern. The value 255 is reserved for rest (no note,
    /// or silence). The grid value is like a time signature's bottom: each
    /// note lasts a beat divided by it.
    pub fn note_sequence(&mut self, midi_note_numbers: Vec<u8>, grid_value: Option<usize>) -> (r:
        &mut Self)
        requires
            midi_note_numbers@.len() * grid_step(
                match grid_value {
                    Some(g) => g as nat,
                    None => old(self).built_sig().bottom as nat,
                },
            ) <= usize::MAX,
        ensures
            r.built_sig() == old(self).built_sig(),
            r.built_notes() == old(self).built_notes() + sequence_notes(
                midi_note_numbers@,
                grid_step(
                    match grid_value {
                        Some(g) => g as nat,
                        None => old(self).built_sig().bottom as nat,
                    },
                ),
            ),
            *final(self) == *final(r),
    {
        let grid_value = match grid_value {
            Some(g) => g,
            None => match self.time_signature {
                Some(ts) => ts.bottom,
                None => 4,
            },
        };
        let step: usize = if grid_value == 0 {
            usize::MAX
        } else {
            MusicalTime::UNITS_IN_BEAT / grid_value
        };
        let ghost keys = midi_note_numbers@;
        let ghost start_notes = self.notes@;
        let n = midi_note_numbers.len();
        let mut position: usize = 0;
        let mut i: usize = 0;
        while i < n
            invariant
                n == keys.len(),
                keys == midi_note_numbers@,
                i <= n,
                n * step <= usize::MAX,
                position == i * step,
                self.notes@ == start_notes + sequence_notes(keys.take(i as int), step as nat),
                self.time_signature == old(self).time_signature,
            decreases n - i,
        {
            proof {
                vstd::arithmetic::mul::lemma_mul_inequality((i + 1) as int, n as int, step as int);
                vstd::arithmetic::mul::lemma_mul_is_distributive_add_other_way(step as int, i as int, 1);
                assert(keys.take(i + 1).drop_last() =~= keys.take(i as int));
            }
            let next = position + step;
            let key = midi_note_numbers[i];
            if key != 255 {
                self.notes.push(
                    Note {
                        key,
                        range: TimeRange(
                            MusicalTime::new_with_units(position)..MusicalTime::new_with_units(next),
                        ),
                    },
                );
            }
            proof {
                let t = keys.take(i + 1);
                assert(t.last() == key);
                assert(t.len() - 1 == i);
                let prev = sequence_notes(keys.take(i as int), step as nat);
                assert(sequence_notes(t, step as nat) == (if key == 255 {
                    prev
                } else {
                    prev.push(
                        Note {
                            key,
                            range: TimeRange(
                                time_of_units((i as nat) * (step as nat))..time_of_units(((i + 1) as nat) * (step as nat)),
                            ),
                        },
                    )
                }));
                if key != 255 {
                    let last = self.notes@.last();
                    assert(time_of_units((i as nat) * (step as nat))@ == i * step);
                    assert(time_of_units(((i + 1) as nat) * (step as nat))@ == (i + 1) * step);
                    assert(last.range.0.start@ == i * step);
                    assert(last.range.0.end@ == (i + 1) * step);
                    assert(last.range.0.start == time_of_units((i as nat) * (step as nat)));
                    assert(last.range.0.end == time_of_units(((i + 1) as nat) * (step as nat)));
                    assert(self.notes@ =~= start_notes + sequence_notes(t, step as nat));
                }
            }
            position = next;
            i = i + 1;
        }
        assert(keys.take(n as int) =~= keys);
        self
    }
}

/// `HashMap::get_mut`, keyed by `usize`. Claims what its documentation says:
/// where the key is present, the result borrows its value and whatever is
/// written through the borrow becomes the key's new value; where it is
/// absent, the result is `None` and the map is unchanged.
#[verifier::external_body]
fn hash_map_get_mut<'a, V>(m: &'a mut std::collections::HashMap<usize, V>, k: usize) -> (r:
    Option<&'a mut V>)
    ensures
        match r {
            Some(v) => {
                &&& old(m)@.contains_key(k)
                &&& *v == old(m)@[k]
                &&& final(m)@ == old(m)@.insert(k, *final(v))
            },
            None => {
                &&& !old(m)@.contains_key(k)
                &&& final(m)@ == old(m)@
            },
        },
{
    m.get_mut(&k)
}

/// Holds of the identifiers other than `uid`.
pub open spec fn uid_differs_from(uid: PatternUid) -> spec_fn(PatternUid) -> bool {
    |u: PatternUid| u != uid
}

/// [PianoRoll] manages all [Pattern]s.
#[derive(Debug)]
pub struct PianoRoll {
    uid_factory: crate::uid::UidFactory<PatternUid>,
    uids_to_patterns: std::collections::HashMap<usize, Pattern>,
    ordered_pattern_uids: Vec<PatternUid>,
}

impl PianoRoll {
    /// The patterns, by identifier number.
    pub closed spec fn patterns(&self) -> Map<usize, Pattern> {
        self.uids_to_patterns@
    }

    /// The identifiers of the patterns, in the order they were inserted.
    pub closed spec fn order(&self) -> Seq<PatternUid> {
        self.ordered_pattern_uids@
    }

    /// The number the next inserted pattern will get.
    pub closed spec fn next_number(&self) -> nat {
        self.uid_factory.next_value()
    }

    /// The order lists each pattern exactly once, and every pattern's number is
    /// below the next number to be given out.
    pub open spec fn wf(&self) -> bool {
        &&& forall|k: usize| #[trigger]
            self.patterns().contains_key(k) <==> self.order().contains(PatternUid(k))
        &&& self.order().no_duplicates()
        &&& forall|k: usize| #[trigger] self.patterns().contains_key(k) ==> k < self.next_number()
    }

    /// Makes an empty piano roll whose first pattern will be number 1.
    pub fn new() -> (r: Self)
        ensures
            r.wf(),
            r.patterns() == Map::<usize, Pattern>::empty(),
            r.order().len() == 0,
            r.next_number() == 1,
    {
        PianoRoll {
            uid_factory: crate::uid::UidFactory::default(),
            uids_to_patterns: std::collections::HashMap::new(),
            ordered_pattern_uids: Vec::new(),
        }
    }

    /// Adds a [Pattern]. Returns its [PatternUid].
    pub fn insert(&mut self, pattern: Pattern) -> (r: PatternUid)
        requires
            old(self).wf(),
            old(self).next_number() < usize::MAX,
        ensures
            final(self).wf(),
            r.0 == old(self).next_number(),
            !old(self).patterns().contains_key(r.0),
            final(self).patterns() == old(self).patterns().insert(r.0, pattern),
            final(self).order() == old(self).order().push(r),
            final(self).next_number() == old(self).next_number() + 1,
    {
        let uid: PatternUid = self.uid_factory.mint_next();
        self.uids_to_patterns.insert(uid.0, pattern);
        self.ordered_pattern_uids.push(uid);
        proof {
            let old_order = old(self).order();
            let new_order = self.order();
            assert(new_order == old_order.push(uid));
            assert(old(self).patterns().contains_key(uid.0) <==> old_order.contains(PatternUid(uid.0)));
            assert(!old_order.contains(uid));
            assert forall|i: int, j: int| 0 <= i < new_order.len() && 0 <= j < new_order.len() && i != j implies new_order[i] != new_order[j] by {
                if i < old_order.len() && j < old_order.len() {
                    assert(new_order[i] == old_order[i] && new_order[j] == old_order[j]);
                } else if i < old_order.len() {
                    assert(new_order[i] == old_order[i]);
                } else if j < old_order.len() {
                    assert(new_order[j] == old_order[j]);
                }
            }
            assert forall|k: usize| #[trigger]
                self.patterns().contains_key(k) <==> self.order().contains(PatternUid(k)) by {
                assert(old(self).patterns().contains_key(k) <==> old_order.contains(PatternUid(k)));
                if k == uid.0 {
                    assert(new_order[new_order.len() - 1] == PatternUid(k));
                } else {
                    if old_order.contains(PatternUid(k)) {
                        let i = choose|i: int| 0 <= i < old_order.len() && old_order[i] == PatternUid(k);
                        assert(new_order[i] == PatternUid(k));
                    }
                    if new_order.contains(PatternUid(k)) {
                        let i = choose|i: int| 0 <= i < new_order.len() && new_order[i] == PatternUid(k);
                        assert(i < old_order.len());
                        assert(old_order[i] == PatternUid(k));
                    }
                }
            }
            assert forall|k: usize| #[trigger] self.patterns().contains_key(k) implies k < self.next_number() by {
                if k != uid.0 {
                    assert(old(self).patterns().contains_key(k));
                }
            }
        }
        uid
    }

    /// Removes the [Pattern] having the given [PatternUid], if any.
    pub fn remove(&mut self, pattern_uid: &PatternUid)
        requires
            old(self).wf(),
        ensures
            final(self).wf(),
            final(self).patterns() == old(self).patterns().remove(pattern_uid.0),
            final(self).order() == old(self).order().filter(uid_differs_from(*pattern_uid)),
            final(self).next_number() == old(self).next_number(),
    {
        self.uids_to_patterns.remove(&pattern_uid.0);
        let ghost pred = uid_differs_from(*pattern_uid);
        let mut kept: Vec<PatternUid> = Vec::new();
        let n = self.ordered_pattern_uids.len();
        let mut i: usize = 0;
        while i < n
            invariant
                n == self.ordered_pattern_uids@.len(),
                i <= n,
                pred == uid_differs_from(*pattern_uid),
                kept@ == self.ordered_pattern_uids@.take(i as int).filter(pred),
            decreases n - i,
        {
            let uid = self.ordered_pattern_uids[i];
            if uid.0 != pattern_uid.0 {
                kept.push(uid);
            }
            proof {
                reveal_with_fuel(Seq::filter, 1);
                assert(self.ordered_pattern_uids@.take(i + 1).drop_last()
                    =~= self.ordered_pattern_uids@.take(i as int));
                assert(self.ordered_pattern_uids@.take(i + 1).last() == uid);
            }
            i = i + 1;
        }
        assert(self.ordered_pattern_uids@.take(n as int) =~= self.ordered_pattern_uids@);
        let ghost old_order = self.ordered_pattern_uids@;
        self.ordered_pattern_uids = kept;
        proof {
            lemma_filter_keeps_distinct(old_order, pred);
            assert forall|k: usize| #[trigger]
                self.patterns().contains_key(k) <==> self.order().contains(PatternUid(k)) by {
                assert(old(self).patterns().contains_key(k) <==> old_order.contains(PatternUid(k)));
                if old_order.contains(PatternUid(k)) && k != pattern_uid.0 {
                    let i = choose|i: int| 0 <= i < old_order.len() && old_order[i] == PatternUid(k);
                    assert(pred(old_order[i]));
                    old_order.lemma_filter_contains(pred, i);
                }
                if self.order().contains(PatternUid(k)) {
                    old_order.lemma_filter_contains_rev(pred, PatternUid(k));
                    let i = choose|i: int| 0 <= i < self.order().len() && self.order()[i] == PatternUid(k);
                    old_order.lemma_filter_pred(pred, i);
                }
            }
            assert forall|k: usize| #[trigger] self.patterns().contains_key(k) implies k < self.next_number() by {
                assert(old(self).patterns().contains_key(k));
            }
        }
    }

    /// Returns a reference to the specified [Pattern].
    pub fn get_pattern(&self, pattern_uid: &PatternUid) -> (r: Option<&Pattern>)
        ensures
            match r {
                Some(p) => self.patterns().contains_key(pattern_uid.0) && *p == self.patterns()[pattern_uid.0],
                None => !self.patterns().contains_key(pattern_uid.0),
            },
    {
        self.uids_to_patterns.get(&pattern_uid.0)
    }

    /// Returns a mutable reference to the specified [Pattern]. Whatever is
    /// written through it becomes that pattern.
    pub fn get_pattern_mut(&mut self, pattern_uid: &PatternUid) -> (r: Option<&mut Pattern>)
        ensures
            match r {
                Some(p) => {
                    &&& old(self).patterns().contains_key(pattern_uid.0)
                    &&& *p == old(self).patterns()[pattern_uid.0]
                    &&& final(self).patterns() == old(self).patterns().insert(pattern_uid.0, *final(p))
                },
                None => {
                    &&& !old(self).patterns().contains_key(pattern_uid.0)
                    &&& final(self).patterns() == old(self).patterns()
                },
            },
            final(self).order() == old(self).order(),
            final(self).next_number() == old(self).next_number(),
            final(self).patterns().dom() == old(self).patterns().dom(),
    {
        hash_map_get_mut(&mut self.uids_to_patterns, pattern_uid.0)
    }

    /// Changing patterns in place, without adding or removing any, keeps the
    /// piano roll well formed.
    pub proof fn lemma_same_keys_keep_wf(before: PianoRoll, after: PianoRoll)
        requires
            before.wf(),
            after.order() == before.order(),
            after.next_number() == before.next_number(),
            after.patterns().dom() == before.patterns().dom(),
        ensures
            after.wf(),
    {
        assert forall|k: usize| #[trigger] after.patterns().contains_key(k) <==> before.patterns().contains_key(k) by {
            assert(after.patterns().dom().contains(k) == before.patterns().dom().contains(k));
        }
    }
}

/// Filtering a list without duplicates leaves a list without duplicates.
proof fn lemma_filter_keeps_distinct(s: Seq<PatternUid>, pred: spec_fn(PatternUid) -> bool)
    requires
        s.no_duplicates(),
    ensures
        s.filter(pred).no_duplicates(),
    decreases s.len(),
{
    reveal_with_fuel(Seq::filter, 1);
    if s.len() > 0 {
        let rest = s.drop_last();
        assert(rest.no_duplicates()) by {
            assert forall|i: int, j: int| 0 <= i < rest.len() && 0 <= j < rest.len() && i != j implies rest[i] != rest[j] by {
                assert(rest[i] == s[i] && rest[j] == s[j]);
            }
        }
        lemma_filter_keeps_distinct(rest, pred);
        if pred(s.last()) {
            let f = rest.filter(pred);
            assert(!f.contains(s.last())) by {
                if f.contains(s.last()) {
                    rest.lemma_filter_contains_rev(pred, s.last());
                    let i = choose|i: int| 0 <= i < rest.len() && rest[i] == s.last();
                    assert(s[i] == s[s.len() - 1]);
                }
            }
        }
    }
}

/// A note made by [PatternBuilder::random]: a quarter note with a key from 32
/// to 95 that starts on one of the first 64 parts.
pub open spec fn is_random_note(n: Note) -> bool {
    &&& 32 <= n.key < 96
    &&& n.range.0.start@ % 4096 == 0
    &&& n.range.0.start@ < 64 * 4096
    &&& n.range.0.end@ == n.range.0.start@ + 4 * 4096
}

/// The latest end of notes that all end by `bound` is at most `bound`.
proof fn lemma_max_note_end_below(notes: Seq<Note>, bound: nat)
    requires
        forall|i: int| 0 <= i < notes.len() ==> #[trigger] notes[i].range.0.end@ <= bound,
    ensures
        max_note_end(notes) <= bound,
{
    lemma_max_note_end_attained(notes);
}

/// Random notes fit easily into a 4/4 pattern.
proof fn lemma_random_notes_fit(notes: Seq<Note>)
    requires
        forall|i: int| 0 <= i < notes.len() ==> is_random_note(#[trigger] notes[i]),
    ensures
        duration_fits(4, notes),
{
    assert forall|i: int| 0 <= i < notes.len() implies #[trigger] notes[i].range.0.end@ <= 64 * 4096 + 4 * 4096 by {
        assert(is_random_note(notes[i]));
    }
    lemma_max_note_end_below(notes, 64 * 4096 + 4 * 4096);
    let e = max_note_end(notes);
    if e > 0 {
        vstd::arithmetic::div_mod::lemma_div_is_ordered((e - 1) as int, 278528, 65536);
    }
    assert(last_sounding_beat(notes) <= 4);
    vstd::arithmetic::div_mod::lemma_div_is_ordered((last_sounding_beat(notes) + 4) as int, 8, 4);
    assert(pattern_bars(4, notes) <= 2);
    vstd::arithmetic::mul::lemma_mul_inequality(pattern_bars(4, notes) as int, 2, 262144);
}

impl PatternBuilder {
    /// Adds from eight to fifteen random quarter notes, for debugging.
    pub fn random(&mut self) -> (r: &mut Self)
        ensures
            r.built_sig() == old(self).built_sig(),
            r.built_notes().len() >= old(self).built_notes().len() + 8,
            r.built_notes().len() < old(self).built_notes().len() + 16,
            r.built_notes().take(old(self).built_notes().len() as int) == old(self).built_notes(),
            forall|i: int|
                old(self).built_notes().len() <= i < r.built_notes().len() ==> is_random_note(
                    #[trigger] r.built_notes()[i],
                ),
            *final(self) == *final(r),
    {
        let mut rng = Rng::default();
        let count = rng.rand_range(8..16);
        let ghost start_notes = self.notes@;
        let mut i: u64 = 0;
        while i < count
            invariant
                8 <= count < 16,
                i <= count,
                self.notes@.len() == start_notes.len() + i,
                self.notes@.take(start_notes.len() as int) == start_notes,
                forall|k: int| start_notes.len() <= k < self.notes@.len() ==> is_random_note(#[trigger] self.notes@[k]),
                self.time_signature == old(self).time_signature,
            decreases count - i,
        {
            let part = rng.rand_range(0..64);
            let start = MusicalTime::new_with_parts(part as usize);
            let key = rng.rand_range(32..96);
            let note = Note {
                key: key as u8,
                range: TimeRange(start..start + MusicalTime::duration_quarter()),
            };
            proof {
                vstd::arithmetic::div_mod::lemma_mod_multiples_basic(part as int, 4096);
            }
            let ghost before = self.notes@;
            self.notes.push(note);
            proof {
                assert(self.notes@.take(start_notes.len() as int) =~= before.take(start_notes.len() as int));
                assert forall|k: int| start_notes.len() <= k < self.notes@.len() implies is_random_note(#[trigger] self.notes@[k]) by {
                    if k < before.len() {
                        assert(self.notes@[k] == before[k]);
                    }
                }
            }
            i = i + 1;
        }
        self
    }
}

impl Default for PianoRoll {
    /// A piano roll holding sixteen random patterns, numbered 1 to 16.
    fn default() -> (r: Self)
        ensures
            r.wf(),
            r.order().len() == 16,
            r.next_number() == 17,
            forall|i: int| 0 <= i < 16 ==> #[trigger] r.order()[i] == PatternUid((i + 1) as usize),
    {
        let mut r = PianoRoll::new();
        let mut i: usize = 0;
        while i < 16
            invariant
                i <= 16,
                r.wf(),
                r.order().len() == i,
                r.next_number() == i + 1,
                forall|k: int| 0 <= k < i ==> #[trigger] r.order()[k] == PatternUid((k + 1) as usize),
            decreases 16 - i,
        {
            let mut builder = PatternBuilder::default();
            builder.random();
            proof {
                lemma_random_notes_fit(builder.built_notes());
            }
            let pattern = match builder.build() {
                Ok(p) => p,
                Err(_) => Pattern::default(),
            };
            let _ = r.insert(pattern);
            i = i + 1;
        }
        r
    }
}

impl PianoRoll {
    /// Adds one of two fixed three-note patterns (C4-D4-E4 or C5-D5-E5, a
    /// beat each, on consecutive beats). Returns the new pattern's identifier,
    /// its note count and its duration.
    pub fn populate_pattern(&mut self, pattern_number: usize) -> (r: (PatternUid, usize, MusicalTime))
        requires
            pattern_number < 2,
            old(self).wf(),
            old(self).next_number() < usize::MAX,
        ensures
            final(self).wf(),
            r.0.0 == old(self).next_number(),
            r.1 == 3,
            r.2@ == 4 * units_per_beat(),
            final(self).patterns().contains_key(r.0.0),
            final(self).patterns()[r.0.0].note_seq().len() == 3,
            final(self).patterns()[r.0.0].dur() == r.2,
            forall|i: int| 0 <= i < 3 ==> (#[trigger] final(self).patterns()[r.0.0].note_seq()[i]).key
                == 60 + 12 * pattern_number + 2 * i,
            forall|i: int|
                0 <= i < 3 ==> (#[trigger] final(self).patterns()[r.0.0].note_seq()[i]).range.0.start@ == i
                    * units_per_beat() && final(self).patterns()[r.0.0].note_seq()[i].range.0.end@ == (i
                    + 1) * units_per_beat(),
            final(self).order() == old(self).order().push(r.0),
    {
        let (c, d, e) = if pattern_number == 0 {
            (MidiNote::C4, MidiNote::D4, MidiNote::E4)
        } else {
            (MidiNote::C5, MidiNote::D5, MidiNote::E5)
        };
        let mut notes: Vec<Note> = Vec::new();
        notes.push(Note::new_with_midi_note(c, MusicalTime::time_zero(), MusicalTime::duration_whole()));
        notes.push(
            Note::new_with_midi_note(
                d,
                MusicalTime::time_end_of_first_beat(),
                MusicalTime::duration_whole(),
            ),
        );
        notes.push(
            Note::new_with_midi_note(
                e,
                MusicalTime::time_end_of_first_beat() * 2,
                MusicalTime::duration_whole(),
            ),
        );
        let mut builder = PatternBuilder::default();
        builder.notes(notes);
        let ghost ns = builder.built_notes();
        proof {
            assert forall|i: int| 0 <= i < ns.len() implies #[trigger] ns[i].range.0.end@ <= 3 * 65536 by {
            }
            lemma_max_note_end_below(ns, 3 * 65536);
            lemma_max_note_end_bounds(ns, 2);
            assert(max_note_end(ns) == 3 * 65536);
            assert(last_sounding_beat(ns) == 2);
            assert(pattern_bars(4, ns) == 1);
        }
        let pattern = match builder.build() {
            Ok(p) => p,
            Err(_) => Pattern::default(),
        };
        let len = pattern.notes().len();
        let duration = pattern.duration();
        (self.insert(pattern), len, duration)
    }
}

} // verus!
