//! A small sequencer that keeps its events in a multimap from time to message.
use crate::composition::Note;
use crate::midi::{u7_of, MidiChannel, MidiEvent, MidiMessage, U7};
use crate::piano_roll::Pattern;
use crate::composition::{can_shift_note, shifted_note};
use crate::piano_roll::differs_from;
use crate::sequencers::{
    can_shift_pattern, lemma_filter_keeps_all, lemma_push_filtered_out, shifted_notes, SequencerError,
};
use crate::piano_roll::max_note_end;
use crate::time::{group_time_facts, MusicalTime, TimeSignature};
use crate::rng::Rng;
use crate::traits::{HandlesMidi, Sequences, SequencesMidi, Serializable};
use crate::uid::Uid;
use btreemultimap::BTreeMultiMap;
use vstd::prelude::*;

verus! {

broadcast use group_time_facts;

#[verifier::external_type_specification]
#[verifier::external_body]
#[verifier::reject_recursive_types(K)]
#[verifier::reject_recursive_types(V)]
pub struct ExBTreeMultiMap<K, V>(BTreeMultiMap<K, V>);

/// What a multimap of events holds: for each time (in units) that has
/// events, the messages at that time in the order they were inserted.
pub uninterp spec fn multimap_events(m: BTreeMultiMap<usize, MidiMessage>) -> Map<usize, Seq<MidiMessage>>;

/// No events at all.
pub open spec fn no_events() -> Map<usize, Seq<MidiMessage>> {
    Map::empty()
}

/// The events after adding `v` at time `k`, after those already there.
pub open spec fn add_event(m: Map<usize, Seq<MidiMessage>>, k: usize, v: MidiMessage) -> Map<usize, Seq<MidiMessage>> {
    m.insert(k, if m.contains_key(k) { m[k].push(v) } else { seq![v] })
}

/// The messages at times `start` up to (not including) `end`, time by time,
/// each time's messages in insertion order.
pub open spec fn events_between(m: Map<usize, Seq<MidiMessage>>, start: nat, end: nat) -> Seq<MidiMessage>
    decreases end - start,
{
    if end <= start {
        Seq::empty()
    } else {
        let k = (end - 1) as nat;
        events_between(m, start, k) + if m.contains_key(k as usize) && k <= usize::MAX {
            m[k as usize]
        } else {
            Seq::empty()
        }
    }
}

/// Holds of the messages kept when every `message` at `time` is removed.
pub open spec fn kept_unless(time: usize, message: MidiMessage) -> spec_fn(usize, MidiMessage) -> bool {
    |k: usize, v: MidiMessage| !(k == time && v == message)
}

/// The events after keeping, at each time, only the messages that `keep`
/// holds of; times left with no message are dropped.
pub open spec fn retained(m: Map<usize, Seq<MidiMessage>>, keep: spec_fn(usize, MidiMessage) -> bool) -> Map<usize, Seq<MidiMessage>> {
    Map::new(
        |k: usize| m.contains_key(k) && m[k].filter(|v: MidiMessage| keep(k, v)).len() > 0,
        |k: usize| m[k].filter(|v: MidiMessage| keep(k, v)),
    )
}

/// `BTreeMultiMap::new`: an empty multimap.
#[verifier::external_body]
fn events_new() -> (r: BTreeMultiMap<usize, MidiMessage>)
    ensures
        multimap_events(r) == no_events(),
{
    BTreeMultiMap::new()
}

/// `BTreeMultiMap::insert`: pushes `v` onto the messages at `k`.
#[verifier::external_body]
fn events_insert(m: &mut BTreeMultiMap<usize, MidiMessage>, k: usize, v: MidiMessage)
    ensures
        multimap_events(*final(m)) == add_event(multimap_events(*old(m)), k, v),
{
    m.insert(k, v)
}

/// `BTreeMultiMap::clear`: removes everything.
#[verifier::external_body]
fn events_clear(m: &mut BTreeMultiMap<usize, MidiMessage>)
    ensures
        multimap_events(*final(m)) == no_events(),
{
    m.clear()
}

/// `BTreeMultiMap::range` over `start..end`, keeping the messages: the
/// messages at each time from `start` up to `end`, in time order, and at each
/// time in insertion order. The range must not be reversed.
#[verifier::external_body]
fn events_in_range(m: &BTreeMultiMap<usize, MidiMessage>, start: usize, end: usize) -> (r: Vec<MidiMessage>)
    requires
        start <= end,
    ensures
        r@ == events_between(multimap_events(*m), start as nat, end as nat),
{
    m.range(start..end).map(|(_, v)| *v).collect()
}

/// Whether the message at `k` is kept when every `message` at `time` goes.
fn keeps(k: usize, v: MidiMessage, time: usize, message: MidiMessage) -> (r: bool)
    ensures
        r == kept_unless(time, message)(k, v),
{
    !(k == time && v == message)
}

/// `BTreeMultiMap::retain`, keeping every message but copies of `message` at
/// `time`; a time left with no message is dropped.
#[verifier::external_body]
fn events_remove_all(m: &mut BTreeMultiMap<usize, MidiMessage>, time: usize, message: MidiMessage)
    ensures
        multimap_events(*final(m)) == retained(multimap_events(*old(m)), kept_unless(time, message)),
{
    m.retain(|k: &usize, v: &MidiMessage| keeps(*k, *v, time, message))
}

/// The note-on that starts `n` at full velocity.
pub open spec fn es_note_on(n: Note) -> MidiMessage {
    MidiMessage::NoteOn { key: u7_of((n.key % 128) as nat), vel: u7_of(127) }
}

/// The note-off that ends `n`, at velocity zero.
pub open spec fn es_note_off(n: Note) -> MidiMessage {
    MidiMessage::NoteOff { key: u7_of((n.key % 128) as nat), vel: u7_of(0) }
}

/// The events after adding the note-on and note-off of `n`.
pub open spec fn with_note(m: Map<usize, Seq<MidiMessage>>, n: Note) -> Map<usize, Seq<MidiMessage>> {
    add_event(
        add_event(m, n.range.0.start@ as usize, es_note_on(n)),
        n.range.0.end@ as usize,
        es_note_off(n),
    )
}

/// The events after adding each of the notes in order.
pub open spec fn with_notes(m: Map<usize, Seq<MidiMessage>>, notes: Seq<Note>) -> Map<usize, Seq<MidiMessage>>
    decreases notes.len(),
{
    if notes.len() == 0 {
        m
    } else {
        with_note(with_notes(m, notes.drop_last()), notes.last())
    }
}

/// The notes the sequencer plays: its own notes, then the notes of each
/// pattern moved to where the pattern is placed.
pub open spec fn placed_notes(notes: Seq<Note>, patterns: Seq<(MusicalTime, Pattern)>) -> Seq<Note>
    decreases patterns.len(),
{
    if patterns.len() == 0 {
        notes
    } else {
        placed_notes(notes, patterns.drop_last()) + shifted_notes(
            patterns.last().1.note_seq(),
            patterns.last().0@,
        )
    }
}

/// The events built from the notes and the placed patterns' notes.
pub open spec fn events_of(notes: Seq<Note>, patterns: Seq<(MusicalTime, Pattern)>) -> Map<usize, Seq<MidiMessage>> {
    with_notes(no_events(), placed_notes(notes, patterns))
}

/// The latest end of the notes and the placed patterns' notes, or zero.
pub open spec fn final_of(notes: Seq<Note>, patterns: Seq<(MusicalTime, Pattern)>) -> nat {
    max_note_end(placed_notes(notes, patterns))
}

/// Parts of [ESSequencer] that are recomputed rather than kept.
#[derive(Debug)]
pub struct ESSequencerEphemerals {
    /// The time slice that work applies to.
    range: core::ops::Range<MusicalTime>,
    /// The events, by time in units.
    events: BTreeMultiMap<usize, MidiMessage>,
    /// The latest note end of all the notes.
    final_event_time: MusicalTime,
    /// Where the next appended note or pattern goes.
    cursor: MusicalTime,
    /// Whether a performance is under way.
    is_performing: bool,
    /// Whether incoming messages are recorded.
    is_recording: bool,
    /// The part of the timeline on view.
    view_range: core::ops::Range<MusicalTime>,
}

impl ESSequencerEphemerals {
    /// No events, every time at zero, neither performing nor recording.
    pub closed spec fn is_fresh(&self) -> bool {
        &&& multimap_events(self.events) == no_events()
        &&& self.range.start@ == 0 && self.range.end@ == 0
        &&& self.final_event_time@ == 0
        &&& self.cursor@ == 0
        &&& !self.is_performing
        &&& !self.is_recording
        &&& self.view_range.start@ == 0 && self.view_range.end@ == 0
    }
}

impl Default for ESSequencerEphemerals {
    fn default() -> (r: Self)
        ensures
            r.is_fresh(),
    {
        ESSequencerEphemerals {
            range: MusicalTime::start()..MusicalTime::start(),
            events: events_new(),
            final_event_time: MusicalTime::start(),
            cursor: MusicalTime::start(),
            is_performing: false,
            is_recording: false,
            view_range: MusicalTime::start()..MusicalTime::start(),
        }
    }
}

/// [ESSequencer] replays [MidiMessage]s according to [MusicalTime].
#[derive(Debug)]
pub struct ESSequencer {
    uid: Uid,
    midi_channel_out: MidiChannel,
    /// The [Note]s to be sequenced.
    notes: Vec<Note>,
    /// The [Pattern]s to be sequenced, each with where it starts.
    patterns: Vec<(MusicalTime, Pattern)>,
    /// The default time signature.
    time_signature: TimeSignature,
    e: ESSequencerEphemerals,
}

impl ESSequencer {
    /// The notes, in the order they were added, at their absolute times.
    pub closed spec fn note_list(&self) -> Seq<Note> {
        self.notes@
    }

    /// The patterns, each with where it starts.
    pub closed spec fn pattern_list(&self) -> Seq<(MusicalTime, Pattern)> {
        self.patterns@
    }

    /// The events, by time in units.
    pub closed spec fn events(&self) -> Map<usize, Seq<MidiMessage>> {
        multimap_events(self.e.events)
    }

    /// The start of the current time slice.
    pub closed spec fn slice_start(&self) -> MusicalTime {
        self.e.range.start
    }

    /// The end (exclusive) of the current time slice.
    pub closed spec fn slice_end(&self) -> MusicalTime {
        self.e.range.end
    }

    /// The latest note end at the last recomputation of the events.
    pub closed spec fn final_time(&self) -> MusicalTime {
        self.e.final_event_time
    }

    /// Where the next appended note or pattern goes.
    pub closed spec fn cursor_time(&self) -> MusicalTime {
        self.e.cursor
    }

    /// Whether a performance is under way.
    pub closed spec fn performing(&self) -> bool {
        self.e.is_performing
    }

    /// Whether incoming messages are recorded.
    pub closed spec fn recording(&self) -> bool {
        self.e.is_recording
    }

    /// The sequencer's settings that the events do not depend on.
    pub closed spec fn settings(&self) -> (Uid, MidiChannel, TimeSignature, core::ops::Range<MusicalTime>) {
        (self.uid, self.midi_channel_out, self.time_signature, self.e.view_range)
    }

    /// Every pattern's notes can be moved to where the pattern is placed.
    pub open spec fn wf(&self) -> bool {
        forall|i: int| 0 <= i < self.pattern_list().len() ==> can_shift_pattern(
            (#[trigger] self.pattern_list()[i]).1,
            self.pattern_list()[i].0@,
        )
    }

    /// The notes and the notes of the placed patterns, in the order the
    /// events are built from them.
    fn placed_note_vec(&self) -> (r: Vec<Note>)
        requires
            self.wf(),
        ensures
            r@ == placed_notes(self.note_list(), self.pattern_list()),
    {
        let mut r: Vec<Note> = Vec::new();
        let n = self.notes.len();
        let mut i: usize = 0;
        while i < n
            invariant
                n == self.notes@.len(),
                i <= n,
                r@ == self.notes@.take(i as int),
            decreases n - i,
        {
            r.push(self.notes[i].clone());
            assert(r@ =~= self.notes@.take(i + 1));
            i = i + 1;
        }
        assert(self.notes@.take(n as int) =~= self.notes@);
        let m = self.patterns.len();
        let mut j: usize = 0;
        while j < m
            invariant
                m == self.patterns@.len(),
                j <= m,
                self.wf(),
                r@ == placed_notes(self.notes@, self.patterns@.take(j as int)),
            decreases m - j,
        {
            assert(can_shift_pattern(self.pattern_list()[j as int].1, self.pattern_list()[j as int].0@));
            let placed = self.patterns[j].1.shifted(self.patterns[j].0);
            let notes = placed.notes();
            let ghost before = r@;
            let k_end = notes.len();
            let mut k: usize = 0;
            while k < k_end
                invariant
                    k_end == notes@.len(),
                    k <= k_end,
                    r@ == before + notes@.take(k as int),
                decreases k_end - k,
            {
                r.push(notes[k].clone());
                assert(r@ =~= before + notes@.take(k + 1));
                k = k + 1;
            }
            proof {
                let ps = self.patterns@.take(j + 1);
                assert(ps.drop_last() =~= self.patterns@.take(j as int));
                assert(ps.last() == self.patterns@[j as int]);
                assert(notes@.take(k_end as int) =~= notes@);
                assert(notes@ == shifted_notes(
                    self.patterns@[j as int].1.note_seq(),
                    self.patterns@[j as int].0@,
                ));
            }
            j = j + 1;
        }
        assert(self.patterns@.take(m as int) =~= self.patterns@);
        r
    }

    /// Adds the note-on and note-off of `note`, and moves the final event
    /// time to its end if that is later.
    fn insert_note_as_event(&mut self, note: &Note)
        ensures
            final(self).events() == with_note(old(self).events(), *note),
            final(self).final_time()@ == if old(self).final_time()@ < note.range.0.end@ {
                note.range.0.end@
            } else {
                old(self).final_time()@
            },
            final(self).note_list() == old(self).note_list(),
            final(self).pattern_list() == old(self).pattern_list(),
            final(self).slice_start() == old(self).slice_start(),
            final(self).slice_end() == old(self).slice_end(),
            final(self).cursor_time() == old(self).cursor_time(),
            final(self).performing() == old(self).performing(),
            final(self).recording() == old(self).recording(),
            final(self).settings() == old(self).settings(),
    {
        let key = U7::from_int_lossy(note.key);
        proof {
            crate::midi::lemma_u7_of((note.key % 128) as nat);
            crate::midi::lemma_u7_of(127);
            crate::midi::lemma_u7_of(0);
            crate::midi::lemma_u7_injective(key, u7_of((note.key % 128) as nat));
        }
        let on_vel = U7::max_value();
        let off_vel = U7::from_int_lossy(0);
        proof {
            crate::midi::lemma_u7_injective(on_vel, u7_of(127));
            crate::midi::lemma_u7_injective(off_vel, u7_of(0));
        }
        events_insert(
            &mut self.e.events,
            note.range.0.start.total_units(),
            MidiMessage::NoteOn { key, vel: on_vel },
        );
        events_insert(
            &mut self.e.events,
            note.range.0.end.total_units(),
            MidiMessage::NoteOff { key, vel: off_vel },
        );
        if self.e.final_event_time.is_before(&note.range.0.end) {
            self.e.final_event_time = note.range.0.end;
        }
    }

    /// Rebuilds the events from the notes and patterns.
    pub fn calculate_events(&mut self)
        requires
            old(self).wf(),
        ensures
            final(self).events() == with_notes(
                Map::empty(),
                placed_notes(old(self).note_list(), old(self).pattern_list()),
            ),
            final(self).final_time()@ == max_note_end(
                placed_notes(old(self).note_list(), old(self).pattern_list()),
            ),
            final(self).note_list() == old(self).note_list(),
            final(self).pattern_list() == old(self).pattern_list(),
            final(self).slice_start() == old(self).slice_start(),
            final(self).slice_end() == old(self).slice_end(),
            final(self).cursor_time() == old(self).cursor_time(),
            final(self).performing() == old(self).performing(),
            final(self).recording() == old(self).recording(),
            final(self).settings() == old(self).settings(),
    {
        let all = self.placed_note_vec();
        events_clear(&mut self.e.events);
        self.e.final_event_time = MusicalTime::start();
        let n = all.len();
        let mut i: usize = 0;
        while i < n
            invariant
                n == all@.len(),
                i <= n,
                all@ == placed_notes(old(self).note_list(), old(self).pattern_list()),
                self.events() == with_notes(Map::empty(), all@.take(i as int)),
                self.final_time()@ == max_note_end(all@.take(i as int)),
                self.note_list() == old(self).note_list(),
                self.pattern_list() == old(self).pattern_list(),
                self.slice_start() == old(self).slice_start(),
                self.slice_end() == old(self).slice_end(),
                self.cursor_time() == old(self).cursor_time(),
                self.performing() == old(self).performing(),
                self.recording() == old(self).recording(),
                self.settings() == old(self).settings(),
            decreases n - i,
        {
            proof {
                let t = all@.take(i + 1);
                assert(t.drop_last() =~= all@.take(i as int));
                assert(t.last() == all@[i as int]);
            }
            self.insert_note_as_event(&all[i]);
            i = i + 1;
        }
        assert(all@.take(n as int) =~= all@);
    }
}

impl Default for ESSequencer {
    fn default() -> (r: Self)
        ensures
            r.wf(),
            r.note_list().len() == 0,
            r.pattern_list().len() == 0,
            r.events() == no_events(),
            r.slice_start()@ == 0,
            r.slice_end()@ == 0,
            r.final_time()@ == 0,
            r.cursor_time()@ == 0,
            !r.performing(),
            !r.recording(),
    {
        let e = ESSequencerEphemerals::default();
        proof {
            reveal_with_fuel(ESSequencerEphemerals::is_fresh, 1);
        }
        ESSequencer {
            uid: Uid(0),
            midi_channel_out: MidiChannel(0),
            notes: Vec::new(),
            patterns: Vec::new(),
            time_signature: TimeSignature::default(),
            e,
        }
    }
}

impl ESSequencer {
    /// The events and final event time were rebuilt from the current notes
    /// and patterns.
    pub open spec fn recomputed(&self) -> bool {
        &&& self.events() == events_of(self.note_list(), self.pattern_list())
        &&& self.final_time()@ == final_of(self.note_list(), self.pattern_list())
    }

    /// Whether only the notes, patterns, events and final time may differ
    /// between the two states.
    pub open spec fn same_controls(&self, other: &ESSequencer) -> bool {
        &&& self.slice_start() == other.slice_start()
        &&& self.slice_end() == other.slice_end()
        &&& self.cursor_time() == other.cursor_time()
        &&& self.performing() == other.performing()
        &&& self.recording() == other.recording()
        &&& self.settings() == other.settings()
    }

    /// The sequencer's identifier.
    pub fn uid(&self) -> (r: Uid)
        ensures
            r == self.settings().0,
    {
        self.uid
    }

    /// Adds a copy of the pattern at `position`, rebuilds the events and
    /// returns the pattern's duration.
    pub fn insert_pattern(&mut self, pattern: &Pattern, position: MusicalTime) -> (r: Result<MusicalTime, SequencerError>)
        requires
            old(self).wf(),
            can_shift_pattern(*pattern, position@),
        ensures
            r == Ok::<MusicalTime, SequencerError>(pattern.dur()),
            final(self).wf(),
            final(self).note_list() == old(self).note_list(),
            final(self).pattern_list().len() == old(self).pattern_list().len() + 1,
            final(self).pattern_list().drop_last() == old(self).pattern_list(),
            final(self).pattern_list().last().0 == position,
            final(self).pattern_list().last().1.sig() == pattern.sig(),
            final(self).pattern_list().last().1.dur() == pattern.dur(),
            final(self).pattern_list().last().1.note_seq() == pattern.note_seq(),
            final(self).recomputed(),
            final(self).same_controls(&*old(self)),
    {
        self.patterns.push((position, pattern.clone()));
        proof {
            assert(self.patterns@.drop_last() =~= old(self).patterns@);
            assert forall|i: int| 0 <= i < self.pattern_list().len() implies can_shift_pattern(
                (#[trigger] self.pattern_list()[i]).1,
                self.pattern_list()[i].0@,
            ) by {
                if i < old(self).pattern_list().len() {
                    assert(self.pattern_list()[i] == old(self).pattern_list()[i]);
                }
            }
        }
        self.calculate_events();
        Ok(pattern.duration())
    }

    /// Adds a copy of the pattern at the cursor, and moves the cursor past it.
    pub fn append_pattern(&mut self, pattern: &Pattern) -> (r: Result<(), SequencerError>)
        requires
            old(self).wf(),
            can_shift_pattern(*pattern, old(self).cursor_time()@),
            old(self).cursor_time()@ + pattern.dur()@ <= usize::MAX,
        ensures
            r is Ok,
            final(self).wf(),
            final(self).note_list() == old(self).note_list(),
            final(self).pattern_list().len() == old(self).pattern_list().len() + 1,
            final(self).pattern_list().drop_last() == old(self).pattern_list(),
            final(self).pattern_list().last().0 == old(self).cursor_time(),
            final(self).pattern_list().last().1.sig() == pattern.sig(),
            final(self).pattern_list().last().1.dur() == pattern.dur(),
            final(self).pattern_list().last().1.note_seq() == pattern.note_seq(),
            final(self).recomputed(),
            final(self).cursor_time()@ == old(self).cursor_time()@ + pattern.dur()@,
            final(self).slice_start() == old(self).slice_start(),
            final(self).slice_end() == old(self).slice_end(),
            final(self).performing() == old(self).performing(),
            final(self).recording() == old(self).recording(),
            final(self).settings() == old(self).settings(),
    {
        let position = self.e.cursor;
        let duration = match self.insert_pattern(pattern, position) {
            Ok(d) => d,
            Err(e) => {
                return Err(e);
            },
        };
        self.e.cursor = position + duration;
        Ok(())
    }

    /// Adds `note` moved later by `position`, and rebuilds the events.
    pub fn insert_note(&mut self, note: &Note, position: MusicalTime) -> (r: Result<(), SequencerError>)
        requires
            old(self).wf(),
            can_shift_note(*note, position@),
        ensures
            r is Ok,
            final(self).wf(),
            final(self).note_list() == old(self).note_list().push(shifted_note(*note, position@)),
            final(self).pattern_list() == old(self).pattern_list(),
            final(self).recomputed(),
            final(self).same_controls(&*old(self)),
    {
        self.notes.push(note.shifted(position));
        assert(self.pattern_list() == old(self).pattern_list());
        self.calculate_events();
        Ok(())
    }

    /// Adds `note` at the cursor, and moves the cursor one beat later.
    pub fn append_note(&mut self, note: &Note) -> (r: Result<(), SequencerError>)
        requires
            old(self).wf(),
            can_shift_note(*note, old(self).cursor_time()@),
            old(self).cursor_time()@ + 65536 <= usize::MAX,
        ensures
            r is Ok,
            final(self).wf(),
            final(self).note_list() == old(self).note_list().push(
                shifted_note(*note, old(self).cursor_time()@),
            ),
            final(self).pattern_list() == old(self).pattern_list(),
            final(self).recomputed(),
            final(self).cursor_time()@ == old(self).cursor_time()@ + 65536,
            final(self).slice_start() == old(self).slice_start(),
            final(self).slice_end() == old(self).slice_end(),
            final(self).performing() == old(self).performing(),
            final(self).recording() == old(self).recording(),
            final(self).settings() == old(self).settings(),
    {
        let position = self.e.cursor;
        let _ = self.insert_note(note, position);
        self.e.cursor = position + MusicalTime::new_with_beats(1);
        Ok(())
    }

    /// The part of the timeline on view.
    pub fn view_range(&self) -> (r: &core::ops::Range<MusicalTime>)
        ensures
            *r == self.settings().3,
    {
        &self.e.view_range
    }

    /// Sets the part of the timeline on view.
    pub fn set_view_range(&mut self, view_range: &core::ops::Range<MusicalTime>)
        ensures
            final(self).settings() == (old(self).settings().0, old(self).settings().1, old(self).settings().2, *view_range),
            final(self).events() == old(self).events(),
            final(self).note_list() == old(self).note_list(),
            final(self).pattern_list() == old(self).pattern_list(),
            final(self).final_time() == old(self).final_time(),
            final(self).slice_start() == old(self).slice_start(),
            final(self).slice_end() == old(self).slice_end(),
            final(self).cursor_time() == old(self).cursor_time(),
            final(self).performing() == old(self).performing(),
            final(self).recording() == old(self).recording(),
    {
        self.e.view_range = view_range.start..view_range.end;
    }

    /// Removes `note` if the sequencer has it, else adds it. The events are
    /// left as they are until [ESSequencer::calculate_events].
    pub fn toggle_note(&mut self, note: Note)
        ensures
            old(self).note_list().contains(note) ==> final(self).note_list() == old(
                self,
            ).note_list().filter(differs_from(note)),
            !old(self).note_list().contains(note) ==> final(self).note_list() == old(
                self,
            ).note_list().push(note),
            final(self).pattern_list() == old(self).pattern_list(),
            final(self).events() == old(self).events(),
            final(self).final_time() == old(self).final_time(),
            final(self).same_controls(&*old(self)),
    {
        let ghost pred = differs_from(note);
        let mut kept: Vec<Note> = Vec::new();
        let mut found = false;
        let n = self.notes.len();
        let mut i: usize = 0;
        while i < n
            invariant
                n == self.notes@.len(),
                i <= n,
                pred == differs_from(note),
                kept@ == self.notes@.take(i as int).filter(pred),
                found == self.notes@.take(i as int).contains(note),
            decreases n - i,
        {
            if self.notes[i].same_as(&note) {
                found = true;
            } else {
                kept.push(self.notes[i].clone());
            }
            proof {
                reveal_with_fuel(Seq::filter, 1);
                let t = self.notes@.take(i + 1);
                assert(t.drop_last() =~= self.notes@.take(i as int));
                assert(t.last() == self.notes@[i as int]);
                if self.notes@.take(i as int).contains(note) {
                    let k = choose|k: int| 0 <= k < i && self.notes@.take(i as int)[k] == note;
                    assert(t[k] == note);
                }
                if t.contains(note) && !self.notes@.take(i as int).contains(note) {
                    let k = choose|k: int| 0 <= k < i + 1 && t[k] == note;
                    if k < i {
                        assert(self.notes@.take(i as int)[k] == note);
                    }
                }
                if self.notes@[i as int] == note {
                    assert(t[i as int] == note);
                }
            }
            i = i + 1;
        }
        assert(self.notes@.take(n as int) =~= self.notes@);
        if found {
            self.notes = kept;
        } else {
            self.notes.push(note);
        }
    }

    /// The notes, at their absolute times.
    pub fn notes(&self) -> (r: &[Note])
        ensures
            r@ == self.note_list(),
    {
        self.notes.as_slice()
    }

    /// The patterns, each with where it starts.
    pub fn patterns(&self) -> (r: &[(MusicalTime, Pattern)])
        ensures
            r@ == self.pattern_list(),
    {
        self.patterns.as_slice()
    }

    /// Sets the time slice that the next [ESSequencer::work] applies to.
    pub fn update_time(&mut self, range: &core::ops::Range<MusicalTime>)
        ensures
            final(self).slice_start() == range.start,
            final(self).slice_end() == range.end,
            final(self).events() == old(self).events(),
            final(self).note_list() == old(self).note_list(),
            final(self).pattern_list() == old(self).pattern_list(),
            final(self).final_time() == old(self).final_time(),
            final(self).cursor_time() == old(self).cursor_time(),
            final(self).performing() == old(self).performing(),
            final(self).recording() == old(self).recording(),
            final(self).settings() == old(self).settings(),
    {
        self.e.range = range.start..range.end;
    }

    /// The messages in the current time slice, in time order, each sent on
    /// channel zero.
    pub fn work(&self) -> (r: Vec<(MidiChannel, MidiMessage)>)
        requires
            self.slice_start()@ <= self.slice_end()@,
        ensures
            r@ == events_between(self.events(), self.slice_start()@, self.slice_end()@).map_values(
                |m: MidiMessage| (MidiChannel(0), m),
            ),
    {
        let messages = events_in_range(
            &self.e.events,
            self.e.range.start.total_units(),
            self.e.range.end.total_units(),
        );
        let mut r: Vec<(MidiChannel, MidiMessage)> = Vec::new();
        let n = messages.len();
        let mut i: usize = 0;
        while i < n
            invariant
                n == messages@.len(),
                i <= n,
                r@ == messages@.take(i as int).map_values(|m: MidiMessage| (MidiChannel(0), m)),
            decreases n - i,
        {
            r.push((MidiChannel(0), messages[i]));
            assert(r@ =~= messages@.take(i + 1).map_values(|m: MidiMessage| (MidiChannel(0), m)));
            i = i + 1;
        }
        assert(messages@.take(n as int) =~= messages@);
        r
    }

    /// Whether the current time slice ends at or after the final event time.
    pub fn is_finished(&self) -> (r: bool)
        ensures
            r == (self.slice_end()@ >= self.final_time()@),
    {
        !self.e.range.end.is_before(&self.e.final_event_time)
    }

    /// Starts a performance; recording stops.
    pub fn play(&mut self)
        ensures
            final(self).performing(),
            !final(self).recording(),
            final(self).events() == old(self).events(),
            final(self).note_list() == old(self).note_list(),
            final(self).pattern_list() == old(self).pattern_list(),
            final(self).slice_start() == old(self).slice_start(),
            final(self).slice_end() == old(self).slice_end(),
    {
        self.e.is_performing = true;
        self.e.is_recording = false;
    }

    /// Stops the performance and the recording.
    pub fn stop(&mut self)
        ensures
            !final(self).performing(),
            !final(self).recording(),
            final(self).events() == old(self).events(),
            final(self).note_list() == old(self).note_list(),
            final(self).pattern_list() == old(self).pattern_list(),
            final(self).slice_start() == old(self).slice_start(),
            final(self).slice_end() == old(self).slice_end(),
    {
        self.e.is_performing = false;
        self.e.is_recording = false;
    }

    /// Moves the time slice back to the start.
    pub fn skip_to_start(&mut self)
        ensures
            final(self).slice_start()@ == 0,
            final(self).slice_end()@ == 0,
            final(self).events() == old(self).events(),
            final(self).note_list() == old(self).note_list(),
            final(self).pattern_list() == old(self).pattern_list(),
            final(self).performing() == old(self).performing(),
            final(self).recording() == old(self).recording(),
    {
        self.update_time(&(MusicalTime::start()..MusicalTime::start()))
    }

    /// Whether a performance is under way.
    pub fn is_performing(&self) -> (r: bool)
        ensures
            r == self.performing(),
    {
        self.e.is_performing
    }
}

impl Serializable for ESSequencer {
    open spec fn loadable(&self) -> bool {
        self.wf()
    }

    /// Rebuilds the events from the notes and patterns.
    fn after_deser(&mut self)
        ensures
            final(self).note_list() == old(self).note_list(),
            final(self).pattern_list() == old(self).pattern_list(),
            final(self).recomputed(),
            final(self).same_controls(&*old(self)),
    {
        self.calculate_events();
    }
}

impl Sequences for ESSequencer {
    type MU = Note;

    open spec fn can_place(&self, unit: &Note, position: MusicalTime) -> bool {
        self.wf() && can_shift_note(*unit, position@)
    }

    open spec fn sequences_ready(&self) -> bool {
        self.wf()
    }

    /// Records `unit` moved later by `position`, and rebuilds the events.
    fn record(&mut self, channel: MidiChannel, unit: &Note, position: MusicalTime) -> (r: Result<(), SequencerError>)
        ensures
            r is Ok,
            final(self).wf(),
            final(self).note_list() == old(self).note_list().push(shifted_note(*unit, position@)),
            final(self).pattern_list() == old(self).pattern_list(),
            final(self).recomputed(),
            final(self).same_controls(&*old(self)),
    {
        self.insert_note(unit, position)
    }

    /// Deletes every note equal to `unit` moved later by `position`, and
    /// rebuilds the events.
    fn remove(&mut self, channel: MidiChannel, unit: &Note, position: MusicalTime) -> (r: Result<(), SequencerError>)
        ensures
            r is Ok,
            final(self).wf(),
            final(self).note_list() == old(self).note_list().filter(
                differs_from(shifted_note(*unit, position@)),
            ),
            final(self).pattern_list() == old(self).pattern_list(),
            final(self).recomputed(),
            final(self).same_controls(&*old(self)),
    {
        let note = unit.shifted(position);
        let ghost pred = differs_from(note);
        let mut kept: Vec<Note> = Vec::new();
        let n = self.notes.len();
        let mut i: usize = 0;
        while i < n
            invariant
                n == self.notes@.len(),
                i <= n,
                pred == differs_from(note),
                kept@ == self.notes@.take(i as int).filter(pred),
            decreases n - i,
        {
            if !self.notes[i].same_as(&note) {
                kept.push(self.notes[i].clone());
            }
            proof {
                reveal_with_fuel(Seq::filter, 1);
                assert(self.notes@.take(i + 1).drop_last() =~= self.notes@.take(i as int));
                assert(self.notes@.take(i + 1).last() == self.notes@[i as int]);
            }
            i = i + 1;
        }
        assert(self.notes@.take(n as int) =~= self.notes@);
        self.notes = kept;
        assert(self.pattern_list() == old(self).pattern_list());
        self.calculate_events();
        Ok(())
    }

    /// Removes the notes (not the patterns), and rebuilds the events.
    fn clear(&mut self)
        ensures
            final(self).wf(),
            final(self).note_list().len() == 0,
            final(self).pattern_list() == old(self).pattern_list(),
            final(self).recomputed(),
            final(self).same_controls(&*old(self)),
    {
        self.notes = Vec::new();
        assert(self.pattern_list() == old(self).pattern_list());
        self.calculate_events();
    }
}

impl HandlesMidi for ESSequencer {
    open spec fn takes_message(&self, message: MidiMessage) -> bool {
        true
    }

    /// Records the message at the start of the current time slice, if
    /// recording.
    fn handle_midi_message(&mut self, channel: MidiChannel, message: MidiMessage)
        ensures
            old(self).recording() ==> final(self).events() == add_event(
                old(self).events(),
                old(self).slice_start()@ as usize,
                message,
            ),
            !old(self).recording() ==> final(self).events() == old(self).events(),
            final(self).note_list() == old(self).note_list(),
            final(self).pattern_list() == old(self).pattern_list(),
            final(self).final_time() == old(self).final_time(),
            final(self).same_controls(&*old(self)),
    {
        if self.e.is_recording {
            events_insert(&mut self.e.events, self.e.range.start.total_units(), message);
        }
    }
}

impl SequencesMidi for ESSequencer {
    open spec fn midi_ready(&self) -> bool {
        true
    }

    /// Records a message at the given time. The channel is not kept.
    fn record_midi_message(&mut self, channel: MidiChannel, message: MidiMessage, time: MusicalTime) -> (r: Result<(), SequencerError>)
        ensures
            r is Ok,
            final(self).events() == add_event(old(self).events(), time@ as usize, message),
            final(self).note_list() == old(self).note_list(),
            final(self).pattern_list() == old(self).pattern_list(),
            final(self).final_time() == old(self).final_time(),
            final(self).same_controls(&*old(self)),
    {
        self.record_midi_event(channel, MidiEvent { message, time })
    }

    /// Records an event's message at its time. The channel is not kept.
    fn record_midi_event(&mut self, channel: MidiChannel, event: MidiEvent) -> (r: Result<(), SequencerError>)
        ensures
            r is Ok,
            final(self).events() == add_event(old(self).events(), event.time@ as usize, event.message),
            final(self).note_list() == old(self).note_list(),
            final(self).pattern_list() == old(self).pattern_list(),
            final(self).final_time() == old(self).final_time(),
            final(self).same_controls(&*old(self)),
    {
        events_insert(&mut self.e.events, event.time.total_units(), event.message);
        Ok(())
    }

    /// Removes the notes and the patterns, and with them every event.
    fn clear(&mut self)
        ensures
            final(self).wf(),
            final(self).note_list().len() == 0,
            final(self).pattern_list().len() == 0,
            final(self).events() == no_events(),
            final(self).final_time()@ == 0,
            final(self).same_controls(&*old(self)),
    {
        self.notes = Vec::new();
        self.patterns = Vec::new();
        self.calculate_events();
        assert(placed_notes(self.notes@, self.patterns@) =~= Seq::<Note>::empty());
    }

    /// Deletes every copy of the message at the given time, whatever the
    /// channel.
    fn remove_midi_message(&mut self, channel: MidiChannel, message: MidiMessage, time: MusicalTime) -> (r: Result<(), SequencerError>)
        ensures
            r is Ok,
            final(self).events() == retained(old(self).events(), kept_unless(time@ as usize, message)),
            final(self).note_list() == old(self).note_list(),
            final(self).pattern_list() == old(self).pattern_list(),
            final(self).final_time() == old(self).final_time(),
            final(self).same_controls(&*old(self)),
    {
        self.remove_midi_event(channel, MidiEvent { message, time })
    }

    /// Deletes every copy of the event's message at its time, whatever the
    /// channel.
    fn remove_midi_event(&mut self, channel: MidiChannel, event: MidiEvent) -> (r: Result<(), SequencerError>)
        ensures
            r is Ok,
            final(self).events() == retained(
                old(self).events(),
                kept_unless(event.time@ as usize, event.message),
            ),
            final(self).note_list() == old(self).note_list(),
            final(self).pattern_list() == old(self).pattern_list(),
            final(self).final_time() == old(self).final_time(),
            final(self).same_controls(&*old(self)),
    {
        events_remove_all(&mut self.e.events, event.time.total_units(), event.message);
        Ok(())
    }

    /// Starts recording incoming messages.
    fn start_recording(&mut self)
        ensures
            final(self).recording(),
            final(self).events() == old(self).events(),
            final(self).note_list() == old(self).note_list(),
            final(self).pattern_list() == old(self).pattern_list(),
            final(self).performing() == old(self).performing(),
            final(self).slice_start() == old(self).slice_start(),
            final(self).slice_end() == old(self).slice_end(),
    {
        self.e.is_recording = true;
    }

    /// Whether incoming messages are recorded.
    fn is_recording(&self) -> (r: bool)
        ensures
            r == self.recording(),
    {
        self.e.is_recording
    }
}

/// Why an [ESSequencerBuilder] could not build.
#[derive(Clone, Copy, Debug, PartialEq, Eq, Structural)]
pub enum ESSequencerBuilderError {
    /// A required field was not set.
    UninitializedField,
}

/// Whether `n` is one of the random quarter notes that
/// [ESSequencerBuilder::random] makes for the beats `first..last`.
pub open spec fn is_random_es_note(n: Note, first: nat, last: nat) -> bool {
    &&& 16 <= n.key < 100
    &&& n.range.0.start@ % 65536 == 0
    &&& first * 65536 <= n.range.0.start@ < last * 65536
    &&& n.range.0.end@ == n.range.0.start@ + 16384
}

/// Builds an [ESSequencer].
#[derive(Debug)]
pub struct ESSequencerBuilder {
    uid: Uid,
    midi_channel_out: MidiChannel,
    notes: Vec<Note>,
    patterns: Vec<(MusicalTime, Pattern)>,
    time_signature: TimeSignature,
}

impl Default for ESSequencerBuilder {
    fn default() -> (r: Self)
        ensures
            r.built_notes().len() == 0,
            r.built_patterns().len() == 0,
            r.built_settings() == (Uid(0), MidiChannel(0), TimeSignature { top: 4, bottom: 4 }),
    {
        ESSequencerBuilder {
            uid: Uid(0),
            midi_channel_out: MidiChannel(0),
            notes: Vec::new(),
            patterns: Vec::new(),
            time_signature: TimeSignature::default(),
        }
    }
}

impl ESSequencerBuilder {
    /// The notes the sequencer will have.
    pub closed spec fn built_notes(&self) -> Seq<Note> {
        self.notes@
    }

    /// The patterns the sequencer will have, each with where it starts.
    pub closed spec fn built_patterns(&self) -> Seq<(MusicalTime, Pattern)> {
        self.patterns@
    }

    /// The identifier, output channel and time signature the sequencer will have.
    pub closed spec fn built_settings(&self) -> (Uid, MidiChannel, TimeSignature) {
        (self.uid, self.midi_channel_out, self.time_signature)
    }

    /// Sets the identifier.
    pub fn uid(&mut self, uid: Uid) -> (r: &mut Self)
        ensures
            r.built_notes() == old(self).built_notes(),
            r.built_patterns() == old(self).built_patterns(),
            r.built_settings() == (uid, old(self).built_settings().1, old(self).built_settings().2),
            *final(self) == *final(r),
    {
        self.uid = uid;
        self
    }

    /// Sets the output channel.
    pub fn midi_channel_out(&mut self, channel: MidiChannel) -> (r: &mut Self)
        ensures
            r.built_notes() == old(self).built_notes(),
            r.built_patterns() == old(self).built_patterns(),
            r.built_settings() == (old(self).built_settings().0, channel, old(self).built_settings().2),
            *final(self) == *final(r),
    {
        self.midi_channel_out = channel;
        self
    }

    /// Sets the time signature.
    pub fn time_signature(&mut self, time_signature: TimeSignature) -> (r: &mut Self)
        ensures
            r.built_notes() == old(self).built_notes(),
            r.built_patterns() == old(self).built_patterns(),
            r.built_settings() == (old(self).built_settings().0, old(self).built_settings().1, time_signature),
            *final(self) == *final(r),
    {
        self.time_signature = time_signature;
        self
    }

    /// Adds one note.
    pub fn note(&mut self, note: Note) -> (r: &mut Self)
        ensures
            r.built_notes() == old(self).built_notes().push(note),
            r.built_patterns() == old(self).built_patterns(),
            r.built_settings() == old(self).built_settings(),
            *final(self) == *final(r),
    {
        self.notes.push(note);
        self
    }

    /// Replaces all the notes.
    pub fn notes(&mut self, notes: Vec<Note>) -> (r: &mut Self)
        ensures
            r.built_notes() == notes@,
            r.built_patterns() == old(self).built_patterns(),
            r.built_settings() == old(self).built_settings(),
            *final(self) == *final(r),
    {
        self.notes = notes;
        self
    }

    /// Adds one pattern, with where it starts.
    pub fn pattern(&mut self, pattern: (MusicalTime, Pattern)) -> (r: &mut Self)
        ensures
            r.built_notes() == old(self).built_notes(),
            r.built_patterns() == old(self).built_patterns().push(pattern),
            r.built_settings() == old(self).built_settings(),
            *final(self) == *final(r),
    {
        self.patterns.push(pattern);
        self
    }

    /// Replaces all the patterns.
    pub fn patterns(&mut self, patterns: Vec<(MusicalTime, Pattern)>) -> (r: &mut Self)
        ensures
            r.built_notes() == old(self).built_notes(),
            r.built_patterns() == patterns@,
            r.built_settings() == old(self).built_settings(),
            *final(self) == *final(r),
    {
        self.patterns = patterns;
        self
    }

    /// Builds the [ESSequencer], with its events computed from its notes and
    /// patterns.
    pub fn build(&self) -> (r: Result<ESSequencer, ESSequencerBuilderError>)
        requires
            forall|i: int| 0 <= i < self.built_patterns().len() ==> can_shift_pattern(
                (#[trigger] self.built_patterns()[i]).1,
                self.built_patterns()[i].0@,
            ),
        ensures
            r matches Ok(s) && {
                &&& s.wf()
                &&& s.note_list() == self.built_notes()
                &&& s.pattern_list().len() == self.built_patterns().len()
                &&& forall|i: int| 0 <= i < self.built_patterns().len() ==> {
                    let (t, p) = #[trigger] s.pattern_list()[i];
                    &&& t == self.built_patterns()[i].0
                    &&& p.sig() == self.built_patterns()[i].1.sig()
                    &&& p.dur() == self.built_patterns()[i].1.dur()
                    &&& p.note_seq() == self.built_patterns()[i].1.note_seq()
                }
                &&& s.recomputed()
                &&& s.settings() == (self.built_settings().0, self.built_settings().1, self.built_settings().2, s.settings().3)
                &&& s.slice_start()@ == 0 && s.slice_end()@ == 0
                &&& s.cursor_time()@ == 0
                &&& !s.performing() && !s.recording()
            },
    {
        let notes = self.notes.clone();
        assert(notes@ =~= self.notes@);
        let mut patterns: Vec<(MusicalTime, Pattern)> = Vec::new();
        let n = self.patterns.len();
        let mut i: usize = 0;
        while i < n
            invariant
                n == self.patterns@.len(),
                i <= n,
                patterns@.len() == i,
                forall|k: int| 0 <= k < i ==> {
                    let (t, p) = #[trigger] patterns@[k];
                    &&& t == self.patterns@[k].0
                    &&& p.sig() == self.patterns@[k].1.sig()
                    &&& p.dur() == self.patterns@[k].1.dur()
                    &&& p.note_seq() == self.patterns@[k].1.note_seq()
                },
            decreases n - i,
        {
            let copy = self.patterns[i].1.clone();
            patterns.push((self.patterns[i].0, copy));
            i = i + 1;
        }
        let e = ESSequencerEphemerals::default();
        let mut s = ESSequencer {
            uid: self.uid,
            midi_channel_out: self.midi_channel_out,
            notes,
            patterns,
            time_signature: self.time_signature,
            e,
        };
        proof {
            reveal_with_fuel(ESSequencerEphemerals::is_fresh, 1);
            assert forall|i: int| 0 <= i < s.pattern_list().len() implies can_shift_pattern(
                (#[trigger] s.pattern_list()[i]).1,
                s.pattern_list()[i].0@,
            ) by {
                assert(can_shift_pattern(self.built_patterns()[i].1, self.built_patterns()[i].0@));
            }
        }
        s.after_deser();
        Ok(s)
    }

    /// Adds 32 random quarter notes, each starting on a beat from the
    /// range's first beat up to (not including) its last. For debugging.
    pub fn random(&mut self, range: core::ops::Range<MusicalTime>) -> (r: &mut Self)
        requires
            range.start@ / 65536 < range.end@ / 65536,
        ensures
            r.built_notes().len() == old(self).built_notes().len() + 32,
            r.built_notes().take(old(self).built_notes().len() as int) == old(self).built_notes(),
            forall|i: int|
                old(self).built_notes().len() <= i < r.built_notes().len() ==> is_random_es_note(
                    #[trigger] r.built_notes()[i],
                    range.start@ / 65536,
                    range.end@ / 65536,
                ),
            r.built_patterns() == old(self).built_patterns(),
            r.built_settings() == old(self).built_settings(),
            *final(self) == *final(r),
    {
        let mut rng = Rng::default();
        let first = range.start.total_beats() as u64;
        let last = range.end.total_beats() as u64;
        let ghost start_notes = self.notes@;
        let mut i: usize = 0;
        while i < 32
            invariant
                first == range.start@ / 65536,
                last == range.end@ / 65536,
                first < last,
                last * 65536 <= usize::MAX,
                i <= 32,
                self.notes@.len() == start_notes.len() + i,
                self.notes@.take(start_notes.len() as int) == start_notes,
                forall|k: int|
                    start_notes.len() <= k < self.notes@.len() ==> is_random_es_note(
                        #[trigger] self.notes@[k],
                        first as nat,
                        last as nat,
                    ),
                self.patterns == old(self).patterns,
                self.uid == old(self).uid,
                self.midi_channel_out == old(self).midi_channel_out,
                self.time_signature == old(self).time_signature,
            decreases 32 - i,
        {
            let beat = rng.rand_range(first..last);
            proof {
                vstd::arithmetic::mul::lemma_mul_inequality(beat as int, last - 1, 65536);
            }
            let note_start = MusicalTime::new_with_beats(beat as usize);
            let key = rng.rand_range(16..100);
            let note = Note {
                key: key as u8,
                range: crate::time::TimeRange(note_start..note_start + MusicalTime::duration_quarter()),
            };
            proof {
                vstd::arithmetic::div_mod::lemma_mod_multiples_basic(beat as int, 65536);
            }
            let ghost before = self.notes@;
            self.notes.push(note);
            proof {
                assert(self.notes@.take(start_notes.len() as int) =~= before.take(start_notes.len() as int));
                assert forall|k: int| start_notes.len() <= k < self.notes@.len() implies is_random_es_note(
                    #[trigger] self.notes@[k],
                    first as nat,
                    last as nat,
                ) by {
                    if k < before.len() {
                        assert(self.notes@[k] == before[k]);
                    }
                }
            }
            i = i + 1;
        }
        self
    }
}

/// Toggling a note that the sequencer does not have adds it, and toggling it
/// once more takes it away again: the notes are as they were.
pub proof fn lemma_toggle_twice_restores(notes: Seq<Note>, note: Note)
    requires
        !notes.contains(note),
    ensures
        notes.push(note).contains(note),
        notes.push(note).filter(differs_from(note)) == notes,
{
    assert(notes.push(note)[notes.len() as int] == note);
    lemma_push_filtered_out(notes, note, differs_from(note));
    assert forall|i: int| 0 <= i < notes.len() implies differs_from(note)(#[trigger] notes[i]) by {
        if notes[i] == note {
            assert(notes.contains(note));
        }
    }
    lemma_filter_keeps_all(notes, differs_from(note));
}

} // verus!
