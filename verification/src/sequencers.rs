//! Sequencers: record MIDI events, notes and patterns, and replay them by
//! musical time.
use crate::composition::{can_shift_note, note_events, shifted_note, Note};
use crate::midi::{MidiChannel, MidiEvent, MidiMessage, U7};
use crate::piano_roll::{differs_from, notes_events, Pattern, PatternUid, PianoRoll};
use crate::time::{group_time_facts, time_of_units, MusicalTime};
use crate::traits::{HandlesMidi, Sequences, SequencesMidi, Serializable};
use crate::uid::Uid;
use vstd::prelude::*;

verus! {

broadcast use group_time_facts;

/// A recorded event: the channel it goes out on, and the event.
pub type ChannelEvent = (MidiChannel, MidiEvent);

/// Whether the events are in time order.
pub open spec fn is_time_ordered(s: Seq<ChannelEvent>) -> bool {
    forall|i: int, j: int| 0 <= i <= j < s.len() ==> s[i].1.time@ <= s[j].1.time@
}

/// Where an event at time `t` goes in time-ordered events: after every event
/// at or before `t`, so that events at the same time keep the order they were
/// recorded in.
pub open spec fn insertion_point(s: Seq<ChannelEvent>, t: nat) -> nat
    decreases s.len(),
{
    if s.len() == 0 {
        0
    } else if s.last().1.time@ > t {
        insertion_point(s.drop_last(), t)
    } else {
        s.len()
    }
}

/// The events after recording `e` on `channel`.
pub open spec fn recorded(s: Seq<ChannelEvent>, channel: MidiChannel, e: MidiEvent) -> Seq<ChannelEvent> {
    s.insert(insertion_point(s, e.time@) as int, (channel, e))
}

/// The events after recording each of `es`, in order, on `channel`.
pub open spec fn recorded_all(s: Seq<ChannelEvent>, channel: MidiChannel, es: Seq<MidiEvent>) -> Seq<ChannelEvent>
    decreases es.len(),
{
    if es.len() == 0 {
        s
    } else {
        recorded(recorded_all(s, channel, es.drop_last()), channel, es.last())
    }
}

/// Holds of every recorded event except `e` on `channel`.
pub open spec fn event_differs(channel: MidiChannel, e: MidiEvent) -> spec_fn(ChannelEvent) -> bool {
    |x: ChannelEvent| x != (channel, e)
}

/// The events after removing every copy of each of `es` on `channel`.
pub open spec fn removed_all(s: Seq<ChannelEvent>, channel: MidiChannel, es: Seq<MidiEvent>) -> Seq<ChannelEvent>
    decreases es.len(),
{
    if es.len() == 0 {
        s
    } else {
        removed_all(s, channel, es.drop_last()).filter(event_differs(channel, es.last()))
    }
}

/// Holds of the events in the time slice `start..end`.
pub open spec fn in_slice(start: nat, end: nat) -> spec_fn(ChannelEvent) -> bool {
    |x: ChannelEvent| start <= x.1.time@ && x.1.time@ < end
}

/// What an event sends: its channel and message.
pub open spec fn sent(x: ChannelEvent) -> (MidiChannel, MidiMessage) {
    (x.0, x.1.message)
}

/// In time-ordered events, everything before the insertion point is at or
/// before `t` and everything from it on is after `t`.
proof fn lemma_insertion_point(s: Seq<ChannelEvent>, t: nat)
    requires
        is_time_ordered(s),
    ensures
        insertion_point(s, t) <= s.len(),
        forall|i: int| 0 <= i < insertion_point(s, t) ==> #[trigger] s[i].1.time@ <= t,
        forall|i: int| insertion_point(s, t) <= i < s.len() ==> #[trigger] s[i].1.time@ > t,
    decreases s.len(),
{
    if s.len() > 0 {
        let rest = s.drop_last();
        if s.last().1.time@ > t {
            lemma_insertion_point(rest, t);
            assert forall|i: int| insertion_point(s, t) <= i < s.len() implies #[trigger] s[i].1.time@ > t by {
                if i < s.len() - 1 {
                    assert(rest[i] == s[i]);
                }
            }
            assert forall|i: int| 0 <= i < insertion_point(s, t) implies #[trigger] s[i].1.time@ <= t by {
                assert(rest[i] == s[i]);
            }
        } else {
            assert forall|i: int| 0 <= i < insertion_point(s, t) implies #[trigger] s[i].1.time@ <= t by {
                assert(s[i].1.time@ <= s[s.len() - 1].1.time@);
            }
        }
    }
}

/// Recording keeps events in time order.
proof fn lemma_recorded_ordered(s: Seq<ChannelEvent>, channel: MidiChannel, e: MidiEvent)
    requires
        is_time_ordered(s),
    ensures
        is_time_ordered(recorded(s, channel, e)),
{
    lemma_insertion_point(s, e.time@);
    let p = insertion_point(s, e.time@) as int;
    let r = recorded(s, channel, e);
    assert forall|i: int, j: int| 0 <= i <= j < r.len() implies r[i].1.time@ <= r[j].1.time@ by {
        if i < p && j < p {
            assert(r[i] == s[i] && r[j] == s[j]);
        } else if i < p && j == p {
            assert(r[i] == s[i]);
        } else if i < p {
            assert(r[i] == s[i] && r[j] == s[j - 1]);
        } else if i == p && j > p {
            assert(r[j] == s[j - 1]);
        } else if i > p {
            assert(r[i] == s[i - 1] && r[j] == s[j - 1]);
        }
    }
}

/// Filtering keeps events in time order.
proof fn lemma_filter_ordered(s: Seq<ChannelEvent>, pred: spec_fn(ChannelEvent) -> bool)
    requires
        is_time_ordered(s),
    ensures
        is_time_ordered(s.filter(pred)),
    decreases s.len(),
{
    reveal_with_fuel(Seq::filter, 1);
    if s.len() > 0 {
        let rest = s.drop_last();
        assert(is_time_ordered(rest)) by {
            assert forall|i: int, j: int| 0 <= i <= j < rest.len() implies rest[i].1.time@ <= rest[j].1.time@ by {
                assert(rest[i] == s[i] && rest[j] == s[j]);
            }
        }
        lemma_filter_ordered(rest, pred);
        if pred(s.last()) {
            let f = rest.filter(pred);
            let r = f.push(s.last());
            assert forall|i: int, j: int| 0 <= i <= j < r.len() implies r[i].1.time@ <= r[j].1.time@ by {
                if j == r.len() - 1 && i < j {
                    assert(r[i] == f[i]);
                    assert(rest.contains(f[i])) by {
                        assert(f.contains(f[i]));
                        rest.lemma_filter_contains_rev(pred, f[i]);
                    }
                    let k = choose|k: int| 0 <= k < rest.len() && rest[k] == f[i];
                    assert(s[k] == rest[k]);
                } else if j < r.len() - 1 {
                    assert(r[i] == f[i] && r[j] == f[j]);
                }
            }
        }
    }
}

/// Recording many events keeps events in time order.
proof fn lemma_recorded_all_ordered(s: Seq<ChannelEvent>, channel: MidiChannel, es: Seq<MidiEvent>)
    requires
        is_time_ordered(s),
    ensures
        is_time_ordered(recorded_all(s, channel, es)),
    decreases es.len(),
{
    if es.len() > 0 {
        lemma_recorded_all_ordered(s, channel, es.drop_last());
        lemma_recorded_ordered(recorded_all(s, channel, es.drop_last()), channel, es.last());
    }
}

/// Removing many events keeps events in time order.
proof fn lemma_removed_all_ordered(s: Seq<ChannelEvent>, channel: MidiChannel, es: Seq<MidiEvent>)
    requires
        is_time_ordered(s),
    ensures
        is_time_ordered(removed_all(s, channel, es)),
    decreases es.len(),
{
    if es.len() > 0 {
        lemma_removed_all_ordered(s, channel, es.drop_last());
        lemma_filter_ordered(removed_all(s, channel, es.drop_last()), event_differs(channel, es.last()));
    }
}

/// Holds of the events other than the given events on `channel`.
pub open spec fn not_among(channel: MidiChannel, es: Seq<MidiEvent>) -> spec_fn(ChannelEvent) -> bool {
    |x: ChannelEvent| !(x.0 == channel && es.contains(x.1))
}

/// Filtering twice keeps what both filters keep.
proof fn lemma_filter_twice(
    s: Seq<ChannelEvent>,
    p: spec_fn(ChannelEvent) -> bool,
    q: spec_fn(ChannelEvent) -> bool,
)
    ensures
        s.filter(p).filter(q) == s.filter(|x: ChannelEvent| p(x) && q(x)),
    decreases s.len(),
{
    reveal_with_fuel(Seq::filter, 1);
    if s.len() > 0 {
        lemma_filter_twice(s.drop_last(), p, q);
        let f = s.drop_last().filter(p);
        if p(s.last()) {
            assert(f.push(s.last()).drop_last() =~= f);
        }
    }
}

/// Inserting an event that a filter drops does not change what it keeps.
proof fn lemma_insert_filtered_out(s: Seq<ChannelEvent>, i: int, x: ChannelEvent, p: spec_fn(ChannelEvent) -> bool)
    requires
        0 <= i <= s.len(),
        !p(x),
    ensures
        s.insert(i, x).filter(p) == s.filter(p),
{
    reveal_with_fuel(Seq::filter, 2);
    let a = s.take(i);
    let b = s.skip(i);
    assert(s.insert(i, x) =~= a + seq![x] + b);
    assert(s =~= a + b);
    Seq::filter_distributes_over_add(a + seq![x], b, p);
    Seq::filter_distributes_over_add(a, seq![x], p);
    Seq::filter_distributes_over_add(a, b, p);
    assert(seq![x].drop_last() =~= Seq::<ChannelEvent>::empty());
    assert(seq![x].filter(p) =~= Seq::<ChannelEvent>::empty());
    assert(a.filter(p) + Seq::<ChannelEvent>::empty() =~= a.filter(p));
}

/// Recording events that a filter drops does not change what it keeps.
proof fn lemma_recorded_all_filtered_out(
    s: Seq<ChannelEvent>,
    channel: MidiChannel,
    es: Seq<MidiEvent>,
    p: spec_fn(ChannelEvent) -> bool,
)
    requires
        forall|k: int| 0 <= k < es.len() ==> !p((channel, #[trigger] es[k])),
    ensures
        recorded_all(s, channel, es).filter(p) == s.filter(p),
    decreases es.len(),
{
    if es.len() > 0 {
        let rest = es.drop_last();
        assert forall|k: int| 0 <= k < rest.len() implies !p((channel, #[trigger] rest[k])) by {
            assert(rest[k] == es[k]);
        }
        lemma_recorded_all_filtered_out(s, channel, rest, p);
        let before = recorded_all(s, channel, rest);
        assert(!p((channel, es[es.len() - 1])));
        lemma_insertion_point_bound(before, es.last().time@);
        lemma_insert_filtered_out(before, insertion_point(before, es.last().time@) as int, (channel, es.last()), p);
    }
}

/// The insertion point is within the events.
proof fn lemma_insertion_point_bound(s: Seq<ChannelEvent>, t: nat)
    ensures
        insertion_point(s, t) <= s.len(),
    decreases s.len(),
{
    if s.len() > 0 {
        lemma_insertion_point_bound(s.drop_last(), t);
    }
}

/// Removing many events keeps exactly the events that are not among them.
proof fn lemma_removed_all_is_filter(s: Seq<ChannelEvent>, channel: MidiChannel, es: Seq<MidiEvent>)
    ensures
        removed_all(s, channel, es) == s.filter(not_among(channel, es)),
    decreases es.len(),
{
    if es.len() == 0 {
        assert(not_among(channel, es) =~= (|x: ChannelEvent| true));
        lemma_filter_all(s, not_among(channel, es));
    } else {
        let rest = es.drop_last();
        lemma_removed_all_is_filter(s, channel, rest);
        lemma_filter_twice(s, not_among(channel, rest), event_differs(channel, es.last()));
        assert((|x: ChannelEvent| not_among(channel, rest)(x) && event_differs(channel, es.last())(x))
            =~= not_among(channel, es)) by {
            assert forall|x: ChannelEvent| #[trigger] not_among(channel, es)(x) == (not_among(channel, rest)(x)
                && event_differs(channel, es.last())(x)) by {
                if es.contains(x.1) {
                    let k = choose|k: int| 0 <= k < es.len() && es[k] == x.1;
                    if k < rest.len() {
                        assert(rest[k] == x.1);
                    }
                }
                if rest.contains(x.1) {
                    let k = choose|k: int| 0 <= k < rest.len() && rest[k] == x.1;
                    assert(es[k] == x.1);
                }
                assert(es[es.len() - 1] == es.last());
            }
        }
    }
}

/// A filter that keeps everything keeps everything.
proof fn lemma_filter_all(s: Seq<ChannelEvent>, p: spec_fn(ChannelEvent) -> bool)
    requires
        forall|x: ChannelEvent| #[trigger] p(x),
    ensures
        s.filter(p) == s,
    decreases s.len(),
{
    reveal_with_fuel(Seq::filter, 1);
    if s.len() > 0 {
        lemma_filter_all(s.drop_last(), p);
        assert(s.drop_last().push(s.last()) =~= s);
    }
}

/// Recording events and then removing the same events on the same channel
/// gives what removing them alone gives: recording is undone.
pub proof fn lemma_remove_undoes_record(s: Seq<ChannelEvent>, channel: MidiChannel, es: Seq<MidiEvent>)
    ensures
        removed_all(recorded_all(s, channel, es), channel, es) == removed_all(s, channel, es),
{
    let p = not_among(channel, es);
    lemma_removed_all_is_filter(recorded_all(s, channel, es), channel, es);
    lemma_removed_all_is_filter(s, channel, es);
    assert forall|k: int| 0 <= k < es.len() implies !p((channel, #[trigger] es[k])) by {
        assert(es.contains(es[k]));
    }
    lemma_recorded_all_filtered_out(s, channel, es, p);
}

/// Recording events into a sequencer that holds none of them on that channel,
/// then removing them, leaves the events as they were.
pub proof fn lemma_remove_restores_events(s: Seq<ChannelEvent>, channel: MidiChannel, es: Seq<MidiEvent>)
    requires
        forall|i: int| 0 <= i < s.len() ==> !((#[trigger] s[i]).0 == channel && es.contains(s[i].1)),
    ensures
        removed_all(recorded_all(s, channel, es), channel, es) == s,
{
    lemma_remove_undoes_record(s, channel, es);
    lemma_removed_all_is_filter(s, channel, es);
    lemma_filter_keeps_all(s, not_among(channel, es));
}

/// A filter that keeps every item of `s` keeps `s`.
pub(crate) proof fn lemma_filter_keeps_all<A>(s: Seq<A>, p: spec_fn(A) -> bool)
    requires
        forall|i: int| 0 <= i < s.len() ==> p(#[trigger] s[i]),
    ensures
        s.filter(p) == s,
    decreases s.len(),
{
    reveal_with_fuel(Seq::filter, 1);
    if s.len() > 0 {
        let rest = s.drop_last();
        assert forall|i: int| 0 <= i < rest.len() implies p(#[trigger] rest[i]) by {
            assert(rest[i] == s[i]);
        }
        lemma_filter_keeps_all(rest, p);
        assert(p(s[s.len() - 1]));
        assert(rest.push(s.last()) =~= s);
    }
}

/// Pushing an item that a filter drops does not change what it keeps.
pub proof fn lemma_push_filtered_out<A>(s: Seq<A>, x: A, p: spec_fn(A) -> bool)
    requires
        !p(x),
    ensures
        s.push(x).filter(p) == s.filter(p),
{
    reveal_with_fuel(Seq::filter, 1);
    assert(s.push(x).drop_last() =~= s);
}

/// Records and replays MIDI events by musical time.
#[derive(Debug)]
pub struct MidiSequencer {
    events: Vec<ChannelEvent>,
    time_range: core::ops::Range<MusicalTime>,
    is_recording: bool,
    is_performing: bool,
}

impl Default for MidiSequencer {
    fn default() -> (r: Self)
        ensures
            r.wf(),
            r.events().len() == 0,
            r.slice_start()@ == 0,
            r.slice_end()@ == 0,
            !r.recording(),
            !r.performing(),
    {
        MidiSequencer {
            events: Vec::new(),
            time_range: MusicalTime::start()..MusicalTime::start(),
            is_recording: false,
            is_performing: false,
        }
    }
}

impl MidiSequencer {
    /// The recorded events, in time order.
    pub closed spec fn events(&self) -> Seq<ChannelEvent> {
        self.events@
    }

    /// The start of the time slice that the next work applies to.
    pub closed spec fn slice_start(&self) -> MusicalTime {
        self.time_range.start
    }

    /// The (exclusive) end of the time slice that the next work applies to.
    pub closed spec fn slice_end(&self) -> MusicalTime {
        self.time_range.end
    }

    /// Whether incoming messages are being recorded.
    pub closed spec fn recording(&self) -> bool {
        self.is_recording
    }

    /// Whether a performance is under way.
    pub closed spec fn performing(&self) -> bool {
        self.is_performing
    }

    /// The recorded events are kept in time order.
    pub open spec fn wf(&self) -> bool {
        is_time_ordered(self.events())
    }

    /// Sets the time slice that the next [MidiSequencer::work] applies to.
    pub fn update_time(&mut self, range: &core::ops::Range<MusicalTime>)
        ensures
            final(self).events() == old(self).events(),
            final(self).slice_start() == range.start,
            final(self).slice_end() == range.end,
            final(self).recording() == old(self).recording(),
            final(self).performing() == old(self).performing(),
    {
        self.time_range = range.start..range.end;
    }

    /// Returns, in time order, the channel and message of every recorded event
    /// that falls in the current time slice.
    pub fn work(&self) -> (r: Vec<(MidiChannel, MidiMessage)>)
        ensures
            r@ == self.events().filter(in_slice(self.slice_start()@, self.slice_end()@)).map_values(
                |x: ChannelEvent| sent(x),
            ),
    {
        let ghost pred = in_slice(self.slice_start()@, self.slice_end()@);
        let ghost chosen = Seq::<ChannelEvent>::empty();
        let mut r: Vec<(MidiChannel, MidiMessage)> = Vec::new();
        let n = self.events.len();
        let mut i: usize = 0;
        while i < n
            invariant
                n == self.events@.len(),
                i <= n,
                pred == in_slice(self.slice_start()@, self.slice_end()@),
                chosen == self.events@.take(i as int).filter(pred),
                r@ == chosen.map_values(|x: ChannelEvent| sent(x)),
            decreases n - i,
        {
            let x = self.events[i];
            if !x.1.time.is_before(&self.time_range.start) && x.1.time.is_before(&self.time_range.end) {
                r.push((x.0, x.1.message));
                proof {
                    chosen = chosen.push(x);
                }
            }
            proof {
                reveal_with_fuel(Seq::filter, 1);
                assert(self.events@.take(i + 1).drop_last() =~= self.events@.take(i as int));
                assert(self.events@.take(i + 1).last() == x);
                assert(r@ =~= chosen.map_values(|x: ChannelEvent| sent(x)));
            }
            i = i + 1;
        }
        assert(self.events@.take(n as int) =~= self.events@);
        r
    }

    /// Whether no recorded event is at or after the end of the current time
    /// slice. An empty sequencer is always finished.
    pub fn is_finished(&self) -> (r: bool)
        requires
            self.wf(),
        ensures
            r == forall|i: int| 0 <= i < self.events().len() ==> (#[trigger] self.events()[i]).1.time@
                < self.slice_end()@,
    {
        let n = self.events.len();
        if n == 0 {
            true
        } else {
            let last = self.events[n - 1].1.time;
            last.is_before(&self.time_range.end)
        }
    }

    /// Starts a performance and stops any recording.
    pub fn play(&mut self)
        ensures
            final(self).events() == old(self).events(),
            final(self).slice_start() == old(self).slice_start(),
            final(self).slice_end() == old(self).slice_end(),
            !final(self).recording(),
            final(self).performing(),
    {
        self.is_performing = true;
        self.is_recording = false;
    }

    /// Stops the performance and any recording.
    pub fn stop(&mut self)
        ensures
            final(self).events() == old(self).events(),
            final(self).slice_start() == old(self).slice_start(),
            final(self).slice_end() == old(self).slice_end(),
            !final(self).recording(),
            !final(self).performing(),
    {
        self.is_performing = false;
        self.is_recording = false;
    }

    /// Moves the time slice back to the start.
    pub fn skip_to_start(&mut self)
        ensures
            final(self).events() == old(self).events(),
            final(self).slice_start()@ == 0,
            final(self).slice_end()@ == 0,
            final(self).recording() == old(self).recording(),
            final(self).performing() == old(self).performing(),
    {
        self.time_range = MusicalTime::start()..MusicalTime::start();
    }

    /// Whether a performance is under way.
    pub fn is_performing(&self) -> (r: bool)
        ensures
            r == self.performing(),
    {
        self.is_performing
    }

    /// Records each event, in order.
    fn record_all(&mut self, channel: MidiChannel, events: &Vec<MidiEvent>)
        requires
            old(self).wf(),
        ensures
            final(self).wf(),
            final(self).events() == recorded_all(old(self).events(), channel, events@),
            final(self).slice_start() == old(self).slice_start(),
            final(self).slice_end() == old(self).slice_end(),
            final(self).recording() == old(self).recording(),
            final(self).performing() == old(self).performing(),
    {
        let n = events.len();
        let mut i: usize = 0;
        while i < n
            invariant
                n == events@.len(),
                i <= n,
                self.wf(),
                self.events() == recorded_all(old(self).events(), channel, events@.take(i as int)),
                self.slice_start() == old(self).slice_start(),
                self.slice_end() == old(self).slice_end(),
                self.recording() == old(self).recording(),
                self.performing() == old(self).performing(),
            decreases n - i,
        {
            proof {
                assert(events@.take(i + 1).drop_last() =~= events@.take(i as int));
                assert(events@.take(i + 1).last() == events@[i as int]);
            }
            let _ = self.record_midi_event(channel, events[i]);
            i = i + 1;
        }
        assert(events@.take(n as int) =~= events@);
    }

    /// Removes every copy of each event, in order.
    fn remove_all(&mut self, channel: MidiChannel, events: &Vec<MidiEvent>)
        requires
            old(self).wf(),
        ensures
            final(self).wf(),
            final(self).events() == removed_all(old(self).events(), channel, events@),
            final(self).slice_start() == old(self).slice_start(),
            final(self).slice_end() == old(self).slice_end(),
            final(self).recording() == old(self).recording(),
            final(self).performing() == old(self).performing(),
    {
        let n = events.len();
        let mut i: usize = 0;
        while i < n
            invariant
                n == events@.len(),
                i <= n,
                self.wf(),
                self.events() == removed_all(old(self).events(), channel, events@.take(i as int)),
                self.slice_start() == old(self).slice_start(),
                self.slice_end() == old(self).slice_end(),
                self.recording() == old(self).recording(),
                self.performing() == old(self).performing(),
            decreases n - i,
        {
            proof {
                assert(events@.take(i + 1).drop_last() =~= events@.take(i as int));
                assert(events@.take(i + 1).last() == events@[i as int]);
            }
            let _ = self.remove_midi_event(channel, events[i]);
            i = i + 1;
        }
        assert(events@.take(n as int) =~= events@);
    }
}

impl HandlesMidi for MidiSequencer {
    open spec fn takes_message(&self, message: MidiMessage) -> bool {
        self.wf()
    }

    /// Records the message at the start of the current time slice when
    /// recording, and ignores it otherwise.
    fn handle_midi_message(&mut self, channel: MidiChannel, message: MidiMessage)
        ensures
            final(self).wf(),
            old(self).recording() ==> final(self).events() == recorded(
                old(self).events(),
                channel,
                MidiEvent { message, time: old(self).slice_start() },
            ),
            !old(self).recording() ==> final(self).events() == old(self).events(),
            final(self).slice_start() == old(self).slice_start(),
            final(self).slice_end() == old(self).slice_end(),
            final(self).recording() == old(self).recording(),
            final(self).performing() == old(self).performing(),
    {
        if self.is_recording {
            let time = self.time_range.start;
            let _ = self.record_midi_event(channel, MidiEvent { message, time });
        }
    }
}

impl SequencesMidi for MidiSequencer {
    open spec fn midi_ready(&self) -> bool {
        self.wf()
    }

    /// Records a [MidiMessage] at the given time on the given channel.
    fn record_midi_message(&mut self, channel: MidiChannel, message: MidiMessage, time: MusicalTime) -> (r: Result<(), SequencerError>)
        ensures
            r is Ok,
            final(self).wf(),
            final(self).events() == recorded(old(self).events(), channel, MidiEvent { message, time }),
            final(self).slice_start() == old(self).slice_start(),
            final(self).slice_end() == old(self).slice_end(),
            final(self).recording() == old(self).recording(),
            final(self).performing() == old(self).performing(),
    {
        self.record_midi_event(channel, MidiEvent { message, time })
    }

    /// Records a [MidiEvent] on the given [MidiChannel]. It goes after every
    /// event recorded for the same or an earlier time.
    fn record_midi_event(&mut self, channel: MidiChannel, event: MidiEvent) -> (r: Result<(), SequencerError>)
        ensures
            r is Ok,
            final(self).wf(),
            final(self).events() == recorded(old(self).events(), channel, event),
            final(self).slice_start() == old(self).slice_start(),
            final(self).slice_end() == old(self).slice_end(),
            final(self).recording() == old(self).recording(),
            final(self).performing() == old(self).performing(),
    {
        let ghost s = self.events@;
        let mut p = self.events.len();
        assert(s.take(p as int) =~= s);
        while p > 0 && event.time.is_before(&self.events[p - 1].1.time)
            invariant
                p <= s.len(),
                s == self.events@,
                insertion_point(s, event.time@) == insertion_point(s.take(p as int), event.time@),
            decreases p,
        {
            proof {
                let t = s.take(p as int);
                assert(t.drop_last() =~= s.take(p - 1));
                assert(t.last() == s[p - 1]);
            }
            p = p - 1;
        }
        proof {
            let t = s.take(p as int);
            if p > 0 {
                assert(t.last() == s[p - 1]);
            }
            lemma_recorded_ordered(s, channel, event);
        }
        self.events.insert(p, (channel, event));
        Ok(())
    }

    /// Removes all recorded events.
    fn clear(&mut self)
        ensures
            final(self).wf(),
            final(self).events().len() == 0,
            final(self).slice_start() == old(self).slice_start(),
            final(self).slice_end() == old(self).slice_end(),
            final(self).recording() == old(self).recording(),
            final(self).performing() == old(self).performing(),
    {
        self.events.clear();
    }

    /// Deletes every recorded copy of the given message at the given time on
    /// the given channel.
    fn remove_midi_message(&mut self, channel: MidiChannel, message: MidiMessage, time: MusicalTime) -> (r: Result<(), SequencerError>)
        ensures
            r is Ok,
            final(self).wf(),
            final(self).events() == old(self).events().filter(
                event_differs(channel, MidiEvent { message, time }),
            ),
            final(self).slice_start() == old(self).slice_start(),
            final(self).slice_end() == old(self).slice_end(),
            final(self).recording() == old(self).recording(),
            final(self).performing() == old(self).performing(),
    {
        self.remove_midi_event(channel, MidiEvent { message, time })
    }

    /// Deletes every recorded copy of the given event on the given channel.
    fn remove_midi_event(&mut self, channel: MidiChannel, event: MidiEvent) -> (r: Result<(), SequencerError>)
        ensures
            r is Ok,
            final(self).wf(),
            final(self).events() == old(self).events().filter(event_differs(channel, event)),
            final(self).slice_start() == old(self).slice_start(),
            final(self).slice_end() == old(self).slice_end(),
            final(self).recording() == old(self).recording(),
            final(self).performing() == old(self).performing(),
    {
        let ghost pred = event_differs(channel, event);
        let mut kept: Vec<ChannelEvent> = Vec::new();
        let n = self.events.len();
        let mut i: usize = 0;
        while i < n
            invariant
                n == self.events@.len(),
                i <= n,
                pred == event_differs(channel, event),
                kept@ == self.events@.take(i as int).filter(pred),
            decreases n - i,
        {
            let x = self.events[i];
            if !(x.0 == channel && x.1 == event) {
                kept.push(x);
            }
            proof {
                reveal_with_fuel(Seq::filter, 1);
                assert(self.events@.take(i + 1).drop_last() =~= self.events@.take(i as int));
                assert(self.events@.take(i + 1).last() == x);
            }
            i = i + 1;
        }
        assert(self.events@.take(n as int) =~= self.events@);
        proof {
            lemma_filter_ordered(self.events@, pred);
        }
        self.events = kept;
        Ok(())
    }

    /// Starts recording: messages passed to
    /// [MidiSequencer::handle_midi_message] are recorded at the start of the
    /// current time slice until [MidiSequencer::stop].
    fn start_recording(&mut self)
        ensures
            final(self).events() == old(self).events(),
            final(self).slice_start() == old(self).slice_start(),
            final(self).slice_end() == old(self).slice_end(),
            final(self).recording(),
            final(self).performing() == old(self).performing(),
    {
        self.is_recording = true;
    }

    /// Whether the sequencer is recording.
    fn is_recording(&self) -> (r: bool)
        ensures
            r == self.recording(),
    {
        self.is_recording
    }
}

/// Why a sequencer could not record what it was given.
#[derive(Clone, Copy, Debug, PartialEq, Eq, Structural)]
pub enum SequencerError {
    /// The piano roll holds no pattern with the given identifier.
    PatternNotFound,
}

/// A sequencer of [Note]s, which it plays as note-on and note-off events.
#[derive(Debug)]
pub struct NoteSequencer {
    inner: MidiSequencer,
    notes: Vec<Note>,
}

impl Default for NoteSequencer {
    fn default() -> (r: Self)
        ensures
            r.wf(),
            r.midi().events().len() == 0,
            r.note_list().len() == 0,
            !r.midi().performing(),
            !r.midi().recording(),
    {
        NoteSequencer { inner: MidiSequencer::default(), notes: Vec::new() }
    }
}

impl NoteSequencer {
    /// The MIDI sequencer that plays the notes.
    pub closed spec fn midi(&self) -> MidiSequencer {
        self.inner
    }

    /// The recorded notes, each at its absolute time.
    pub closed spec fn note_list(&self) -> Seq<Note> {
        self.notes@
    }

    /// The MIDI events are kept in time order.
    pub open spec fn wf(&self) -> bool {
        self.midi().wf()
    }

    /// Sets the time slice that the next [NoteSequencer::work] applies to.
    pub fn update_time(&mut self, range: &core::ops::Range<MusicalTime>)
        ensures
            final(self).note_list() == old(self).note_list(),
            final(self).midi().events() == old(self).midi().events(),
            final(self).midi().slice_start() == range.start,
            final(self).midi().slice_end() == range.end,
            final(self).midi().performing() == old(self).midi().performing(),
            final(self).midi().recording() == old(self).midi().recording(),
    {
        self.inner.update_time(range)
    }

    /// The channel and message of every event in the current time slice.
    pub fn work(&self) -> (r: Vec<(MidiChannel, MidiMessage)>)
        ensures
            r@ == self.midi().events().filter(
                in_slice(self.midi().slice_start()@, self.midi().slice_end()@),
            ).map_values(|x: ChannelEvent| sent(x)),
    {
        self.inner.work()
    }

    /// Whether no event is at or after the end of the current time slice.
    pub fn is_finished(&self) -> (r: bool)
        requires
            self.wf(),
        ensures
            r == forall|i: int| 0 <= i < self.midi().events().len() ==> (#[trigger] self.midi().events()[i]).1.time@
                < self.midi().slice_end()@,
    {
        self.inner.is_finished()
    }

    /// Starts a performance.
    pub fn play(&mut self)
        ensures
            final(self).note_list() == old(self).note_list(),
            final(self).midi().events() == old(self).midi().events(),
            final(self).midi().slice_start() == old(self).midi().slice_start(),
            final(self).midi().slice_end() == old(self).midi().slice_end(),
            final(self).midi().performing(),
            !final(self).midi().recording(),
    {
        self.inner.play()
    }

    /// Stops the performance.
    pub fn stop(&mut self)
        ensures
            final(self).note_list() == old(self).note_list(),
            final(self).midi().events() == old(self).midi().events(),
            final(self).midi().slice_start() == old(self).midi().slice_start(),
            final(self).midi().slice_end() == old(self).midi().slice_end(),
            !final(self).midi().performing(),
            !final(self).midi().recording(),
    {
        self.inner.stop()
    }

    /// Moves the time slice back to the start.
    pub fn skip_to_start(&mut self)
        ensures
            final(self).note_list() == old(self).note_list(),
            final(self).midi().events() == old(self).midi().events(),
            final(self).midi().slice_start()@ == 0,
            final(self).midi().slice_end()@ == 0,
            final(self).midi().performing() == old(self).midi().performing(),
            final(self).midi().recording() == old(self).midi().recording(),
    {
        self.inner.skip_to_start()
    }

    /// Whether a performance is under way.
    pub fn is_performing(&self) -> (r: bool)
        ensures
            r == self.midi().performing(),
    {
        self.inner.is_performing()
    }
}

impl Sequences for NoteSequencer {
    type MU = Note;

    open spec fn can_place(&self, unit: &Note, position: MusicalTime) -> bool {
        self.wf() && can_shift_note(*unit, position@)
    }

    open spec fn sequences_ready(&self) -> bool {
        true
    }

    /// Records a note on the channel, with its times taken relative to
    /// `position`.
    fn record(&mut self, channel: MidiChannel, note: &Note, position: MusicalTime) -> (r: Result<(), SequencerError>)
        ensures
            r is Ok,
            final(self).wf(),
            final(self).note_list() == old(self).note_list().push(shifted_note(*note, position@)),
            final(self).midi().events() == recorded_all(
                old(self).midi().events(),
                channel,
                note_events(shifted_note(*note, position@)),
            ),
            final(self).midi().slice_start() == old(self).midi().slice_start(),
            final(self).midi().slice_end() == old(self).midi().slice_end(),
            final(self).midi().performing() == old(self).midi().performing(),
            final(self).midi().recording() == old(self).midi().recording(),
    {
        let note = note.shifted(position);
        let events = note.to_midi_events();
        self.inner.record_all(channel, &events);
        self.notes.push(note);
        Ok(())
    }

    /// Deletes every recorded note matching the given note placed at
    /// `position`, along with its events.
    fn remove(&mut self, channel: MidiChannel, note: &Note, position: MusicalTime) -> (r: Result<(), SequencerError>)
        ensures
            r is Ok,
            final(self).wf(),
            final(self).note_list() == old(self).note_list().filter(
                differs_from(shifted_note(*note, position@)),
            ),
            final(self).midi().events() == removed_all(
                old(self).midi().events(),
                channel,
                note_events(shifted_note(*note, position@)),
            ),
            final(self).midi().slice_start() == old(self).midi().slice_start(),
            final(self).midi().slice_end() == old(self).midi().slice_end(),
            final(self).midi().performing() == old(self).midi().performing(),
            final(self).midi().recording() == old(self).midi().recording(),
    {
        let note = note.shifted(position);
        let events = note.to_midi_events();
        self.inner.remove_all(channel, &events);
        let ghost pred = differs_from(note);
        let mut kept: Vec<Note> = Vec::new();
        let n = self.notes.len();
        let mut i: usize = 0;
        while i < n
            invariant
                n == self.notes@.len(),
                i <= n,
                pred == differs_from(note),
                kept@ == self.notes@.take(i as int).filter(pred),
            decreases n - i,
        {
            if !self.notes[i].same_as(&note) {
                kept.push(self.notes[i].clone());
            }
            proof {
                reveal_with_fuel(Seq::filter, 1);
                assert(self.notes@.take(i + 1).drop_last() =~= self.notes@.take(i as int));
                assert(self.notes@.take(i + 1).last() == self.notes@[i as int]);
            }
            i = i + 1;
        }
        assert(self.notes@.take(n as int) =~= self.notes@);
        self.notes = kept;
        Ok(())
    }

    /// Removes all recorded notes and events.
    fn clear(&mut self)
        ensures
            final(self).wf(),
            final(self).note_list().len() == 0,
            final(self).midi().events().len() == 0,
            final(self).midi().slice_start() == old(self).midi().slice_start(),
            final(self).midi().slice_end() == old(self).midi().slice_end(),
            final(self).midi().performing() == old(self).midi().performing(),
            final(self).midi().recording() == old(self).midi().recording(),
    {
        self.notes = Vec::new();
        self.inner.clear();
    }
}

/// Whether `q` is a copy of `p` whose notes were moved later by `offset`.
pub open spec fn is_placed_copy(q: Pattern, p: Pattern, offset: nat) -> bool {
    &&& q.sig() == p.sig()
    &&& q.dur() == p.dur()
    &&& q.note_seq() == shifted_notes(p.note_seq(), offset)
}

/// Holds of the patterns that are not a copy of `p` placed at `offset`.
pub open spec fn not_placed_copy(p: Pattern, offset: nat) -> spec_fn(Pattern) -> bool {
    |q: Pattern| !is_placed_copy(q, p, offset)
}

/// The notes of `p` moved later by `offset` units.
pub open spec fn shifted_notes(notes: Seq<Note>, offset: nat) -> Seq<Note> {
    notes.map_values(|n: Note| shifted_note(n, offset))
}

/// Whether every note of `p` can be moved later by `offset` units.
pub open spec fn can_shift_pattern(p: Pattern, offset: nat) -> bool {
    forall|i: int| 0 <= i < p.note_seq().len() ==> can_shift_note(#[trigger] p.note_seq()[i], offset)
}

/// Recording a note and then removing the same note at the same position
/// leaves the note list as removing it alone would: recording is undone.
pub proof fn lemma_note_remove_undoes_record(notes: Seq<Note>, note: Note, position: nat)
    ensures
        notes.push(shifted_note(note, position)).filter(differs_from(shifted_note(note, position)))
            == notes.filter(differs_from(shifted_note(note, position))),
{
    lemma_push_filtered_out(notes, shifted_note(note, position), differs_from(shifted_note(note, position)));
}

/// Recording a pattern and then removing the same pattern at the same
/// position leaves the pattern list as removing it alone would: whatever copy
/// the recording kept is one that the removal takes away.
pub proof fn lemma_pattern_remove_undoes_record(patterns: Seq<Pattern>, copy: Pattern, pattern: Pattern, position: nat)
    requires
        is_placed_copy(copy, pattern, position),
    ensures
        patterns.push(copy).filter(not_placed_copy(pattern, position)) == patterns.filter(
            not_placed_copy(pattern, position),
        ),
{
    lemma_push_filtered_out(patterns, copy, not_placed_copy(pattern, position));
}

/// The events after recording the events of each pattern, in order, on
/// `channel`.
pub open spec fn patterns_recorded(s: Seq<ChannelEvent>, channel: MidiChannel, patterns: Seq<Pattern>) -> Seq<ChannelEvent>
    decreases patterns.len(),
{
    if patterns.len() == 0 {
        s
    } else {
        recorded_all(
            patterns_recorded(s, channel, patterns.drop_last()),
            channel,
            notes_events(patterns.last().note_seq()),
        )
    }
}

/// A sequencer that works in terms of static copies of [Pattern]s. Recording a
/// [Pattern] and then later changing it won't change what's recorded in this
/// sequencer.
#[derive(Debug)]
pub struct PatternSequencer {
    uid: Uid,
    inner: MidiSequencer,
    patterns: Vec<Pattern>,
}

impl Default for PatternSequencer {
    fn default() -> (r: Self)
        ensures
            r.wf(),
            r.midi().events().len() == 0,
            r.pattern_list().len() == 0,
            r.midi().slice_start()@ == 0,
            r.midi().slice_end()@ == 0,
            !r.midi().performing(),
            !r.midi().recording(),
    {
        PatternSequencer { uid: Uid(0), inner: MidiSequencer::default(), patterns: Vec::new() }
    }
}

impl PatternSequencer {
    /// The MIDI sequencer that plays the patterns.
    pub closed spec fn midi(&self) -> MidiSequencer {
        self.inner
    }

    /// The recorded patterns, each moved to its absolute position.
    pub closed spec fn pattern_list(&self) -> Seq<Pattern> {
        self.patterns@
    }

    /// The MIDI events are kept in time order.
    pub open spec fn wf(&self) -> bool {
        self.midi().wf()
    }

    /// Sets the time slice that the next [PatternSequencer::work] applies to.
    pub fn update_time(&mut self, range: &core::ops::Range<MusicalTime>)
        ensures
            final(self).pattern_list() == old(self).pattern_list(),
            final(self).midi().events() == old(self).midi().events(),
            final(self).midi().slice_start() == range.start,
            final(self).midi().slice_end() == range.end,
            final(self).midi().performing() == old(self).midi().performing(),
            final(self).midi().recording() == old(self).midi().recording(),
    {
        self.inner.update_time(range)
    }

    /// The channel and message of every event in the current time slice.
    pub fn work(&self) -> (r: Vec<(MidiChannel, MidiMessage)>)
        ensures
            r@ == self.midi().events().filter(
                in_slice(self.midi().slice_start()@, self.midi().slice_end()@),
            ).map_values(|x: ChannelEvent| sent(x)),
    {
        self.inner.work()
    }

    /// Whether no event is at or after the end of the current time slice.
    pub fn is_finished(&self) -> (r: bool)
        requires
            self.wf(),
        ensures
            r == forall|i: int| 0 <= i < self.midi().events().len() ==> (#[trigger] self.midi().events()[i]).1.time@
                < self.midi().slice_end()@,
    {
        self.inner.is_finished()
    }

    /// Starts a performance.
    pub fn play(&mut self)
        ensures
            final(self).pattern_list() == old(self).pattern_list(),
            final(self).midi().events() == old(self).midi().events(),
            final(self).midi().slice_start() == old(self).midi().slice_start(),
            final(self).midi().slice_end() == old(self).midi().slice_end(),
            final(self).midi().performing(),
            !final(self).midi().recording(),
    {
        self.inner.play()
    }

    /// Stops the performance.
    pub fn stop(&mut self)
        ensures
            final(self).pattern_list() == old(self).pattern_list(),
            final(self).midi().events() == old(self).midi().events(),
            final(self).midi().slice_start() == old(self).midi().slice_start(),
            final(self).midi().slice_end() == old(self).midi().slice_end(),
            !final(self).midi().performing(),
            !final(self).midi().recording(),
    {
        self.inner.stop()
    }

    /// Moves the time slice back to the start.
    pub fn skip_to_start(&mut self)
        ensures
            final(self).pattern_list() == old(self).pattern_list(),
            final(self).midi().events() == old(self).midi().events(),
            final(self).midi().slice_start()@ == 0,
            final(self).midi().slice_end()@ == 0,
            final(self).midi().performing() == old(self).midi().performing(),
            final(self).midi().recording() == old(self).midi().recording(),
    {
        self.inner.skip_to_start()
    }

    /// Whether a performance is under way.
    pub fn is_performing(&self) -> (r: bool)
        ensures
            r == self.midi().performing(),
    {
        self.inner.is_performing()
    }
}

impl Serializable for PatternSequencer {
    open spec fn loadable(&self) -> bool {
        self.wf()
    }

    /// Records the events of every held pattern, in order, on channel zero,
    /// as after the patterns were read back from storage.
    fn after_deser(&mut self)
        ensures
            final(self).wf(),
            final(self).pattern_list() == old(self).pattern_list(),
            final(self).midi().events() == patterns_recorded(
                old(self).midi().events(),
                MidiChannel(0),
                old(self).pattern_list(),
            ),
            final(self).midi().slice_start() == old(self).midi().slice_start(),
            final(self).midi().slice_end() == old(self).midi().slice_end(),
            final(self).midi().performing() == old(self).midi().performing(),
            final(self).midi().recording() == old(self).midi().recording(),
    {
        let n = self.patterns.len();
        let mut i: usize = 0;
        while i < n
            invariant
                n == self.patterns@.len(),
                i <= n,
                self.patterns@ == old(self).patterns@,
                self.inner.wf(),
                self.inner.events() == patterns_recorded(
                    old(self).inner.events(),
                    MidiChannel(0),
                    self.patterns@.take(i as int),
                ),
                self.inner.slice_start() == old(self).inner.slice_start(),
                self.inner.slice_end() == old(self).inner.slice_end(),
                self.inner.performing() == old(self).inner.performing(),
                self.inner.recording() == old(self).inner.recording(),
            decreases n - i,
        {
            proof {
                assert(self.patterns@.take(i + 1).drop_last() =~= self.patterns@.take(i as int));
                assert(self.patterns@.take(i + 1).last() == self.patterns@[i as int]);
            }
            let events = self.patterns[i].to_midi_events();
            self.inner.record_all(MidiChannel(0), &events);
            i = i + 1;
        }
        assert(self.patterns@.take(n as int) =~= self.patterns@);
    }
}

impl Sequences for PatternSequencer {
    type MU = Pattern;

    open spec fn can_place(&self, unit: &Pattern, position: MusicalTime) -> bool {
        self.wf() && can_shift_pattern(*unit, position@)
    }

    open spec fn sequences_ready(&self) -> bool {
        true
    }

    /// Records a copy of the pattern on the channel, starting at `position`.
    fn record(&mut self, channel: MidiChannel, pattern: &Pattern, position: MusicalTime) -> (r: Result<(), SequencerError>)
        ensures
            r is Ok,
            final(self).wf(),
            final(self).pattern_list().len() == old(self).pattern_list().len() + 1,
            final(self).pattern_list().drop_last() == old(self).pattern_list(),
            is_placed_copy(final(self).pattern_list().last(), *pattern, position@),
            final(self).midi().events() == recorded_all(
                old(self).midi().events(),
                channel,
                notes_events(shifted_notes(pattern.note_seq(), position@)),
            ),
            final(self).midi().slice_start() == old(self).midi().slice_start(),
            final(self).midi().slice_end() == old(self).midi().slice_end(),
            final(self).midi().performing() == old(self).midi().performing(),
            final(self).midi().recording() == old(self).midi().recording(),
    {
        let pattern = pattern.shifted(position);
        let events = pattern.to_midi_events();
        self.inner.record_all(channel, &events);
        self.patterns.push(pattern);
        assert(self.patterns@.drop_last() =~= old(self).patterns@);
        Ok(())
    }

    /// Deletes every recorded pattern matching the given pattern placed at
    /// `position`, along with its events.
    fn remove(&mut self, channel: MidiChannel, pattern: &Pattern, position: MusicalTime) -> (r: Result<(), SequencerError>)
        ensures
            r is Ok,
            final(self).wf(),
            final(self).midi().events() == removed_all(
                old(self).midi().events(),
                channel,
                notes_events(shifted_notes(pattern.note_seq(), position@)),
            ),
            final(self).pattern_list() == old(self).pattern_list().filter(
                not_placed_copy(*pattern, position@),
            ),
            final(self).midi().slice_start() == old(self).midi().slice_start(),
            final(self).midi().slice_end() == old(self).midi().slice_end(),
            final(self).midi().performing() == old(self).midi().performing(),
            final(self).midi().recording() == old(self).midi().recording(),
    {
        let placed = pattern.shifted(position);
        let events = placed.to_midi_events();
        self.inner.remove_all(channel, &events);
        let ghost pred = not_placed_copy(*pattern, position@);
        let ghost orig = self.patterns@;
        let ghost midi_after = self.inner;
        let ghost mut j: int = 0;
        let mut i: usize = 0;
        while i < self.patterns.len()
            invariant
                0 <= j <= orig.len(),
                self.inner == midi_after,
                pred == not_placed_copy(*pattern, position@),
                placed.sig() == pattern.sig(),
                placed.dur() == pattern.dur(),
                placed.note_seq() == shifted_notes(pattern.note_seq(), position@),
                i == orig.take(j).filter(pred).len(),
                self.patterns@ == orig.take(j).filter(pred) + orig.skip(j),
            decreases self.patterns@.len() - i,
        {
            assert(self.patterns@[i as int] == orig[j]);
            proof {
                reveal_with_fuel(Seq::filter, 1);
                assert(orig.take(j + 1).drop_last() =~= orig.take(j));
                assert(orig.take(j + 1).last() == orig[j]);
            }
            if self.patterns[i].same_as(&placed) {
                self.patterns.remove(i);
                proof {
                    assert(self.patterns@ =~= orig.take(j + 1).filter(pred) + orig.skip(j + 1));
                }
            } else {
                proof {
                    assert(self.patterns@ =~= orig.take(j + 1).filter(pred) + orig.skip(j + 1));
                }
                i = i + 1;
            }
            proof {
                j = j + 1;
            }
        }
        proof {
            assert(orig.skip(j).len() == 0);
            if j < orig.len() {
                assert(false);
            }
            assert(orig.take(j) =~= orig);
            assert(self.patterns@ =~= orig.filter(pred));
        }
        Ok(())
    }

    /// Removes all recorded patterns and events.
    fn clear(&mut self)
        ensures
            final(self).wf(),
            final(self).pattern_list().len() == 0,
            final(self).midi().events().len() == 0,
            final(self).midi().slice_start() == old(self).midi().slice_start(),
            final(self).midi().slice_end() == old(self).midi().slice_end(),
            final(self).midi().performing() == old(self).midi().performing(),
            final(self).midi().recording() == old(self).midi().recording(),
    {
        self.patterns = Vec::new();
        self.inner.clear();
    }
}

} // verus!
