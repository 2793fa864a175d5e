//! A sequencer that plays the patterns of a piano roll as they are when it
//! replays them, rather than copies taken when they were recorded.
use crate::midi::{MidiChannel, MidiMessage};
use crate::piano_roll::{notes_events, Pattern, PatternUid, PianoRoll};
use crate::sequencers::{
    can_shift_pattern, in_slice, is_placed_copy, recorded_all, sent, shifted_notes, ChannelEvent,
    PatternSequencer, SequencerError,
};
use crate::time::{group_time_facts, MusicalTime, TimeRange};
use crate::traits::Sequences;
use crate::uid::Uid;
use vstd::prelude::*;

verus! {

broadcast use group_time_facts;

/// A pattern of the piano roll, placed on the timeline.
#[derive(Debug, PartialEq, Eq)]
pub struct LivePatternArrangement {
    pattern_uid: PatternUid,
    range: TimeRange,
}

impl LivePatternArrangement {
    /// The pattern that is placed.
    pub closed spec fn placed_uid(&self) -> PatternUid {
        self.pattern_uid
    }

    /// Where the placement starts, in units.
    pub closed spec fn placed_start(&self) -> nat {
        self.range.0.start@
    }

    /// Where the placement ends (exclusive), in units.
    pub closed spec fn placed_end(&self) -> nat {
        self.range.0.end@
    }
}

impl Clone for LivePatternArrangement {
    fn clone(&self) -> (r: Self)
        ensures
            r == *self,
    {
        LivePatternArrangement { pattern_uid: self.pattern_uid, range: self.range.clone() }
    }
}

impl Default for LivePatternArrangement {
    fn default() -> (r: Self)
        ensures
            r.placed_uid() == PatternUid(0),
            r.placed_start() == 0,
            r.placed_end() == 0,
    {
        LivePatternArrangement {
            pattern_uid: PatternUid(0),
            range: TimeRange(MusicalTime::start()..MusicalTime::start()),
        }
    }
}

/// Whether the arrangement's pattern, if the piano roll still holds it, can be
/// moved to where the arrangement starts.
pub open spec fn placeable(a: LivePatternArrangement, patterns: Map<usize, Pattern>) -> bool {
    patterns.contains_key(a.placed_uid().0) ==> can_shift_pattern(
        patterns[a.placed_uid().0],
        a.placed_start(),
    )
}

/// The patterns that replaying the arrangements records, each with where it
/// starts: one for every arrangement whose pattern the piano roll holds, in
/// the order of the arrangements.
pub open spec fn replay_sources(arrangements: Seq<LivePatternArrangement>, patterns: Map<usize, Pattern>) -> Seq<(Pattern, nat)>
    decreases arrangements.len(),
{
    if arrangements.len() == 0 {
        Seq::empty()
    } else {
        let earlier = replay_sources(arrangements.drop_last(), patterns);
        let a = arrangements.last();
        if patterns.contains_key(a.placed_uid().0) {
            earlier.push((patterns[a.placed_uid().0], a.placed_start()))
        } else {
            earlier
        }
    }
}

/// The events after recording each placed pattern, in order, on `channel`.
pub open spec fn sources_events(s: Seq<ChannelEvent>, channel: MidiChannel, sources: Seq<(Pattern, nat)>) -> Seq<ChannelEvent>
    decreases sources.len(),
{
    if sources.len() == 0 {
        s
    } else {
        recorded_all(
            sources_events(s, channel, sources.drop_last()),
            channel,
            notes_events(shifted_notes(sources.last().0.note_seq(), sources.last().1)),
        )
    }
}

/// Holds of the arrangements that do not place `uid` at `start`.
pub open spec fn not_placed_at(uid: PatternUid, start: nat) -> spec_fn(LivePatternArrangement) -> bool {
    |a: LivePatternArrangement| !(a.placed_uid() == uid && a.placed_start() == start)
}

/// Recording an arrangement and then removing arrangements of the same
/// pattern at the same position leaves the arrangements as removing alone
/// would: recording is undone.
pub proof fn lemma_arrangement_remove_undoes_record(
    arrangements: Seq<LivePatternArrangement>,
    added: LivePatternArrangement,
    uid: PatternUid,
    start: nat,
)
    requires
        added.placed_uid() == uid,
        added.placed_start() == start,
    ensures
        arrangements.push(added).filter(not_placed_at(uid, start)) == arrangements.filter(
            not_placed_at(uid, start),
        ),
{
    crate::sequencers::lemma_push_filtered_out(arrangements, added, not_placed_at(uid, start));
}

/// Whether the pattern sequencer holds exactly copies of the given placed
/// patterns, in order.
pub open spec fn holds_copies_of(s: PatternSequencer, sources: Seq<(Pattern, nat)>) -> bool {
    &&& s.pattern_list().len() == sources.len()
    &&& forall|i: int| 0 <= i < sources.len() ==> is_placed_copy(
        #[trigger] s.pattern_list()[i],
        sources[i].0,
        sources[i].1,
    )
}

/// A sequencer that refers to the patterns of a [PianoRoll] by their
/// identifiers, so that it plays them as they are when it last replayed them.
/// The piano roll is handed to each call that reads it.
#[derive(Debug)]
pub struct LivePatternSequencer {
    uid: Uid,
    arrangements: Vec<LivePatternArrangement>,
    inner: PatternSequencer,
}

impl LivePatternSequencer {
    /// The arrangements, in the order they were recorded.
    pub closed spec fn arrangement_list(&self) -> Seq<LivePatternArrangement> {
        self.arrangements@
    }

    /// The pattern sequencer that plays the arrangements.
    pub closed spec fn player(&self) -> PatternSequencer {
        self.inner
    }

    /// The sequencer's identifier.
    pub closed spec fn spec_uid(&self) -> Uid {
        self.uid
    }

    /// The MIDI events are kept in time order.
    pub open spec fn wf(&self) -> bool {
        self.player().wf()
    }

    /// Makes an empty sequencer with the given identifier.
    pub fn new_with(uid: Uid) -> (r: Self)
        ensures
            r.wf(),
            r.spec_uid() == uid,
            r.arrangement_list().len() == 0,
            r.player().pattern_list().len() == 0,
            r.player().midi().events().len() == 0,
            r.player().midi().slice_start()@ == 0,
            r.player().midi().slice_end()@ == 0,
            !r.player().midi().performing(),
            !r.player().midi().recording(),
    {
        LivePatternSequencer { uid, arrangements: Vec::new(), inner: PatternSequencer::default() }
    }

    /// The sequencer's identifier.
    pub fn uid(&self) -> (r: Uid)
        ensures
            r == self.spec_uid(),
    {
        self.uid
    }

    /// Places the piano roll's pattern `pattern_uid` at `position` and records
    /// its events on `channel`. Fails if the piano roll has no such pattern.
    pub fn record(
        &mut self,
        piano_roll: &PianoRoll,
        channel: MidiChannel,
        pattern_uid: &PatternUid,
        position: MusicalTime,
    ) -> (r: Result<(), SequencerError>)
        requires
            old(self).wf(),
            piano_roll.patterns().contains_key(pattern_uid.0) ==> {
                let p = piano_roll.patterns()[pattern_uid.0];
                &&& can_shift_pattern(p, position@)
                &&& position@ + p.dur()@ <= usize::MAX
            },
        ensures
            final(self).wf(),
            (r is Ok) == piano_roll.patterns().contains_key(pattern_uid.0),
            r is Err ==> r == Err::<(), SequencerError>(SequencerError::PatternNotFound) && *final(self)
                == *old(self),
            r is Ok ==> {
                let p = piano_roll.patterns()[pattern_uid.0];
                let a = final(self).arrangement_list().last();
                &&& final(self).arrangement_list().len() == old(self).arrangement_list().len() + 1
                &&& final(self).arrangement_list().drop_last() == old(self).arrangement_list()
                &&& a.placed_uid() == *pattern_uid
                &&& a.placed_start() == position@
                &&& a.placed_end() == position@ + p.dur()@
                &&& final(self).player().pattern_list().len() == old(self).player().pattern_list().len() + 1
                &&& final(self).player().pattern_list().drop_last() == old(self).player().pattern_list()
                &&& is_placed_copy(final(self).player().pattern_list().last(), p, position@)
                &&& final(self).player().midi().events() == recorded_all(
                    old(self).player().midi().events(),
                    channel,
                    notes_events(shifted_notes(p.note_seq(), position@)),
                )
                &&& final(self).player().midi().slice_start() == old(self).player().midi().slice_start()
                &&& final(self).player().midi().slice_end() == old(self).player().midi().slice_end()
                &&& final(self).player().midi().performing() == old(self).player().midi().performing()
                &&& final(self).player().midi().recording() == old(self).player().midi().recording()
                &&& final(self).spec_uid() == old(self).spec_uid()
            },
    {
        match piano_roll.get_pattern(pattern_uid) {
            Some(pattern) => {
                let _ = self.inner.record(channel, pattern, position);
                let end = position + pattern.duration();
                self.arrangements.push(
                    LivePatternArrangement { pattern_uid: *pattern_uid, range: TimeRange(position..end) },
                );
                assert(self.arrangements@.drop_last() =~= old(self).arrangements@);
                Ok(())
            },
            None => Err(SequencerError::PatternNotFound),
        }
    }

    /// Records, on channel zero, every arrangement whose pattern the piano
    /// roll holds, in the order of the arrangements.
    fn replay(&mut self, piano_roll: &PianoRoll)
        requires
            old(self).wf(),
            old(self).player().pattern_list().len() == 0,
            old(self).player().midi().events().len() == 0,
            forall|k: int| 0 <= k < old(self).arrangement_list().len() ==> placeable(
                #[trigger] old(self).arrangement_list()[k],
                piano_roll.patterns(),
            ),
        ensures
            final(self).wf(),
            final(self).spec_uid() == old(self).spec_uid(),
            final(self).arrangement_list() == old(self).arrangement_list(),
            holds_copies_of(
                final(self).player(),
                replay_sources(final(self).arrangement_list(), piano_roll.patterns()),
            ),
            final(self).player().midi().events() == sources_events(
                Seq::empty(),
                MidiChannel(0),
                replay_sources(final(self).arrangement_list(), piano_roll.patterns()),
            ),
            final(self).player().midi().slice_start() == old(self).player().midi().slice_start(),
            final(self).player().midi().slice_end() == old(self).player().midi().slice_end(),
            final(self).player().midi().performing() == old(self).player().midi().performing(),
            final(self).player().midi().recording() == old(self).player().midi().recording(),
    {
        let ghost arrs = self.arrangements@;
        let ghost pats = piano_roll.patterns();
        let ghost m0 = self.inner.midi();
        let n = self.arrangements.len();
        let mut i: usize = 0;
        assert(self.inner.midi().events() =~= Seq::<ChannelEvent>::empty());
        assert forall|k: int| 0 <= k < arrs.len() implies placeable(#[trigger] arrs[k], pats) by {
            assert(old(self).arrangement_list()[k] == arrs[k]);
        }
        while i < n
            invariant
                n == arrs.len(),
                i <= n,
                self.arrangements@ == arrs,
                self.uid == old(self).uid,
                pats == piano_roll.patterns(),
                forall|k: int| 0 <= k < arrs.len() ==> placeable(#[trigger] arrs[k], pats),
                self.inner.wf(),
                holds_copies_of(self.inner, replay_sources(arrs.take(i as int), pats)),
                self.inner.midi().events() == sources_events(
                    Seq::empty(),
                    MidiChannel(0),
                    replay_sources(arrs.take(i as int), pats),
                ),
                self.inner.midi().slice_start() == m0.slice_start(),
                self.inner.midi().slice_end() == m0.slice_end(),
                self.inner.midi().performing() == m0.performing(),
                self.inner.midi().recording() == m0.recording(),
            decreases n - i,
        {
            proof {
                assert(arrs.take(i + 1).drop_last() =~= arrs.take(i as int));
                assert(arrs.take(i + 1).last() == arrs[i as int]);
                assert(placeable(arrs[i as int], pats));
            }
            let start = self.arrangements[i].range.0.start;
            match piano_roll.get_pattern(&self.arrangements[i].pattern_uid) {
                Some(pattern) => {
                    let ghost before = self.inner;
                    let _ = self.inner.record(MidiChannel(0), pattern, start);
                    proof {
                        let earlier = replay_sources(arrs.take(i as int), pats);
                        let now = replay_sources(arrs.take(i + 1), pats);
                        assert(now == earlier.push((*pattern, start@)));
                        assert(now.drop_last() =~= earlier);
                        assert forall|k: int| 0 <= k < now.len() implies is_placed_copy(
                            #[trigger] self.inner.pattern_list()[k],
                            now[k].0,
                            now[k].1,
                        ) by {
                            if k < earlier.len() {
                                assert(self.inner.pattern_list()[k] == self.inner.pattern_list().drop_last()[k]);
                                assert(before.pattern_list()[k] == self.inner.pattern_list()[k]);
                            }
                        }
                    }
                },
                None => {
                    proof {
                        assert(replay_sources(arrs.take(i + 1), pats) == replay_sources(arrs.take(i as int), pats));
                    }
                },
            }
            i = i + 1;
        }
        assert(arrs.take(n as int) =~= arrs);
    }

    /// Replays the arrangements against the piano roll, as after they were
    /// read back from storage, when nothing has been recorded yet.
    pub fn after_deser(&mut self, piano_roll: &PianoRoll)
        requires
            old(self).wf(),
            old(self).player().pattern_list().len() == 0,
            old(self).player().midi().events().len() == 0,
            forall|k: int| 0 <= k < old(self).arrangement_list().len() ==> placeable(
                #[trigger] old(self).arrangement_list()[k],
                piano_roll.patterns(),
            ),
        ensures
            final(self).wf(),
            final(self).spec_uid() == old(self).spec_uid(),
            final(self).arrangement_list() == old(self).arrangement_list(),
            holds_copies_of(
                final(self).player(),
                replay_sources(final(self).arrangement_list(), piano_roll.patterns()),
            ),
            final(self).player().midi().events() == sources_events(
                Seq::empty(),
                MidiChannel(0),
                replay_sources(final(self).arrangement_list(), piano_roll.patterns()),
            ),
    {
        self.replay(piano_roll);
    }

    /// Removes every arrangement of `pattern_uid` at `position`, then replays
    /// the rest against the piano roll.
    pub fn remove(
        &mut self,
        piano_roll: &PianoRoll,
        channel: MidiChannel,
        pattern_uid: &PatternUid,
        position: MusicalTime,
    ) -> (r: Result<(), SequencerError>)
        requires
            old(self).wf(),
            forall|k: int| 0 <= k < old(self).arrangement_list().len() && not_placed_at(*pattern_uid, position@)(
                #[trigger] old(self).arrangement_list()[k],
            ) ==> placeable(old(self).arrangement_list()[k], piano_roll.patterns()),
        ensures
            r is Ok,
            final(self).wf(),
            final(self).spec_uid() == old(self).spec_uid(),
            final(self).arrangement_list() == old(self).arrangement_list().filter(
                not_placed_at(*pattern_uid, position@),
            ),
            holds_copies_of(
                final(self).player(),
                replay_sources(final(self).arrangement_list(), piano_roll.patterns()),
            ),
            final(self).player().midi().events() == sources_events(
                Seq::empty(),
                MidiChannel(0),
                replay_sources(final(self).arrangement_list(), piano_roll.patterns()),
            ),
            final(self).player().midi().slice_start() == old(self).player().midi().slice_start(),
            final(self).player().midi().slice_end() == old(self).player().midi().slice_end(),
            final(self).player().midi().performing() == old(self).player().midi().performing(),
            final(self).player().midi().recording() == old(self).player().midi().recording(),
    {
        let ghost pred = not_placed_at(*pattern_uid, position@);
        let ghost orig = self.arrangements@;
        let ghost mut j: int = 0;
        let mut i: usize = 0;
        while i < self.arrangements.len()
            invariant
                0 <= j <= orig.len(),
                self.inner == old(self).inner,
                self.uid == old(self).uid,
                pred == not_placed_at(*pattern_uid, position@),
                i == orig.take(j).filter(pred).len(),
                self.arrangements@ == orig.take(j).filter(pred) + orig.skip(j),
            decreases self.arrangements@.len() - i,
        {
            assert(self.arrangements@[i as int] == orig[j]);
            proof {
                reveal_with_fuel(Seq::filter, 1);
                assert(orig.take(j + 1).drop_last() =~= orig.take(j));
                assert(orig.take(j + 1).last() == orig[j]);
            }
            if self.arrangements[i].pattern_uid == *pattern_uid && self.arrangements[i].range.0.start
                == position {
                self.arrangements.remove(i);
                proof {
                    assert(self.arrangements@ =~= orig.take(j + 1).filter(pred) + orig.skip(j + 1));
                }
            } else {
                proof {
                    assert(self.arrangements@ =~= orig.take(j + 1).filter(pred) + orig.skip(j + 1));
                }
                i = i + 1;
            }
            proof {
                j = j + 1;
            }
        }
        proof {
            if j < orig.len() {
                assert(orig.skip(j).len() > 0);
            }
            assert(orig.take(j) =~= orig);
            assert(self.arrangements@ =~= orig.filter(pred));
            assert forall|k: int| 0 <= k < self.arrangements@.len() implies placeable(
                #[trigger] self.arrangements@[k],
                piano_roll.patterns(),
            ) by {
                let x = self.arrangements@[k];
                orig.lemma_filter_pred(pred, k);
                assert(orig.filter(pred)[k] == x);
                assert(orig.filter(pred).contains(x));
                orig.lemma_filter_contains_rev(pred, x);
                let m = choose|m: int| 0 <= m < orig.len() && orig[m] == x;
                assert(old(self).arrangement_list()[m] == x);
            }
        }
        self.inner.clear();
        self.replay(piano_roll);
        Ok(())
    }

    /// Removes every arrangement and recorded event.
    pub fn clear(&mut self)
        ensures
            final(self).wf(),
            final(self).spec_uid() == old(self).spec_uid(),
            final(self).arrangement_list().len() == 0,
            final(self).player().pattern_list().len() == 0,
            final(self).player().midi().events().len() == 0,
            final(self).player().midi().slice_start() == old(self).player().midi().slice_start(),
            final(self).player().midi().slice_end() == old(self).player().midi().slice_end(),
            final(self).player().midi().performing() == old(self).player().midi().performing(),
            final(self).player().midi().recording() == old(self).player().midi().recording(),
    {
        self.arrangements = Vec::new();
        self.inner.clear();
    }

    /// The pattern of the first arrangement that covers `position`, if any.
    pub fn pattern_uid_for_position(&self, position: MusicalTime) -> (r: Option<PatternUid>)
        ensures
            match r {
                Some(uid) => exists|i: int|
                    {
                        &&& 0 <= i < self.arrangement_list().len()
                        &&& #[trigger] self.arrangement_list()[i].placed_uid() == uid
                        &&& self.arrangement_list()[i].placed_start() <= position@
                        &&& position@ < self.arrangement_list()[i].placed_end()
                        &&& forall|k: int| 0 <= k < i ==> !(#[trigger] self.arrangement_list()[k].placed_start() <= position@
                            && position@ < self.arrangement_list()[k].placed_end())
                    },
                None => forall|i: int| 0 <= i < self.arrangement_list().len() ==> !(
                    #[trigger] self.arrangement_list()[i].placed_start() <= position@ && position@
                        < self.arrangement_list()[i].placed_end()),
            },
    {
        let n = self.arrangements.len();
        let mut i: usize = 0;
        while i < n
            invariant
                n == self.arrangements@.len(),
                i <= n,
                forall|k: int| 0 <= k < i ==> !(#[trigger] self.arrangements@[k].placed_start() <= position@
                    && position@ < self.arrangements@[k].placed_end()),
            decreases n - i,
        {
            if self.arrangements[i].range.contains(&position) {
                assert(self.arrangement_list()[i as int].placed_uid() == self.arrangements[i as int].pattern_uid);
                return Some(self.arrangements[i].pattern_uid);
            }
            i = i + 1;
        }
        None
    }

    /// Sets the time slice that the next [LivePatternSequencer::work] applies to.
    pub fn update_time(&mut self, range: &core::ops::Range<MusicalTime>)
        ensures
            final(self).spec_uid() == old(self).spec_uid(),
            final(self).arrangement_list() == old(self).arrangement_list(),
            final(self).player().pattern_list() == old(self).player().pattern_list(),
            final(self).player().midi().events() == old(self).player().midi().events(),
            final(self).player().midi().slice_start() == range.start,
            final(self).player().midi().slice_end() == range.end,
            final(self).player().midi().performing() == old(self).player().midi().performing(),
            final(self).player().midi().recording() == old(self).player().midi().recording(),
    {
        self.inner.update_time(range)
    }

    /// The channel and message of every event in the current time slice.
    pub fn work(&self) -> (r: Vec<(MidiChannel, MidiMessage)>)
        ensures
            r@ == self.player().midi().events().filter(
                in_slice(self.player().midi().slice_start()@, self.player().midi().slice_end()@),
            ).map_values(|x: ChannelEvent| sent(x)),
    {
        self.inner.work()
    }

    /// Whether no event is at or after the end of the current time slice.
    pub fn is_finished(&self) -> (r: bool)
        requires
            self.wf(),
        ensures
            r == forall|i: int| 0 <= i < self.player().midi().events().len() ==> (
            #[trigger] self.player().midi().events()[i]).1.time@ < self.player().midi().slice_end()@,
    {
        self.inner.is_finished()
    }

    /// Starts a performance.
    pub fn play(&mut self)
        ensures
            final(self).spec_uid() == old(self).spec_uid(),
            final(self).arrangement_list() == old(self).arrangement_list(),
            final(self).player().pattern_list() == old(self).player().pattern_list(),
            final(self).player().midi().events() == old(self).player().midi().events(),
            final(self).player().midi().slice_start() == old(self).player().midi().slice_start(),
            final(self).player().midi().slice_end() == old(self).player().midi().slice_end(),
            final(self).player().midi().performing(),
            !final(self).player().midi().recording(),
    {
        self.inner.play()
    }

    /// Stops the performance.
    pub fn stop(&mut self)
        ensures
            final(self).spec_uid() == old(self).spec_uid(),
            final(self).arrangement_list() == old(self).arrangement_list(),
            final(self).player().pattern_list() == old(self).player().pattern_list(),
            final(self).player().midi().events() == old(self).player().midi().events(),
            final(self).player().midi().slice_start() == old(self).player().midi().slice_start(),
            final(self).player().midi().slice_end() == old(self).player().midi().slice_end(),
            !final(self).player().midi().performing(),
            !final(self).player().midi().recording(),
    {
        self.inner.stop()
    }

    /// Moves the time slice back to the start.
    pub fn skip_to_start(&mut self)
        ensures
            final(self).spec_uid() == old(self).spec_uid(),
            final(self).arrangement_list() == old(self).arrangement_list(),
            final(self).player().pattern_list() == old(self).player().pattern_list(),
            final(self).player().midi().events() == old(self).player().midi().events(),
            final(self).player().midi().slice_start()@ == 0,
            final(self).player().midi().slice_end()@ == 0,
            final(self).player().midi().performing() == old(self).player().midi().performing(),
            final(self).player().midi().recording() == old(self).player().midi().recording(),
    {
        self.inner.skip_to_start()
    }

    /// Whether a performance is under way.
    pub fn is_performing(&self) -> (r: bool)
        ensures
            r == self.player().midi().performing(),
    {
        self.inner.is_performing()
    }
}

} // verus!
