//! The data that sequencers turn into MIDI events.
use crate::composition::Note;
use crate::midi::MidiChannel;
use crate::piano_roll::PatternUid;
use crate::time::MusicalTime;
use crate::track::TrackUid;
use crate::uid::{IsUid, UidFactory};
use std::collections::HashMap;
use vstd::prelude::*;

verus! {

broadcast use vstd::std_specs::hash::group_hash_axioms;

/// Identifies a [Sequence].
#[derive(Clone, Copy, Debug, Default, Eq, PartialEq, Ord, PartialOrd, Hash, Structural)]
pub struct SequenceUid(pub usize);

impl IsUid for SequenceUid {
    open spec fn number(&self) -> nat {
        self.0 as nat
    }

    open spec fn spec_first_uid() -> nat {
        1
    }

    fn as_usize(&self) -> (r: usize) {
        self.0
    }

    fn from_usize(value: usize) -> (r: Self) {
        SequenceUid(value)
    }

    fn first_uid() -> (r: usize) {
        1
    }
}

/// What a sequence plays: a pattern from the piano roll, or its own notes.
#[derive(Debug, PartialEq, Eq)]
pub enum Sequence {
    /// A pattern, by identifier.
    Pattern(PatternUid),
    /// A list of notes.
    Note(Vec<Note>),
}

/// Why the repository refused a request.
#[derive(Clone, Copy, Debug, PartialEq, Eq, Structural)]
pub enum SequenceRepositoryError {
    /// The change counter has no room left to record another change.
    ChangeCounterExhausted,
}

/// Holds of the identifiers other than `uid`.
pub open spec fn sequence_uid_differs(uid: SequenceUid) -> spec_fn(SequenceUid) -> bool {
    |u: SequenceUid| u != uid
}

/// The sequence identifiers listed for `track` in `tracks`, or none.
pub open spec fn track_list(tracks: Map<usize, Seq<SequenceUid>>, track: TrackUid) -> Seq<SequenceUid> {
    if tracks.contains_key(track.0) {
        tracks[track.0]
    } else {
        Seq::empty()
    }
}

/// [SequenceRepository] stores data that sequencers turn into MIDI events.
#[derive(Debug)]
pub struct SequenceRepository {
    uid_factory: UidFactory<SequenceUid>,
    sequences: HashMap<usize, (TrackUid, MusicalTime, Sequence)>,
    track_to_sequence_uids: HashMap<usize, Vec<SequenceUid>>,
    // Each time something changes in the repo, this number changes. It starts
    // away from zero so that a caller's default-valued copy sees a change on
    // its first check.
    mod_serial: usize,
}

impl Default for SequenceRepository {
    fn default() -> (r: Self)
        ensures
            r.sequences() == Map::<usize, (TrackUid, MusicalTime, Sequence)>::empty(),
            r.tracks() == Map::<usize, Seq<SequenceUid>>::empty(),
            r.serial() == 1000,
            r.next_number() == 1,
    {
        let r = SequenceRepository {
            uid_factory: UidFactory::default(),
            sequences: HashMap::new(),
            track_to_sequence_uids: HashMap::new(),
            mod_serial: 1000,
        };
        assert(r.tracks() =~= Map::<usize, Seq<SequenceUid>>::empty());
        r
    }
}

impl SequenceRepository {
    /// Every stored identifier lies below the number the next mint gives, so
    /// minting never hands out an identifier that is already stored.
    #[verifier::type_invariant]
    spec fn stored_below_next(&self) -> bool {
        forall|k: usize| #[trigger] self.sequences@.contains_key(k) ==> k < self.uid_factory.next_value()
    }

    /// The sequences by identifier number: track, start time and content.
    pub closed spec fn sequences(&self) -> Map<usize, (TrackUid, MusicalTime, Sequence)> {
        self.sequences@
    }

    /// For each track number with an entry, its sequence identifiers in the
    /// order they were added.
    pub closed spec fn tracks(&self) -> Map<usize, Seq<SequenceUid>> {
        self.track_to_sequence_uids@.map_values(|v: Vec<SequenceUid>| v@)
    }

    /// The change counter.
    pub closed spec fn serial(&self) -> nat {
        self.mod_serial as nat
    }

    /// The number the next minted identifier will get.
    pub closed spec fn next_number(&self) -> nat {
        self.uid_factory.next_value()
    }

    /// Mints the next identifier. The stored map is moved aside while the
    /// factory counts on, so that every stored identifier stays below the
    /// factory's next number throughout.
    fn mint_uid(&mut self) -> (r: SequenceUid)
        requires
            old(self).next_number() < usize::MAX,
        ensures
            r.0 == old(self).next_number(),
            final(self).next_number() == old(self).next_number() + 1,
            final(self).sequences() == old(self).sequences(),
            final(self).tracks() == old(self).tracks(),
            final(self).serial() == old(self).serial(),
    {
        proof {
            use_type_invariant(&*self);
        }
        let mut sequences = HashMap::new();
        std::mem::swap(&mut sequences, &mut self.sequences);
        let mut factory: UidFactory<SequenceUid> = UidFactory::default();
        std::mem::swap(&mut factory, &mut self.uid_factory);
        let uid: SequenceUid = factory.mint_next();
        self.uid_factory = factory;
        self.sequences = sequences;
        uid
    }

    /// Makes sure that later mints never return `uid`, with the stored map
    /// moved aside while the factory changes.
    fn keep_uid_fresh(&mut self, uid: SequenceUid)
        requires
            uid.0 < usize::MAX,
        ensures
            final(self).next_number() == if uid.0 >= old(self).next_number() {
                (uid.0 + 1) as nat
            } else {
                old(self).next_number()
            },
            final(self).sequences() == old(self).sequences(),
            final(self).tracks() == old(self).tracks(),
            final(self).serial() == old(self).serial(),
    {
        proof {
            use_type_invariant(&*self);
        }
        let mut sequences = HashMap::new();
        std::mem::swap(&mut sequences, &mut self.sequences);
        let mut factory: UidFactory<SequenceUid> = UidFactory::default();
        std::mem::swap(&mut factory, &mut self.uid_factory);
        factory.notify_externally_minted_uid(uid);
        self.uid_factory = factory;
        self.sequences = sequences;
    }

    /// Adds a sequence under a freshly minted identifier.
    pub fn add(&mut self, sequence: Sequence, start_time: MusicalTime, track_uid: TrackUid) -> (r:
        Result<SequenceUid, SequenceRepositoryError>)
        requires
            old(self).next_number() < usize::MAX,
        ensures
            old(self).serial() < usize::MAX ==> {
                &&& r == Ok::<SequenceUid, SequenceRepositoryError>(SequenceUid(old(self).next_number() as usize))
                &&& !old(self).sequences().contains_key(old(self).next_number() as usize)
                &&& final(self).sequences() == old(self).sequences().insert(
                    old(self).next_number() as usize,
                    (track_uid, start_time, sequence),
                )
                &&& final(self).tracks() == old(self).tracks().insert(
                    track_uid.0,
                    track_list(old(self).tracks(), track_uid).push(SequenceUid(old(self).next_number() as usize)),
                )
                &&& final(self).serial() == old(self).serial() + 1
                &&& final(self).next_number() == old(self).next_number() + 1
            },
            old(self).serial() == usize::MAX ==> {
                &&& r == Err::<SequenceUid, SequenceRepositoryError>(SequenceRepositoryError::ChangeCounterExhausted)
                &&& final(self).sequences() == old(self).sequences()
                &&& final(self).tracks() == old(self).tracks()
                &&& final(self).serial() == old(self).serial()
                &&& final(self).next_number() == old(self).next_number()
            },
    {
        proof {
            use_type_invariant(&*self);
        }
        if self.mod_serial == usize::MAX {
            return Err(SequenceRepositoryError::ChangeCounterExhausted);
        }
        let uid = self.mint_uid();
        self.add_with_uid(uid, sequence, start_time, track_uid)
    }

    /// Adds a sequence under the given identifier, replacing any sequence
    /// already stored under it, and lists it last for its track. Later mints
    /// never return this identifier.
    pub fn add_with_uid(
        &mut self,
        uid: SequenceUid,
        sequence: Sequence,
        start_time: MusicalTime,
        track_uid: TrackUid,
    ) -> (r: Result<SequenceUid, SequenceRepositoryError>)
        requires
            uid.0 < usize::MAX,
        ensures
            old(self).serial() < usize::MAX ==> {
                &&& r == Ok::<SequenceUid, SequenceRepositoryError>(uid)
                &&& final(self).sequences() == old(self).sequences().insert(
                    uid.0,
                    (track_uid, start_time, sequence),
                )
                &&& final(self).tracks() == old(self).tracks().insert(
                    track_uid.0,
                    track_list(old(self).tracks(), track_uid).push(uid),
                )
                &&& final(self).serial() == old(self).serial() + 1
                &&& final(self).next_number() == if uid.0 >= old(self).next_number() {
                    (uid.0 + 1) as nat
                } else {
                    old(self).next_number()
                }
            },
            old(self).serial() == usize::MAX ==> {
                &&& r == Err::<SequenceUid, SequenceRepositoryError>(SequenceRepositoryError::ChangeCounterExhausted)
                &&& final(self).sequences() == old(self).sequences()
                &&& final(self).tracks() == old(self).tracks()
                &&& final(self).serial() == old(self).serial()
                &&& final(self).next_number() == old(self).next_number()
            },
    {
        proof {
            use_type_invariant(&*self);
        }
        if self.mod_serial == usize::MAX {
            return Err(SequenceRepositoryError::ChangeCounterExhausted);
        }
        self.keep_uid_fresh(uid);
        let mut sequences = HashMap::new();
        std::mem::swap(&mut sequences, &mut self.sequences);
        sequences.insert(uid.0, (track_uid, start_time, sequence));
        self.sequences = sequences;
        let mut tracks = HashMap::new();
        std::mem::swap(&mut tracks, &mut self.track_to_sequence_uids);
        let mut list = match tracks.remove(&track_uid.0) {
            Some(v) => v,
            None => Vec::new(),
        };
        list.push(uid);
        let ghost mid = tracks@;
        tracks.insert(track_uid.0, list);
        self.track_to_sequence_uids = tracks;
        proof {
            lemma_track_lists_insert(mid, track_uid.0, list);
            assert(mid.map_values(|v: Vec<SequenceUid>| v@) =~= old(self).tracks().remove(track_uid.0));
        }
        self.notify_change();
        Ok(uid)
    }

    /// Removes the sequence with the given identifier, if there is one, and
    /// drops it from its track's list.
    pub fn remove(&mut self, sequence_uid: SequenceUid)
        requires
            old(self).serial() < usize::MAX,
        ensures
            !old(self).sequences().contains_key(sequence_uid.0) ==> {
                &&& final(self).sequences() == old(self).sequences()
                &&& final(self).tracks() == old(self).tracks()
                &&& final(self).serial() == old(self).serial()
            },
            old(self).sequences().contains_key(sequence_uid.0) ==> {
                let track = old(self).sequences()[sequence_uid.0].0;
                &&& final(self).sequences() == old(self).sequences().remove(sequence_uid.0)
                &&& final(self).tracks() == if old(self).tracks().contains_key(track.0) {
                    old(self).tracks().insert(
                        track.0,
                        old(self).tracks()[track.0].filter(sequence_uid_differs(sequence_uid)),
                    )
                } else {
                    old(self).tracks()
                }
                &&& final(self).serial() == old(self).serial() + 1
            },
            final(self).next_number() == old(self).next_number(),
    {
        proof {
            use_type_invariant(&*self);
        }
        let track_uid = match self.sequences.get(&sequence_uid.0) {
            Some(entry) => entry.0,
            None => {
                return ;
            },
        };
        let mut tracks = HashMap::new();
        std::mem::swap(&mut tracks, &mut self.track_to_sequence_uids);
        match tracks.remove(&track_uid.0) {
            Some(list) => {
                let ghost pred = sequence_uid_differs(sequence_uid);
                let mut kept: Vec<SequenceUid> = Vec::new();
                let n = list.len();
                let mut i: usize = 0;
                while i < n
                    invariant
                        n == list@.len(),
                        i <= n,
                        pred == sequence_uid_differs(sequence_uid),
                        kept@ == list@.take(i as int).filter(pred),
                    decreases n - i,
                {
                    let uid = list[i];
                    if uid.0 != sequence_uid.0 {
                        kept.push(uid);
                    }
                    proof {
                        reveal_with_fuel(Seq::filter, 1);
                        assert(list@.take(i + 1).drop_last() =~= list@.take(i as int));
                        assert(list@.take(i + 1).last() == uid);
                    }
                    i = i + 1;
                }
                assert(list@.take(n as int) =~= list@);
                let ghost mid = tracks@;
                tracks.insert(track_uid.0, kept);
                proof {
                    lemma_track_lists_insert(mid, track_uid.0, kept);
                    assert(mid.map_values(|v: Vec<SequenceUid>| v@) =~= old(self).tracks().remove(track_uid.0));
                }
                self.track_to_sequence_uids = tracks;
            },
            None => {
                self.track_to_sequence_uids = tracks;
                assert(self.tracks() =~= old(self).tracks());
            },
        }
        self.notify_change();
        let mut sequences = HashMap::new();
        std::mem::swap(&mut sequences, &mut self.sequences);
        sequences.remove(&sequence_uid.0);
        self.sequences = sequences;
    }

    /// Records that something changed.
    pub fn notify_change(&mut self)
        requires
            old(self).serial() < usize::MAX,
        ensures
            final(self).serial() == old(self).serial() + 1,
            final(self).sequences() == old(self).sequences(),
            final(self).tracks() == old(self).tracks(),
            final(self).next_number() == old(self).next_number(),
    {
        proof {
            use_type_invariant(&*self);
        }
        self.mod_serial = self.mod_serial + 1;
    }

    /// Tells whether the repository changed since the caller last looked, and
    /// brings the caller's copy of the change counter up to date.
    pub fn has_changed(&self, last_known: &mut usize) -> (r: bool)
        ensures
            r == (self.serial() != *old(last_known)),
            *final(last_known) == self.serial(),
    {
        let has_changed = self.mod_serial != *last_known;
        *last_known = self.mod_serial;
        has_changed
    }

    /// The number of stored sequences.
    pub fn sequence_count(&self) -> (r: usize)
        ensures
            r == self.sequences().len(),
    {
        proof {
            assert(self.sequences().dom().finite());
        }
        self.sequences.len()
    }

    /// The stored sequence with the given identifier: its track, start time
    /// and content.
    pub fn sequence(&self, sequence_uid: SequenceUid) -> (r: Option<&(TrackUid, MusicalTime, Sequence)>)
        ensures
            match r {
                Some(e) => self.sequences().contains_key(sequence_uid.0) && *e == self.sequences()[sequence_uid.0],
                None => !self.sequences().contains_key(sequence_uid.0),
            },
    {
        self.sequences.get(&sequence_uid.0)
    }

    /// The sequence identifiers listed for a track, in the order they were added.
    pub fn track_sequence_uids(&self, track_uid: TrackUid) -> (r: Option<&Vec<SequenceUid>>)
        ensures
            match r {
                Some(v) => self.tracks().contains_key(track_uid.0) && v@ == self.tracks()[track_uid.0],
                None => !self.tracks().contains_key(track_uid.0),
            },
    {
        self.track_to_sequence_uids.get(&track_uid.0)
    }
}

/// Inserting a vector into the map inserts its contents into the track lists.
proof fn lemma_track_lists_insert(m: Map<usize, Vec<SequenceUid>>, k: usize, v: Vec<SequenceUid>)
    ensures
        m.insert(k, v).map_values(|v: Vec<SequenceUid>| v@) == m.map_values(
            |v: Vec<SequenceUid>| v@,
        ).insert(k, v@),
{
    assert(m.insert(k, v).map_values(|v: Vec<SequenceUid>| v@) =~= m.map_values(
        |v: Vec<SequenceUid>| v@,
    ).insert(k, v@));
}

/// A caller that is in step with the repository sees no change until the
/// repository records one, and then sees it: every recorded change moves the
/// counter, and [SequenceRepository::has_changed] reports exactly a counter
/// that differs from the caller's copy.
pub proof fn lemma_changes_are_noticed(last_known: nat, serial_before: nat, serial_after: nat)
    requires
        last_known == serial_before,
        serial_after == serial_before + 1,
    ensures
        last_known == serial_before,
        last_known != serial_after,
{
}

/// A serializable representation of a track's arrangements.
#[derive(Debug, PartialEq)]
pub struct ArrangementInfo {
    /// The track.
    pub track_uid: TrackUid,
    /// The patterns placed on it.
    pub arranged_sequences: Vec<ArrangedSequenceInfo>,
}

/// A serializable representation of an arrangement.
#[derive(Debug, PartialEq)]
pub struct ArrangedSequenceInfo {
    /// The sequence's identifier.
    pub sequence_uid: SequenceUid,
    /// The channel it plays on.
    pub channel: MidiChannel,
    /// Where it starts.
    pub position: MusicalTime,
    /// The pattern it plays.
    pub pattern_uid: PatternUid,
}

/// The placements of patterns among `list`, in order: each identifier that
/// names a stored pattern sequence, with that sequence's start, on channel zero.
pub open spec fn arranged_infos(
    list: Seq<SequenceUid>,
    sequences: Map<usize, (TrackUid, MusicalTime, Sequence)>,
) -> Seq<ArrangedSequenceInfo>
    decreases list.len(),
{
    if list.len() == 0 {
        Seq::empty()
    } else {
        let earlier = arranged_infos(list.drop_last(), sequences);
        let u = list.last();
        if sequences.contains_key(u.0) {
            match sequences[u.0].2 {
                Sequence::Pattern(pattern_uid) => earlier.push(
                    ArrangedSequenceInfo {
                        sequence_uid: u,
                        channel: MidiChannel(0),
                        position: sequences[u.0].1,
                        pattern_uid,
                    },
                ),
                Sequence::Note(_) => earlier,
            }
        } else {
            earlier
        }
    }
}

impl SequenceRepository {
    /// The placements of patterns among `list`, in order.
    fn arranged_for(&self, list: &Vec<SequenceUid>) -> (r: Vec<ArrangedSequenceInfo>)
        ensures
            r@ == arranged_infos(list@, self.sequences()),
    {
        let mut r: Vec<ArrangedSequenceInfo> = Vec::new();
        let n = list.len();
        let mut i: usize = 0;
        while i < n
            invariant
                n == list@.len(),
                i <= n,
                r@ == arranged_infos(list@.take(i as int), self.sequences()),
            decreases n - i,
        {
            proof {
                assert(list@.take(i + 1).drop_last() =~= list@.take(i as int));
                assert(list@.take(i + 1).last() == list@[i as int]);
            }
            let u = list[i];
            match self.sequences.get(&u.0) {
                Some(entry) => {
                    match &entry.2 {
                        Sequence::Pattern(pattern_uid) => {
                            r.push(
                                ArrangedSequenceInfo {
                                    sequence_uid: u,
                                    channel: MidiChannel(0),
                                    position: entry.1,
                                    pattern_uid: *pattern_uid,
                                },
                            );
                        },
                        Sequence::Note(_) => {},
                    }
                },
                None => {},
            }
            i = i + 1;
        }
        assert(list@.take(n as int) =~= list@);
        r
    }

    /// The patterns placed on each track, one entry for each track with a
    /// list, in no particular order of tracks.
    pub fn to_arrangements(&self) -> (r: Vec<ArrangementInfo>)
        ensures
            exists|keys: Seq<usize>|
                {
                    &&& keys.no_duplicates()
                    &&& keys.to_set() == self.tracks().dom()
                    &&& r@.len() == keys.len()
                    &&& forall|i: int|
                        0 <= i < keys.len() ==> {
                            &&& (#[trigger] r@[i]).track_uid == TrackUid(keys[i])
                            &&& r@[i].arranged_sequences@ == arranged_infos(
                                self.tracks()[keys[i]],
                                self.sequences(),
                            )
                        }
                },
    {
        broadcast use vstd::std_specs::hash::axiom_spec_keys_iter;
        let mut v_tracks: Vec<ArrangementInfo> = Vec::new();
        for track_key in it: self.track_to_sequence_uids.keys()
            invariant
                v_tracks@.len() == it.index(),
                forall|j: int|
                    0 <= j < it.index() ==> {
                        &&& (#[trigger] v_tracks@[j]).track_uid == TrackUid(*it.seq()[j])
                        &&& v_tracks@[j].arranged_sequences@ == arranged_infos(
                            self.tracks()[*it.seq()[j]],
                            self.sequences(),
                        )
                    },
                it.seq().unref().to_set() == self.track_to_sequence_uids@.dom(),
        {
            let k = *track_key;
            proof {
                broadcast use vstd::seq_lib::group_seq_properties;
                let u = it.seq().unref();
                assert(u[it.index()] == k);
                assert(u.contains(k));
                assert(u.to_set().contains(k));
            }
            match self.track_to_sequence_uids.get(&k) {
                Some(list) => {
                    let arranged = self.arranged_for(list);
                    v_tracks.push(ArrangementInfo { track_uid: TrackUid(k), arranged_sequences: arranged });
                },
                None => {},
            }
        }
        v_tracks
    }
}

/// What a repository holds: its sequences, its track lists, its change
/// counter and the number its next minted identifier gets.
pub type RepositoryState = (Map<usize, (TrackUid, MusicalTime, Sequence)>, Map<usize, Seq<SequenceUid>>, nat, nat);

/// The state after adding a sequence under `uid`, as
/// [SequenceRepository::add_with_uid] does: nothing changes once the change
/// counter is exhausted.
pub open spec fn state_after_add(
    st: RepositoryState,
    uid: SequenceUid,
    sequence: Sequence,
    start: MusicalTime,
    track: TrackUid,
) -> RepositoryState {
    if st.2 < usize::MAX {
        (
            st.0.insert(uid.0, (track, start, sequence)),
            st.1.insert(track.0, track_list(st.1, track).push(uid)),
            st.2 + 1,
            if uid.0 >= st.3 {
                (uid.0 + 1) as nat
            } else {
                st.3
            },
        )
    } else {
        st
    }
}

/// The state after adding each arranged pattern to `track`, in order.
pub open spec fn state_after_track(st: RepositoryState, track: TrackUid, arranged: Seq<ArrangedSequenceInfo>) -> RepositoryState
    decreases arranged.len(),
{
    if arranged.len() == 0 {
        st
    } else {
        let a = arranged.last();
        state_after_add(
            state_after_track(st, track, arranged.drop_last()),
            a.sequence_uid,
            Sequence::Pattern(a.pattern_uid),
            a.position,
            track,
        )
    }
}

/// The state after adding the arranged patterns of each arrangement, in order.
pub open spec fn state_after_arrangements(st: RepositoryState, arrangements: Seq<ArrangementInfo>) -> RepositoryState
    decreases arrangements.len(),
{
    if arrangements.len() == 0 {
        st
    } else {
        let a = arrangements.last();
        state_after_track(
            state_after_arrangements(st, arrangements.drop_last()),
            a.track_uid,
            a.arranged_sequences@,
        )
    }
}

/// Whether every arranged pattern's identifier leaves room for a next one.
pub open spec fn arrangement_uids_fit(arrangements: Seq<ArrangementInfo>) -> bool {
    forall|i: int, j: int|
        0 <= i < arrangements.len() && 0 <= j < arrangements[i].arranged_sequences@.len() ==> (
        #[trigger] arrangements[i].arranged_sequences@[j]).sequence_uid.0 < usize::MAX
}

impl SequenceRepository {
    /// What the repository holds.
    pub open spec fn state(&self) -> RepositoryState {
        (self.sequences(), self.tracks(), self.serial(), self.next_number())
    }

    /// A repository holding the arranged patterns of the arrangements, each
    /// added with its own identifier to its track, arrangement by arrangement.
    pub fn from_arrangements(value: &Vec<ArrangementInfo>) -> (r: Self)
        requires
            arrangement_uids_fit(value@),
        ensures
            r.state() == state_after_arrangements(fresh_state(), value@),
    {
        let mut r = Self::default();
        proof {
            assert(r.sequences() =~= Map::<usize, (TrackUid, MusicalTime, Sequence)>::empty());
            assert(r.tracks() =~= Map::<usize, Seq<SequenceUid>>::empty());
        }
        let n = value.len();
        let mut i: usize = 0;
        while i < n
            invariant
                n == value@.len(),
                i <= n,
                arrangement_uids_fit(value@),
                r.state() == state_after_arrangements(fresh_state(), value@.take(i as int)),
            decreases n - i,
        {
            proof {
                assert(value@.take(i + 1).drop_last() =~= value@.take(i as int));
                assert(value@.take(i + 1).last() == value@[i as int]);
            }
            let arrangement = &value[i];
            let ghost before = r.state();
            let m = arrangement.arranged_sequences.len();
            let mut j: usize = 0;
            while j < m
                invariant
                    m == arrangement.arranged_sequences@.len(),
                    j <= m,
                    *arrangement == value@[i as int],
                    i < value@.len(),
                    arrangement_uids_fit(value@),
                    r.state() == state_after_track(
                        before,
                        arrangement.track_uid,
                        arrangement.arranged_sequences@.take(j as int),
                    ),
                decreases m - j,
            {
                proof {
                    let t = arrangement.arranged_sequences@.take(j + 1);
                    assert(t.drop_last() =~= arrangement.arranged_sequences@.take(j as int));
                    assert(t.last() == arrangement.arranged_sequences@[j as int]);
                    assert(value@[i as int].arranged_sequences@[j as int].sequence_uid.0 < usize::MAX);
                }
                let sequence = &arrangement.arranged_sequences[j];
                let _ = r.add_with_uid(
                    sequence.sequence_uid,
                    Sequence::Pattern(sequence.pattern_uid),
                    sequence.position,
                    arrangement.track_uid,
                );
                j = j + 1;
            }
            assert(arrangement.arranged_sequences@.take(m as int) =~= arrangement.arranged_sequences@);
            i = i + 1;
        }
        assert(value@.take(n as int) =~= value@);
        r
    }
}

/// The identifiers of the arranged patterns, in order.
pub open spec fn uids_of(arranged: Seq<ArrangedSequenceInfo>) -> Seq<SequenceUid> {
    arranged.map_values(|a: ArrangedSequenceInfo| a.sequence_uid)
}

/// The number of arranged patterns in all the arrangements.
pub open spec fn arranged_count(arrangements: Seq<ArrangementInfo>) -> nat
    decreases arrangements.len(),
{
    if arrangements.len() == 0 {
        0
    } else {
        arranged_count(arrangements.drop_last()) + arrangements.last().arranged_sequences@.len()
    }
}

/// Whether the arrangements come back unchanged from a repository built from
/// them: tracks and identifiers are not repeated, every track places at least
/// one pattern, every placement is on channel zero, and the identifiers and
/// the change counter leave room.
pub open spec fn round_trips(arrangements: Seq<ArrangementInfo>) -> bool {
    &&& forall|i: int, k: int|
        0 <= i < k < arrangements.len() ==> (#[trigger] arrangements[i]).track_uid != (
        #[trigger] arrangements[k]).track_uid
    &&& forall|i: int| 0 <= i < arrangements.len() ==> (#[trigger] arrangements[i]).arranged_sequences@.len() > 0
    &&& forall|i: int, j: int|
        0 <= i < arrangements.len() && 0 <= j < arrangements[i].arranged_sequences@.len() ==> (
        #[trigger] arrangements[i].arranged_sequences@[j]).channel == MidiChannel(0)
    &&& forall|i: int, j: int, k: int, l: int|
        0 <= i < arrangements.len() && 0 <= j < arrangements[i].arranged_sequences@.len() && 0 <= k
            < arrangements.len() && 0 <= l < arrangements[k].arranged_sequences@.len() && (i, j) != (k, l)
            ==> (#[trigger] arrangements[i].arranged_sequences@[j]).sequence_uid != (
        #[trigger] arrangements[k].arranged_sequences@[l]).sequence_uid
    &&& arrangement_uids_fit(arrangements)
    &&& 1000 + arranged_count(arrangements) < usize::MAX
}

/// The sequences after storing each arranged pattern of `arranged` on
/// `track`, in order.
pub open spec fn stored_on_track(
    m: Map<usize, (TrackUid, MusicalTime, Sequence)>,
    track: TrackUid,
    arranged: Seq<ArrangedSequenceInfo>,
) -> Map<usize, (TrackUid, MusicalTime, Sequence)>
    decreases arranged.len(),
{
    if arranged.len() == 0 {
        m
    } else {
        let a = arranged.last();
        stored_on_track(m, track, arranged.drop_last()).insert(
            a.sequence_uid.0,
            (track, a.position, Sequence::Pattern(a.pattern_uid)),
        )
    }
}

/// Adding a track's arranged patterns to a repository that has no list for
/// the track, without exhausting the change counter: the counter moves once
/// per pattern, the track's list is their identifiers, and each is stored.
proof fn lemma_track_added(st: RepositoryState, track: TrackUid, arranged: Seq<ArrangedSequenceInfo>)
    requires
        !st.1.contains_key(track.0),
        st.2 + arranged.len() < usize::MAX,
    ensures
        state_after_track(st, track, arranged).2 == st.2 + arranged.len(),
        arranged.len() > 0 ==> state_after_track(st, track, arranged).1 == st.1.insert(
            track.0,
            uids_of(arranged),
        ),
        arranged.len() == 0 ==> state_after_track(st, track, arranged).1 == st.1,
        state_after_track(st, track, arranged).0 == stored_on_track(st.0, track, arranged),
    decreases arranged.len(),
{
    if arranged.len() > 0 {
        let rest = arranged.drop_last();
        lemma_track_added(st, track, rest);
        let before = state_after_track(st, track, rest);
        if rest.len() > 0 {
            assert(track_list(before.1, track) == uids_of(rest));
        } else {
            assert(track_list(before.1, track) =~= Seq::<SequenceUid>::empty());
            assert(uids_of(rest) =~= Seq::<SequenceUid>::empty());
        }
        assert(track_list(before.1, track) == uids_of(rest));
        assert(uids_of(rest).push(arranged.last().sequence_uid) =~= uids_of(arranged));
        let a = arranged.last();
        let after = state_after_track(st, track, arranged);
        assert(after == state_after_add(before, a.sequence_uid, Sequence::Pattern(a.pattern_uid), a.position, track));
        assert(before.2 < usize::MAX);
        assert(after.1 == before.1.insert(track.0, track_list(before.1, track).push(a.sequence_uid)));
        assert(after.1 =~= st.1.insert(track.0, uids_of(arranged)));
    }
}

/// Storing distinct arranged patterns stores each as a pattern sequence on
/// the track, and leaves every other identifier as it was.
proof fn lemma_stored_on_track(
    m: Map<usize, (TrackUid, MusicalTime, Sequence)>,
    track: TrackUid,
    arranged: Seq<ArrangedSequenceInfo>,
)
    requires
        forall|j: int, l: int|
            0 <= j < l < arranged.len() ==> (#[trigger] arranged[j]).sequence_uid != (
            #[trigger] arranged[l]).sequence_uid,
    ensures
        forall|j: int|
            0 <= j < arranged.len() ==> {
                &&& stored_on_track(m, track, arranged).contains_key((#[trigger] arranged[j]).sequence_uid.0)
                &&& stored_on_track(m, track, arranged)[arranged[j].sequence_uid.0] == (
                    track,
                    arranged[j].position,
                    Sequence::Pattern(arranged[j].pattern_uid),
                )
            },
        forall|k: usize|
            (forall|j: int| 0 <= j < arranged.len() ==> (#[trigger] arranged[j]).sequence_uid.0 != k) ==> {
                &&& #[trigger] stored_on_track(m, track, arranged).contains_key(k) == m.contains_key(k)
                &&& m.contains_key(k) ==> stored_on_track(m, track, arranged)[k] == m[k]
            },
    decreases arranged.len(),
{
    if arranged.len() > 0 {
        let rest = arranged.drop_last();
        assert forall|j: int, l: int| 0 <= j < l < rest.len() implies (#[trigger] rest[j]).sequence_uid != (
            #[trigger] rest[l]).sequence_uid by {
            assert(rest[j] == arranged[j] && rest[l] == arranged[l]);
        }
        lemma_stored_on_track(m, track, rest);
        let last = arranged.last();
        assert forall|j: int| 0 <= j < arranged.len() implies {
            &&& stored_on_track(m, track, arranged).contains_key((#[trigger] arranged[j]).sequence_uid.0)
            &&& stored_on_track(m, track, arranged)[arranged[j].sequence_uid.0] == (
                track,
                arranged[j].position,
                Sequence::Pattern(arranged[j].pattern_uid),
            )
        } by {
            if j < arranged.len() - 1 {
                assert(rest[j] == arranged[j]);
                assert(arranged[j].sequence_uid != arranged[arranged.len() - 1].sequence_uid);
            }
        }
        assert forall|k: usize|
            (forall|j: int| 0 <= j < arranged.len() ==> (#[trigger] arranged[j]).sequence_uid.0 != k) implies {
                &&& #[trigger] stored_on_track(m, track, arranged).contains_key(k) == m.contains_key(k)
                &&& m.contains_key(k) ==> stored_on_track(m, track, arranged)[k] == m[k]
            } by {
            assert forall|j: int| 0 <= j < rest.len() implies (#[trigger] rest[j]).sequence_uid.0 != k by {
                assert(rest[j] == arranged[j]);
            }
            assert(arranged[arranged.len() - 1].sequence_uid.0 != k);
            assert(stored_on_track(m, track, rest).contains_key(k) == m.contains_key(k));
        }
    }
}

/// The placements read back from a list of identifiers that all name
/// pattern sequences stored for those placements, on channel zero, are the
/// placements themselves.
proof fn lemma_arranged_infos_read_back(
    arranged: Seq<ArrangedSequenceInfo>,
    track: TrackUid,
    sequences: Map<usize, (TrackUid, MusicalTime, Sequence)>,
)
    requires
        forall|j: int|
            0 <= j < arranged.len() ==> {
                &&& sequences.contains_key((#[trigger] arranged[j]).sequence_uid.0)
                &&& sequences[arranged[j].sequence_uid.0] == (
                    track,
                    arranged[j].position,
                    Sequence::Pattern(arranged[j].pattern_uid),
                )
                &&& arranged[j].channel == MidiChannel(0)
            },
    ensures
        arranged_infos(uids_of(arranged), sequences) == arranged,
    decreases arranged.len(),
{
    if arranged.len() > 0 {
        let rest = arranged.drop_last();
        assert forall|j: int| 0 <= j < rest.len() implies {
            &&& sequences.contains_key((#[trigger] rest[j]).sequence_uid.0)
            &&& sequences[rest[j].sequence_uid.0] == (track, rest[j].position, Sequence::Pattern(rest[j].pattern_uid))
            &&& rest[j].channel == MidiChannel(0)
        } by {
            assert(rest[j] == arranged[j]);
        }
        lemma_arranged_infos_read_back(rest, track, sequences);
        let uids = uids_of(arranged);
        assert(uids.drop_last() =~= uids_of(rest));
        let last = arranged[arranged.len() - 1];
        assert(uids.last() == last.sequence_uid);
        assert(rest.push(last) =~= arranged);
    }
}

/// The state of a new repository.
pub open spec fn fresh_state() -> RepositoryState {
    (Map::empty(), Map::empty(), 1000, 1)
}

/// A repository built from arrangements that round-trip has a list for
/// exactly their tracks, each list the identifiers of its track's
/// placements, and every placement stored as a pattern sequence.
proof fn lemma_arrangements_restored(v: Seq<ArrangementInfo>)
    requires
        round_trips(v),
    ensures
        state_after_arrangements(fresh_state(), v).2 == 1000 + arranged_count(v),
        forall|k: usize|
            #[trigger] state_after_arrangements(fresh_state(), v).1.contains_key(k) <==> exists|i: int|
                0 <= i < v.len() && v[i].track_uid.0 == k,
        forall|i: int|
            0 <= i < v.len() ==> state_after_arrangements(fresh_state(), v).1[(#[trigger] v[i]).track_uid.0]
                == uids_of(v[i].arranged_sequences@),
        forall|i: int, j: int|
            0 <= i < v.len() && 0 <= j < v[i].arranged_sequences@.len() ==> {
                let a = #[trigger] v[i].arranged_sequences@[j];
                &&& state_after_arrangements(fresh_state(), v).0.contains_key(a.sequence_uid.0)
                &&& state_after_arrangements(fresh_state(), v).0[a.sequence_uid.0] == (
                    v[i].track_uid,
                    a.position,
                    Sequence::Pattern(a.pattern_uid),
                )
            },
    decreases v.len(),
{
    if v.len() > 0 {
        let n = v.len() - 1;
        let rest = v.drop_last();
        assert(arranged_count(rest) <= arranged_count(v));
        assert(round_trips(rest)) by {
            assert forall|i: int, k: int| 0 <= i < k < rest.len() implies (#[trigger] rest[i]).track_uid != (
                #[trigger] rest[k]).track_uid by {
                assert(rest[i] == v[i] && rest[k] == v[k]);
            }
            assert forall|i: int| 0 <= i < rest.len() implies (#[trigger] rest[i]).arranged_sequences@.len() > 0 by {
                assert(rest[i] == v[i]);
            }
            assert forall|i: int, j: int|
                0 <= i < rest.len() && 0 <= j < rest[i].arranged_sequences@.len() implies (
                #[trigger] rest[i].arranged_sequences@[j]).channel == MidiChannel(0) by {
                assert(rest[i] == v[i]);
            }
            assert forall|i: int, j: int, k: int, l: int|
                0 <= i < rest.len() && 0 <= j < rest[i].arranged_sequences@.len() && 0 <= k < rest.len() && 0
                    <= l < rest[k].arranged_sequences@.len() && (i, j) != (k, l) implies (
                #[trigger] rest[i].arranged_sequences@[j]).sequence_uid != (
                #[trigger] rest[k].arranged_sequences@[l]).sequence_uid by {
                assert(rest[i] == v[i] && rest[k] == v[k]);
            }
            assert forall|i: int, j: int|
                0 <= i < rest.len() && 0 <= j < rest[i].arranged_sequences@.len() implies (
                #[trigger] rest[i].arranged_sequences@[j]).sequence_uid.0 < usize::MAX by {
                assert(rest[i] == v[i]);
            }
        }
        lemma_arrangements_restored(rest);
        let before = state_after_arrangements(fresh_state(), rest);
        let last = v[n];
        assert(v.last() == last);
        let t = last.track_uid;
        let a = last.arranged_sequences@;
        assert(!before.1.contains_key(t.0)) by {
            if before.1.contains_key(t.0) {
                let i = choose|i: int| 0 <= i < rest.len() && rest[i].track_uid.0 == t.0;
                assert(rest[i] == v[i]);
                assert(v[i].track_uid != v[n].track_uid);
            }
        }
        lemma_track_added(before, t, a);
        assert forall|j: int, l: int| 0 <= j < l < a.len() implies (#[trigger] a[j]).sequence_uid != (
            #[trigger] a[l]).sequence_uid by {
            assert(v[n].arranged_sequences@[j] == a[j]);
            assert(v[n].arranged_sequences@[l] == a[l]);
        }
        lemma_stored_on_track(before.0, t, a);
        let st = state_after_arrangements(fresh_state(), v);
        assert(st == state_after_track(before, t, a));
        assert forall|k: usize| #[trigger] st.1.contains_key(k) <==> exists|i: int| 0 <= i < v.len() && v[i].track_uid.0 == k by {
            if st.1.contains_key(k) && k != t.0 {
                let i = choose|i: int| 0 <= i < rest.len() && rest[i].track_uid.0 == k;
                assert(rest[i] == v[i]);
            }
            if exists|i: int| 0 <= i < v.len() && v[i].track_uid.0 == k {
                let i = choose|i: int| 0 <= i < v.len() && v[i].track_uid.0 == k;
                if i < n {
                    assert(rest[i] == v[i]);
                    assert(before.1.contains_key(k));
                }
            }
        }
        assert forall|i: int| 0 <= i < v.len() implies st.1[(#[trigger] v[i]).track_uid.0] == uids_of(
            v[i].arranged_sequences@,
        ) by {
            if i < n {
                assert(rest[i] == v[i]);
                assert(v[i].track_uid != v[n].track_uid);
                assert(before.1[rest[i].track_uid.0] == uids_of(rest[i].arranged_sequences@));
            }
        }
        assert forall|i: int, j: int| 0 <= i < v.len() && 0 <= j < v[i].arranged_sequences@.len() implies {
            let e = #[trigger] v[i].arranged_sequences@[j];
            &&& st.0.contains_key(e.sequence_uid.0)
            &&& st.0[e.sequence_uid.0] == (v[i].track_uid, e.position, Sequence::Pattern(e.pattern_uid))
        } by {
            let e = v[i].arranged_sequences@[j];
            if i < n {
                assert(rest[i] == v[i]);
                assert(rest[i].arranged_sequences@[j] == e);
                assert forall|l: int| 0 <= l < a.len() implies (#[trigger] a[l]).sequence_uid.0 != e.sequence_uid.0 by {
                    assert(v[n].arranged_sequences@[l] == a[l]);
                    assert(v[i].arranged_sequences@[j].sequence_uid != v[n].arranged_sequences@[l].sequence_uid);
                }
                assert(before.0.contains_key(e.sequence_uid.0));
                assert(stored_on_track(before.0, t, a).contains_key(e.sequence_uid.0) == before.0.contains_key(
                    e.sequence_uid.0,
                ));
            } else {
                assert(a[j] == e);
            }
        }
    }
}

/// A repository built from arrangements that round-trip gives them back:
/// it has a list for exactly their tracks, and the placements read back for
/// each track are that track's placements, in order.
pub proof fn lemma_arrangements_round_trip(v: Seq<ArrangementInfo>, r: SequenceRepository)
    requires
        round_trips(v),
        r.state() == state_after_arrangements(fresh_state(), v),
    ensures
        forall|k: usize| #[trigger] r.tracks().contains_key(k) <==> exists|i: int| 0 <= i < v.len() && v[i].track_uid.0 == k,
        forall|i: int|
            0 <= i < v.len() ==> arranged_infos(r.tracks()[(#[trigger] v[i]).track_uid.0], r.sequences())
                == v[i].arranged_sequences@,
{
    lemma_arrangements_restored(v);
    let st = state_after_arrangements(fresh_state(), v);
    assert forall|k: usize| #[trigger] r.tracks().contains_key(k) <==> exists|i: int| 0 <= i < v.len() && v[i].track_uid.0 == k by {
        assert(st.1.contains_key(k) == r.tracks().contains_key(k));
    }
    assert forall|i: int| 0 <= i < v.len() implies arranged_infos(r.tracks()[(#[trigger] v[i]).track_uid.0], r.sequences())
        == v[i].arranged_sequences@ by {
        let a = v[i].arranged_sequences@;
        assert forall|j: int| 0 <= j < a.len() implies {
            &&& r.sequences().contains_key((#[trigger] a[j]).sequence_uid.0)
            &&& r.sequences()[a[j].sequence_uid.0] == (v[i].track_uid, a[j].position, Sequence::Pattern(a[j].pattern_uid))
            &&& a[j].channel == MidiChannel(0)
        } by {
            assert(v[i].arranged_sequences@[j] == a[j]);
        }
        lemma_arranged_infos_read_back(a, v[i].track_uid, r.sequences());
        assert(st.1[v[i].track_uid.0] == uids_of(a));
    }
}

} // verus!
