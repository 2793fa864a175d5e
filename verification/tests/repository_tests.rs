use ensnare::composition::Note;
use ensnare::control::{ControlIndex, ControlRouter};
use ensnare::piano_roll::PatternUid;
use ensnare::rng::Rng;
use ensnare::midi::MidiChannel;
use ensnare::sequence_repository::{
    ArrangedSequenceInfo, ArrangementInfo, Sequence, SequenceRepository, SequenceUid,
};
use ensnare::time::{MusicalTime, TimeRange};
use ensnare::track::TrackUid;
use ensnare::uid::{Uid, UidFactory};

#[test]
fn sequence_repository() {
    let track_1 = TrackUid(1);
    let track_2 = TrackUid(2);
    let mut sr = SequenceRepository::default();
    assert_eq!(
        sr.sequence_count(),
        0,
        "New SequenceRepository should be empty"
    );

    let pattern_sequence = Sequence::Pattern(PatternUid(1));
    let pattern_sequence_uid = sr
        .add(pattern_sequence, MusicalTime::duration_eighth(), track_1)
        .unwrap();
    assert_eq!(
        sr.sequence_count(),
        1,
        "Adding a sequence should increase count"
    );

    let note_sequence_1 = Sequence::Note(vec![
        Note {
            key: 1,
            range: TimeRange::new_with_start_and_duration(
                MusicalTime::start(),
                MusicalTime::duration_quarter(),
            ),
        },
        Note {
            key: 2,
            range: TimeRange::new_with_start_and_duration(
                MusicalTime::start() + MusicalTime::duration_half(),
                MusicalTime::duration_quarter(),
            ),
        },
    ]);
    let note_sequence_2 = Sequence::Note(vec![]);
    let note_sequence_uid_1 = sr
        .add(note_sequence_1, MusicalTime::start(), track_2)
        .unwrap();
    let note_sequence_uid_2 = sr
        .add(note_sequence_2, MusicalTime::start(), track_2)
        .unwrap();
    assert_ne!(
        note_sequence_uid_1, note_sequence_uid_2,
        "Factory should mint unique IDs"
    );
    assert_eq!(
        sr.sequence_count(),
        3,
        "Adding a sequence should increase count"
    );

    let track_1_sequences = sr.track_sequence_uids(track_1).unwrap();
    assert_eq!(
        track_1_sequences.len(),
        1,
        "Retrieval of one track should match count"
    );
    assert_eq!(
        track_1_sequences[0], pattern_sequence_uid,
        "Retrieval of track Uids should match expected"
    );
    let track_2_sequences = sr.track_sequence_uids(track_2).unwrap();
    assert_eq!(
        track_2_sequences.len(),
        2,
        "Retrieval of one track should match count"
    );
    assert_eq!(
        track_2_sequences[0], note_sequence_uid_1,
        "Retrieval of track Uids should match expected numbers and order"
    );
    assert_eq!(
        track_2_sequences[1], note_sequence_uid_2,
        "Retrieval of track Uids should match expected numbers and order"
    );

    assert_eq!(sr.sequence_count(), 3);
    sr.remove(pattern_sequence_uid);
    assert_eq!(sr.sequence_count(), 2);
    sr.remove(note_sequence_uid_1);
    assert_eq!(sr.sequence_count(), 1);
    sr.remove(note_sequence_uid_2);
    assert_eq!(sr.sequence_count(), 0);
}

#[test]
fn change_tracking() {
    let mut repo = SequenceRepository::default();
    let mut my_repo_tracker = 0;

    assert!(repo.has_changed(&mut my_repo_tracker));
    assert!(!repo.has_changed(&mut my_repo_tracker));

    assert!(repo
        .add(
            Sequence::Pattern(PatternUid(123)),
            MusicalTime::default(),
            TrackUid(456)
        )
        .is_ok());
    assert!(repo.has_changed(&mut my_repo_tracker));
}

#[test]
fn removal_is_a_change_and_forgets_the_sequence() {
    let mut repo = SequenceRepository::default();
    let uid = repo
        .add(Sequence::Pattern(PatternUid(7)), MusicalTime::new_with_beats(3), TrackUid(9))
        .unwrap();
    let mut tracker = 0;
    let _ = repo.has_changed(&mut tracker);
    let stored = repo.sequence(uid).unwrap();
    assert_eq!(stored.0, TrackUid(9));
    assert_eq!(stored.1, MusicalTime::new_with_beats(3));
    assert_eq!(stored.2, Sequence::Pattern(PatternUid(7)));
    repo.remove(uid);
    assert!(repo.has_changed(&mut tracker));
    assert!(repo.sequence(uid).is_none());
    assert!(repo.track_sequence_uids(TrackUid(9)).unwrap().is_empty());
}

#[test]
fn crud_works() {
    let mut cr = ControlRouter::default();
    assert!(
        cr.control_links(Uid(1)).is_none() && cr.control_links(Uid(2)).is_none(),
        "new ControlRouter should be empty"
    );

    let source_1_uid = Uid(1);
    let source_2_uid = Uid(2);
    let target_1_uid = Uid(3);
    let target_2_uid = Uid(4);

    cr.link_control(source_1_uid, target_1_uid, ControlIndex(0));
    assert!(
        cr.control_links(source_1_uid).is_some() && cr.control_links(source_2_uid).is_none(),
        "there should be one vec after inserting one link"
    );
    cr.link_control(source_1_uid, target_2_uid, ControlIndex(1));
    assert!(
        cr.control_links(source_2_uid).is_none(),
        "there should still be one vec after inserting a second link for same source_uid"
    );
    cr.link_control(source_2_uid, target_1_uid, ControlIndex(0));
    assert!(
        cr.control_links(source_2_uid).is_some(),
        "there should be two vecs after inserting one link for a second Uid"
    );

    assert_eq!(
        cr.control_links(source_1_uid).unwrap().len(),
        2,
        "the first source's vec should have two entries"
    );
    assert_eq!(
        cr.control_links(source_2_uid).unwrap().len(),
        1,
        "the second source's vec should have one entry"
    );

    // Routing sends the value to each link of the source, in order.
    let routed = cr.control_links(source_1_uid).unwrap().clone();
    assert_eq!(routed.len(), 2);
    assert_eq!(routed[0], (target_1_uid, ControlIndex(0)));
    assert_eq!(routed[1], (target_2_uid, ControlIndex(1)));

    // Try removing links. Start with nonexistent link
    cr.unlink_control(source_1_uid, target_1_uid, ControlIndex(99));
    assert_eq!(
        cr.control_links(source_1_uid).unwrap().len(),
        2,
        "route results shouldn't change when removing nonexistent link"
    );

    cr.unlink_control(source_1_uid, target_1_uid, ControlIndex(0));
    let routed = cr.control_links(source_1_uid).unwrap();
    assert_eq!(
        routed.len(),
        1,
        "removing a link should continue routing to remaining ones"
    );
    assert_eq!(routed[0], (target_2_uid, ControlIndex(1)));
}

#[test]
fn unlinking_after_linking_removes_the_link() {
    let mut cr = ControlRouter::default();
    cr.link_control(Uid(5), Uid(6), ControlIndex(2));
    cr.link_control(Uid(5), Uid(7), ControlIndex(3));
    cr.link_control(Uid(5), Uid(6), ControlIndex(2));
    cr.unlink_control(Uid(5), Uid(6), ControlIndex(2));
    assert_eq!(
        cr.control_links(Uid(5)).unwrap().as_slice(),
        &[(Uid(7), ControlIndex(3))]
    );
}

#[test]
fn mainline() {
    let mut r = Rng::default();

    assert_ne!(r.rand_u64(), r.rand_u64());
}

#[test]
fn seeded_rng_is_repeatable_and_ranged() {
    let mut a = Rng::new_with_seed(42);
    let mut b = Rng::new_with_seed(42);
    assert_eq!(a.rand_u64(), b.rand_u64());
    assert_eq!(a.rand_i64(), b.rand_i64());
    for _ in 0..100 {
        let x = a.rand_range(10..20);
        assert!((10..20).contains(&x));
    }
}

#[test]
fn uid_factory_mints_in_order() {
    let mut f: UidFactory<Uid> = UidFactory::default();
    assert_eq!(f.mint_next(), Uid(1024));
    assert_eq!(f.mint_next(), Uid(1025));
    f.notify_externally_minted_uid(Uid(2000));
    assert_eq!(f.mint_next(), Uid(2001));
    f.notify_externally_minted_uid(Uid(5));
    assert_eq!(f.mint_next(), Uid(2002));
    let mut g: UidFactory<PatternUid> = UidFactory::new(usize::MAX);
    assert_eq!(g.mint_next(), PatternUid(usize::MAX));
    assert_eq!(g.mint_next(), PatternUid(0));
}

#[test]
fn arrangements_round_trip_through_the_repository() {
    let infos = vec![
        ArrangementInfo {
            track_uid: TrackUid(1),
            arranged_sequences: vec![
                ArrangedSequenceInfo {
                    sequence_uid: SequenceUid(10),
                    channel: MidiChannel(0),
                    position: MusicalTime::new_with_beats(4),
                    pattern_uid: PatternUid(2),
                },
                ArrangedSequenceInfo {
                    sequence_uid: SequenceUid(11),
                    channel: MidiChannel(0),
                    position: MusicalTime::new_with_beats(8),
                    pattern_uid: PatternUid(3),
                },
            ],
        },
        ArrangementInfo {
            track_uid: TrackUid(2),
            arranged_sequences: vec![ArrangedSequenceInfo {
                sequence_uid: SequenceUid(12),
                channel: MidiChannel(0),
                position: MusicalTime::start(),
                pattern_uid: PatternUid(2),
            }],
        },
    ];
    let mut repo = SequenceRepository::from_arrangements(&infos);
    assert_eq!(repo.sequence_count(), 3);
    // New sequences get identifiers after the ones that were restored.
    let uid = repo
        .add(Sequence::Note(vec![]), MusicalTime::start(), TrackUid(2))
        .unwrap();
    assert_eq!(uid, SequenceUid(13));
    let mut back = repo.to_arrangements();
    back.sort_by_key(|a| a.track_uid.0);
    assert_eq!(back, infos, "note sequences are not arrangements of patterns");
}

#[test]
fn add_never_reuses_a_stored_uid() {
    let track = TrackUid(1);
    let mut sr = SequenceRepository::default();
    let first = sr
        .add(Sequence::Pattern(PatternUid(1)), MusicalTime::start(), track)
        .unwrap();
    assert_eq!(first, SequenceUid(1));
    let external = sr
        .add_with_uid(SequenceUid(5), Sequence::Pattern(PatternUid(2)), MusicalTime::start(), track)
        .unwrap();
    assert_eq!(external, SequenceUid(5));
    let next = sr
        .add(Sequence::Pattern(PatternUid(3)), MusicalTime::start(), track)
        .unwrap();
    assert_eq!(next, SequenceUid(6));
    sr.remove(SequenceUid(6));
    let after_remove = sr
        .add(Sequence::Pattern(PatternUid(4)), MusicalTime::start(), track)
        .unwrap();
    assert_eq!(after_remove, SequenceUid(7));
    assert!(sr.sequence(SequenceUid(1)).is_some());
    assert!(sr.sequence(SequenceUid(5)).is_some());
    assert_eq!(sr.sequence_count(), 3);
}
