//! Remembers which notes are sounding, so that they can all be turned off.
use crate::midi::{u7_of, MidiChannel, MidiMessage, U7};
use bit_vec::BitVec;
use crate::traits::HandlesMidi;
use vstd::prelude::*;

verus! {

#[verifier::external_type_specification]
#[verifier::external_body]
#[verifier::reject_recursive_types(B)]
pub struct ExBitVec<B>(BitVec<B>);

/// The bits a bit vector holds, in order.
pub uninterp spec fn bitvec_bits(b: BitVec) -> Seq<bool>;

/// `BitVec::from_elem`: `len` bits, each set to `bit`.
#[verifier::external_body]
fn bits_from_elem(len: usize, bit: bool) -> (r: BitVec)
    ensures
        bitvec_bits(r) == Seq::new(len as nat, |i: int| bit),
{
    BitVec::from_elem(len, bit)
}

/// `BitVec::set`: bit `i` becomes `x`. The index must be in bounds.
#[verifier::external_body]
fn bits_set(b: &mut BitVec, i: usize, x: bool)
    requires
        i < bitvec_bits(*old(b)).len(),
    ensures
        bitvec_bits(*final(b)) == bitvec_bits(*old(b)).update(i as int, x),
{
    b.set(i, x)
}

/// `BitVec::clear`: every bit becomes false; the length stays.
#[verifier::external_body]
#[allow(deprecated)]
fn bits_clear(b: &mut BitVec)
    ensures
        bitvec_bits(*final(b)) == Seq::new(bitvec_bits(*old(b)).len(), |i: int| false),
{
    b.clear()
}

/// `BitVec::iter`, collected: the bits in order.
#[verifier::external_body]
fn bits_iter(b: &BitVec) -> (r: Vec<bool>)
    ensures
        r@ == bitvec_bits(*b),
{
    b.iter().collect()
}

/// The note-offs for the set bits, lowest note first, on channel zero at
/// velocity zero.
pub open spec fn note_offs(active: Seq<bool>) -> Seq<(MidiChannel, MidiMessage)>
    decreases active.len(),
{
    if active.len() == 0 {
        Seq::empty()
    } else {
        let k = (active.len() - 1) as nat;
        note_offs(active.drop_last()) + if active.last() {
            seq![(MidiChannel(0), MidiMessage::NoteOff { key: u7_of(k), vel: u7_of(0) })]
        } else {
            Seq::empty()
        }
    }
}

/// With no note sounding there is nothing to turn off: a second call of
/// [MidiNoteMinder::work] right after a first sends nothing.
pub proof fn lemma_silent_sends_nothing(n: nat)
    ensures
        note_offs(Seq::new(n, |i: int| false)) == Seq::<(MidiChannel, MidiMessage)>::empty(),
    decreases n,
{
    if n > 0 {
        lemma_silent_sends_nothing((n - 1) as nat);
        assert(Seq::new(n, |i: int| false).drop_last() =~= Seq::new((n - 1) as nat, |i: int| false));
    }
}

/// When exactly one note sounds, [MidiNoteMinder::work] sends exactly one
/// note-off, for that note.
pub proof fn lemma_one_note_one_note_off(n: nat, key: nat)
    requires
        key < n,
    ensures
        note_offs(Seq::new(n, |i: int| i == key)) == seq![
            (MidiChannel(0), MidiMessage::NoteOff { key: u7_of(key), vel: u7_of(0) }),
        ],
    decreases n,
{
    let s = Seq::new(n, |i: int| i == key);
    if n - 1 == key {
        assert(s.drop_last() =~= Seq::new((n - 1) as nat, |i: int| false));
        lemma_silent_sends_nothing((n - 1) as nat);
    } else {
        assert(s.drop_last() =~= Seq::new((n - 1) as nat, |i: int| i == key));
        lemma_one_note_one_note_off((n - 1) as nat, key);
    }
}

/// [MidiNoteMinder] watches a MIDI message stream and remembers which notes are
/// currently active (we've gotten a note-on without a note-off). Then, when
/// asked, it produces a list of MIDI message that turn off all active notes.
///
/// [MidiNoteMinder] doesn't know about [MidiChannel]s. It's up to the caller to
/// track channels, or else assume that if we got any message, it's for us, and
/// that the same is true for recipients of whatever we send.
#[derive(Debug)]
pub struct MidiNoteMinder {
    active_notes: BitVec,
}

impl Default for MidiNoteMinder {
    fn default() -> (r: Self)
        ensures
            r.wf(),
            r.active() == Seq::new(128, |i: int| false),
    {
        MidiNoteMinder { active_notes: bits_from_elem(128, false) }
    }
}

impl MidiNoteMinder {
    /// For each key, whether its note is sounding.
    pub closed spec fn active(&self) -> Seq<bool> {
        bitvec_bits(self.active_notes)
    }

    /// There is one flag for each of the 128 keys.
    pub open spec fn wf(&self) -> bool {
        self.active().len() == 128
    }

    /// A note-off for each sounding note, lowest key first; afterwards no
    /// note is sounding.
    pub fn work(&mut self) -> (r: Vec<(MidiChannel, MidiMessage)>)
        requires
            old(self).wf(),
        ensures
            r@ == note_offs(old(self).active()),
            final(self).wf(),
            final(self).active() == Seq::new(128, |i: int| false),
    {
        let bits = bits_iter(&self.active_notes);
        let mut r: Vec<(MidiChannel, MidiMessage)> = Vec::new();
        let n = bits.len();
        let mut i: usize = 0;
        let off_vel = U7::from_int_lossy(0);
        proof {
            crate::midi::lemma_u7_of(0);
            crate::midi::lemma_u7_injective(off_vel, u7_of(0));
        }
        while i < n
            invariant
                n == bits@.len(),
                n == 128,
                i <= n,
                off_vel == u7_of(0),
                r@ == note_offs(bits@.take(i as int)),
            decreases n - i,
        {
            proof {
                let t = bits@.take(i + 1);
                assert(t.drop_last() =~= bits@.take(i as int));
                assert(t.last() == bits@[i as int]);
            }
            if bits[i] {
                let key = U7::from_int_lossy(i as u8);
                proof {
                    crate::midi::lemma_u7_of(i as nat);
                    crate::midi::lemma_u7_injective(key, u7_of(i as nat));
                }
                r.push((MidiChannel(0), MidiMessage::NoteOff { key, vel: off_vel }));
            }
            proof {
                let t = bits@.take(i + 1);
                assert(r@ =~= note_offs(t));
            }
            i = i + 1;
        }
        assert(bits@.take(n as int) =~= bits@);
        bits_clear(&mut self.active_notes);
        r
    }
}

impl HandlesMidi for MidiNoteMinder {
    open spec fn takes_message(&self, message: MidiMessage) -> bool {
        self.wf()
    }

    /// A note-on marks its key as sounding, unless its velocity is zero; a
    /// note-off marks it silent. Other messages change nothing.
    fn handle_midi_message(&mut self, channel: MidiChannel, message: MidiMessage)
        ensures
            final(self).wf(),
            final(self).active() == match message {
                MidiMessage::NoteOff { key, vel } => old(self).active().update(key.value() as int, false),
                MidiMessage::NoteOn { key, vel } => old(self).active().update(key.value() as int, vel.value() != 0),
                _ => old(self).active(),
            },
    {
        match message {
            MidiMessage::NoteOff { key, vel } => {
                bits_set(&mut self.active_notes, key.as_int() as usize, false);
            },
            MidiMessage::NoteOn { key, vel } => {
                let zero = U7::from_int_lossy(0);
                bits_set(&mut self.active_notes, key.as_int() as usize, vel.as_int() != zero.as_int());
            },
            _ => {},
        }
    }
}

} // verus!
