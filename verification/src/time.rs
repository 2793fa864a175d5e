//! Musical time: beats, parts, units, time signatures and sample rates.
use vstd::prelude::*;

verus! {

/// The number of units in one beat (sixteen parts of 4096 units each).
pub open spec fn units_per_beat() -> nat {
    65536
}

/// The number of units in one part.
pub open spec fn units_per_part() -> nat {
    4096
}

/// The number of units in one bar of a time signature with `top` beats per bar.
pub open spec fn units_per_bar(top: nat) -> nat {
    top * units_per_beat()
}

/// The repr value of each [BeatValue]: the note value multiplied by 1024.
pub open spec fn is_beat_value_repr(n: int) -> bool {
    ||| n == 128
    ||| n == 256
    ||| n == 512
    ||| n == 1024
    ||| n == 2048
    ||| n == 4096
    ||| n == 8192
    ||| n == 16384
    ||| n == 32768
    ||| n == 65536
    ||| n == 131072
    ||| n == 262144
    ||| n == 524288
}

/// A time-signature bottom is valid when `bottom * 1024` is the repr of some
/// [BeatValue], which for whole numbers means a power of two from 1 to 512.
pub open spec fn is_valid_bottom(bottom: int) -> bool {
    is_beat_value_repr(bottom * 1024)
}

/// [BeatValue] enumerates numerical divisors used in most music.
#[derive(Clone, Copy, Debug, PartialEq, Eq, Structural)]
pub enum BeatValue {
    /// large/maxima
    Octuple,
    /// long
    Quadruple,
    /// breve
    Double,
    /// semibreve
    Whole,
    /// minim
    Half,
    /// crotchet
    Quarter,
    /// quaver
    Eighth,
    /// semiquaver
    Sixteenth,
    /// demisemiquaver
    ThirtySecond,
    /// hemidemisemiquaver
    SixtyFourth,
    /// semihemidemisemiquaver / quasihemidemisemiquaver
    OneHundredTwentyEighth,
    /// demisemihemidemisemiquaver
    TwoHundredFiftySixth,
    /// winner winner chicken dinner
    FiveHundredTwelfth,
}

impl BeatValue {
    /// The numeric representation of the beat value (the divisor times 1024).
    pub open spec fn spec_repr(self) -> nat {
        match self {
            BeatValue::Octuple => 128,
            BeatValue::Quadruple => 256,
            BeatValue::Double => 512,
            BeatValue::Whole => 1024,
            BeatValue::Half => 2048,
            BeatValue::Quarter => 4096,
            BeatValue::Eighth => 8192,
            BeatValue::Sixteenth => 16384,
            BeatValue::ThirtySecond => 32768,
            BeatValue::SixtyFourth => 65536,
            BeatValue::OneHundredTwentyEighth => 131072,
            BeatValue::TwoHundredFiftySixth => 262144,
            BeatValue::FiveHundredTwelfth => 524288,
        }
    }

    /// Returns the numeric representation of this beat value.
    pub fn repr(&self) -> (r: usize)
        ensures
            r == self.spec_repr(),
    {
        match self {
            BeatValue::Octuple => 128,
            BeatValue::Quadruple => 256,
            BeatValue::Double => 512,
            BeatValue::Whole => 1024,
            BeatValue::Half => 2048,
            BeatValue::Quarter => 4096,
            BeatValue::Eighth => 8192,
            BeatValue::Sixteenth => 16384,
            BeatValue::ThirtySecond => 32768,
            BeatValue::SixtyFourth => 65536,
            BeatValue::OneHundredTwentyEighth => 131072,
            BeatValue::TwoHundredFiftySixth => 262144,
            BeatValue::FiveHundredTwelfth => 524288,
        }
    }

    /// Returns the [BeatValue] whose representation is `value`, if any.
    pub fn from_repr(value: usize) -> (r: Option<BeatValue>)
        ensures
            r is Some <==> is_beat_value_repr(value as int),
            r matches Some(b) ==> b.spec_repr() == value,
    {
        if value == 128 {
            Some(BeatValue::Octuple)
        } else if value == 256 {
            Some(BeatValue::Quadruple)
        } else if value == 512 {
            Some(BeatValue::Double)
        } else if value == 1024 {
            Some(BeatValue::Whole)
        } else if value == 2048 {
            Some(BeatValue::Half)
        } else if value == 4096 {
            Some(BeatValue::Quarter)
        } else if value == 8192 {
            Some(BeatValue::Eighth)
        } else if value == 16384 {
            Some(BeatValue::Sixteenth)
        } else if value == 32768 {
            Some(BeatValue::ThirtySecond)
        } else if value == 65536 {
            Some(BeatValue::SixtyFourth)
        } else if value == 131072 {
            Some(BeatValue::OneHundredTwentyEighth)
        } else if value == 262144 {
            Some(BeatValue::TwoHundredFiftySixth)
        } else if value == 524288 {
            Some(BeatValue::FiveHundredTwelfth)
        } else {
            None
        }
    }
}

impl Default for BeatValue {
    fn default() -> (r: Self)
        ensures
            r == BeatValue::Quarter,
    {
        BeatValue::Quarter
    }
}

/// Why a [TimeSignature] could not be made.
#[derive(Clone, Copy, Debug, PartialEq, Eq, Structural)]
pub enum TimeSignatureError {
    /// The top number was zero.
    TopIsZero,
    /// The bottom number does not name a [BeatValue].
    BottomOutOfRange,
}

/// [TimeSignature] represents a music time signature.
///
/// The top number of a time signature tells how many beats are in a measure.
/// The bottom number tells the value of a beat. For example, if the bottom
/// number is 4, then a beat is a quarter-note. And if the top number is 4, then
/// you should expect to see four beats in a measure, or four quarter-notes in a
/// measure.
#[derive(Clone, Copy, Debug, PartialEq, Eq, Structural, Hash)]
pub struct TimeSignature {
    /// The number of beats in a measure.
    pub top: usize,
    /// The value of a beat. Expressed as a reciprocal; for example, if it's 4,
    /// then the beat value is 1/4 or a quarter note.
    pub bottom: usize,
}

impl Default for TimeSignature {
    fn default() -> (r: Self)
        ensures
            r.top == 4,
            r.bottom == 4,
    {
        Self { top: 4, bottom: 4 }
    }
}

impl TimeSignature {
    /// Whether this time signature could have been made by [TimeSignature::new_with].
    pub open spec fn is_valid(self) -> bool {
        self.top > 0 && is_valid_bottom(self.bottom as int)
    }

    /// C time = common time = 4/4
    pub fn common_time() -> (r: Self)
        ensures
            r.top == 4,
            r.bottom == 4,
    {
        TimeSignature { top: 4, bottom: 4 }
    }

    /// Cut common time = alla breve = 2/2
    pub fn cut_time() -> (r: Self)
        ensures
            r.top == 2,
            r.bottom == 2,
    {
        TimeSignature { top: 2, bottom: 2 }
    }

    /// Makes a time signature, rejecting a zero top and a bottom that isn't a
    /// power of two between 1 and 512.
    pub fn new_with(top: usize, bottom: usize) -> (r: Result<Self, TimeSignatureError>)
        ensures
            top == 0 ==> r == Err::<Self, TimeSignatureError>(TimeSignatureError::TopIsZero),
            top != 0 && !is_valid_bottom(bottom as int) ==> r == Err::<Self, TimeSignatureError>(
                TimeSignatureError::BottomOutOfRange,
            ),
            top != 0 && is_valid_bottom(bottom as int) ==> r == Ok::<Self, TimeSignatureError>(
                TimeSignature { top, bottom },
            ),
            r is Ok <==> (TimeSignature { top, bottom }).is_valid(),
    {
        if top == 0 {
            Err(TimeSignatureError::TopIsZero)
        } else if bottom <= 512 && BeatValue::from_repr(bottom * 1024).is_some() {
            Ok(Self { top, bottom })
        } else {
            Err(TimeSignatureError::BottomOutOfRange)
        }
    }

    /// Returns the duration, in [MusicalTime], of a single bar of music having
    /// this time signature.
    pub fn duration(&self) -> (r: MusicalTime)
        requires
            self.top * units_per_beat() <= usize::MAX,
        ensures
            r@ == units_per_bar(self.top as nat),
    {
        MusicalTime::new_with_beats(self.top)
    }

    /// Returns the [BeatValue] named by the bottom number.
    pub fn beat_value(&self) -> (r: BeatValue)
        requires
            is_valid_bottom(self.bottom as int),
        ensures
            r.spec_repr() == self.bottom * 1024,
    {
        match BeatValue::from_repr(self.bottom * 1024) {
            Some(b) => b,
            None => BeatValue::Quarter,
        }
    }

    /// Sets the top value.
    pub fn set_top(&mut self, top: usize)
        ensures
            final(self).top == top,
            final(self).bottom == old(self).bottom,
    {
        self.top = top;
    }

    /// Sets the bottom value. Does not check for validity.
    pub fn set_bottom(&mut self, bottom: usize)
        ensures
            final(self).bottom == bottom,
            final(self).top == old(self).top,
    {
        self.bottom = bottom;
    }

    /// The top value.
    pub fn top(&self) -> (r: usize)
        ensures
            r == self.top,
    {
        self.top
    }

    /// The bottom value.
    pub fn bottom(&self) -> (r: usize)
        ensures
            r == self.bottom,
    {
        self.bottom
    }
}

/// [MusicalTime] is the universal unit of time. It is in terms of musical
/// beats. A "part" is a sixteenth of a beat, and a "unit" is 1/4096 of a part.
/// Thus, beats are divided into 65,536 units.
#[derive(Clone, Copy, Debug, PartialEq, Eq, Structural, PartialOrd, Ord, Hash, Default)]
pub struct MusicalTime {
    units: usize,
}

impl View for MusicalTime {
    type V = nat;

    /// The time as a count of units.
    closed spec fn view(&self) -> nat {
        self.units as nat
    }
}

/// The [MusicalTime] that is `units` units long.
pub closed spec fn time_of_units(units: nat) -> MusicalTime {
    MusicalTime { units: units as usize }
}

/// A [MusicalTime] is determined by its count of units.
pub broadcast proof fn lemma_time_view_injective(a: MusicalTime, b: MusicalTime)
    ensures
        #![trigger a@, b@]
        a@ == b@ ==> a == b,
{
}

/// A [MusicalTime] never holds more units than fit in a `usize`.
pub broadcast proof fn lemma_time_view_bounded(a: MusicalTime)
    ensures
        #[trigger] a@ <= usize::MAX,
{
}

/// [time_of_units] builds the time with the given unit count.
pub broadcast proof fn lemma_time_of_units(units: nat)
    requires
        units <= usize::MAX,
    ensures
        #[trigger] time_of_units(units)@ == units,
{
}

pub broadcast group group_time_facts {
    lemma_time_view_injective,
    lemma_time_view_bounded,
    lemma_time_of_units,
}

/// The units of `bars` bars, `beats` beats, `parts` parts and `units` units.
pub open spec fn composed_units(top: nat, bars: nat, beats: nat, parts: nat, units: nat) -> nat {
    bars * units_per_bar(top) + beats * units_per_beat() + parts * units_per_part() + units
}

impl MusicalTime {
    /// A part is a sixteenth of a beat.
    pub const PARTS_IN_BEAT: usize = 16;
    /// A unit is 1/4096 of a part.
    pub const UNITS_IN_PART: usize = 4096;
    /// A beat holds 65536 units.
    pub const UNITS_IN_BEAT: usize = 65536;

    /// A breve is also called a "double whole note"; it lasts two beats.
    pub fn duration_breve() -> (r: Self)
        ensures
            r@ == 2 * units_per_beat(),
    {
        Self::new_with_beats(2)
    }

    /// A whole note lasts one beat.
    pub fn duration_whole() -> (r: Self)
        ensures
            r@ == units_per_beat(),
    {
        Self::new_with_beats(1)
    }

    /// A half note lasts eight parts.
    pub fn duration_half() -> (r: Self)
        ensures
            r@ == 8 * units_per_part(),
    {
        Self::new_with_parts(8)
    }

    /// A quarter note lasts four parts.
    pub fn duration_quarter() -> (r: Self)
        ensures
            r@ == 4 * units_per_part(),
    {
        Self::new_with_parts(4)
    }

    /// An eighth note lasts two parts.
    pub fn duration_eighth() -> (r: Self)
        ensures
            r@ == 2 * units_per_part(),
    {
        Self::new_with_parts(2)
    }

    /// A sixteenth note lasts one part.
    pub fn duration_sixteenth() -> (r: Self)
        ensures
            r@ == units_per_part(),
    {
        Self::new_with_parts(1)
    }

    /// The empty duration.
    pub fn duration_zero() -> (r: Self)
        ensures
            r@ == 0,
    {
        Self::start()
    }

    /// The beginning of time.
    pub fn time_zero() -> (r: Self)
        ensures
            r@ == 0,
    {
        Self::new_with_units(0)
    }

    /// The moment the first beat ends.
    pub fn time_end_of_first_beat() -> (r: Self)
        ensures
            r@ == units_per_beat(),
    {
        Self::new_with_beats(1)
    }

    /// The latest representable time.
    pub fn time_max() -> (r: Self)
        ensures
            r@ == usize::MAX,
    {
        Self::new_with_units(usize::MAX)
    }

    /// The beginning of time.
    pub fn start() -> (r: Self)
        ensures
            r@ == 0,
    {
        MusicalTime { units: 0 }
    }

    /// Builds a time out of bars, beats, parts and units.
    pub fn new(
        time_signature: &TimeSignature,
        bars: usize,
        beats: usize,
        parts: usize,
        units: usize,
    ) -> (r: Self)
        requires
            composed_units(time_signature.top as nat, bars as nat, beats as nat, parts as nat, units as nat)
                <= usize::MAX,
        ensures
            r@ == composed_units(
                time_signature.top as nat,
                bars as nat,
                beats as nat,
                parts as nat,
                units as nat,
            ),
    {
        proof {
            lemma_composed_parts_fit(
                time_signature.top as nat,
                bars as nat,
                beats as nat,
                parts as nat,
                units as nat,
            );
        }
        Self {
            units: Self::bars_to_units(time_signature, bars) + Self::beats_to_units(beats)
                + Self::parts_to_units(parts) + units,
        }
    }

    /// The entire number expressed in bars.
    pub fn total_bars(&self, time_signature: &TimeSignature) -> (r: usize)
        requires
            time_signature.top > 0,
        ensures
            r == self@ / units_per_beat() / (time_signature.top as nat),
    {
        self.bars(time_signature)
    }

    /// The number of whole bars.
    pub fn bars(&self, time_signature: &TimeSignature) -> (r: usize)
        requires
            time_signature.top > 0,
        ensures
            r == self@ / units_per_beat() / (time_signature.top as nat),
    {
        self.total_beats() / time_signature.top
    }

    /// The entire number expressed in beats.
    pub fn total_beats(&self) -> (r: usize)
        ensures
            r == self@ / units_per_beat(),
    {
        self.units / Self::UNITS_IN_BEAT
    }

    /// The beat within the current bar.
    pub fn beats(&self, time_signature: &TimeSignature) -> (r: usize)
        requires
            time_signature.top > 0,
        ensures
            r == (self@ / units_per_beat()) % (time_signature.top as nat),
    {
        self.total_beats() % time_signature.top
    }

    /// The entire number expressed in parts.
    pub fn total_parts(&self) -> (r: usize)
        ensures
            r == self@ / units_per_part(),
    {
        self.units / Self::UNITS_IN_PART
    }

    /// The part within the current beat.
    pub fn parts(&self) -> (r: usize)
        ensures
            r == (self@ / units_per_part()) % 16,
    {
        self.total_parts() % Self::PARTS_IN_BEAT
    }

    /// The entire number expressed in units.
    pub fn total_units(&self) -> (r: usize)
        ensures
            r == self@,
    {
        self.units
    }

    /// The unit within the current part.
    pub fn units(&self) -> (r: usize)
        ensures
            r == self@ % units_per_part(),
    {
        self.units % Self::UNITS_IN_PART
    }

    /// Returns to time zero.
    pub fn reset(&mut self)
        ensures
            final(self)@ == 0,
    {
        self.units = 0;
    }

    /// The number of units in `bars` bars of the given time signature.
    pub fn bars_to_units(time_signature: &TimeSignature, bars: usize) -> (r: usize)
        requires
            bars * units_per_bar(time_signature.top as nat) <= usize::MAX,
        ensures
            r == bars * units_per_bar(time_signature.top as nat),
    {
        proof {
            lemma_bar_units_fit(time_signature.top as nat, bars as nat);
        }
        Self::beats_to_units(time_signature.top * bars)
    }

    /// The number of units in `beats` beats.
    pub fn beats_to_units(beats: usize) -> (r: usize)
        requires
            beats * units_per_beat() <= usize::MAX,
        ensures
            r == beats * units_per_beat(),
    {
        beats * Self::UNITS_IN_BEAT
    }

    /// The number of units in `parts` parts.
    pub fn parts_to_units(parts: usize) -> (r: usize)
        requires
            parts * units_per_part() <= usize::MAX,
        ensures
            r == parts * units_per_part(),
    {
        parts * Self::UNITS_IN_PART
    }

    /// The time `bars` bars after time zero.
    pub fn new_with_bars(time_signature: &TimeSignature, bars: usize) -> (r: Self)
        requires
            bars * units_per_bar(time_signature.top as nat) <= usize::MAX,
        ensures
            r@ == bars * units_per_bar(time_signature.top as nat),
    {
        proof {
            lemma_bar_units_fit(time_signature.top as nat, bars as nat);
        }
        Self::new_with_beats(time_signature.top * bars)
    }

    /// The time `beats` beats after time zero.
    pub fn new_with_beats(beats: usize) -> (r: Self)
        requires
            beats * units_per_beat() <= usize::MAX,
        ensures
            r@ == beats * units_per_beat(),
    {
        Self::new_with_units(beats * Self::UNITS_IN_BEAT)
    }

    /// The time `parts` parts after time zero.
    pub fn new_with_parts(parts: usize) -> (r: Self)
        requires
            parts * units_per_part() <= usize::MAX,
        ensures
            r@ == parts * units_per_part(),
    {
        Self::new_with_units(parts * Self::UNITS_IN_PART)
    }

    /// The time `units` units after time zero.
    pub fn new_with_units(units: usize) -> (r: Self)
        ensures
            r@ == units,
    {
        Self { units }
    }

    /// Returns a range that contains nothing.
    pub fn empty_range() -> (r: core::ops::Range<Self>)
        ensures
            r.start@ == usize::MAX,
            r.end@ == usize::MAX,
    {
        Self::time_max()..Self::time_max()
    }

    /// Chops the time down to the start of its part.
    pub fn quantized(&self) -> (r: MusicalTime)
        ensures
            r@ == (self@ / units_per_part()) * units_per_part(),
    {
        proof {
            lemma_quantize_fits(self.units as nat);
        }
        MusicalTime::new_with_parts(self.total_parts())
    }

    /// The sum of two times, or `None` where it does not fit.
    pub fn checked_add(&self, rhs: &MusicalTime) -> (r: Option<MusicalTime>)
        ensures
            self@ + rhs@ <= usize::MAX ==> r == Some(time_of_units(self@ + rhs@)),
            self@ + rhs@ > usize::MAX ==> r is None,
    {
        if self.units <= usize::MAX - rhs.units {
            Some(MusicalTime { units: self.units + rhs.units })
        } else {
            None
        }
    }

    /// Whether this time is earlier than `other`.
    pub fn is_before(&self, other: &MusicalTime) -> (r: bool)
        ensures
            r == (self@ < other@),
    {
        self.units < other.units
    }
}

proof fn lemma_bar_units_fit(top: nat, bars: nat)
    ensures
        bars * units_per_bar(top) == (top * bars) * units_per_beat(),
{
    assert(bars * (top * 65536) == (top * bars) * 65536) by (nonlinear_arith);
}

proof fn lemma_composed_parts_fit(top: nat, bars: nat, beats: nat, parts: nat, units: nat)
    ensures
        bars * units_per_bar(top) <= composed_units(top, bars, beats, parts, units),
        beats * units_per_beat() <= composed_units(top, bars, beats, parts, units),
        parts * units_per_part() <= composed_units(top, bars, beats, parts, units),
{
    assert(0 <= bars * (top * 65536)) by (nonlinear_arith);
    assert(0 <= beats * 65536) by (nonlinear_arith);
    assert(0 <= parts * 4096) by (nonlinear_arith);
}

/// Splitting a time into whole bars, the beat within the bar, the part
/// within the beat and the unit within the part, then composing the pieces
/// again, gives the time back.
pub proof fn lemma_components_compose(t: nat, top: nat)
    requires
        top > 0,
    ensures
        composed_units(top, t / 65536 / top, (t / 65536) % top, (t / 4096) % 16, t % 4096) == t,
{
    let b = t / 65536;
    vstd::arithmetic::div_mod::lemma_fundamental_div_mod(t as int, 65536);
    vstd::arithmetic::div_mod::lemma_fundamental_div_mod(b as int, top as int);
    vstd::arithmetic::div_mod::lemma_mod_breakdown(t as int, 4096, 16);
    let bars = b / top;
    let beats = b % top;
    assert(bars * (top * 65536) + beats * 65536 == (top * bars + beats) * 65536) by (nonlinear_arith);
}

/// A time composed of bars, a beat within the bar, a part within the beat
/// and a unit within the part splits back into exactly those pieces.
pub proof fn lemma_compose_splits(top: nat, bars: nat, beats: nat, parts: nat, units: nat)
    requires
        top > 0,
        beats < top,
        parts < 16,
        units < 4096,
    ensures
        ({
            let t = composed_units(top, bars, beats, parts, units);
            &&& t / 65536 / top == bars
            &&& (t / 65536) % top == beats
            &&& (t / 4096) % 16 == parts
            &&& t % 4096 == units
        }),
{
    let t = composed_units(top, bars, beats, parts, units);
    let p = (bars * top + beats) * 16 + parts;
    assert(t == p * 4096 + units) by (nonlinear_arith)
        requires
            t == bars * (top * 65536) + beats * 65536 + parts * 4096 + units,
            p == (bars * top + beats) * 16 + parts,
    ;
    vstd::arithmetic::div_mod::lemma_fundamental_div_mod_converse(t as int, 4096, p as int, units as int);
    vstd::arithmetic::div_mod::lemma_fundamental_div_mod_converse(
        p as int,
        16,
        (bars * top + beats) as int,
        parts as int,
    );
    vstd::arithmetic::div_mod::lemma_div_denominator(t as int, 4096, 16);
    vstd::arithmetic::div_mod::lemma_fundamental_div_mod_converse(
        (bars * top + beats) as int,
        top as int,
        bars as int,
        beats as int,
    );
}

proof fn lemma_quantize_fits(u: nat)
    ensures
        (u / units_per_part()) * units_per_part() <= u,
{
    assert((u / 4096) * 4096 <= u) by (nonlinear_arith);
}

impl core::ops::Add<MusicalTime> for MusicalTime {
    type Output = MusicalTime;

    // The caller's AddSpecImpl requirement rules out overflow.
    fn add(self, rhs: MusicalTime) -> (r: MusicalTime) {
        MusicalTime { units: self.units + rhs.units }
    }
}

impl vstd::std_specs::ops::AddSpecImpl<MusicalTime> for MusicalTime {
    open spec fn obeys_add_spec() -> bool {
        true
    }

    open spec fn add_req(self, rhs: MusicalTime) -> bool {
        self@ + rhs@ <= usize::MAX
    }

    open spec fn add_spec(self, rhs: MusicalTime) -> MusicalTime {
        time_of_units(self@ + rhs@)
    }
}

impl core::ops::Add<usize> for MusicalTime {
    type Output = MusicalTime;

    fn add(self, rhs: usize) -> (r: MusicalTime) {
        MusicalTime { units: self.units + rhs }
    }
}

impl vstd::std_specs::ops::AddSpecImpl<usize> for MusicalTime {
    open spec fn obeys_add_spec() -> bool {
        true
    }

    open spec fn add_req(self, rhs: usize) -> bool {
        self@ + rhs <= usize::MAX
    }

    open spec fn add_spec(self, rhs: usize) -> MusicalTime {
        time_of_units(self@ + rhs as nat)
    }
}

impl core::ops::Sub<MusicalTime> for MusicalTime {
    type Output = MusicalTime;

    fn sub(self, rhs: MusicalTime) -> (r: MusicalTime) {
        MusicalTime { units: self.units - rhs.units }
    }
}

impl vstd::std_specs::ops::SubSpecImpl<MusicalTime> for MusicalTime {
    open spec fn obeys_sub_spec() -> bool {
        true
    }

    open spec fn sub_req(self, rhs: MusicalTime) -> bool {
        rhs@ <= self@
    }

    open spec fn sub_spec(self, rhs: MusicalTime) -> MusicalTime {
        time_of_units((self@ - rhs@) as nat)
    }
}

impl core::ops::Mul<usize> for MusicalTime {
    type Output = MusicalTime;

    fn mul(self, rhs: usize) -> (r: MusicalTime) {
        MusicalTime { units: self.units * rhs }
    }
}

impl vstd::std_specs::ops::MulSpecImpl<usize> for MusicalTime {
    open spec fn obeys_mul_spec() -> bool {
        true
    }

    open spec fn mul_req(self, rhs: usize) -> bool {
        self@ * rhs <= usize::MAX
    }

    open spec fn mul_spec(self, rhs: usize) -> MusicalTime {
        time_of_units(self@ * (rhs as nat))
    }
}

impl core::ops::Div<usize> for MusicalTime {
    type Output = MusicalTime;

    fn div(self, rhs: usize) -> (r: MusicalTime) {
        MusicalTime { units: self.units / rhs }
    }
}

impl vstd::std_specs::ops::DivSpecImpl<usize> for MusicalTime {
    open spec fn obeys_div_spec() -> bool {
        true
    }

    open spec fn div_req(self, rhs: usize) -> bool {
        rhs != 0
    }

    open spec fn div_spec(self, rhs: usize) -> MusicalTime {
        time_of_units(self@ / (rhs as nat))
    }
}

/// Samples per second. Always a positive integer when made by
/// [SampleRate::new].
#[derive(Clone, Copy, Debug, PartialEq, Eq, Structural)]
pub struct SampleRate(pub usize);

impl SampleRate {
    /// The sample rate used where none was given.
    pub const DEFAULT_SAMPLE_RATE: usize = 44100;

    /// The raw value.
    pub fn value(&self) -> (r: usize)
        ensures
            r == self.0,
    {
        self.0
    }

    /// Makes a sample rate, replacing zero with the default rate.
    pub fn new(value: usize) -> (r: Self)
        ensures
            value != 0 ==> r.0 == value,
            value == 0 ==> r.0 == 44100,
    {
        if value != 0 {
            Self(value)
        } else {
            Self(Self::DEFAULT_SAMPLE_RATE)
        }
    }
}

impl Default for SampleRate {
    fn default() -> (r: Self)
        ensures
            r.0 == 44100,
    {
        Self::new(Self::DEFAULT_SAMPLE_RATE)
    }
}

/// A span of [MusicalTime], inclusive start and exclusive end.
#[derive(Debug, PartialEq, Eq)]
pub struct TimeRange(pub core::ops::Range<MusicalTime>);

impl Clone for TimeRange {
    fn clone(&self) -> (r: Self)
        ensures
            r == *self,
    {
        TimeRange(self.0.start..self.0.end)
    }
}

impl TimeRange {
    /// The range that starts at `start` and lasts `duration`.
    pub fn new_with_start_and_duration(start: MusicalTime, duration: MusicalTime) -> (r: Self)
        requires
            start@ + duration@ <= usize::MAX,
        ensures
            r.0.start == start,
            r.0.end@ == start@ + duration@,
    {
        TimeRange(start..start + duration)
    }

    /// Whether `time` falls inside the range.
    pub fn contains(&self, time: &MusicalTime) -> (r: bool)
        ensures
            r == (self.0.start@ <= time@ && time@ < self.0.end@),
    {
        !time.is_before(&self.0.start) && time.is_before(&self.0.end)
    }
}

} // verus!

verus! {

/// `+=` cannot carry a precondition, so a sum past the latest representable
/// time wraps around, as unchecked integer addition does.
impl core::ops::AddAssign<MusicalTime> for MusicalTime {
    fn add_assign(&mut self, rhs: MusicalTime)
        ensures
            old(self)@ + rhs@ <= usize::MAX ==> final(self)@ == old(self)@ + rhs@,
            old(self)@ + rhs@ > usize::MAX ==> final(self)@ == old(self)@ + rhs@ - usize::MAX - 1,
    {
        self.units = self.units.wrapping_add(rhs.units);
    }
}

/// `-=` cannot carry a precondition, so a difference below time zero wraps
/// around, as unchecked integer subtraction does.
impl core::ops::SubAssign<MusicalTime> for MusicalTime {
    fn sub_assign(&mut self, rhs: MusicalTime)
        ensures
            old(self)@ >= rhs@ ==> final(self)@ == old(self)@ - rhs@,
            old(self)@ < rhs@ ==> final(self)@ == old(self)@ - rhs@ + usize::MAX + 1,
    {
        self.units = self.units.wrapping_sub(rhs.units);
    }
}

} // verus!
