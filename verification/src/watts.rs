//! A power reading and the order of readings.
//!
//! The meter reports power as an IEEE 754 double. A reading is kept by the bits of that
//! double, and everything that only needs the sign or the order of readings works on the bits.
use vstd::arithmetic::power2::{lemma_pow2_adds, lemma_pow2_pos, lemma_pow2_strictly_increases, pow2};
use vstd::prelude::*;

verus! {

/// The bits of minus zero: all patterns from here on have the sign bit set.
pub const SIGN_BIT: u64 = 0x8000_0000_0000_0000;

/// The bits of plus infinity; without their sign, the patterns above are no numbers.
pub const INFINITY_BITS: u64 = 0x7ff0_0000_0000_0000;

/// The bits of minus infinity.
pub const NEG_INFINITY_BITS: u64 = 0xfff0_0000_0000_0000;

/// The patterns that share an exponent.
pub const FRACTION_SPAN: u64 = 0x0010_0000_0000_0000;

/// Power in watts, positive for consumption and negative for injection, held by the bits of
/// its IEEE 754 double.
#[derive(Clone, Copy, Debug, PartialEq, Eq, Structural)]
pub struct Watts {
    pub bits: u64,
}

impl Watts {
    /// The sign bit.
    pub open spec fn negative(self) -> bool {
        self.bits >= SIGN_BIT
    }

    /// The biased exponent field.
    pub open spec fn exponent(self) -> nat {
        ((self.bits % SIGN_BIT) / FRACTION_SPAN) as nat
    }

    /// The fraction field.
    pub open spec fn fraction(self) -> nat {
        (self.bits % FRACTION_SPAN) as nat
    }

    /// Whether the double is not a number.
    pub open spec fn is_nan(self) -> bool {
        self.exponent() == 2047 && self.fraction() != 0
    }

    /// The absolute value, counted in the smallest positive double (two to the power -1074).
    /// Infinity counts as the number that would follow the largest finite double.
    pub open spec fn size(self) -> nat {
        if self.exponent() == 0 {
            self.fraction()
        } else {
            (FRACTION_SPAN + self.fraction()) as nat * pow2((self.exponent() - 1) as nat)
        }
    }

    /// The value, counted in the smallest positive double. Both zeros have the value 0.
    pub open spec fn units(self) -> int {
        if self.negative() {
            -(self.size() as int)
        } else {
            self.size() as int
        }
    }

    /// The double with the sign bit cleared.
    pub open spec fn unsigned(self) -> Watts {
        Watts { bits: self.bits % SIGN_BIT }
    }
}

/// A pattern without its sign bit is its exponent and its fraction put together.
proof fn lemma_fields(w: Watts)
    ensures
        w.bits % SIGN_BIT == w.exponent() * FRACTION_SPAN + w.fraction(),
        w.exponent() <= 2047,
        w.fraction() < FRACTION_SPAN,
        w.is_nan() <==> w.bits % SIGN_BIT > INFINITY_BITS,
        w.negative() ==> w.bits == SIGN_BIT + w.bits % SIGN_BIT,
        !w.negative() ==> w.bits == w.bits % SIGN_BIT,
{
}

/// A larger pattern (without the sign) is a larger absolute value.
proof fn lemma_size_grows(a: Watts, b: Watts)
    requires
        a.bits % SIGN_BIT < b.bits % SIGN_BIT,
    ensures
        a.size() < b.size(),
{
    lemma_fields(a);
    lemma_fields(b);
    let (ea, fa, eb, fb) = (a.exponent(), a.fraction(), b.exponent(), b.fraction());
    assert(ea <= eb) by (nonlinear_arith)
        requires
            ea * 0x0010_0000_0000_0000 + fa < eb * 0x0010_0000_0000_0000 + fb,
            fb < 0x0010_0000_0000_0000,
    ;
    if eb == 0 {
    } else if ea == eb {
        let p = pow2((eb - 1) as nat);
        lemma_pow2_pos((eb - 1) as nat);
        assert((FRACTION_SPAN + fa) * p < (FRACTION_SPAN + fb) * p) by (nonlinear_arith)
            requires
                fa < fb,
                p > 0,
        ;
    } else {
        let q = pow2((eb - 1) as nat);
        lemma_pow2_pos((eb - 1) as nat);
        assert(FRACTION_SPAN * q <= (FRACTION_SPAN + fb) * q) by (nonlinear_arith)
            requires
                q > 0,
        ;
        if ea == 0 {
            assert(FRACTION_SPAN <= FRACTION_SPAN * q) by (nonlinear_arith)
                requires
                    q >= 1,
            ;
        } else {
            let p = pow2((ea - 1) as nat);
            lemma_pow2_pos((ea - 1) as nat);
            lemma_pow2_adds((ea - 1) as nat, 1);
            vstd::arithmetic::power2::lemma2_to64();
            if ea < eb - 1 {
                lemma_pow2_strictly_increases(ea, (eb - 1) as nat);
            }
            assert(2 * p <= q);
            assert((FRACTION_SPAN + fa) * p < FRACTION_SPAN * q) by (nonlinear_arith)
                requires
                    fa < FRACTION_SPAN,
                    p > 0,
                    2 * p <= q,
            ;
        }
    }
}

/// Zero is the one absolute value with an empty pattern.
proof fn lemma_size_zero(a: Watts)
    ensures
        a.size() == 0 <==> a.bits % SIGN_BIT == 0,
{
    lemma_fields(a);
    if a.bits % SIGN_BIT > 0 {
        lemma_size_grows(Watts { bits: 0 }, a);
    }
}

/// The position of a reading among all readings: the pattern without its sign, counted down
/// from zero where the sign bit is set.
pub open spec fn rank(w: Watts) -> int {
    if w.negative() {
        SIGN_BIT - w.bits
    } else {
        w.bits as int
    }
}

/// Ordering readings by their bits is ordering them by their value.
pub proof fn law_rank_orders_by_value(a: Watts, b: Watts)
    ensures
        rank(a) < rank(b) <==> a.units() < b.units(),
        rank(a) == rank(b) <==> a.units() == b.units(),
{
    lemma_fields(a);
    lemma_fields(b);
    lemma_size_zero(a);
    lemma_size_zero(b);
    if a.bits % SIGN_BIT < b.bits % SIGN_BIT {
        lemma_size_grows(a, b);
    } else if b.bits % SIGN_BIT < a.bits % SIGN_BIT {
        lemma_size_grows(b, a);
    } else {
        assert(a.exponent() == b.exponent());
        assert(a.fraction() == b.fraction()) by {
            assert((a.bits % SIGN_BIT) % FRACTION_SPAN == a.bits % FRACTION_SPAN);
            assert((b.bits % SIGN_BIT) % FRACTION_SPAN == b.bits % FRACTION_SPAN);
        }
    }
}

impl Watts {
    /// Whether the reading is not a number.
    pub fn not_a_number(self) -> (b: bool)
        ensures
            b == self.is_nan(),
    {
        proof {
            lemma_fields(self);
        }
        self.bits % SIGN_BIT > INFINITY_BITS
    }

    /// `>= 0.0`: false for what is not a number, true for both zeros.
    pub fn at_least_zero(self) -> (b: bool)
        ensures
            b == (!self.is_nan() && self.units() >= 0),
    {
        proof {
            lemma_fields(self);
            lemma_size_zero(self);
        }
        !self.not_a_number() && self.bits <= SIGN_BIT
    }

    /// `> 0.0`: false for what is not a number and for both zeros.
    pub fn above_zero(self) -> (b: bool)
        ensures
            b == (!self.is_nan() && self.units() > 0),
    {
        proof {
            lemma_fields(self);
            lemma_size_zero(self);
        }
        !self.not_a_number() && 0 < self.bits && self.bits < SIGN_BIT
    }

    /// `== 0.0`: true for both zeros.
    pub fn is_zero(self) -> (b: bool)
        ensures
            b == (!self.is_nan() && self.units() == 0),
    {
        proof {
            lemma_fields(self);
            lemma_size_zero(self);
        }
        self.bits % SIGN_BIT == 0
    }

    /// `<`: false where either side is not a number.
    pub fn less_than(self, other: Watts) -> (b: bool)
        ensures
            b == (!self.is_nan() && !other.is_nan() && self.units() < other.units()),
    {
        proof {
            lemma_fields(self);
            lemma_fields(other);
            law_rank_orders_by_value(self, other);
        }
        if self.not_a_number() || other.not_a_number() {
            false
        } else if self.bits < SIGN_BIT {
            other.bits < SIGN_BIT && self.bits < other.bits
        } else if other.bits < SIGN_BIT {
            self.bits != SIGN_BIT || other.bits != 0
        } else {
            self.bits > other.bits
        }
    }

    /// The absolute value.
    pub fn abs(self) -> (r: Watts)
        ensures
            r == self.unsigned(),
    {
        Watts { bits: self.bits % SIGN_BIT }
    }
}

/// The absolute value keeps the size, is never negative and keeps what is not a number.
pub proof fn law_abs_drops_the_sign(w: Watts)
    ensures
        !w.unsigned().negative(),
        w.unsigned().is_nan() == w.is_nan(),
        w.unsigned().units() == w.size(),
        w.unsigned().units() == if w.units() < 0 {
            -w.units()
        } else {
            w.units()
        },
{
    let u = w.unsigned();
    assert(u.bits % SIGN_BIT == w.bits % SIGN_BIT);
    assert((w.bits % SIGN_BIT) % FRACTION_SPAN == w.bits % FRACTION_SPAN);
}

/// `low` is the least of the readings that are numbers; plus infinity if there are none.
/// Of two zeros either may be `low`.
pub open spec fn is_lowest(readings: Seq<Watts>, low: Watts) -> bool {
    &&& !low.is_nan()
    &&& low.bits == INFINITY_BITS || readings.contains(low)
    &&& forall|i: int|
        0 <= i < readings.len() && !(#[trigger] readings[i]).is_nan() ==> low.units()
            <= readings[i].units()
}

/// `high` is the greatest of the readings that are numbers; minus infinity if there are none.
/// Of two zeros either may be `high`.
pub open spec fn is_highest(readings: Seq<Watts>, high: Watts) -> bool {
    &&& !high.is_nan()
    &&& high.bits == NEG_INFINITY_BITS || readings.contains(high)
    &&& forall|i: int|
        0 <= i < readings.len() && !(#[trigger] readings[i]).is_nan() ==> readings[i].units()
            <= high.units()
}

/// `peak` is the greatest absolute value of the readings that are numbers; plus zero if there
/// are none.
pub open spec fn is_peak(readings: Seq<Watts>, peak: Watts) -> bool {
    &&& !peak.is_nan()
    &&& peak.bits == 0 || exists|i: int|
        0 <= i < readings.len() && peak == (#[trigger] readings[i]).unsigned()
    &&& forall|i: int|
        0 <= i < readings.len() && !(#[trigger] readings[i]).is_nan()
            ==> readings[i].unsigned().units() <= peak.units()
}

/// The least reading.
pub fn lowest(readings: &Vec<Watts>) -> (low: Watts)
    ensures
        is_lowest(readings@, low),
{
    let mut low = Watts { bits: INFINITY_BITS };
    for i in 0..readings.len()
        invariant
            is_lowest(readings@.take(i as int), low),
    {
        let ghost seen = readings@.take(i as int);
        let ghost next = readings@.take(i + 1);
        assert(next == seen.push(readings[i as int]));
        if readings[i].less_than(low) {
            low = readings[i];
            assert(next[i as int] == low);
        } else if low.bits != INFINITY_BITS {
            let ghost k = choose|k: int| 0 <= k < seen.len() && seen[k] == low;
            assert(next[k] == low);
        }
        assert forall|k: int| 0 <= k < next.len() && !(#[trigger] next[k]).is_nan() implies low.units()
            <= next[k].units() by {
            if k < i {
                assert(next[k] == seen[k]);
            }
        }
    }
    assert(readings@.take(readings@.len() as int) == readings@);
    low
}

/// The greatest reading.
pub fn highest(readings: &Vec<Watts>) -> (high: Watts)
    ensures
        is_highest(readings@, high),
{
    let mut high = Watts { bits: NEG_INFINITY_BITS };
    for i in 0..readings.len()
        invariant
            is_highest(readings@.take(i as int), high),
    {
        let ghost seen = readings@.take(i as int);
        let ghost next = readings@.take(i + 1);
        assert(next == seen.push(readings[i as int]));
        if high.less_than(readings[i]) {
            high = readings[i];
            assert(next[i as int] == high);
        } else if high.bits != NEG_INFINITY_BITS {
            let ghost k = choose|k: int| 0 <= k < seen.len() && seen[k] == high;
            assert(next[k] == high);
        }
        assert forall|k: int| 0 <= k < next.len() && !(#[trigger] next[k]).is_nan() implies next[k].units()
            <= high.units() by {
            if k < i {
                assert(next[k] == seen[k]);
            }
        }
    }
    assert(readings@.take(readings@.len() as int) == readings@);
    high
}

/// The greatest absolute value.
pub fn peak(readings: &Vec<Watts>) -> (top: Watts)
    ensures
        is_peak(readings@, top),
{
    let mut top = Watts { bits: 0 };
    for i in 0..readings.len()
        invariant
            is_peak(readings@.take(i as int), top),
    {
        let ghost seen = readings@.take(i as int);
        let ghost next = readings@.take(i + 1);
        assert(next == seen.push(readings[i as int]));
        let size = readings[i].abs();
        proof {
            law_abs_drops_the_sign(readings[i as int]);
        }
        if top.less_than(size) {
            top = size;
            assert(top == next[i as int].unsigned());
        } else if top.bits != 0 {
            let ghost k = choose|k: int| 0 <= k < seen.len() && top == (#[trigger] seen[k]).unsigned();
            assert(top == next[k].unsigned());
        }
        assert forall|k: int| 0 <= k < next.len() && !(#[trigger] next[k]).is_nan() implies next[k].unsigned().units()
            <= top.units() by {
            if k < i {
                assert(next[k] == seen[k]);
            }
        }
    }
    assert(readings@.take(readings@.len() as int) == readings@);
    top
}

/// The least reading is at most the greatest, and every reading that is a number lies between.
pub proof fn law_readings_lie_between(readings: Seq<Watts>, low: Watts, high: Watts, i: int)
    requires
        is_lowest(readings, low),
        is_highest(readings, high),
        0 <= i < readings.len(),
        !readings[i].is_nan(),
    ensures
        low.units() <= readings[i].units() <= high.units(),
{
}

/// Two least readings have the same value, and so have two greatest ones: the extremes are
/// determined up to the sign of a zero.
pub proof fn law_extremes_are_unique(readings: Seq<Watts>, a: Watts, b: Watts)
    ensures
        is_lowest(readings, a) && is_lowest(readings, b) ==> a.units() == b.units(),
        is_highest(readings, a) && is_highest(readings, b) ==> a.units() == b.units(),
        is_peak(readings, a) && is_peak(readings, b) ==> a == b,
{
    lemma_fields(a);
    lemma_fields(b);
    law_rank_orders_by_value(a, b);
    if is_peak(readings, a) && is_peak(readings, b) {
        lemma_size_zero(a);
        lemma_size_zero(b);
        assert(!a.negative() && !b.negative());
    }
}

/// The fields of the double give the value: a sign, an exponent with a bias of 1023 and a fraction
/// of 52 bits, with subnormal numbers at exponent 0. In units of the smallest positive double,
/// the exponent 1 has the weight 1.
pub proof fn law_fields_give_the_value(minus: bool, exponent: nat, fraction: nat)
    requires
        exponent < 2048,
        fraction < 0x10_0000_0000_0000,
    ensures
        ({
            let sign = if minus {
                0x8000_0000_0000_0000int
            } else {
                0int
            };
            let w = Watts { bits: (sign + exponent * 0x10_0000_0000_0000 + fraction) as u64 };
            let size: int = if exponent == 0 {
                fraction as int
            } else {
                (0x10_0000_0000_0000int + fraction) * pow2((exponent - 1) as nat)
            };
            &&& w.is_nan() <==> exponent == 2047 && fraction > 0
            &&& w.units() == if minus {
                -size
            } else {
                size
            }
        }),
{
    let sign = if minus {
        0x8000_0000_0000_0000int
    } else {
        0int
    };
    let w = Watts { bits: (sign + exponent * 0x10_0000_0000_0000 + fraction) as u64 };
    assert(w.bits == sign + exponent * 0x10_0000_0000_0000 + fraction);
    assert(w.exponent() == exponent);
    assert(w.fraction() == fraction);
}

/// The sign of a value can be read off its bits: below the sign bit the value is not negative,
/// above it it is negative, and exactly the two patterns without exponent and fraction are zero.
pub proof fn law_sign_shows_in_the_bits(w: Watts)
    ensures
        w.is_nan() <==> 0x7ff0_0000_0000_0000 < w.bits < 0x8000_0000_0000_0000 || w.bits
            > 0xfff0_0000_0000_0000,
        w.units() > 0 <==> 0 < w.bits < 0x8000_0000_0000_0000,
        w.units() < 0 <==> w.bits > 0x8000_0000_0000_0000,
        w.units() == 0 <==> w.bits == 0 || w.bits == 0x8000_0000_0000_0000,
{
    lemma_fields(w);
    lemma_size_zero(w);
}

/// Where there is a number among the readings, the extremes are among the readings.
pub proof fn lemma_extremes_occur(readings: Seq<Watts>, low: Watts, high: Watts, i: int)
    requires
        is_lowest(readings, low),
        is_highest(readings, high),
        0 <= i < readings.len(),
        !readings[i].is_nan(),
    ensures
        exists|k: int| 0 <= k < readings.len() && #[trigger] readings[k] == low,
        exists|k: int| 0 <= k < readings.len() && #[trigger] readings[k] == high,
{
    let r = readings[i];
    lemma_fields(r);
    lemma_fields(low);
    lemma_fields(high);
    law_rank_orders_by_value(low, r);
    law_rank_orders_by_value(high, r);
    if low.bits == INFINITY_BITS {
        assert(readings[i] == low);
    } else {
        let k = choose|k: int| 0 <= k < readings.len() && readings[k] == low;
        assert(readings[k] == low);
    }
    if high.bits == NEG_INFINITY_BITS {
        assert(readings[i] == high);
    } else {
        let k = choose|k: int| 0 <= k < readings.len() && readings[k] == high;
        assert(readings[k] == high);
    }
}

/// Where there is a number among the readings, the extremes are among the readings, and the peak
/// is one of them without its sign; where there is none, they are the infinities and zero.
pub proof fn law_extremes_are_readings(readings: Seq<Watts>, low: Watts, high: Watts, top: Watts)
    requires
        is_lowest(readings, low),
        is_highest(readings, high),
        is_peak(readings, top),
    ensures
        (exists|i: int| 0 <= i < readings.len() && !(#[trigger] readings[i]).is_nan()) ==> {
            &&& exists|i: int| 0 <= i < readings.len() && #[trigger] readings[i] == low
            &&& exists|i: int| 0 <= i < readings.len() && #[trigger] readings[i] == high
            &&& exists|i: int|
                0 <= i < readings.len() && (#[trigger] readings[i]).bits % 0x8000_0000_0000_0000
                    == top.bits
        },
        (forall|i: int| 0 <= i < readings.len() ==> (#[trigger] readings[i]).is_nan()) ==> {
            &&& low.bits == 0x7ff0_0000_0000_0000
            &&& high.bits == 0xfff0_0000_0000_0000
            &&& top.bits == 0
        },
        !low.is_nan() && !high.is_nan() && !top.is_nan(),
        top.units() >= 0,
        forall|i: int|
            0 <= i < readings.len() && !(#[trigger] readings[i]).is_nan() ==> {
                &&& low.units() <= readings[i].units() <= high.units()
                &&& -top.units() <= readings[i].units() <= top.units()
            },
{
    assert forall|i: int| 0 <= i < readings.len() && !(#[trigger] readings[i]).is_nan() implies {
        &&& -top.units() <= readings[i].units() <= top.units()
    } by {
        law_abs_drops_the_sign(readings[i]);
    }
    law_sign_shows_in_the_bits(top);
    if top.bits != 0 {
        let k = choose|k: int| 0 <= k < readings.len() && top == (#[trigger] readings[k]).unsigned();
        law_abs_drops_the_sign(readings[k]);
    }
    if exists|i: int| 0 <= i < readings.len() && !(#[trigger] readings[i]).is_nan() {
        let i = choose|i: int| 0 <= i < readings.len() && !(#[trigger] readings[i]).is_nan();
        let r = readings[i];
        lemma_extremes_occur(readings, low, high, i);
        law_sign_shows_in_the_bits(r);
        law_abs_drops_the_sign(r);
        if top.bits == 0 {
            assert(r.units() == 0);
            assert(r.bits % 0x8000_0000_0000_0000 == top.bits);
        }
    }
}

} // verus!
