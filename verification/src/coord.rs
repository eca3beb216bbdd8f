//! Positions on the field.
//!
//! A coordinate is carried as the IEEE-754 binary32 encoding of its value.
//! The library never computes with floating point: it only compares
//! encodings. For every encoding that is not a NaN, [`Coord::rank`] is an
//! integer that orders encodings exactly as the numbers they encode are
//! ordered, with both zeroes at rank 0.
//!
//! What number an encoding stands for is [`Coord::scaled`]: the number in
//! units of `2^-149`, in which every binary32 number is whole.

use vstd::prelude::*;
use vstd::arithmetic::power2::{pow2, lemma_pow2_pos, lemma_pow2_adds, lemma_pow2_strictly_increases, lemma2_to64};

verus! {

/// Encodings at and above this bound have the sign bit set.
pub const SIGN: u32 = 0x8000_0000;

/// Magnitude of the infinities; larger magnitudes are NaNs.
pub const INFINITE: u32 = 0x7f80_0000;

/// Encoding of 800, the width of the field.
pub const WIDTH_BITS: u32 = 0x4448_0000;

/// Encoding of 400, the height of the field.
pub const HEIGHT_BITS: u32 = 0x43c8_0000;

/// The weight of the exponent field in an encoding: `2^23`.
pub const EXPONENT_UNIT: u32 = 0x80_0000;

/// Whole numbers below this bound have an encoding of their own.
pub const WHOLE_LIMIT: u32 = 0x100_0000;

/// Whether `bits` encodes the whole number `n`: zero is all zeroes; a number
/// from `2^e` up to `2^(e + 1)` has the biased exponent `127 + e` above a
/// fraction of 23 bits that holds what the number has beyond `2^e`.
pub open spec fn encodes_whole(bits: u32, n: nat) -> bool {
    if n == 0 {
        bits == 0
    } else {
        exists|e: nat| #[trigger] shapes_whole(bits, n, e)
    }
}

/// Whether `bits` encodes `n` with the exponent `e`.
pub open spec fn shapes_whole(bits: u32, n: nat, e: nat) -> bool {
    &&& e <= 23
    &&& pow2(e) <= n < pow2(e + 1)
    &&& bits == (127 + e) * pow2(23) + (n - pow2(e)) * pow2((23 - e) as nat)
}

/// A number that is in shape for the exponent `e` encodes to an encoding of
/// that exponent's band.
proof fn lemma_band(bits: u32, n: nat, e: nat)
    requires
        shapes_whole(bits, n, e),
    ensures
        (127 + e) * pow2(23) <= bits < (128 + e) * pow2(23),
{
    let unit = pow2((23 - e) as nat);
    let low = pow2(e);
    lemma_pow2_adds(e, (23 - e) as nat);
    lemma_pow2_adds(e, 1);
    lemma2_to64();
    assert(low * unit == pow2(23));
    assert(n - low < low);
    lemma_pow2_pos((23 - e) as nat);
    assert((n - low) * unit < low * unit) by (nonlinear_arith)
        requires
            n - low < low,
            unit > 0,
    ;
    assert((n - low) * unit >= 0) by (nonlinear_arith)
        requires
            n - low >= 0,
            unit > 0,
    ;
    assert((128 + e) * pow2(23) == (127 + e) * pow2(23) + pow2(23)) by (nonlinear_arith);
}

/// Larger whole numbers have larger encodings.
pub proof fn lemma_whole_order(low_bits: u32, low: nat, high_bits: u32, high: nat)
    requires
        encodes_whole(low_bits, low),
        encodes_whole(high_bits, high),
        low <= high,
    ensures
        low_bits <= high_bits,
{
    if low == 0 {
    } else {
        let e1 = choose|e: nat| #[trigger] shapes_whole(low_bits, low, e);
        let e2 = choose|e: nat| #[trigger] shapes_whole(high_bits, high, e);
        lemma_band(low_bits, low, e1);
        lemma_band(high_bits, high, e2);
        if e1 == e2 {
            let unit = pow2((23 - e1) as nat);
            lemma_pow2_pos((23 - e1) as nat);
            assert((low - pow2(e1)) * unit <= (high - pow2(e1)) * unit) by (nonlinear_arith)
                requires
                    low - pow2(e1) <= high - pow2(e1),
                    unit > 0,
            ;
        } else if e1 < e2 {
            lemma_pow2_pos(23);
            assert((128 + e1) * pow2(23) <= (127 + e2) * pow2(23)) by (nonlinear_arith)
                requires
                    e1 + 1 <= e2,
                    pow2(23) > 0,
            ;
        } else {
            if e2 + 1 < e1 {
                lemma_pow2_strictly_increases(e2 + 1, e1);
            }
            assert(pow2(e2 + 1) <= pow2(e1));
        }
    }
}

/// The two far edges of the field are the encodings of 800 and of 400.
pub proof fn lemma_field_edges()
    ensures
        encodes_whole(WIDTH_BITS, 800),
        encodes_whole(HEIGHT_BITS, 400),
{
    lemma2_to64();
    assert(shapes_whole(WIDTH_BITS, 800, 9));
    assert(shapes_whole(HEIGHT_BITS, 400, 8));
}

/// Of two encodings, the one with the larger magnitude stands for the
/// number of the larger size.
proof fn lemma_magnitude_order(a: Coord, b: Coord)
    requires
        a.magnitude() < b.magnitude(),
    ensures
        0 <= a.scaled_magnitude() < b.scaled_magnitude(),
{
    let unit = EXPONENT_UNIT as int;
    let (ea, fa) = (a.exponent(), a.fraction());
    let (eb, fb) = (b.exponent(), b.fraction());
    assert(a.magnitude() == ea * unit + fa && 0 <= fa < unit && 0 <= ea);
    assert(b.magnitude() == eb * unit + fb && 0 <= fb < unit && 0 <= eb);
    assert(ea <= eb);
    if ea > 0 {
        lemma_pow2_pos((ea - 1) as nat);
        assert(0 <= (unit + fa) * pow2((ea - 1) as nat)) by (nonlinear_arith)
            requires
                0 <= fa,
                unit > 0,
                pow2((ea - 1) as nat) > 0,
        ;
    }
    if ea == eb {
        if ea > 0 {
            assert((unit + fa) * pow2((ea - 1) as nat) < (unit + fb) * pow2((ea - 1) as nat)) by (nonlinear_arith)
                requires
                    fa < fb,
                    pow2((ea - 1) as nat) > 0,
            ;
        }
    } else {
        let top = unit * pow2(ea as nat);
        lemma2_to64();
        if ea == 0 {
            assert(a.scaled_magnitude() < top);
        } else {
            lemma_pow2_adds((ea - 1) as nat, 1);
            assert((unit + fa) * pow2((ea - 1) as nat) < unit * (2 * pow2((ea - 1) as nat))) by (nonlinear_arith)
                requires
                    fa < unit,
                    pow2((ea - 1) as nat) > 0,
            ;
        }
        if ea < eb - 1 {
            lemma_pow2_strictly_increases(ea as nat, (eb - 1) as nat);
        }
        assert(unit * pow2(ea as nat) <= (unit + fb) * pow2((eb - 1) as nat)) by (nonlinear_arith)
            requires
                pow2(ea as nat) <= pow2((eb - 1) as nat),
                0 <= fb,
                unit > 0,
                pow2(ea as nat) > 0,
        ;
    }
}

/// The rank orders the encodings as the numbers that they stand for are
/// ordered, and gives two encodings one rank where they stand for one
/// number.
pub proof fn lemma_rank_orders_numbers(a: Coord, b: Coord)
    ensures
        a.rank() < b.rank() <==> a.scaled() < b.scaled(),
        a.rank() == b.rank() <==> a.scaled() == b.scaled(),
{
    let zero = Coord { bits: 0 };
    assert(zero.scaled_magnitude() == 0);
    if a.magnitude() > 0 {
        lemma_magnitude_order(zero, a);
    } else {
        assert(a.scaled_magnitude() == 0);
    }
    if b.magnitude() > 0 {
        lemma_magnitude_order(zero, b);
    } else {
        assert(b.scaled_magnitude() == 0);
    }
    if a.magnitude() < b.magnitude() {
        lemma_magnitude_order(a, b);
    } else if b.magnitude() < a.magnitude() {
        lemma_magnitude_order(b, a);
    }
}

/// The encoding of a whole number stands for that number.
pub proof fn lemma_whole_value(bits: u32, n: nat)
    requires
        encodes_whole(bits, n),
    ensures
        (Coord { bits }).scaled() == n * pow2(149),
{
    let c = Coord { bits };
    if n == 0 {
        assert(c.scaled_magnitude() == 0);
    } else {
        let e = choose|e: nat| #[trigger] shapes_whole(bits, n, e);
        let unit = EXPONENT_UNIT as int;
        let low = pow2(e) as int;
        let step = pow2((23 - e) as nat) as int;
        let rest = (n - low) * step;
        lemma2_to64();
        lemma_band(bits, n, e);
        lemma_pow2_adds(e, (23 - e) as nat);
        lemma_pow2_adds(e, 1);
        lemma_pow2_pos((23 - e) as nat);
        assert(low * step == unit);
        assert(0 <= rest < unit) by (nonlinear_arith)
            requires
                rest == (n - low) * step,
                0 <= n - low < low,
                low * step == unit,
                step > 0,
        ;
        assert(bits == (127 + e) * unit + rest);
        assert(c.magnitude() == bits);
        assert(c.exponent() == 127 + e && c.fraction() == rest) by {
            vstd::arithmetic::div_mod::lemma_fundamental_div_mod_converse(bits as int, unit, (127 + e) as int, rest);
        }
        lemma_pow2_adds((23 - e) as nat, 126 + e);
        assert((unit + rest) * pow2(126 + e) == n * (step * pow2(126 + e))) by (nonlinear_arith)
            requires
                rest == (n - low) * step,
                low * step == unit,
        ;
    }
}

/// A coordinate, as its binary32 encoding.
#[derive(Clone, Copy, Debug, PartialEq, Eq, Structural)]
pub struct Coord {
    pub bits: u32,
}

impl Coord {
    /// The encoding with the sign bit cleared.
    pub open spec fn magnitude(self) -> int {
        if self.bits >= SIGN {
            self.bits - SIGN
        } else {
            self.bits as int
        }
    }

    /// Whether the encoding is a NaN.
    pub open spec fn is_nan(self) -> bool {
        self.magnitude() > INFINITE
    }

    /// An integer that orders the encodings as their numbers are ordered.
    pub open spec fn rank(self) -> int {
        if self.bits >= SIGN {
            -self.magnitude()
        } else {
            self.magnitude()
        }
    }

    /// The exponent field of the encoding.
    pub open spec fn exponent(self) -> int {
        self.magnitude() / (EXPONENT_UNIT as int)
    }

    /// The fraction field of the encoding.
    pub open spec fn fraction(self) -> int {
        self.magnitude() % (EXPONENT_UNIT as int)
    }

    /// The size of the number, in units of `2^-149`: the fraction alone
    /// where the exponent field is zero, and else the fraction under a
    /// leading one, doubled once for every step of the exponent above one.
    /// An infinity counts as the number that the next exponent would begin
    /// with.
    pub open spec fn scaled_magnitude(self) -> int {
        if self.exponent() == 0 {
            self.fraction()
        } else {
            (EXPONENT_UNIT + self.fraction()) * pow2((self.exponent() - 1) as nat)
        }
    }

    /// The number that the encoding stands for, in units of `2^-149`. It
    /// means nothing for a NaN.
    pub open spec fn scaled(self) -> int {
        if self.bits >= SIGN {
            -self.scaled_magnitude()
        } else {
            self.scaled_magnitude()
        }
    }

    /// The number's `<`: false as soon as either side is a NaN.
    pub open spec fn below(self, other: Coord) -> bool {
        !self.is_nan() && !other.is_nan() && self.rank() < other.rank()
    }

    /// What clamping into `[lo, hi]` yields: a NaN is handed back as it is,
    /// anything below `lo` becomes `lo`, anything above `hi` becomes `hi`.
    pub open spec fn clamped(self, lo: Coord, hi: Coord) -> Coord {
        if self.below(lo) {
            lo
        } else if hi.below(self) {
            hi
        } else {
            self
        }
    }

    /// Whether the number lies in `[lo, hi]`.
    pub open spec fn within(self, lo: Coord, hi: Coord) -> bool {
        !self.is_nan() && lo.rank() <= self.rank() <= hi.rank()
    }

    /// The left and the top edge of the field.
    pub open spec fn origin() -> Coord {
        Coord { bits: 0 }
    }

    /// The right edge of the field.
    pub open spec fn width() -> Coord {
        Coord { bits: WIDTH_BITS }
    }

    /// The bottom edge of the field.
    pub open spec fn height() -> Coord {
        Coord { bits: HEIGHT_BITS }
    }

    /// Whether the number is a horizontal position on the field.
    pub open spec fn on_field_x(self) -> bool {
        self.within(Coord::origin(), Coord::width())
    }

    /// Whether the number is a vertical position on the field.
    pub open spec fn on_field_y(self) -> bool {
        self.within(Coord::origin(), Coord::height())
    }

    /// The horizontal position that a requested one is stored as.
    pub open spec fn field_x(self) -> Coord {
        self.clamped(Coord::origin(), Coord::width())
    }

    /// The vertical position that a requested one is stored as.
    pub open spec fn field_y(self) -> Coord {
        self.clamped(Coord::origin(), Coord::height())
    }

    /// The encoding of a whole number below `2^24`: every such number has
    /// one.
    pub fn from_whole(n: u32) -> (c: Coord)
        requires
            n < WHOLE_LIMIT,
        ensures
            encodes_whole(c.bits, n as nat),
            c.scaled() == n * pow2(149),
            !c.is_nan(),
            c.rank() == c.bits,
    {
        if n == 0 {
            proof {
                lemma_whole_value(0, 0);
            }
            return Coord { bits: 0 };
        }
        let mut e: u32 = 0;
        let mut low: u32 = 1;
        let mut unit: u32 = 0x80_0000;
        proof {
            lemma2_to64();
        }
        while low <= n / 2
            invariant
                0 < n < WHOLE_LIMIT,
                e <= 23,
                low == pow2(e as nat),
                unit == pow2((23 - e) as nat),
                low <= n,
                low * unit == 0x80_0000,
            decreases n - low,
        {
            proof {
                lemma2_to64();
                if e == 23 {
                    assert(low == 0x80_0000);
                }
                lemma_pow2_adds(e as nat, 1);
                lemma_pow2_adds((22 - e) as nat, 1);
                assert(unit == 2 * pow2((22 - e) as nat));
                assert((low * 2) * (unit / 2) == low * unit) by (nonlinear_arith)
                    requires
                        unit % 2 == 0,
                ;
            }
            low = low * 2;
            unit = unit / 2;
            e = e + 1;
        }
        proof {
            lemma2_to64();
            lemma_pow2_adds(e as nat, 1);
            assert((n - low) * unit < low * unit) by (nonlinear_arith)
                requires
                    n - low < low,
                    unit > 0,
            ;
            assert((127 + e) * 0x80_0000 <= 150 * 0x80_0000) by (nonlinear_arith)
                requires
                    e <= 23,
            ;
        }
        let bits: u32 = (127 + e) * 0x80_0000 + (n - low) * unit;
        proof {
            assert(shapes_whole(bits, n as nat, e as nat));
            lemma_band(bits, n as nat, e as nat);
            assert((128 + e) * pow2(23) <= 151 * pow2(23)) by (nonlinear_arith)
                requires
                    e <= 23,
                    pow2(23) > 0,
            ;
            lemma_whole_value(bits, n as nat);
        }
        Coord { bits }
    }

    /// The coordinate with the given encoding.
    pub fn from_bits(bits: u32) -> (c: Coord)
        ensures
            c.bits == bits,
    {
        Coord { bits }
    }

    /// The encoding of the coordinate.
    pub fn to_bits(self) -> (bits: u32)
        ensures
            bits == self.bits,
    {
        self.bits
    }

    /// Whether the coordinate is no number.
    pub fn nan(self) -> (b: bool)
        ensures
            b == self.is_nan(),
    {
        let magnitude: u32 = if self.bits >= SIGN {
            self.bits - SIGN
        } else {
            self.bits
        };
        magnitude > INFINITE
    }

    fn rank_of(self) -> (r: i64)
        ensures
            r == self.rank(),
    {
        if self.bits >= SIGN {
            -((self.bits - SIGN) as i64)
        } else {
            self.bits as i64
        }
    }

    /// Whether the number is less than the other.
    pub fn less_than(self, other: Coord) -> (b: bool)
        ensures
            b == self.below(other),
            b == (!self.is_nan() && !other.is_nan() && self.scaled() < other.scaled()),
    {
        proof {
            lemma_rank_orders_numbers(self, other);
        }
        !self.nan() && !other.nan() && self.rank_of() < other.rank_of()
    }

    /// Clamps the coordinate into `[lo, hi]`.
    pub fn clamp(self, lo: Coord, hi: Coord) -> (c: Coord)
        requires
            !lo.is_nan(),
            !hi.is_nan(),
            lo.rank() <= hi.rank(),
        ensures
            c == self.clamped(lo, hi),
            !self.is_nan() ==> c.within(lo, hi),
            self.is_nan() ==> c == self,
            self.within(lo, hi) ==> c == self,
    {
        if self.less_than(lo) {
            lo
        } else if hi.less_than(self) {
            hi
        } else {
            self
        }
    }

    /// Clamps a horizontal position onto the field.
    pub fn clamp_x(self) -> (c: Coord)
        ensures
            c == self.field_x(),
            !self.is_nan() ==> c.on_field_x(),
            self.is_nan() ==> c == self,
            self.on_field_x() ==> c == self,
    {
        self.clamp(Coord { bits: 0 }, Coord { bits: WIDTH_BITS })
    }

    /// Clamps a vertical position onto the field.
    pub fn clamp_y(self) -> (c: Coord)
        ensures
            c == self.field_y(),
            !self.is_nan() ==> c.on_field_y(),
            self.is_nan() ==> c == self,
            self.on_field_y() ==> c == self,
    {
        self.clamp(Coord { bits: 0 }, Coord { bits: HEIGHT_BITS })
    }
}

/// Whatever position is asked for, the position that is stored for it lies
/// on the field: unless the requested coordinate is no number at all, the
/// number stored is at least 0 and at most 800 across, at most 400 down. A
/// coordinate that is no number is stored as it is.
pub proof fn law_stored_positions_are_on_the_field(x: Coord, y: Coord)
    ensures
        !x.is_nan() ==> 0 <= x.field_x().scaled() <= 800 * pow2(149),
        !y.is_nan() ==> 0 <= y.field_y().scaled() <= 400 * pow2(149),
        !x.is_nan() && 0 <= x.scaled() <= 800 * pow2(149) ==> x.field_x().scaled() == x.scaled(),
        !y.is_nan() && 0 <= y.scaled() <= 400 * pow2(149) ==> y.field_y().scaled() == y.scaled(),
        !x.is_nan() && x.scaled() < 0 ==> x.field_x().scaled() == 0,
        !y.is_nan() && y.scaled() < 0 ==> y.field_y().scaled() == 0,
        !x.is_nan() && x.scaled() > 800 * pow2(149) ==> x.field_x().scaled() == 800 * pow2(149),
        !y.is_nan() && y.scaled() > 400 * pow2(149) ==> y.field_y().scaled() == 400 * pow2(149),
        x.is_nan() ==> x.field_x() == x,
        y.is_nan() ==> y.field_y() == y,
{
    lemma_field_edges();
    lemma_whole_value(WIDTH_BITS, 800);
    lemma_whole_value(HEIGHT_BITS, 400);
    lemma_whole_value(0, 0);
    lemma_rank_orders_numbers(x, Coord::origin());
    lemma_rank_orders_numbers(x, Coord::width());
    lemma_rank_orders_numbers(Coord::origin(), Coord::width());
    lemma_rank_orders_numbers(y, Coord::origin());
    lemma_rank_orders_numbers(y, Coord::height());
    lemma_rank_orders_numbers(Coord::origin(), Coord::height());
}

} // verus!
