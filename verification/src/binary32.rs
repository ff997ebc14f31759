//! Single-precision numbers held by their bit patterns, as the simulation
//! hands them over: the comparisons and the truncation that the frame
//! pipeline applies to agent coordinates, in integer arithmetic.

use vstd::prelude::*;
use vstd::arithmetic::power2::*;
use vstd::arithmetic::mul::*;
use vstd::arithmetic::div_mod::*;
use vstd::bits::*;

verus! {

/// The bit pattern without its sign bit.
pub open spec fn abs_bits(bits: u32) -> int {
    bits as int % 0x8000_0000
}

/// Whether the sign bit is set.
pub open spec fn is_negative(bits: u32) -> bool {
    bits >= 0x8000_0000
}

/// Whether the pattern is not a number.
pub open spec fn is_nan(bits: u32) -> bool {
    abs_bits(bits) > 0x7f80_0000
}

/// Whether the pattern is an infinity.
pub open spec fn is_infinite(bits: u32) -> bool {
    abs_bits(bits) == 0x7f80_0000
}

/// The biased exponent field.
pub open spec fn exponent(bits: u32) -> int {
    abs_bits(bits) / 0x80_0000
}

/// The fraction field.
pub open spec fn fraction(bits: u32) -> int {
    abs_bits(bits) % 0x80_0000
}

/// The absolute value of a number in units of 2^-149, the spacing of the
/// smallest numbers: every finite number is a whole multiple of it. For an
/// infinity the formula gives a value above every finite number's.
pub open spec fn magnitude(bits: u32) -> nat {
    if exponent(bits) == 0 {
        fraction(bits) as nat
    } else {
        ((0x80_0000 + fraction(bits)) * pow2((exponent(bits) - 1) as nat)) as nat
    }
}

/// The number one in the units of `magnitude`.
pub open spec fn unit() -> nat {
    pow2(149)
}

/// Whether `bits` is the non-negative whole number `n`.
pub open spec fn is_whole(bits: u32, n: nat) -> bool {
    &&& !is_negative(bits)
    &&& abs_bits(bits) < 0x7f80_0000
    &&& magnitude(bits) == n * unit()
}

/// Whether the number is less than zero. Negative zero is not, and what
/// is not a number compares false with everything.
pub open spec fn below_zero(bits: u32) -> bool {
    !is_nan(bits) && is_negative(bits) && abs_bits(bits) != 0
}

/// Whether the number is greater than the whole number `n`.
pub open spec fn above_whole(bits: u32, n: nat) -> bool {
    !is_nan(bits) && !is_negative(bits) && (is_infinite(bits) || magnitude(bits) > n * unit())
}

/// Among patterns without sign bit, a greater pattern is a greater number.
pub proof fn lemma_magnitude_increases(a: u32, b: u32)
    requires
        a < b < 0x8000_0000,
    ensures
        magnitude(a) < magnitude(b),
{
    let ea = exponent(a);
    let eb = exponent(b);
    let fa = fraction(a);
    let fb = fraction(b);
    assert(ea <= eb);
    if ea == eb {
        assert(fa < fb);
        if ea > 0 {
            lemma_pow2_pos((ea - 1) as nat);
            lemma_mul_strict_inequality(
                0x80_0000 + fa,
                0x80_0000 + fb,
                pow2((ea - 1) as nat) as int,
            );
        }
    } else {
        let top = pow2((eb - 1) as nat) as int;
        lemma_pow2_pos((eb - 1) as nat);
        assert(0x80_0000 * top <= (0x80_0000 + fb) * top) by (nonlinear_arith)
            requires
                0 <= fb,
                0 < top,
        ;
        assert(0x80_0000 <= 0x80_0000 * top) by (nonlinear_arith)
            requires
                1 <= top,
        ;
        if ea > 0 {
            let low = pow2((ea - 1) as nat) as int;
            lemma_pow2_pos((ea - 1) as nat);
            lemma_pow2_unfold(ea as nat);
            assert(pow2(ea as nat) <= top) by {
                if ea < eb - 1 {
                    lemma_pow2_strictly_increases(ea as nat, (eb - 1) as nat);
                }
            }
            assert((0x80_0000 + fa) * low < 0x80_0000 * (2 * low)) by (nonlinear_arith)
                requires
                    0 <= fa < 0x80_0000,
                    0 < low,
            ;
            assert(0x80_0000 * (2 * low) <= 0x80_0000 * top) by (nonlinear_arith)
                requires
                    2 * low <= top,
            ;
        }
    }
}

/// A whole number has one bit pattern only.
pub proof fn lemma_whole_is_unique(a: u32, b: u32, n: nat)
    requires
        is_whole(a, n),
        is_whole(b, n),
    ensures
        a == b,
{
    if a < b {
        lemma_magnitude_increases(a, b);
    } else if b < a {
        lemma_magnitude_increases(b, a);
    }
}

/// The bit pattern of the whole number `n`. Every whole number below 2^24
/// is a single-precision number.
pub fn from_whole(n: u32) -> (bits: u32)
    requires
        n < 0x100_0000,
    ensures
        is_whole(bits, n as nat),
{
    if n == 0 {
        return 0;
    }
    let mut scaled: u32 = n;
    let mut shift: u32 = 0;
    proof {
        lemma2_to64();
    }
    while scaled < 0x80_0000
        invariant
            0 < n,
            0 < scaled < 0x100_0000,
            shift <= 23,
            scaled == n * pow2(shift as nat),
        decreases 23 - shift,
    {
        proof {
            lemma2_to64();
            if shift == 23 {
                assert(n * 0x80_0000 >= 0x80_0000) by (nonlinear_arith)
                    requires
                        0 < n,
                ;
            }
            lemma_pow2_unfold((shift + 1) as nat);
            assert(n * pow2((shift + 1) as nat) == 2 * (n * pow2(shift as nat)))
                by (nonlinear_arith)
                requires
                    pow2((shift + 1) as nat) == 2 * pow2(shift as nat),
            ;
        }
        scaled = scaled * 2;
        shift = shift + 1;
    }
    let field: u32 = 150 - shift;
    let bits: u32 = field * 0x80_0000 + (scaled - 0x80_0000);
    proof {
        assert(exponent(bits) == field);
        assert(fraction(bits) == scaled - 0x80_0000);
        let low = pow2(shift as nat) as int;
        let high = pow2((149 - shift) as nat) as int;
        lemma_pow2_adds(shift as nat, (149 - shift) as nat);
        assert(scaled * high == n * (low * high)) by (nonlinear_arith)
            requires
                scaled == n * low,
        ;
    }
    bits
}

/// Whether `out` is coordinate `bits` after bounds correction on an axis
/// of length `limit`: a coordinate below zero goes to `limit`, one above
/// `limit` goes to zero, and every other stays, what is not a number too.
pub open spec fn wraps_to(bits: u32, limit: nat, out: u32) -> bool {
    if below_zero(bits) {
        is_whole(out, limit)
    } else if above_whole(bits, limit) {
        out == 0
    } else {
        out == bits
    }
}

/// Corrects one coordinate of an agent that left the canvas: below zero it
/// is moved to the far edge `limit`, above `limit` to the near edge zero.
/// The comparisons are strict, so a coordinate exactly on an edge stays.
pub fn wrap_coordinate(bits: u32, limit: u32) -> (out: u32)
    requires
        limit < 0x100_0000,
    ensures
        wraps_to(bits, limit as nat, out),
{
    let abs: u32 = bits % 0x8000_0000;
    if abs > 0x7f80_0000 {
        return bits;
    }
    let edge: u32 = from_whole(limit);
    if bits >= 0x8000_0000 {
        if abs == 0 {
            bits
        } else {
            edge
        }
    } else {
        proof {
            if bits < edge {
                lemma_magnitude_increases(bits, edge);
            } else if edge < bits {
                lemma_magnitude_increases(edge, bits);
            }
        }
        if bits > edge {
            0
        } else {
            bits
        }
    }
}

/// The whole number that a coordinate is drawn at: the number with its
/// fraction cut off, so rounded toward zero, and held to the range of
/// `i32`. What is not a number gives zero.
pub open spec fn truncated(bits: u32) -> int {
    let whole = magnitude(bits) / unit();
    if is_nan(bits) {
        0
    } else if is_negative(bits) {
        if whole > 0x8000_0000 {
            -0x8000_0000
        } else {
            -whole
        }
    } else {
        if whole > 0x7fff_ffff {
            0x7fff_ffff
        } else {
            whole as int
        }
    }
}

/// A number whose exponent field is below that of one is less than one in
/// absolute value.
proof fn lemma_small_magnitude(bits: u32)
    requires
        exponent(bits) < 127,
    ensures
        magnitude(bits) < unit(),
{
    lemma2_to64();
    let e = exponent(bits);
    lemma_pow2_adds(24, 125);
    lemma_pow2_pos(125);
    assert(0x80_0000 < 0x100_0000 * pow2(125)) by (nonlinear_arith)
        requires
            pow2(125) >= 1,
    ;
    if e > 0 {
        let p = pow2((e - 1) as nat) as int;
        lemma_pow2_pos((e - 1) as nat);
        if e - 1 < 125 {
            lemma_pow2_strictly_increases((e - 1) as nat, 125);
        }
        assert((0x80_0000 + fraction(bits)) * p < 0x100_0000 * pow2(125)) by (nonlinear_arith)
            requires
                0 <= fraction(bits) < 0x80_0000,
                0 < p <= pow2(125),
        ;
    }
}

/// A number whose exponent field is that of 2^31 or above is at least 2^31
/// in absolute value.
proof fn lemma_large_magnitude(bits: u32)
    requires
        exponent(bits) >= 158,
    ensures
        magnitude(bits) / unit() >= 0x8000_0000,
{
    lemma2_to64();
    let e = exponent(bits);
    let p = pow2((e - 1) as nat) as int;
    lemma_pow2_adds(23, 8);
    lemma_pow2_adds(31, 149);
    lemma_pow2_adds(23, 157);
    lemma_pow2_pos(149);
    if 157 < e - 1 {
        lemma_pow2_strictly_increases(157, (e - 1) as nat);
    }
    assert((0x80_0000 + fraction(bits)) * p >= 0x80_0000 * pow2(157)) by (nonlinear_arith)
        requires
            0 <= fraction(bits),
            p >= pow2(157),
    ;
    assert(magnitude(bits) >= 0x8000_0000 * unit());
    lemma_div_multiples_vanish(0x8000_0000, unit() as int);
    lemma_div_is_ordered((0x8000_0000 * unit()) as int, magnitude(bits) as int, unit() as int);
    assert(0x8000_0000 * unit() == unit() * 0x8000_0000) by (nonlinear_arith);
}

/// The whole part of a number of at least one and below 2^31, from its
/// leading digits and its exponent field: the digits moved left or right
/// by the distance between the exponent and the digits' own scale.
fn whole_part(digits: u32, field: u32) -> (whole: u32)
    requires
        0x80_0000 <= digits < 0x100_0000,
        127 <= field < 158,
    ensures
        whole == (digits * pow2((field - 1) as nat)) / unit() as int,
        whole < 0x8000_0000,
{
    if field >= 150 {
        proof {
            lemma2_to64();
            let up = (field - 150) as nat;
            lemma_pow2_adds(up, 149);
            lemma_pow2_pos(up);
            if up < 7 {
                lemma_pow2_strictly_increases(up, 7);
            }
            assert(digits * pow2(up) < 0x100_0000 * 128) by (nonlinear_arith)
                requires
                    0 <= digits < 0x100_0000,
                    0 < pow2(up) <= 128,
            ;
            lemma_u32_shl_is_mul(digits, (field - 150) as u32);
            assert(digits * (pow2(up) * pow2(149)) == unit() * (digits * pow2(up)))
                by (nonlinear_arith);
            lemma_pow2_pos(149);
            lemma_div_multiples_vanish((digits * pow2(up)) as int, unit() as int);
        }
        digits << (field - 150)
    } else {
        proof {
            let down = (150 - field) as nat;
            lemma_pow2_adds((field - 1) as nat, down);
            lemma_pow2_pos((field - 1) as nat);
            lemma_pow2_pos(down);
            lemma_u32_shr_is_div(digits, (150 - field) as u32);
            lemma_div_multiples_vanish_quotient(
                pow2((field - 1) as nat) as int,
                digits as int,
                pow2(down) as int,
            );
            assert(digits * pow2((field - 1) as nat) == pow2((field - 1) as nat) * digits)
                by (nonlinear_arith);
            lemma_div_is_ordered_by_denominator(digits as int, 1, pow2(down) as int);
        }
        digits >> (150 - field)
    }
}

/// Truncates a coordinate to the whole pixel it is drawn at.
pub fn truncate(bits: u32) -> (pixel: i32)
    ensures
        pixel == truncated(bits),
{
    let abs: u32 = bits % 0x8000_0000;
    let negative: bool = bits >= 0x8000_0000;
    if abs > 0x7f80_0000 {
        return 0;
    }
    let field: u32 = abs / 0x80_0000;
    if field < 127 {
        proof {
            lemma_small_magnitude(bits);
            lemma_fundamental_div_mod_converse(
                magnitude(bits) as int,
                unit() as int,
                0,
                magnitude(bits) as int,
            );
        }
        return 0;
    }
    if field >= 158 {
        proof {
            lemma_large_magnitude(bits);
        }
        return if negative {
            i32::MIN
        } else {
            i32::MAX
        };
    }
    let whole: u32 = whole_part(0x80_0000 + abs % 0x80_0000, field);
    if negative {
        -(whole as i32)
    } else {
        whole as i32
    }
}

} // verus!
