//! Algebraic laws of the per-sample kernels.
use crate::kernels::{abs_spec, median3_spec, Kernel};
use crate::sample::{bias_of, lemma_bits_ranges, max_of, valid_bits, Scale};
use vstd::prelude::*;

verus! {

/// A sample value legal at depth `bits`.
pub open spec fn legal(v: int, bits: u32) -> bool {
    0 <= v <= max_of(bits)
}

/// Combining a sample with itself: min and max give it back, so does the
/// median of three copies, and the absolute difference is zero.
pub proof fn lemma_self_combination(a: int, bits: u32)
    requires
        valid_bits(bits),
        legal(a, bits),
    ensures
        Kernel::Min.eval(a, a, bits) == a,
        Kernel::Max.eval(a, a, bits) == a,
        median3_spec(a, a, a) == a,
        Kernel::Diff.eval(a, a, bits) == 0,
{
    lemma_bits_ranges(bits);
}

/// Min, max and absolute difference do not depend on operand order.
pub proof fn lemma_commutative(a: int, b: int, bits: u32)
    requires
        valid_bits(bits),
    ensures
        Kernel::Min.eval(a, b, bits) == Kernel::Min.eval(b, a, bits),
        Kernel::Max.eval(a, b, bits) == Kernel::Max.eval(b, a, bits),
        Kernel::Diff.eval(a, b, bits) == Kernel::Diff.eval(b, a, bits),
{
}

/// Every kernel, and the three-input median, yields a legal sample when
/// fed legal samples, at every supported depth (so for one-, two- and
/// four-byte cells alike).
pub proof fn lemma_output_in_range(k: Kernel, x: int, y: int, z: int, bits: u32)
    requires
        k.wf(),
        valid_bits(bits),
        legal(x, bits),
        legal(y, bits),
        legal(z, bits),
    ensures
        legal(k.eval(x, y, bits), bits),
        legal(median3_spec(x, y, z), bits),
{
    lemma_bits_ranges(bits);
}

/// Adding back an encoded difference restores the first operand:
/// `add_diff(b, make_diff(a, b)) == a` whenever the encoded difference
/// needs no clamping.
pub proof fn lemma_add_diff_inverts_make_diff(a: int, b: int, bits: u32)
    requires
        valid_bits(bits),
        legal(a, bits),
        legal(b, bits),
        legal(a - b + bias_of(bits), bits),
    ensures
        Kernel::AddDiff.eval(b, Kernel::MakeDiff.eval(a, b, bits), bits) == a,
{
}

/// `add_diff(a, make_diff(a, b)) == b` whenever no clamping occurs; this
/// form of the round trip holds exactly when the operands are equal.
pub proof fn lemma_add_diff_make_diff_same(a: int, b: int, bits: u32)
    requires
        valid_bits(bits),
        legal(a, bits),
        legal(b, bits),
        legal(a - b + bias_of(bits), bits),
    ensures
        (Kernel::AddDiff.eval(a, Kernel::MakeDiff.eval(a, b, bits), bits) == b) <==> (a == b),
{
    lemma_bits_ranges(bits);
}

/// Encoding and decoding saturate at the ends of the range rather than
/// wrapping around.
pub proof fn lemma_diff_saturates(x: int, y: int, bits: u32)
    requires
        valid_bits(bits),
    ensures
        x + y - bias_of(bits) > max_of(bits) ==> Kernel::AddDiff.eval(x, y, bits) == max_of(bits),
        x + y - bias_of(bits) < 0 ==> Kernel::AddDiff.eval(x, y, bits) == 0,
        x - y + bias_of(bits) > max_of(bits) ==> Kernel::MakeDiff.eval(x, y, bits) == max_of(bits),
        x - y + bias_of(bits) < 0 ==> Kernel::MakeDiff.eval(x, y, bits) == 0,
{
}

/// Sharpening with strength zero leaves the sample unchanged.
pub proof fn lemma_sharp_zero_strength(x: int, blurred: int, s: Scale, bits: u32)
    requires
        valid_bits(bits),
        legal(x, bits),
        s.wf(),
        s.num == 0,
    ensures
        Kernel::Sharp(s).eval(x, blurred, bits) == x,
{
    assert((x - blurred) * 0 == 0);
}

proof fn lemma_unit_scale(v: int, s: Scale)
    requires
        s.wf(),
        s.num as int == s.den as int,
    ensures
        s.apply(v) == v,
{
    let n = s.den as int;
    if v >= 0 {
        assert((v * n) / n == v) by (nonlinear_arith)
            requires
                v >= 0,
                n > 0,
        ;
    } else {
        assert(-(v * n) == (-v) * n) by (nonlinear_arith);
        assert(((-v) * n) / n == -v) by (nonlinear_arith)
            requires
                v < 0,
                n > 0,
        ;
        assert(v * n < 0) by (nonlinear_arith)
            requires
                v < 0,
                n > 0,
        ;
    }
}

/// With a unit scale the limited difference keeps whichever operand lies
/// closer to the bias, whether or not their deviations agree in sign.
pub proof fn lemma_limd_unit_scale(x: int, y: int, s: Scale, bits: u32)
    requires
        valid_bits(bits),
        legal(x, bits),
        legal(y, bits),
        s.wf(),
        s.num as int == s.den as int,
    ensures
        Kernel::LimD(s).eval(x, y, bits) == if abs_spec(x - bias_of(bits)) < abs_spec(
            y - bias_of(bits),
        ) {
            x
        } else {
            y
        },
{
    lemma_unit_scale(x - bias_of(bits), s);
    lemma_unit_scale(y - bias_of(bits), s);
}

} // verus!
