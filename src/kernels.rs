use crate::sample::{
    bias_of, bias_value, clamp_spec, lemma_bits_ranges, max_of, max_value, valid_bits, Scale,
};
use vstd::prelude::*;

verus! {

pub open spec fn min_spec(x: int, y: int) -> int {
    if x <= y {
        x
    } else {
        y
    }
}

pub open spec fn max_spec(x: int, y: int) -> int {
    if x >= y {
        x
    } else {
        y
    }
}

pub open spec fn abs_spec(x: int) -> int {
    if x < 0 {
        -x
    } else {
        x
    }
}

/// The middle value of three.
pub open spec fn median3_spec(x: int, y: int, z: int) -> int {
    max_spec(min_spec(x, y), min_spec(max_spec(x, y), z))
}

/// Limited difference: of two biased deviations keep the one of smaller
/// magnitude, scaled by `s` when the two disagree in sign.
pub open spec fn limd_spec(x: int, y: int, s: Scale, bits: u32) -> int {
    let dx = x - bias_of(bits);
    let dy = y - bias_of(bits);
    let pick = if abs_spec(dx) < abs_spec(dy) {
        dx
    } else {
        dy
    };
    let moved = if dx * dy < 0 {
        s.apply(pick)
    } else {
        pick
    };
    clamp_spec(bias_of(bits) + moved, bits)
}

/// A two-operand per-sample kernel.
#[derive(Clone, Copy, Debug, PartialEq, Eq, Structural)]
pub enum Kernel {
    /// Smaller of the two samples.
    Min,
    /// Larger of the two samples.
    Max,
    /// Absolute difference.
    Diff,
    /// Signed difference encoded around the bias.
    MakeDiff,
    /// Adds a bias-encoded difference back.
    AddDiff,
    /// Unsharp mask: `x + (x - y) * s`.
    Sharp(Scale),
    /// Bias-encoded unsharp delta: `bias + (x - y) * s`.
    SharpD(Scale),
    /// Limited difference, see `limd_spec`.
    LimD(Scale),
}

impl Kernel {
    pub open spec fn wf(self) -> bool {
        match self {
            Kernel::Sharp(s) => s.wf(),
            Kernel::SharpD(s) => s.wf(),
            Kernel::LimD(s) => s.wf(),
            _ => true,
        }
    }

    /// What the kernel yields for samples `x` and `y` at depth `bits`.
    pub open spec fn eval(self, x: int, y: int, bits: u32) -> int {
        match self {
            Kernel::Min => min_spec(x, y),
            Kernel::Max => max_spec(x, y),
            Kernel::Diff => clamp_spec(abs_spec(x - y), bits),
            Kernel::MakeDiff => clamp_spec(x - y + bias_of(bits), bits),
            Kernel::AddDiff => clamp_spec(x + y - bias_of(bits), bits),
            Kernel::Sharp(s) => clamp_spec(x + s.apply(x - y), bits),
            Kernel::SharpD(s) => clamp_spec(bias_of(bits) + s.apply(x - y), bits),
            Kernel::LimD(s) => limd_spec(x, y, s, bits),
        }
    }

    /// Applies the kernel to one pair of samples.
    pub fn apply(&self, x: u32, y: u32, bits: u32) -> (r: u32)
        requires
            self.wf(),
            valid_bits(bits),
            x as int <= max_of(bits),
            y as int <= max_of(bits),
        ensures
            r as int == self.eval(x as int, y as int, bits),
            r as int <= max_of(bits),
    {
        proof {
            lemma_bits_ranges(bits);
        }
        let xi = x as i128;
        let yi = y as i128;
        let bias = bias_value(bits) as i128;
        match self {
            Kernel::Min => if x <= y {
                x
            } else {
                y
            },
            Kernel::Max => if x >= y {
                x
            } else {
                y
            },
            Kernel::Diff => {
                let d = if xi >= yi {
                    xi - yi
                } else {
                    yi - xi
                };
                clamp_sample(d, bits)
            },
            Kernel::MakeDiff => clamp_sample(xi - yi + bias, bits),
            Kernel::AddDiff => clamp_sample(xi + yi - bias, bits),
            Kernel::Sharp(s) => {
                let m = scale_apply(*s, xi - yi);
                clamp_sample(xi + m, bits)
            },
            Kernel::SharpD(s) => {
                let m = scale_apply(*s, xi - yi);
                clamp_sample(bias + m, bits)
            },
            Kernel::LimD(s) => {
                let dx = xi - bias;
                let dy = yi - bias;
                let ax = if dx < 0 {
                    -dx
                } else {
                    dx
                };
                let ay = if dy < 0 {
                    -dy
                } else {
                    dy
                };
                let pick = if ax < ay {
                    dx
                } else {
                    dy
                };
                let disagree = (dx < 0 && dy > 0) || (dx > 0 && dy < 0);
                proof {
                    lemma_sign_of_product(dx as int, dy as int);
                }
                let moved = if disagree {
                    scale_apply(*s, pick)
                } else {
                    pick
                };
                clamp_sample(bias + moved, bits)
            },
        }
    }
}

proof fn lemma_sign_of_product(a: int, b: int)
    ensures
        (a * b < 0) == ((a < 0 && b > 0) || (a > 0 && b < 0)),
{
    if a < 0 && b > 0 {
        assert(a * b < 0) by (nonlinear_arith)
            requires
                a < 0 && b > 0,
        ;
    } else if a > 0 && b < 0 {
        assert(a * b < 0) by (nonlinear_arith)
            requires
                a > 0 && b < 0,
        ;
    } else {
        assert(a * b >= 0) by (nonlinear_arith)
            requires
                !((a < 0 && b > 0) || (a > 0 && b < 0)),
        ;
    }
}

/// Bound on intermediate values handled by `scale_apply`.
pub open spec fn in_span(v: int) -> bool {
    -0x2_0000_0000 <= v <= 0x2_0000_0000
}

/// `v * s`, rounded toward zero, in a wide accumulator.
pub(crate) fn scale_apply(s: Scale, v: i128) -> (r: i128)
    requires
        s.wf(),
        in_span(v as int),
    ensures
        r as int == s.apply(v as int),
        -0x1_0000_0000_0000_0000 <= r <= 0x1_0000_0000_0000_0000,
{
    let n = s.num as i128;
    let d = s.den as i128;
    proof {
        lemma_product_bound(v as int, n as int);
    }
    let p = v * n;
    if p >= 0 {
        proof {
            lemma_div_le(p as int, d as int);
        }
        p / d
    } else {
        proof {
            lemma_div_le(-p as int, d as int);
        }
        let q = (-p) / d;
        -q
    }
}

proof fn lemma_product_bound(v: int, n: int)
    requires
        in_span(v),
        -0x8000_0000 <= n <= 0x7fff_ffff,
    ensures
        -0x1_0000_0000_0000_0000 <= v * n <= 0x1_0000_0000_0000_0000,
{
    assert(-0x1_0000_0000_0000_0000 <= v * n <= 0x1_0000_0000_0000_0000) by (nonlinear_arith)
        requires
            -0x2_0000_0000 <= v <= 0x2_0000_0000,
            -0x8000_0000 <= n <= 0x7fff_ffff,
    ;
}

proof fn lemma_div_le(p: int, d: int)
    requires
        p >= 0,
        d >= 1,
    ensures
        0 <= p / d <= p,
{
    assert(0 <= p / d <= p) by (nonlinear_arith)
        requires
            p >= 0,
            d >= 1,
    ;
}

/// Clamps a wide intermediate to the sample range of depth `bits`.
pub fn clamp_sample(v: i128, bits: u32) -> (r: u32)
    requires
        valid_bits(bits),
    ensures
        r as int == clamp_spec(v as int, bits),
        r as int <= max_of(bits),
{
    proof {
        lemma_bits_ranges(bits);
    }
    let m = max_value(bits);
    if v < 0 {
        0
    } else if v > m as i128 {
        m
    } else {
        v as u32
    }
}

/// The middle of three samples.
pub fn median_of3(x: u32, y: u32, z: u32) -> (r: u32)
    ensures
        r as int == median3_spec(x as int, y as int, z as int),
{
    if x > y {
        if y > z {
            y
        } else if x > z {
            z
        } else {
            x
        }
    } else {
        if x > z {
            x
        } else if y > z {
            z
        } else {
            y
        }
    }
}

} // verus!
