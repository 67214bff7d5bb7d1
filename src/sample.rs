use vstd::arithmetic::power2::{lemma2_to64, lemma_pow2_pos, lemma_pow2_unfold, pow2};
use vstd::prelude::*;

verus! {

/// Largest bit depth a sample may have.
pub const MAX_BITS: u32 = 32;

/// Whether `bits` is a supported sample bit depth.
pub open spec fn valid_bits(bits: u32) -> bool {
    1 <= bits && bits <= MAX_BITS
}

/// Largest representable sample value at the given bit depth.
pub open spec fn max_of(bits: u32) -> int {
    pow2(bits as nat) - 1
}

/// The bias around which signed differences are encoded.
pub open spec fn bias_of(bits: u32) -> int {
    pow2((bits / 2) as nat) as int
}

/// Clamp to the legal sample range of the given bit depth.
pub open spec fn clamp_spec(v: int, bits: u32) -> int {
    if v < 0 {
        0
    } else if v > max_of(bits) {
        max_of(bits)
    } else {
        v
    }
}

/// Division rounding toward zero, as integer casts of products do.
pub open spec fn trunc_div(n: int, d: int) -> int {
    if n >= 0 {
        n / d
    } else {
        -((-n) / d)
    }
}

/// A rational multiplier `num / den` used for strengths and scales.
#[derive(Clone, Copy, Debug, PartialEq, Eq, Structural)]
pub struct Scale {
    pub num: i32,
    pub den: u32,
}

impl Scale {
    pub open spec fn wf(self) -> bool {
        self.den > 0
    }

    /// `v * num / den`, rounded toward zero.
    pub open spec fn apply(self, v: int) -> int {
        trunc_div(v * self.num, self.den as int)
    }

    pub fn new(num: i32, den: u32) -> (r: Scale)
        requires
            den > 0,
        ensures
            r.num == num,
            r.den == den,
            r.wf(),
    {
        Scale { num, den }
    }

    /// The multiplier one.
    pub fn one() -> (r: Scale)
        ensures
            r == (Scale { num: 1, den: 1 }),
            r.wf(),
    {
        Scale { num: 1, den: 1 }
    }

    pub fn is_zero(&self) -> (r: bool)
        ensures
            r == (self.num == 0),
    {
        self.num == 0
    }

    pub fn is_negative(&self) -> (r: bool)
        ensures
            r == (self.num < 0),
    {
        self.num < 0
    }
}

/// `2^e` as a machine integer.
pub fn pow2_u64(e: u32) -> (r: u64)
    requires
        e <= 32,
    ensures
        r as nat == pow2(e as nat),
{
    let mut r: u64 = 1;
    let mut i: u32 = 0;
    proof {
        lemma2_to64();
    }
    while i < e
        invariant
            i <= e,
            e <= 32,
            r as nat == pow2(i as nat),
            r <= 0x1_0000_0000,
        decreases e - i,
    {
        proof {
            lemma_pow2_unfold((i + 1) as nat);
            lemma_pow2_monotone_32(i as nat + 1);
        }
        r = r * 2;
        i = i + 1;
    }
    r
}

proof fn lemma_pow2_monotone_32(e: nat)
    requires
        e <= 32,
    ensures
        pow2(e) <= 0x1_0000_0000,
    decreases 32 - e,
{
    if e < 32 {
        lemma_pow2_monotone_32(e + 1);
        lemma_pow2_unfold(e + 1);
        lemma_pow2_pos(e);
    } else {
        lemma2_to64();
    }
}

/// Facts about the sample range that callers rely on.
pub proof fn lemma_bits_ranges(bits: u32)
    requires
        valid_bits(bits),
    ensures
        1 <= max_of(bits) <= 0xffff_ffff,
        1 <= bias_of(bits) <= 0x1_0000,
        bias_of(bits) <= max_of(bits),
{
    lemma_pow2_monotone_32(bits as nat);
    lemma_pow2_monotone_up(1, bits as nat);
    lemma_pow2_monotone_up((bits / 2) as nat, 16);
    lemma_pow2_pos((bits / 2) as nat);
    lemma2_to64();
    if bits >= 2 {
        lemma_pow2_strict((bits / 2) as nat, bits as nat);
    }
}

proof fn lemma_pow2_monotone_up(a: nat, b: nat)
    requires
        a <= b,
    ensures
        pow2(a) <= pow2(b),
    decreases b - a,
{
    if a < b {
        lemma_pow2_monotone_up(a, (b - 1) as nat);
        lemma_pow2_unfold(b);
        lemma_pow2_pos((b - 1) as nat);
    }
}

proof fn lemma_pow2_strict(a: nat, b: nat)
    requires
        a < b,
    ensures
        pow2(a) < pow2(b),
{
    lemma_pow2_monotone_up(a, (b - 1) as nat);
    lemma_pow2_unfold(b);
    lemma_pow2_pos((b - 1) as nat);
}

/// Largest sample value at depth `bits`.
pub fn max_value(bits: u32) -> (r: u32)
    requires
        valid_bits(bits),
    ensures
        r as int == max_of(bits),
{
    proof {
        lemma_bits_ranges(bits);
    }
    let p = pow2_u64(bits);
    (p - 1) as u32
}

/// Bias constant around which differences are encoded at depth `bits`.
pub fn bias_value(bits: u32) -> (r: u32)
    requires
        valid_bits(bits),
    ensures
        r as int == bias_of(bits),
{
    proof {
        lemma_bits_ranges(bits);
    }
    let p = pow2_u64(bits / 2);
    p as u32
}

} // verus!
