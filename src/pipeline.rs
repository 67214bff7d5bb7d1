use crate::config::Config;
use crate::error::StinxError;
use crate::frame::{in_range, lemma_same_format, Frame, Plane};
use crate::kernels::{abs_spec, clamp_sample, median3_spec, median_of3, scale_apply, Kernel};
use crate::laws::legal;
use crate::ops::{
    add_diff, check_formats, lutxy_limd, lutxy_sharp, lutxy_sharpd, make_diff,
    median3, median3_mismatch,
};
use crate::sample::{clamp_spec, lemma_bits_ranges, max_of, valid_bits, Scale};
use vstd::prelude::*;

verus! {

/// One output sample of contra-sharpening: `n` the repaired (nuked)
/// sample, `nb` its twice-blurred version, `s` the source sample.
pub open spec fn contra_sample(n: int, nb: int, s: int, sstr: Scale, scl: Scale, bits: u32) -> int {
    let sharp = Kernel::Sharp(sstr).eval(n, nb, bits);
    if scl.num == 0 {
        median3_spec(n, sharp, s)
    } else {
        let nukedd = Kernel::MakeDiff.eval(s, n, bits);
        let sharpd = Kernel::SharpD(sstr).eval(n, nb, bits);
        let limd = Kernel::LimD(scl).eval(sharpd, nukedd, bits);
        Kernel::AddDiff.eval(n, limd, bits)
    }
}

/// `r` has the format of `a` and each of its samples is `f` of the three
/// operands' samples.
pub open spec fn is_combined3(
    r: &Frame,
    a: &Frame,
    b: &Frame,
    c: &Frame,
    f: spec_fn(int, int, int) -> int,
) -> bool {
    &&& r.wf()
    &&& r.same_format(a)
    &&& forall|p: int| 0 <= p < a.planes@.len() ==> #[trigger] r.plane_len(p) == a.plane_len(p)
    &&& forall|p: int, i: int|
        0 <= p < a.planes@.len() && 0 <= i < a.plane_len(p) ==> #[trigger] r.sample(p, i) == f(
            a.sample(p, i),
            b.sample(p, i),
            c.sample(p, i),
        )
}

/// Contra-sharpens the repaired frame `nuked` against its twice-blurred
/// version and the source: with a zero limit scale the result is the median
/// of `nuked`, its sharpened version and the source; otherwise the
/// sharpening delta is limited by the source's own deviation from `nuked`
/// and added back.
pub fn contra_sharpen(
    nuked: &Frame,
    nuked_blurred: &Frame,
    src: &Frame,
    sstr: Scale,
    scl: Scale,
) -> (r: Result<Frame, StinxError>)
    requires
        nuked.wf(),
        nuked_blurred.wf(),
        src.wf(),
        sstr.wf(),
        scl.wf(),
    ensures
        r is Err <==> median3_mismatch(nuked, nuked_blurred, src) is Some,
        r is Err ==> r->Err_0 == StinxError::FormatMismatch(
            median3_mismatch(nuked, nuked_blurred, src)->0,
        ),
        r is Ok ==> is_combined3(
            &r->Ok_0,
            nuked,
            nuked_blurred,
            src,
            |n: int, nb: int, s: int| contra_sample(n, nb, s, sstr, scl, nuked.bits),
        ),
{
    if let Err(e) = check_formats(nuked, nuked_blurred, src) {
        return Err(StinxError::FormatMismatch(e));
    }
    let sharp = lutxy_sharp(nuked, nuked_blurred, sstr);
    if scl.is_zero() {
        assert forall|p: int| 0 <= p < nuked.planes@.len() implies #[trigger] nuked.planes@[p].same_shape(
            &sharp.planes@[p],
        ) by {
            assert(sharp.planes@[p].same_shape(&nuked.planes@[p]));
        }
        assert(nuked.same_format(&sharp));
        let r = median3(nuked, &sharp, src, true);
        match r {
            Ok(f) => {
                return Ok(f);
            },
            Err(e) => {
                return Err(StinxError::FormatMismatch(e));
            },
        }
    }
    proof {
        lemma_same_format(nuked, src, nuked);
    }
    let nukedd = make_diff(src, nuked);
    let sharpd = lutxy_sharpd(nuked, nuked_blurred, sstr);
    proof {
        lemma_same_format(&sharpd, nuked, src);
        lemma_same_format(&nukedd, src, src);
        lemma_same_format(&sharpd, src, &nukedd);
    }
    let limd = lutxy_limd(&sharpd, &nukedd, scl);
    proof {
        lemma_same_format(&sharpd, nuked, nuked);
        lemma_same_format(&limd, &sharpd, &sharpd);
        lemma_same_format(nuked, &sharpd, &limd);
    }
    let out = add_diff(nuked, &limd);
    assert forall|p: int, i: int|
        0 <= p < nuked.planes@.len() && 0 <= i < nuked.plane_len(p) implies #[trigger] out.sample(
        p,
        i,
    ) == contra_sample(
        nuked.sample(p, i),
        nuked_blurred.sample(p, i),
        src.sample(p, i),
        sstr,
        scl,
        nuked.bits,
    ) by {
        assert(nuked.planes@[p].same_shape(&src.planes@[p]));
        assert(nuked.planes@[p].wf(nuked.bits));
        assert(src.planes@[p].wf(nuked.bits));
        assert(sharpd.sample(p, i) == Kernel::SharpD(sstr).eval(
            nuked.sample(p, i),
            nuked_blurred.sample(p, i),
            nuked.bits,
        ));
        assert(nukedd.sample(p, i) == Kernel::MakeDiff.eval(
            src.sample(p, i),
            nuked.sample(p, i),
            nuked.bits,
        ));
        assert(limd.sample(p, i) == Kernel::LimD(scl).eval(
            sharpd.sample(p, i),
            nukedd.sample(p, i),
            nuked.bits,
        ));
    }
    Ok(out)
}

/// One output sample of the temporal limiter: the median of `f` and the
/// band of half-width `s * d` around `c`, the band's ends clamped to range.
pub open spec fn limit_sample(c: int, f: int, d: int, s: Scale, bits: u32) -> int {
    median3_spec(
        clamp_spec(c - s.apply(d), bits),
        clamp_spec(c + s.apply(d), bits),
        f,
    )
}

fn limit_plane(c: &Plane, f: &Plane, d: &Plane, s: Scale, bits: u32) -> (r: Plane)
    requires
        valid_bits(bits),
        s.wf(),
        s.num >= 0,
        c.wf(bits),
        f.wf(bits),
        d.wf(bits),
        c.same_shape(f),
        c.same_shape(d),
    ensures
        r.wf(bits),
        r.same_shape(c),
        r.samples@.len() == c.samples@.len(),
        forall|i: int|
            0 <= i < c.samples@.len() ==> #[trigger] r.samples@[i] as int == limit_sample(
                c.samples@[i] as int,
                f.samples@[i] as int,
                d.samples@[i] as int,
                s,
                bits,
            ),
{
    proof {
        lemma_bits_ranges(bits);
    }
    let n = c.samples.len();
    let mut out: Vec<u32> = Vec::with_capacity(n);
    let mut i: usize = 0;
    while i < n
        invariant
            n == c.samples@.len(),
            n == f.samples@.len(),
            n == d.samples@.len(),
            i <= n,
            out@.len() == i,
            valid_bits(bits),
            1 <= max_of(bits) <= 0xffff_ffff,
            s.wf(),
            c.wf(bits),
            f.wf(bits),
            d.wf(bits),
            forall|j: int|
                0 <= j < i ==> #[trigger] out@[j] as int == limit_sample(
                    c.samples@[j] as int,
                    f.samples@[j] as int,
                    d.samples@[j] as int,
                    s,
                    bits,
                ),
            in_range(out@, bits),
        decreases n - i,
    {
        let cv = c.samples[i] as i128;
        let fv = f.samples[i];
        let dv = d.samples[i] as i128;
        let m = scale_apply(s, dv);
        let lo = clamp_sample(cv - m, bits);
        let hi = clamp_sample(cv + m, bits);
        let v = median_of3(lo, hi, fv);
        proof {
            lemma_median_legal(lo as int, hi as int, fv as int, bits);
        }
        out.push(v);
        i = i + 1;
    }
    Plane { width: c.width, height: c.height, samples: out }
}

proof fn lemma_median_legal(x: int, y: int, z: int, bits: u32)
    requires
        legal(x, bits),
        legal(y, bits),
        legal(z, bits),
    ensures
        legal(median3_spec(x, y, z), bits),
{
}

/// Final stage of the temporal limiter: bounds `flt` to within
/// `diffscl * diff2` of `clip` at every sample, as the median of `flt` and
/// the two ends of that band.
pub fn temp_limit_frame(clip: &Frame, flt: &Frame, diff2: &Frame, diffscl: Scale) -> (r: Result<
    Frame,
    StinxError,
>)
    requires
        clip.wf(),
        flt.wf(),
        diff2.wf(),
        diffscl.wf(),
        diffscl.num >= 0,
    ensures
        r is Err <==> median3_mismatch(clip, flt, diff2) is Some,
        r is Err ==> r->Err_0 == StinxError::FormatMismatch(
            median3_mismatch(clip, flt, diff2)->0,
        ),
        r is Ok ==> is_combined3(
            &r->Ok_0,
            clip,
            flt,
            diff2,
            |c: int, f: int, d: int| limit_sample(c, f, d, diffscl, clip.bits),
        ),
{
    if let Err(e) = check_formats(clip, flt, diff2) {
        return Err(StinxError::FormatMismatch(e));
    }
    let count = clip.planes.len();
    let mut planes: Vec<Plane> = Vec::with_capacity(count);
    let mut p: usize = 0;
    while p < count
        invariant
            count == clip.planes@.len(),
            p <= count,
            planes@.len() == p,
            clip.wf(),
            flt.wf(),
            diff2.wf(),
            diffscl.wf(),
            diffscl.num >= 0,
            clip.same_format(flt),
            clip.same_format(diff2),
            forall|q: int| 0 <= q < p ==> #[trigger] planes@[q].wf(clip.bits),
            forall|q: int| 0 <= q < p ==> #[trigger] planes@[q].same_shape(&clip.planes@[q]),
            forall|q: int|
                0 <= q < p ==> #[trigger] planes@[q].samples@.len()
                    == clip.planes@[q].samples@.len(),
            forall|q: int, i: int|
                0 <= q < p && 0 <= i < clip.plane_len(q) ==> #[trigger] planes@[q].samples@[i] as int
                    == limit_sample(
                    clip.sample(q, i),
                    flt.sample(q, i),
                    diff2.sample(q, i),
                    diffscl,
                    clip.bits,
                ),
        decreases count - p,
    {
        assert(clip.planes@[p as int].wf(clip.bits));
        assert(flt.planes@[p as int].wf(clip.bits));
        assert(diff2.planes@[p as int].wf(clip.bits));
        assert(clip.planes@[p as int].same_shape(&flt.planes@[p as int]));
        assert(clip.planes@[p as int].same_shape(&diff2.planes@[p as int]));
        let plane = limit_plane(&clip.planes[p], &flt.planes[p], &diff2.planes[p], diffscl, clip.bits);
        planes.push(plane);
        p = p + 1;
    }
    let r = Frame { bits: clip.bits, planes };
    assert forall|q: int, i: int|
        0 <= q < clip.planes@.len() && 0 <= i < clip.plane_len(q) implies #[trigger] r.sample(q, i)
        == limit_sample(clip.sample(q, i), flt.sample(q, i), diff2.sample(q, i), diffscl, clip.bits) by {
        assert(planes@[q].samples@[i] as int == limit_sample(
            clip.sample(q, i),
            flt.sample(q, i),
            diff2.sample(q, i),
            diffscl,
            clip.bits,
        ));
    }
    Ok(r)
}

/// The limiter never moves a sample further from `clip` than
/// `diffscl * diff2`, whatever the filtered sample: the distance is at most
/// the scaled bound rounded toward zero, and so at most the exact product.
pub proof fn lemma_temp_limit_bound(c: int, f: int, d: int, s: Scale, bits: u32)
    requires
        valid_bits(bits),
        legal(c, bits),
        legal(f, bits),
        legal(d, bits),
        s.wf(),
        s.num >= 0,
    ensures
        abs_spec(limit_sample(c, f, d, s, bits) - c) <= s.apply(d),
        abs_spec(limit_sample(c, f, d, s, bits) - c) * s.den <= s.num * d,
{
    let n = s.num as int;
    let den = s.den as int;
    assert(d * n >= 0) by (nonlinear_arith)
        requires
            d >= 0,
            n >= 0,
    ;
    let m = s.apply(d);
    assert(m == (d * n) / den);
    assert(0 <= m && m * den <= d * n) by (nonlinear_arith)
        requires
            m == (d * n) / den,
            d * n >= 0,
            den > 0,
    ;
    let out = limit_sample(c, f, d, s, bits);
    assert(c - m <= out <= c + m);
    assert(abs_spec(out - c) * den <= m * den) by (nonlinear_arith)
        requires
            abs_spec(out - c) <= m,
            den > 0,
    ;
    assert(n * d == d * n) by (nonlinear_arith);
}

/// An upstream clip whose frame the pipeline's last stage needs.
#[derive(Clone, Copy, Debug, PartialEq, Eq, Structural)]
pub enum Upstream {
    /// The untouched source.
    Source,
    /// The repaired, averaged and optionally blurred clip.
    Nuked,
    /// `Nuked` blurred twice more, for contra-sharpening.
    NukedBlurred,
}

/// The last stage of the pipeline, run once per output frame: it returns
/// the repaired frame as it is, or contra-sharpens it.
#[derive(Clone, Copy, Debug, PartialEq, Eq, Structural)]
pub struct Mpeg2Stinx {
    pub contra: bool,
    pub sstr: Scale,
    pub scl: Scale,
}

impl Mpeg2Stinx {
    pub open spec fn wf(self) -> bool {
        self.sstr.wf() && self.scl.wf()
    }

    pub fn new(config: &Config) -> (r: Mpeg2Stinx)
        requires
            config.wf(),
        ensures
            r.wf(),
            r.contra == config.contra,
            r.sstr == config.sstr,
            r.scl == config.scl,
    {
        Mpeg2Stinx { contra: config.contra, sstr: config.sstr, scl: config.scl }
    }

    /// The frames to request before computing an output frame.
    pub fn get_frame_initial(&self) -> (r: Vec<Upstream>)
        ensures
            r@ == if self.contra {
                seq![Upstream::Source, Upstream::Nuked, Upstream::NukedBlurred]
            } else {
                seq![Upstream::Source, Upstream::Nuked]
            },
    {
        let mut r: Vec<Upstream> = Vec::new();
        r.push(Upstream::Source);
        r.push(Upstream::Nuked);
        if self.contra {
            r.push(Upstream::NukedBlurred);
        }
        assert(r@ =~= if self.contra {
            seq![Upstream::Source, Upstream::Nuked, Upstream::NukedBlurred]
        } else {
            seq![Upstream::Source, Upstream::Nuked]
        });
        r
    }

    /// Computes one output frame from the requested frames; a missing one
    /// that is needed fails the frame.
    pub fn get_frame(&self, src: Option<Frame>, nuked: Option<Frame>, nuked_blurred: Option<Frame>) -> (r:
        Result<Frame, StinxError>)
        requires
            self.wf(),
            src is Some ==> src->0.wf(),
            nuked is Some ==> nuked->0.wf(),
            nuked_blurred is Some ==> nuked_blurred->0.wf(),
        ensures
            nuked is None ==> r == Err::<Frame, StinxError>(StinxError::DependencyUnavailable),
            nuked is Some && !self.contra ==> r == Ok::<Frame, StinxError>(nuked->0),
            nuked is Some && self.contra && (src is None || nuked_blurred is None) ==> r == Err::<
                Frame,
                StinxError,
            >(StinxError::DependencyUnavailable),
            nuked is Some && self.contra && src is Some && nuked_blurred is Some ==> {
                let n = nuked->0;
                let nb = nuked_blurred->0;
                let s = src->0;
                &&& r is Err <==> median3_mismatch(&n, &nb, &s) is Some
                &&& r is Err ==> r->Err_0 == StinxError::FormatMismatch(
                    median3_mismatch(&n, &nb, &s)->0,
                )
                &&& r is Ok ==> is_combined3(
                    &r->Ok_0,
                    &n,
                    &nb,
                    &s,
                    |a: int, b: int, c: int| contra_sample(a, b, c, self.sstr, self.scl, n.bits),
                )
            },
    {
        let nuked = match nuked {
            Some(f) => f,
            None => {
                return Err(StinxError::DependencyUnavailable);
            },
        };
        if !self.contra {
            return Ok(nuked);
        }
        let src = match src {
            Some(f) => f,
            None => {
                return Err(StinxError::DependencyUnavailable);
            },
        };
        let nuked_blurred = match nuked_blurred {
            Some(f) => f,
            None => {
                return Err(StinxError::DependencyUnavailable);
            },
        };
        contra_sharpen(&nuked, &nuked_blurred, &src, self.sstr, self.scl)
    }
}

} // verus!
