use crate::error::FormatMismatch;
use crate::frame::{in_range, Frame, Plane};
use crate::kernels::{median3_spec, median_of3, Kernel};
use crate::sample::{valid_bits, Scale};
use vstd::prelude::*;

verus! {

/// `r` is `a` and `b` combined sample by sample through `k`: same format
/// as `a`, and each sample the kernel's value on the two operand samples.
pub open spec fn is_combined(r: &Frame, a: &Frame, b: &Frame, k: Kernel) -> bool {
    &&& r.wf()
    &&& r.same_format(a)
    &&& forall|p: int| 0 <= p < a.planes@.len() ==> #[trigger] r.plane_len(p) == a.plane_len(p)
    &&& forall|p: int, i: int|
        0 <= p < a.planes@.len() && 0 <= i < a.plane_len(p) ==> #[trigger] r.sample(p, i) == k.eval(
            a.sample(p, i),
            b.sample(p, i),
            a.bits,
        )
}

/// Operands that a two-input kernel accepts.
pub open spec fn operands_ok(a: &Frame, b: &Frame) -> bool {
    a.wf() && b.wf() && a.same_format(b)
}

fn combine_plane(k: Kernel, a: &Plane, b: &Plane, bits: u32) -> (r: Plane)
    requires
        k.wf(),
        valid_bits(bits),
        a.wf(bits),
        b.wf(bits),
        a.same_shape(b),
    ensures
        r.wf(bits),
        r.same_shape(a),
        r.samples@.len() == a.samples@.len(),
        forall|i: int|
            0 <= i < a.samples@.len() ==> #[trigger] r.samples@[i] as int == k.eval(
                a.samples@[i] as int,
                b.samples@[i] as int,
                bits,
            ),
{
    let n = a.samples.len();
    let mut out: Vec<u32> = Vec::with_capacity(n);
    let mut i: usize = 0;
    while i < n
        invariant
            n == a.samples@.len(),
            n == b.samples@.len(),
            i <= n,
            out@.len() == i,
            k.wf(),
            valid_bits(bits),
            a.wf(bits),
            b.wf(bits),
            forall|j: int|
                0 <= j < i ==> #[trigger] out@[j] as int == k.eval(
                    a.samples@[j] as int,
                    b.samples@[j] as int,
                    bits,
                ),
            in_range(out@, bits),
        decreases n - i,
    {
        let v = k.apply(a.samples[i], b.samples[i], bits);
        out.push(v);
        i = i + 1;
    }
    Plane { width: a.width, height: a.height, samples: out }
}

/// Applies kernel `k` to every sample of every plane of `a` and `b`.
pub fn combine(k: Kernel, a: &Frame, b: &Frame) -> (r: Frame)
    requires
        k.wf(),
        operands_ok(a, b),
    ensures
        is_combined(&r, a, b, k),
{
    let count = a.planes.len();
    let mut planes: Vec<Plane> = Vec::with_capacity(count);
    let mut p: usize = 0;
    while p < count
        invariant
            count == a.planes@.len(),
            p <= count,
            planes@.len() == p,
            k.wf(),
            operands_ok(a, b),
            forall|q: int| 0 <= q < p ==> #[trigger] planes@[q].wf(a.bits),
            forall|q: int| 0 <= q < p ==> #[trigger] planes@[q].same_shape(&a.planes@[q]),
            forall|q: int|
                0 <= q < p ==> #[trigger] planes@[q].samples@.len() == a.planes@[q].samples@.len(),
            forall|q: int, i: int|
                0 <= q < p && 0 <= i < a.plane_len(q) ==> #[trigger] planes@[q].samples@[i] as int
                    == k.eval(a.sample(q, i), b.sample(q, i), a.bits),
        decreases count - p,
    {
        assert(a.planes@[p as int].wf(a.bits));
        assert(b.planes@[p as int].wf(a.bits));
        assert(a.planes@[p as int].same_shape(&b.planes@[p as int]));
        let plane = combine_plane(k, &a.planes[p], &b.planes[p], a.bits);
        planes.push(plane);
        p = p + 1;
    }
    let r = Frame { bits: a.bits, planes };
    assert forall|q: int, i: int|
        0 <= q < a.planes@.len() && 0 <= i < a.plane_len(q) implies #[trigger] r.sample(q, i)
        == k.eval(a.sample(q, i), b.sample(q, i), a.bits) by {
        assert(planes@[q].samples@[i] as int == k.eval(a.sample(q, i), b.sample(q, i), a.bits));
    }
    r
}

/// Sample-wise minimum.
pub fn min(a: &Frame, b: &Frame) -> (r: Frame)
    requires
        operands_ok(a, b),
    ensures
        is_combined(&r, a, b, Kernel::Min),
{
    combine(Kernel::Min, a, b)
}

/// Sample-wise maximum.
pub fn max(a: &Frame, b: &Frame) -> (r: Frame)
    requires
        operands_ok(a, b),
    ensures
        is_combined(&r, a, b, Kernel::Max),
{
    combine(Kernel::Max, a, b)
}

/// Sample-wise absolute difference.
pub fn lutxy_diff(a: &Frame, b: &Frame) -> (r: Frame)
    requires
        operands_ok(a, b),
    ensures
        is_combined(&r, a, b, Kernel::Diff),
{
    combine(Kernel::Diff, a, b)
}

/// Sample-wise `a - b`, encoded around the bias.
pub fn make_diff(a: &Frame, b: &Frame) -> (r: Frame)
    requires
        operands_ok(a, b),
    ensures
        is_combined(&r, a, b, Kernel::MakeDiff),
{
    combine(Kernel::MakeDiff, a, b)
}

/// Sample-wise `a + b - bias`: adds a bias-encoded difference back.
pub fn add_diff(a: &Frame, b: &Frame) -> (r: Frame)
    requires
        operands_ok(a, b),
    ensures
        is_combined(&r, a, b, Kernel::AddDiff),
{
    combine(Kernel::AddDiff, a, b)
}

/// Unsharp-mask contra-sharpening of `cur` against its blurred version.
pub fn lutxy_sharp(cur: &Frame, blurred: &Frame, strength: Scale) -> (r: Frame)
    requires
        operands_ok(cur, blurred),
        strength.wf(),
    ensures
        is_combined(&r, cur, blurred, Kernel::Sharp(strength)),
{
    combine(Kernel::Sharp(strength), cur, blurred)
}

/// The bias-encoded sharpening delta of `cur` against its blurred version.
pub fn lutxy_sharpd(cur: &Frame, blurred: &Frame, strength: Scale) -> (r: Frame)
    requires
        operands_ok(cur, blurred),
        strength.wf(),
    ensures
        is_combined(&r, cur, blurred, Kernel::SharpD(strength)),
{
    combine(Kernel::SharpD(strength), cur, blurred)
}

/// Limited difference of two bias-encoded differences.
pub fn lutxy_limd(a: &Frame, b: &Frame, scale: Scale) -> (r: Frame)
    requires
        operands_ok(a, b),
        scale.wf(),
    ensures
        is_combined(&r, a, b, Kernel::LimD(scale)),
{
    combine(Kernel::LimD(scale), a, b)
}

/// The first disagreement of `b` or `c` with `a`, checked in this order:
/// plane counts, bit depths, plane dimensions.
pub open spec fn median3_mismatch(a: &Frame, b: &Frame, c: &Frame) -> Option<FormatMismatch> {
    if b.planes@.len() != a.planes@.len() {
        Some(
            FormatMismatch::PlaneCount {
                operand: 2,
                found: b.planes@.len() as usize,
                expected: a.planes@.len() as usize,
            },
        )
    } else if c.planes@.len() != a.planes@.len() {
        Some(
            FormatMismatch::PlaneCount {
                operand: 3,
                found: c.planes@.len() as usize,
                expected: a.planes@.len() as usize,
            },
        )
    } else if b.bits != a.bits {
        Some(FormatMismatch::BitDepth { operand: 2, found: b.bits, expected: a.bits })
    } else if c.bits != a.bits {
        Some(FormatMismatch::BitDepth { operand: 3, found: c.bits, expected: a.bits })
    } else if !a.same_format(b) {
        Some(FormatMismatch::PlaneSize { operand: 2 })
    } else if !a.same_format(c) {
        Some(FormatMismatch::PlaneSize { operand: 3 })
    } else {
        None
    }
}

/// How many leading planes a three-input median computes.
pub open spec fn median_planes(count: int, process_chroma: bool) -> int {
    if process_chroma {
        count
    } else {
        1
    }
}

/// Whether the planes of two frames have the same dimensions pairwise.
fn same_shapes(a: &Frame, b: &Frame) -> (r: bool)
    requires
        a.planes@.len() == b.planes@.len(),
        a.bits == b.bits,
    ensures
        r == a.same_format(b),
{
    let mut p: usize = 0;
    while p < a.planes.len()
        invariant
            p <= a.planes@.len(),
            a.planes@.len() == b.planes@.len(),
            forall|q: int| 0 <= q < p ==> #[trigger] a.planes@[q].same_shape(&b.planes@[q]),
        decreases a.planes@.len() - p,
    {
        if a.planes[p].width != b.planes[p].width || a.planes[p].height != b.planes[p].height {
            assert(!a.planes@[p as int].same_shape(&b.planes@[p as int]));
            return false;
        }
        p = p + 1;
    }
    true
}

fn median_plane(a: &Plane, b: &Plane, c: &Plane, bits: u32) -> (r: Plane)
    requires
        valid_bits(bits),
        a.wf(bits),
        b.wf(bits),
        c.wf(bits),
        a.same_shape(b),
        a.same_shape(c),
    ensures
        r.wf(bits),
        r.same_shape(a),
        r.samples@.len() == a.samples@.len(),
        forall|i: int|
            0 <= i < a.samples@.len() ==> #[trigger] r.samples@[i] as int == median3_spec(
                a.samples@[i] as int,
                b.samples@[i] as int,
                c.samples@[i] as int,
            ),
{
    let n = a.samples.len();
    let mut out: Vec<u32> = Vec::with_capacity(n);
    let mut i: usize = 0;
    while i < n
        invariant
            n == a.samples@.len(),
            n == b.samples@.len(),
            n == c.samples@.len(),
            i <= n,
            out@.len() == i,
            a.wf(bits),
            b.wf(bits),
            c.wf(bits),
            forall|j: int|
                0 <= j < i ==> #[trigger] out@[j] as int == median3_spec(
                    a.samples@[j] as int,
                    b.samples@[j] as int,
                    c.samples@[j] as int,
                ),
            in_range(out@, bits),
        decreases n - i,
    {
        let x = a.samples[i];
        let y = b.samples[i];
        let z = c.samples[i];
        let v = median_of3(x, y, z);
        out.push(v);
        i = i + 1;
    }
    Plane { width: a.width, height: a.height, samples: out }
}

fn copy_plane(a: &Plane) -> (r: Plane)
    ensures
        r.width == a.width,
        r.height == a.height,
        r.samples@ == a.samples@,
{
    let n = a.samples.len();
    let mut out: Vec<u32> = Vec::with_capacity(n);
    let mut i: usize = 0;
    while i < n
        invariant
            n == a.samples@.len(),
            i <= n,
            out@ == a.samples@.subrange(0, i as int),
        decreases n - i,
    {
        out.push(a.samples[i]);
        i = i + 1;
        assert(out@ =~= a.samples@.subrange(0, i as int));
    }
    assert(out@ =~= a.samples@);
    Plane { width: a.width, height: a.height, samples: out }
}

/// Whether two frames have the same depth, plane count and plane sizes.
pub fn formats_match(a: &Frame, b: &Frame) -> (r: bool)
    ensures
        r == a.same_format(b),
{
    if a.bits != b.bits || a.planes.len() != b.planes.len() {
        return false;
    }
    same_shapes(a, b)
}

/// Checks `b` and `c` against `a`, reporting the first disagreement.
pub fn check_formats(a: &Frame, b: &Frame, c: &Frame) -> (r: Result<(), FormatMismatch>)
    ensures
        r is Err <==> median3_mismatch(a, b, c) is Some,
        r is Err ==> median3_mismatch(a, b, c) == Some(r->Err_0),
{
    if b.planes.len() != a.planes.len() {
        return Err(
            FormatMismatch::PlaneCount {
                operand: 2,
                found: b.planes.len(),
                expected: a.planes.len(),
            },
        );
    }
    if c.planes.len() != a.planes.len() {
        return Err(
            FormatMismatch::PlaneCount {
                operand: 3,
                found: c.planes.len(),
                expected: a.planes.len(),
            },
        );
    }
    if b.bits != a.bits {
        return Err(FormatMismatch::BitDepth { operand: 2, found: b.bits, expected: a.bits });
    }
    if c.bits != a.bits {
        return Err(FormatMismatch::BitDepth { operand: 3, found: c.bits, expected: a.bits });
    }
    if !same_shapes(a, b) {
        return Err(FormatMismatch::PlaneSize { operand: 2 });
    }
    if !same_shapes(a, c) {
        return Err(FormatMismatch::PlaneSize { operand: 3 });
    }
    Ok(())
}

/// Sample-wise median of three frames. Without `process_chroma` only the
/// first plane is computed; the others are copied from `a`. Fails when `b`
/// or `c` disagrees with `a` in plane count, bit depth or plane size.
pub fn median3(a: &Frame, b: &Frame, c: &Frame, process_chroma: bool) -> (r: Result<
    Frame,
    FormatMismatch,
>)
    requires
        a.wf(),
        b.wf(),
        c.wf(),
    ensures
        r is Err <==> median3_mismatch(a, b, c) is Some,
        r is Err ==> median3_mismatch(a, b, c) == Some(r->Err_0),
        r is Ok ==> {
            let f = r->Ok_0;
            &&& f.wf()
            &&& f.same_format(a)
            &&& forall|p: int|
                0 <= p < a.planes@.len() ==> #[trigger] f.plane_len(p) == a.plane_len(p)
            &&& forall|p: int, i: int|
                0 <= p < median_planes(a.planes@.len() as int, process_chroma) && 0 <= i
                    < a.plane_len(p) ==> #[trigger] f.sample(p, i) == median3_spec(
                    a.sample(p, i),
                    b.sample(p, i),
                    c.sample(p, i),
                )
            &&& forall|p: int|
                median_planes(a.planes@.len() as int, process_chroma) <= p < a.planes@.len()
                    ==> #[trigger] f.planes@[p].samples@ == a.planes@[p].samples@
        },
{
    if let Err(e) = check_formats(a, b, c) {
        return Err(e);
    }
    let count = a.planes.len();
    let limit: usize = if process_chroma {
        count
    } else {
        1
    };
    let mut planes: Vec<Plane> = Vec::with_capacity(count);
    let mut p: usize = 0;
    while p < count
        invariant
            count == a.planes@.len(),
            limit == median_planes(count as int, process_chroma),
            1 <= limit <= count,
            p <= count,
            planes@.len() == p,
            a.wf(),
            b.wf(),
            c.wf(),
            a.same_format(b),
            a.same_format(c),
            forall|q: int| 0 <= q < p ==> #[trigger] planes@[q].wf(a.bits),
            forall|q: int| 0 <= q < p ==> #[trigger] planes@[q].same_shape(&a.planes@[q]),
            forall|q: int|
                0 <= q < p ==> #[trigger] planes@[q].samples@.len() == a.planes@[q].samples@.len(),
            forall|q: int, i: int|
                0 <= q < p && q < limit && 0 <= i < a.plane_len(q)
                    ==> #[trigger] planes@[q].samples@[i] as int == median3_spec(
                    a.sample(q, i),
                    b.sample(q, i),
                    c.sample(q, i),
                ),
            forall|q: int| limit <= q < p ==> #[trigger] planes@[q].samples@ == a.planes@[q].samples@,
        decreases count - p,
    {
        assert(a.planes@[p as int].wf(a.bits));
        assert(b.planes@[p as int].wf(a.bits));
        assert(c.planes@[p as int].wf(a.bits));
        assert(a.planes@[p as int].same_shape(&b.planes@[p as int]));
        assert(a.planes@[p as int].same_shape(&c.planes@[p as int]));
        let plane = if p < limit {
            median_plane(&a.planes[p], &b.planes[p], &c.planes[p], a.bits)
        } else {
            copy_plane(&a.planes[p])
        };
        planes.push(plane);
        p = p + 1;
    }
    let r = Frame { bits: a.bits, planes };
    assert forall|q: int, i: int|
        0 <= q < limit && 0 <= i < a.plane_len(q) implies #[trigger] r.sample(q, i)
        == median3_spec(a.sample(q, i), b.sample(q, i), c.sample(q, i)) by {
        assert(planes@[q].samples@[i] as int == median3_spec(
            a.sample(q, i),
            b.sample(q, i),
            c.sample(q, i),
        ));
    }
    Ok(r)
}

} // verus!
