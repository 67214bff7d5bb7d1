use crate::sample::{max_of, max_value, valid_bits, MAX_BITS};
use vstd::prelude::*;

verus! {

/// One channel's grid of samples, stored row by row.
#[derive(Clone, Debug)]
pub struct Plane {
    pub width: usize,
    pub height: usize,
    pub samples: Vec<u32>,
}

/// One frame: a gray plane, or Y, U and V planes, sharing one bit depth.
#[derive(Clone, Debug)]
pub struct Frame {
    pub bits: u32,
    pub planes: Vec<Plane>,
}

/// Every sample of `s` lies in the range of depth `bits`.
pub open spec fn in_range(s: Seq<u32>, bits: u32) -> bool {
    forall|i: int| 0 <= i < s.len() ==> #[trigger] s[i] as int <= max_of(bits)
}

impl Plane {
    pub open spec fn wf(&self, bits: u32) -> bool {
        &&& self.samples@.len() == self.width * self.height
        &&& in_range(self.samples@, bits)
    }

    pub open spec fn same_shape(&self, o: &Plane) -> bool {
        self.width == o.width && self.height == o.height
    }

    pub fn new(width: usize, height: usize, samples: Vec<u32>) -> (r: Plane)
        ensures
            r.width == width,
            r.height == height,
            r.samples@ == samples@,
    {
        Plane { width, height, samples }
    }

    pub fn width(&self) -> (r: usize)
        ensures
            r == self.width,
    {
        self.width
    }

    pub fn height(&self) -> (r: usize)
        ensures
            r == self.height,
    {
        self.height
    }

    /// Sample at column `x` of row `y`.
    pub fn at(&self, x: usize, y: usize) -> (r: u32)
        requires
            self.samples@.len() == self.width * self.height,
            x < self.width,
            y < self.height,
        ensures
            r == self.samples@[y * self.width + x],
    {
        let n = self.samples.len();
        proof {
            lemma_row_index(x as int, y as int, self.width as int, self.height as int);
            assert(y * self.width + x < n);
            assert(y * self.width <= y * self.width + x);
        }
        self.samples[y * self.width + x]
    }
}

proof fn lemma_row_index(x: int, y: int, w: int, h: int)
    requires
        0 <= x < w,
        0 <= y < h,
    ensures
        0 <= y * w + x < w * h,
{
    assert(0 <= y * w + x < w * h) by (nonlinear_arith)
        requires
            0 <= x < w,
            0 <= y < h,
    ;
}

impl Frame {
    /// Well-formed: a supported depth, one or three planes, every plane
    /// filled and every sample in range.
    pub open spec fn wf(&self) -> bool {
        &&& valid_bits(self.bits)
        &&& (self.planes@.len() == 1 || self.planes@.len() == 3)
        &&& forall|p: int| 0 <= p < self.planes@.len() ==> #[trigger] self.planes@[p].wf(self.bits)
    }

    /// Same depth, plane count and plane dimensions.
    pub open spec fn same_format(&self, o: &Frame) -> bool {
        &&& self.bits == o.bits
        &&& self.planes@.len() == o.planes@.len()
        &&& forall|p: int|
            0 <= p < self.planes@.len() ==> #[trigger] self.planes@[p].same_shape(&o.planes@[p])
    }

    /// Sample `i` of plane `p`.
    pub open spec fn sample(&self, p: int, i: int) -> int {
        self.planes@[p].samples@[i] as int
    }

    /// Number of samples in plane `p`.
    pub open spec fn plane_len(&self, p: int) -> int {
        self.planes@[p].samples@.len() as int
    }

    /// Tests well-formedness, for frames that come from outside.
    pub fn check(&self) -> (r: bool)
        ensures
            r == self.wf(),
    {
        if self.bits < 1 || self.bits > MAX_BITS {
            return false;
        }
        if self.planes.len() != 1 && self.planes.len() != 3 {
            return false;
        }
        let m = max_value(self.bits);
        let mut p: usize = 0;
        while p < self.planes.len()
            invariant
                p <= self.planes@.len(),
                valid_bits(self.bits),
                m as int == max_of(self.bits),
                forall|q: int| 0 <= q < p ==> #[trigger] self.planes@[q].wf(self.bits),
            decreases self.planes@.len() - p,
        {
            let plane = &self.planes[p];
            let len = plane.samples.len();
            match plane.width.checked_mul(plane.height) {
                Some(n) => {
                    if n != len {
                        assert(!self.planes@[p as int].wf(self.bits));
                        return false;
                    }
                },
                None => {
                    assert(!self.planes@[p as int].wf(self.bits));
                    return false;
                },
            }
            let mut i: usize = 0;
            while i < plane.samples.len()
                invariant
                    i <= plane.samples@.len(),
                    p < self.planes@.len(),
                    plane.samples@ == self.planes@[p as int].samples@,
                    m as int == max_of(self.bits),
                    forall|j: int| 0 <= j < i ==> #[trigger] plane.samples@[j] as int <= max_of(self.bits),
                decreases plane.samples@.len() - i,
            {
                if plane.samples[i] > m {
                    assert(!in_range(plane.samples@, self.bits));
                    assert(!self.planes@[p as int].wf(self.bits));
                    return false;
                }
                i = i + 1;
            }
            p = p + 1;
        }
        true
    }

    pub fn new(bits: u32, planes: Vec<Plane>) -> (r: Frame)
        ensures
            r.bits == bits,
            r.planes@ == planes@,
    {
        Frame { bits, planes }
    }

    pub fn plane_count(&self) -> (r: usize)
        ensures
            r == self.planes@.len(),
    {
        self.planes.len()
    }

    pub fn bits_per_sample(&self) -> (r: u32)
        ensures
            r == self.bits,
    {
        self.bits
    }

    /// Bytes in the storage cell of one sample: 1, 2 or 4.
    pub fn bytes_per_sample(&self) -> (r: u32)
        ensures
            r == bytes_of(self.bits),
    {
        if self.bits <= 8 {
            1
        } else if self.bits <= 16 {
            2
        } else {
            4
        }
    }
}

/// Having the same format is symmetric and transitive.
pub proof fn lemma_same_format(a: &Frame, b: &Frame, c: &Frame)
    ensures
        a.same_format(b) ==> b.same_format(a),
        a.same_format(b) && b.same_format(c) ==> a.same_format(c),
{
    if a.same_format(b) {
        assert forall|p: int| 0 <= p < b.planes@.len() implies #[trigger] b.planes@[p].same_shape(
            &a.planes@[p],
        ) by {
            assert(a.planes@[p].same_shape(&b.planes@[p]));
        }
        if b.same_format(c) {
            assert forall|p: int|
                0 <= p < a.planes@.len() implies #[trigger] a.planes@[p].same_shape(
                &c.planes@[p],
            ) by {
                assert(a.planes@[p].same_shape(&b.planes@[p]));
                assert(b.planes@[p].same_shape(&c.planes@[p]));
            }
        }
    }
}

/// Storage width in bytes of a sample of depth `bits`.
pub open spec fn bytes_of(bits: u32) -> u32 {
    if bits <= 8 {
        1
    } else if bits <= 16 {
        2
    } else {
        4
    }
}

} // verus!
