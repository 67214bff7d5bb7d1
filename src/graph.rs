use crate::config::{config_of, options_error, BobStep, Config, FilterMode, Options, Order};
use crate::error::StinxError;
use crate::geometry::{multi_steps, steps_spec, ExpandMode};
use crate::sample::Scale;
use vstd::prelude::*;

verus! {

/// Index of a clip in a `Graph`.
pub type ClipId = usize;

/// Frame offsets within one cycle of a subsequence selection.
#[derive(Clone, Copy, Debug, PartialEq, Eq, Structural)]
pub enum Pick {
    One(i64),
    Two(i64, i64),
}

/// A resampling filter of the host.
#[derive(Clone, Copy, Debug, PartialEq, Eq, Structural)]
pub enum Resampler {
    Point,
    Bilinear,
    Spline36,
}

/// One clip of the stage graph, defined from clips that come before it.
/// The host runs each node; the per-frame nodes `Median3`, `Min`, `Diff`,
/// `TempLimit` and `Contra` run this library's operators.
#[derive(Clone, Copy, Debug, PartialEq, Eq, Structural)]
pub enum Node {
    /// The clip handed to the pipeline.
    Input,
    /// Double-rate neural interpolation of a clip's fields.
    Neural { clip: ClipId, field: i64, opencl: bool },
    /// A clip converted to 8-bit gray (its luma, for a YUV clip).
    ToGray8(ClipId),
    /// Plane `plane` of a clip as an 8-bit gray clip; a gray clip is
    /// converted as a whole.
    PlaneToGray8 { clip: ClipId, plane: i64 },
    /// A clip resampled to twice its height, its rows shifted by `shift`
    /// source rows.
    DoubleHeight { clip: ClipId, resampler: Resampler, shift: Scale },
    /// A clip resampled to the dimensions of another.
    ResizeLike { clip: ClipId, like: ClipId, resampler: Resampler },
    /// A YUV clip made of the first planes of three clips.
    ShufflePlanes { y: ClipId, u: ClipId, v: ClipId },
    /// Motion-adaptive recombination of a clip with a bobbed reference.
    MotionAdapt { clip: ClipId, edeint: ClipId, order: i64, mode: i64 },
    /// A clip converted to the format of another.
    ConvertLike { clip: ClipId, like: ClipId },
    /// Each frame split into its two fields, top first, marked progressive.
    SeparateRows(ClipId),
    /// Adjacent field pairs woven back into frames, top field first.
    WeaveRows(ClipId),
    /// Frames `cycle * k + offset` for each offset of `pick`, in order.
    SelectEvery { clip: ClipId, cycle: i64, pick: Pick },
    /// Frames of the two clips taken in turn.
    Interleave(ClipId, ClipId),
    /// A clip clipped toward the local range of a reference.
    Repair { clip: ClipId, reference: ClipId, mode: i64 },
    /// One dilation step.
    Expand { clip: ClipId, mode: ExpandMode, process_chroma: bool },
    /// One erosion step.
    Inpand { clip: ClipId, mode: ExpandMode, process_chroma: bool },
    /// Sample-wise median of three clips.
    Median3 { a: ClipId, b: ClipId, c: ClipId, process_chroma: bool },
    /// Sample-wise minimum.
    Min(ClipId, ClipId),
    /// Sample-wise absolute difference.
    Diff(ClipId, ClipId),
    /// Sample-wise maximum.
    Max(ClipId, ClipId),
    /// The temporal limiter's final stage.
    TempLimit { clip: ClipId, flt: ClipId, diff2: ClipId, diffscl: Scale },
    /// Equal-weight average of two clips.
    Average(ClipId, ClipId),
    /// Vertical 3-tap blur of the given strength.
    BlurV { clip: ClipId, strength: Scale },
    /// Contra-sharpening of a repaired clip against the source.
    Contra { src: ClipId, nuked: ClipId, nuked_blurred: ClipId, sstr: Scale, scl: Scale },
}

/// Every clip this node is defined from comes before position `at`.
pub open spec fn refs_before(n: Node, at: int) -> bool {
    match n {
        Node::Input => true,
        Node::Neural { clip, .. } => clip < at,
        Node::ToGray8(c) => c < at,
        Node::PlaneToGray8 { clip, .. } => clip < at,
        Node::DoubleHeight { clip, .. } => clip < at,
        Node::ResizeLike { clip, like, .. } => clip < at && like < at,
        Node::ShufflePlanes { y, u, v } => y < at && u < at && v < at,
        Node::MotionAdapt { clip, edeint, .. } => clip < at && edeint < at,
        Node::ConvertLike { clip, like } => clip < at && like < at,
        Node::SeparateRows(c) => c < at,
        Node::WeaveRows(c) => c < at,
        Node::SelectEvery { clip, .. } => clip < at,
        Node::Interleave(a, b) => a < at && b < at,
        Node::Repair { clip, reference, .. } => clip < at && reference < at,
        Node::Expand { clip, .. } => clip < at,
        Node::Inpand { clip, .. } => clip < at,
        Node::Median3 { a, b, c, .. } => a < at && b < at && c < at,
        Node::Min(a, b) => a < at && b < at,
        Node::Diff(a, b) => a < at && b < at,
        Node::Max(a, b) => a < at && b < at,
        Node::TempLimit { clip, flt, diff2, .. } => clip < at && flt < at && diff2 < at,
        Node::Average(a, b) => a < at && b < at,
        Node::BlurV { clip, .. } => clip < at,
        Node::Contra { src, nuked, nuked_blurred, .. } => src < at && nuked < at && nuked_blurred
            < at,
    }
}

/// A stage graph: an ordered list of clip definitions.
pub struct Graph {
    pub nodes: Vec<Node>,
}

impl Graph {
    /// Each node refers to earlier nodes only, so the host can build them
    /// in order.
    pub open spec fn wf(&self) -> bool {
        forall|i: int| 0 <= i < self.nodes@.len() ==> refs_before(#[trigger] self.nodes@[i], i)
    }

    pub open spec fn has(&self, c: ClipId) -> bool {
        c < self.nodes@.len()
    }

    /// The graph whose one clip is the input.
    pub fn new() -> (r: Graph)
        ensures
            r.wf(),
            r.nodes@ == seq![Node::Input],
    {
        let mut nodes: Vec<Node> = Vec::new();
        nodes.push(Node::Input);
        Graph { nodes }
    }

    /// Appends a node defined from existing clips.
    pub fn add(&mut self, n: Node) -> (r: ClipId)
        requires
            old(self).wf(),
            refs_before(n, old(self).nodes@.len() as int),
            old(self).nodes@.len() < usize::MAX,
        ensures
            final(self).wf(),
            final(self).nodes@ == old(self).nodes@.push(n),
            r == old(self).nodes@.len(),
    {
        let r = self.nodes.len();
        self.nodes.push(n);
        r
    }
}

/// The clips appended by running `steps` from `clip`, dilating when
/// `dilate` and eroding otherwise, each step on the one before.
pub open spec fn morph_chain(
    steps: Seq<ExpandMode>,
    clip: ClipId,
    start: int,
    dilate: bool,
    process_chroma: bool,
) -> Seq<Node>
    decreases steps.len(),
{
    if steps.len() == 0 {
        Seq::empty()
    } else {
        let first = if dilate {
            Node::Expand { clip, mode: steps[0], process_chroma }
        } else {
            Node::Inpand { clip, mode: steps[0], process_chroma }
        };
        seq![first] + morph_chain(
            steps.subrange(1, steps.len() as int),
            start as ClipId,
            start + 1,
            dilate,
            process_chroma,
        )
    }
}

proof fn lemma_morph_chain_len(
    steps: Seq<ExpandMode>,
    clip: ClipId,
    start: int,
    dilate: bool,
    process_chroma: bool,
)
    ensures
        morph_chain(steps, clip, start, dilate, process_chroma).len() == steps.len(),
    decreases steps.len(),
{
    if steps.len() > 0 {
        lemma_morph_chain_len(
            steps.subrange(1, steps.len() as int),
            start as ClipId,
            start + 1,
            dilate,
            process_chroma,
        );
    }
}

/// A graph with room for `k` more nodes.
pub open spec fn room(g: &Graph, k: int) -> bool {
    g.nodes@.len() + k < usize::MAX
}

/// The clip at `c`.
pub open spec fn at(g: &Graph, c: ClipId) -> Node {
    g.nodes@[c as int]
}

/// Appends the iterated dilation (`dilate`) or erosion of radii `sw`, `sh`.
fn morph_multi(g: &mut Graph, clip: ClipId, sw: u32, sh: u32, dilate: bool, process_chroma: bool) -> (r:
    ClipId)
    requires
        old(g).wf(),
        old(g).has(clip),
        room(old(g), sw + sh),
    ensures
        final(g).wf(),
        final(g).nodes@ == old(g).nodes@ + morph_chain(
            steps_spec(sw as nat, sh as nat),
            clip,
            old(g).nodes@.len() as int,
            dilate,
            process_chroma,
        ),
        final(g).has(r),
        steps_spec(sw as nat, sh as nat).len() == 0 ==> r == clip,
        steps_spec(sw as nat, sh as nat).len() > 0 ==> r == final(g).nodes@.len() - 1,
{
    let steps = multi_steps(sw, sh);
    proof {
        crate::geometry::lemma_steps_count(sw as nat, sh as nat);
    }
    let ghost start = g.nodes@.len() as int;
    let ghost base = g.nodes@;
    let mut cur = clip;
    let mut i: usize = 0;
    assert(steps@.subrange(0, steps@.len() as int) =~= steps@);
    while i < steps.len()
        invariant
            steps@ == steps_spec(sw as nat, sh as nat),
            steps@.len() <= sw + sh,
            base.len() == start,
            start + sw + sh < usize::MAX,
            i <= steps@.len(),
            g.wf(),
            g.nodes@.len() == start + i,
            g.nodes@ + morph_chain(steps@.subrange(i as int, steps@.len() as int), cur, start + i, dilate, process_chroma)
                == base + morph_chain(steps@, clip, start, dilate, process_chroma),
            g.has(cur),
            i == 0 ==> cur == clip,
            i > 0 ==> cur == g.nodes@.len() - 1,
        decreases steps@.len() - i,
    {
        let mode = steps[i];
        let n = if dilate {
            Node::Expand { clip: cur, mode, process_chroma }
        } else {
            Node::Inpand { clip: cur, mode, process_chroma }
        };
        let ghost rest = steps@.subrange(i as int, steps@.len() as int);
        assert(rest.subrange(1, rest.len() as int) =~= steps@.subrange(i + 1, steps@.len() as int));
        let ghost prev = g.nodes@;
        let id = g.add(n);
        assert(g.nodes@ + morph_chain(steps@.subrange(i + 1, steps@.len() as int), id, start + i + 1, dilate, process_chroma)
            =~= prev + morph_chain(rest, cur, start + i, dilate, process_chroma));
        cur = id;
        i = i + 1;
    }
    assert(steps@.subrange(i as int, steps@.len() as int) =~= Seq::<ExpandMode>::empty());
    assert(g.nodes@ =~= base + morph_chain(steps@, clip, start, dilate, process_chroma));
    cur
}

/// Appends the iterated dilation of `clip` with radii `sw` and `sh`; with
/// both radii zero nothing is appended and the clip itself is returned.
pub fn expand_multi(g: &mut Graph, clip: ClipId, sw: u32, sh: u32, process_chroma: bool) -> (r:
    ClipId)
    requires
        old(g).wf(),
        old(g).has(clip),
        room(old(g), sw + sh),
    ensures
        final(g).wf(),
        final(g).nodes@ == old(g).nodes@ + morph_chain(
            steps_spec(sw as nat, sh as nat),
            clip,
            old(g).nodes@.len() as int,
            true,
            process_chroma,
        ),
        final(g).has(r),
        sw == 0 && sh == 0 ==> r == clip && final(g).nodes@ == old(g).nodes@,
        !(sw == 0 && sh == 0) ==> r == final(g).nodes@.len() - 1,
{
    proof {
        crate::geometry::lemma_steps_count(sw as nat, sh as nat);
    }
    let r = morph_multi(g, clip, sw, sh, true, process_chroma);
    proof {
        if sw == 0 && sh == 0 {
            assert(g.nodes@ =~= old(g).nodes@);
        }
    }
    r
}

/// Appends the iterated erosion of `clip` with radii `sw` and `sh`; with
/// both radii zero nothing is appended and the clip itself is returned.
pub fn inpand_multi(g: &mut Graph, clip: ClipId, sw: u32, sh: u32, process_chroma: bool) -> (r:
    ClipId)
    requires
        old(g).wf(),
        old(g).has(clip),
        room(old(g), sw + sh),
    ensures
        final(g).wf(),
        final(g).nodes@ == old(g).nodes@ + morph_chain(
            steps_spec(sw as nat, sh as nat),
            clip,
            old(g).nodes@.len() as int,
            false,
            process_chroma,
        ),
        final(g).has(r),
        sw == 0 && sh == 0 ==> r == clip && final(g).nodes@ == old(g).nodes@,
        !(sw == 0 && sh == 0) ==> r == final(g).nodes@.len() - 1,
{
    proof {
        crate::geometry::lemma_steps_count(sw as nat, sh as nat);
    }
    let r = morph_multi(g, clip, sw, sh, false, process_chroma);
    proof {
        if sw == 0 && sh == 0 {
            assert(g.nodes@ =~= old(g).nodes@);
        }
    }
    r
}

/// Number of steps of a dilation or erosion of radii `sw` and `sh`.
pub open spec fn n_steps(sw: u32, sh: u32) -> int {
    steps_spec(sw as nat, sh as nat).len() as int
}

/// The last clip of a chain of `n` steps from `clip` whose first step
/// lands at `start`.
pub open spec fn chain_end(clip: ClipId, start: int, n: int) -> ClipId {
    if n == 0 {
        clip
    } else {
        (start + n - 1) as ClipId
    }
}

/// The even or odd frames of a bob, each brought to the format of `src`
/// and repaired `src` against, in that order, from position `at` on.
pub open spec fn fast_half(src: ClipId, conv: ClipId, parity: i64, at: int) -> Seq<Node> {
    seq![
        Node::SelectEvery { clip: conv, cycle: 2, pick: Pick::One(parity) },
        Node::ConvertLike { clip: at as ClipId, like: src },
        Node::Repair { clip: src, reference: (at + 1) as ClipId, mode: 1 },
    ]
}

/// The even or odd frames of the dilated and eroded bobs, and the median
/// of `src` with them, from position `at` on.
pub open spec fn median_half(
    src: ClipId,
    ex: ClipId,
    inp: ClipId,
    parity: i64,
    process_chroma: bool,
    at: int,
) -> Seq<Node> {
    seq![
        Node::SelectEvery { clip: ex, cycle: 2, pick: Pick::One(parity) },
        Node::SelectEvery { clip: inp, cycle: 2, pick: Pick::One(parity) },
        Node::Median3 { a: src, b: at as ClipId, c: (at + 1) as ClipId, process_chroma },
    ]
}

/// Interleaves the repaired even and odd results, splits them into fields,
/// keeps fields 2 and 1 of every 4 and weaves them back, from `at` on.
pub open spec fn collapse_nodes(re: ClipId, ro: ClipId, at: int) -> Seq<Node> {
    seq![
        Node::Interleave(re, ro),
        Node::SeparateRows(at as ClipId),
        Node::SelectEvery { clip: (at + 1) as ClipId, cycle: 4, pick: Pick::Two(2, 1) },
        Node::WeaveRows((at + 2) as ClipId),
    ]
}

/// The bob used by cross-field repair, from position `at` on: the given
/// one, or a Spline36 bob of `src`.
pub open spec fn bob_nodes(
    src: ClipId,
    bobbed: Option<ClipId>,
    process_chroma: bool,
    gray8: bool,
    at: int,
) -> Seq<Node> {
    match bobbed {
        Some(_) => Seq::empty(),
        None => spline36_nodes(src, process_chroma, gray8, at),
    }
}

/// Where the bob converted to the source format lands when cross-field
/// repair starts appending at `at`.
pub open spec fn conv_at(
    src: ClipId,
    bobbed: Option<ClipId>,
    process_chroma: bool,
    gray8: bool,
    at: int,
) -> int {
    at + bob_nodes(src, bobbed, process_chroma, gray8, at).len()
}

/// The bob, if one is made, and its conversion to the format of `src`.
pub open spec fn head_nodes(
    src: ClipId,
    bobbed: Option<ClipId>,
    process_chroma: bool,
    gray8: bool,
    at: int,
) -> Seq<Node> {
    let b0: ClipId = match bobbed {
        Some(b) => b,
        None => (conv_at(src, bobbed, process_chroma, gray8, at) - 1) as ClipId,
    };
    bob_nodes(src, bobbed, process_chroma, gray8, at) + seq![
        Node::ConvertLike { clip: b0, like: src },
    ]
}

/// The repair of `src` against the even and the odd frames of the bob at
/// `conv`, appended from `conv + 1` on.
#[verifier::opaque]
pub open spec fn middle_nodes(
    src: ClipId,
    conv: int,
    sw: u32,
    sh: u32,
    process_chroma: bool,
) -> Seq<Node> {
    let c = conv as ClipId;
    if sw == 1 && sh == 1 {
        fast_half(src, c, 0, conv + 1) + fast_half(src, c, 1, conv + 4)
    } else {
        let n = n_steps(sw, sh);
        let st = steps_spec(sw as nat, sh as nat);
        let p = conv + 1 + 2 * n;
        morph_chain(st, c, conv + 1, true, process_chroma) + morph_chain(
            st,
            c,
            conv + 1 + n,
            false,
            process_chroma,
        ) + median_half(
            src,
            chain_end(c, conv + 1, n),
            chain_end(c, conv + 1 + n, n),
            0,
            process_chroma,
            p,
        ) + median_half(
            src,
            chain_end(c, conv + 1, n),
            chain_end(c, conv + 1 + n, n),
            1,
            process_chroma,
            p + 3,
        )
    }
}

/// Position of the last of the middle nodes, the odd-field repair; the
/// even-field one stands three before it.
pub open spec fn odd_at(conv: int, sw: u32, sh: u32) -> int {
    if sw == 1 && sh == 1 {
        conv + 6
    } else {
        conv + 6 + 2 * n_steps(sw, sh)
    }
}

/// The nodes that cross-field repair appends at position `at`.
#[verifier::opaque]
pub open spec fn repair_nodes(
    src: ClipId,
    bobbed: Option<ClipId>,
    sw: u32,
    sh: u32,
    process_chroma: bool,
    gray8: bool,
    at: int,
) -> Seq<Node> {
    let conv = conv_at(src, bobbed, process_chroma, gray8, at);
    let odd = odd_at(conv, sw, sh);
    head_nodes(src, bobbed, process_chroma, gray8, at) + middle_nodes(src, conv, sw, sh, process_chroma)
        + collapse_nodes((odd - 3) as ClipId, odd as ClipId, odd + 1)
}

fn fast_pair(g: &mut Graph, src: ClipId, conv: ClipId) -> (r: (ClipId, ClipId))
    requires
        old(g).wf(),
        old(g).has(src),
        old(g).has(conv),
        room(old(g), 8),
    ensures
        final(g).wf(),
        final(g).nodes@ == old(g).nodes@ + fast_half(src, conv, 0, old(g).nodes@.len() as int)
            + fast_half(src, conv, 1, (old(g).nodes@.len() + 3) as int),
        r.0 == old(g).nodes@.len() + 2,
        r.1 == old(g).nodes@.len() + 5,
{
    let ghost base = g.nodes@;
    let e = g.add(Node::SelectEvery { clip: conv, cycle: 2, pick: Pick::One(0) });
    let ec = g.add(Node::ConvertLike { clip: e, like: src });
    let re = g.add(Node::Repair { clip: src, reference: ec, mode: 1 });
    let o = g.add(Node::SelectEvery { clip: conv, cycle: 2, pick: Pick::One(1) });
    let oc = g.add(Node::ConvertLike { clip: o, like: src });
    let ro = g.add(Node::Repair { clip: src, reference: oc, mode: 1 });
    assert(g.nodes@ =~= base + fast_half(src, conv, 0, base.len() as int) + fast_half(
        src,
        conv,
        1,
        (base.len() + 3) as int,
    ));
    (re, ro)
}

fn median_pair(g: &mut Graph, src: ClipId, ex: ClipId, inp: ClipId, process_chroma: bool) -> (r: (
    ClipId,
    ClipId,
))
    requires
        old(g).wf(),
        old(g).has(src),
        old(g).has(ex),
        old(g).has(inp),
        room(old(g), 8),
    ensures
        final(g).wf(),
        final(g).nodes@ == old(g).nodes@ + median_half(
            src,
            ex,
            inp,
            0,
            process_chroma,
            old(g).nodes@.len() as int,
        ) + median_half(src, ex, inp, 1, process_chroma, (old(g).nodes@.len() + 3) as int),
        r.0 == old(g).nodes@.len() + 2,
        r.1 == old(g).nodes@.len() + 5,
{
    let ghost base = g.nodes@;
    let e1 = g.add(Node::SelectEvery { clip: ex, cycle: 2, pick: Pick::One(0) });
    let e2 = g.add(Node::SelectEvery { clip: inp, cycle: 2, pick: Pick::One(0) });
    let re = g.add(Node::Median3 { a: src, b: e1, c: e2, process_chroma });
    let o1 = g.add(Node::SelectEvery { clip: ex, cycle: 2, pick: Pick::One(1) });
    let o2 = g.add(Node::SelectEvery { clip: inp, cycle: 2, pick: Pick::One(1) });
    let ro = g.add(Node::Median3 { a: src, b: o1, c: o2, process_chroma });
    assert(g.nodes@ =~= base + median_half(src, ex, inp, 0, process_chroma, base.len() as int)
        + median_half(src, ex, inp, 1, process_chroma, (base.len() + 3) as int));
    (re, ro)
}

fn collapse(g: &mut Graph, re: ClipId, ro: ClipId) -> (r: ClipId)
    requires
        old(g).wf(),
        old(g).has(re),
        old(g).has(ro),
        room(old(g), 8),
    ensures
        final(g).wf(),
        final(g).nodes@ == old(g).nodes@ + collapse_nodes(re, ro, old(g).nodes@.len() as int),
        r == old(g).nodes@.len() + 3,
{
    let ghost base = g.nodes@;
    let il = g.add(Node::Interleave(re, ro));
    let fields = g.add(Node::SeparateRows(il));
    let picked = g.add(Node::SelectEvery { clip: fields, cycle: 4, pick: Pick::Two(2, 1) });
    let r = g.add(Node::WeaveRows(picked));
    assert(g.nodes@ =~= base + collapse_nodes(re, ro, base.len() as int));
    r
}

fn repair_pair(g: &mut Graph, src: ClipId, conv: ClipId, sw: u32, sh: u32, process_chroma: bool) -> (r:
    (ClipId, ClipId))
    requires
        old(g).wf(),
        old(g).has(src),
        conv + 1 == old(g).nodes@.len(),
        room(old(g), 2 * (sw + sh) + 12),
    ensures
        final(g).wf(),
        final(g).nodes@ == old(g).nodes@ + middle_nodes(src, conv as int, sw, sh, process_chroma),
        r.1 == odd_at(conv as int, sw, sh),
        r.0 == r.1 - 3,
        final(g).nodes@.len() == r.1 + 1,
{
    reveal(middle_nodes);
    if sw == 1 && sh == 1 {
        fast_pair(g, src, conv)
    } else {
        let ghost base = g.nodes@;
        let ghost st = steps_spec(sw as nat, sh as nat);
        proof {
            crate::geometry::lemma_steps_count(sw as nat, sh as nat);
            lemma_morph_chain_len(st, conv, g.nodes@.len() as int, true, process_chroma);
            lemma_morph_chain_len(st, conv, (g.nodes@.len() + st.len()) as int, false, process_chroma);
        }
        let ex = expand_multi(g, conv, sw, sh, process_chroma);
        let inp = inpand_multi(g, conv, sw, sh, process_chroma);
        let pair = median_pair(g, src, ex, inp, process_chroma);
        assert(ex == chain_end(conv, conv + 1, n_steps(sw, sh)));
        assert(inp == chain_end(conv, conv + 1 + n_steps(sw, sh), n_steps(sw, sh)));
        assert(g.nodes@ =~= base + middle_nodes(src, conv as int, sw, sh, process_chroma));
        pair
    }
}

fn repair_head(g: &mut Graph, src: ClipId, bobbed: Option<ClipId>, process_chroma: bool, gray8: bool) -> (r:
    ClipId)
    requires
        old(g).wf(),
        old(g).has(src),
        bobbed is Some ==> old(g).has(bobbed->0),
        room(old(g), 32),
    ensures
        final(g).wf(),
        final(g).nodes@ == old(g).nodes@ + head_nodes(
            src,
            bobbed,
            process_chroma,
            gray8,
            old(g).nodes@.len() as int,
        ),
        r == conv_at(src, bobbed, process_chroma, gray8, old(g).nodes@.len() as int),
        r + 1 == final(g).nodes@.len(),
        r <= old(g).nodes@.len() + 24,
{
    let ghost base = g.nodes@;
    proof {
        lemma_bob_len(src, BobStep::Spline36 { process_chroma }, gray8, base.len() as int);
    }
    let b0 = match bobbed {
        Some(b) => b,
        None => spline36_bob(g, src, process_chroma, gray8),
    };
    let conv = g.add(Node::ConvertLike { clip: b0, like: src });
    assert(g.nodes@ =~= base + head_nodes(src, bobbed, process_chroma, gray8, base.len() as int));
    conv
}

/// Cross-field repair of `src` against `bobbed` (a Spline36 bob of `src`
/// when absent). With radii 1 and 1, `src` is repaired against the even and
/// the odd bob frames; otherwise it is bounded, per sample, by the dilated
/// and the eroded bob through a median. The two results are interleaved,
/// split into fields, and every frame rewoven from the fields that carry the
/// cross-field repair, back at the source frame rate.
pub fn cross_field_repair2(
    g: &mut Graph,
    src: ClipId,
    bobbed: Option<ClipId>,
    sw: u32,
    sh: u32,
    process_chroma: bool,
    gray8: bool,
) -> (r: ClipId)
    requires
        old(g).wf(),
        old(g).has(src),
        bobbed is Some ==> old(g).has(bobbed->0),
        room(old(g), 2 * (sw + sh) + 48),
    ensures
        final(g).wf(),
        final(g).nodes@ == old(g).nodes@ + repair_nodes(
            src,
            bobbed,
            sw,
            sh,
            process_chroma,
            gray8,
            old(g).nodes@.len() as int,
        ),
        r == final(g).nodes@.len() - 1,
        at(final(g), r) is WeaveRows,
{
    let ghost base = g.nodes@;
    let conv = repair_head(g, src, bobbed, process_chroma, gray8);
    let ghost head = g.nodes@;
    proof {
        crate::geometry::lemma_steps_count(sw as nat, sh as nat);
    }
    let pair = repair_pair(g, src, conv, sw, sh, process_chroma);
    let ghost mid = g.nodes@;
    assert(mid =~= head + middle_nodes(src, conv as int, sw, sh, process_chroma));
    let (re, ro) = pair;
    assert(ro == odd_at(conv as int, sw, sh));
    let r = collapse(g, re, ro);
    assert(g.nodes@ =~= base + repair_nodes(
        src,
        bobbed,
        sw,
        sh,
        process_chroma,
        gray8,
        base.len() as int,
    )) by {
        reveal(repair_nodes);
        assert(g.nodes@ =~= base + head_nodes(src, bobbed, process_chroma, gray8, base.len() as int)
            + middle_nodes(src, conv as int, sw, sh, process_chroma) + collapse_nodes(
            re,
            ro,
            (ro + 1) as int,
        ));
    }
    r
}

/// The luma bob appended at `at`: `clip` converted to 8-bit gray and split
/// into fields; the even fields resampled to double height a quarter row
/// down, the odd ones a quarter row up; the two interleaved.
pub open spec fn luma_bob_nodes(clip: ClipId, at: int) -> Seq<Node> {
    seq![
        Node::ToGray8(clip),
        Node::SeparateRows(at as ClipId),
        Node::SelectEvery { clip: (at + 1) as ClipId, cycle: 2, pick: Pick::One(0) },
        Node::SelectEvery { clip: (at + 1) as ClipId, cycle: 2, pick: Pick::One(1) },
        Node::DoubleHeight {
            clip: (at + 2) as ClipId,
            resampler: Resampler::Spline36,
            shift: Scale { num: 1, den: 4 },
        },
        Node::DoubleHeight {
            clip: (at + 3) as ClipId,
            resampler: Resampler::Spline36,
            shift: Scale { num: -1i32, den: 4 },
        },
        Node::Interleave((at + 4) as ClipId, (at + 5) as ClipId),
    ]
}

/// The Spline36 bob of `src` appended at `at`. A clip in 8-bit gray gets
/// the luma bob alone; otherwise each chroma plane is taken as gray and
/// either bobbed the same way (`process_chroma`) or has each frame doubled,
/// and the three are joined into a YUV clip.
#[verifier::opaque]
pub open spec fn spline36_nodes(src: ClipId, process_chroma: bool, gray8: bool, at: int) -> Seq<Node> {
    let luma = luma_bob_nodes(src, at);
    if gray8 {
        luma
    } else if process_chroma {
        luma + seq![Node::PlaneToGray8 { clip: src, plane: 1 }] + luma_bob_nodes(
            (at + 7) as ClipId,
            at + 8,
        ) + seq![Node::PlaneToGray8 { clip: src, plane: 2 }] + luma_bob_nodes(
            (at + 15) as ClipId,
            at + 16,
        ) + seq![
            Node::ShufflePlanes {
                y: (at + 6) as ClipId,
                u: (at + 14) as ClipId,
                v: (at + 22) as ClipId,
            },
        ]
    } else {
        luma + seq![
            Node::PlaneToGray8 { clip: src, plane: 1 },
            Node::SelectEvery { clip: (at + 7) as ClipId, cycle: 1, pick: Pick::Two(0, 0) },
            Node::PlaneToGray8 { clip: src, plane: 2 },
            Node::SelectEvery { clip: (at + 9) as ClipId, cycle: 1, pick: Pick::Two(0, 0) },
            Node::ShufflePlanes {
                y: (at + 6) as ClipId,
                u: (at + 8) as ClipId,
                v: (at + 10) as ClipId,
            },
        ]
    }
}

/// The point bob appended at `at`: fields doubled in height by repetition.
pub open spec fn point_nodes(src: ClipId, at: int) -> Seq<Node> {
    seq![
        Node::SeparateRows(src),
        Node::DoubleHeight {
            clip: at as ClipId,
            resampler: Resampler::Point,
            shift: Scale { num: 0, den: 1 },
        },
    ]
}

/// The nodes of the bob that `step` names, appended at `at`.
pub open spec fn bob_step_nodes(src: ClipId, step: BobStep, gray8: bool, at: int) -> Seq<Node> {
    match step {
        BobStep::Point => point_nodes(src, at),
        BobStep::Spline36 { process_chroma } => spline36_nodes(src, process_chroma, gray8, at),
        BobStep::Neural { field, opencl } => seq![Node::Neural { clip: src, field, opencl }],
    }
}

proof fn lemma_bob_len(src: ClipId, step: BobStep, gray8: bool, at: int)
    ensures
        1 <= bob_step_nodes(src, step, gray8, at).len() <= 24,
{
    reveal(spline36_nodes);
}

fn luma_bob(g: &mut Graph, clip: ClipId) -> (r: ClipId)
    requires
        old(g).wf(),
        old(g).has(clip),
        room(old(g), 8),
    ensures
        final(g).wf(),
        final(g).nodes@ == old(g).nodes@ + luma_bob_nodes(clip, old(g).nodes@.len() as int),
        r == final(g).nodes@.len() - 1,
{
    let ghost base = g.nodes@;
    let gray = g.add(Node::ToGray8(clip));
    let fields = g.add(Node::SeparateRows(gray));
    let even = g.add(Node::SelectEvery { clip: fields, cycle: 2, pick: Pick::One(0) });
    let odd = g.add(Node::SelectEvery { clip: fields, cycle: 2, pick: Pick::One(1) });
    let even = g.add(
        Node::DoubleHeight { clip: even, resampler: Resampler::Spline36, shift: Scale::new(1, 4) },
    );
    let odd = g.add(
        Node::DoubleHeight { clip: odd, resampler: Resampler::Spline36, shift: Scale::new(-1, 4) },
    );
    let r = g.add(Node::Interleave(even, odd));
    assert(g.nodes@ =~= base + luma_bob_nodes(clip, base.len() as int));
    r
}

/// Appends a Spline36 bob of `src`; `gray8` tells whether `src` is in
/// 8-bit gray.
pub fn spline36_bob(g: &mut Graph, src: ClipId, process_chroma: bool, gray8: bool) -> (r: ClipId)
    requires
        old(g).wf(),
        old(g).has(src),
        room(old(g), 32),
    ensures
        final(g).wf(),
        final(g).nodes@ == old(g).nodes@ + spline36_nodes(
            src,
            process_chroma,
            gray8,
            old(g).nodes@.len() as int,
        ),
        r == final(g).nodes@.len() - 1,
{
    reveal(spline36_nodes);
    let ghost base = g.nodes@;
    let luma = luma_bob(g, src);
    if gray8 {
        return luma;
    }
    let u = g.add(Node::PlaneToGray8 { clip: src, plane: 1 });
    let u = if process_chroma {
        luma_bob(g, u)
    } else {
        g.add(Node::SelectEvery { clip: u, cycle: 1, pick: Pick::Two(0, 0) })
    };
    let v = g.add(Node::PlaneToGray8 { clip: src, plane: 2 });
    let v = if process_chroma {
        luma_bob(g, v)
    } else {
        g.add(Node::SelectEvery { clip: v, cycle: 1, pick: Pick::Two(0, 0) })
    };
    let r = g.add(Node::ShufflePlanes { y: luma, u, v });
    assert(g.nodes@ =~= base + spline36_nodes(src, process_chroma, gray8, base.len() as int));
    r
}

/// Appends a point bob of `src`.
pub fn point_bob(g: &mut Graph, src: ClipId) -> (r: ClipId)
    requires
        old(g).wf(),
        old(g).has(src),
        room(old(g), 4),
    ensures
        final(g).wf(),
        final(g).nodes@ == old(g).nodes@ + point_nodes(src, old(g).nodes@.len() as int),
        r == final(g).nodes@.len() - 1,
{
    let ghost base = g.nodes@;
    let fields = g.add(Node::SeparateRows(src));
    let r = g.add(
        Node::DoubleHeight { clip: fields, resampler: Resampler::Point, shift: Scale::new(0, 1) },
    );
    assert(g.nodes@ =~= base + point_nodes(src, base.len() as int));
    r
}

/// Appends the bob that `step` names.
fn bob(g: &mut Graph, src: ClipId, step: BobStep, gray8: bool) -> (r: ClipId)
    requires
        old(g).wf(),
        old(g).has(src),
        room(old(g), 32),
    ensures
        final(g).wf(),
        final(g).nodes@ == old(g).nodes@ + bob_step_nodes(src, step, gray8, old(g).nodes@.len() as int),
        r == final(g).nodes@.len() - 1,
{
    match step {
        BobStep::Point => point_bob(g, src),
        BobStep::Spline36 { process_chroma } => spline36_bob(g, src, process_chroma, gray8),
        BobStep::Neural { field, opencl } => {
            let ghost base = g.nodes@;
            let r = g.add(Node::Neural { clip: src, field, opencl });
            assert(g.nodes@ =~= base + bob_step_nodes(src, step, gray8, base.len() as int));
            r
        },
    }
}

/// The per-pixel maximum over planes appended at `at`: luma and the two
/// chroma planes as gray clips, each brought to the other's size; the
/// result carries the maximum at luma size in its luma plane and at chroma
/// size in both chroma planes.
pub open spec fn max_yuv_nodes(src: ClipId, at: int) -> Seq<Node> {
    let y = at as ClipId;
    let u = (at + 1) as ClipId;
    let v = (at + 2) as ClipId;
    seq![
        Node::ToGray8(src),
        Node::PlaneToGray8 { clip: src, plane: 1 },
        Node::PlaneToGray8 { clip: src, plane: 2 },
        Node::ResizeLike { clip: y, like: u, resampler: Resampler::Bilinear },
        Node::ResizeLike { clip: u, like: y, resampler: Resampler::Bilinear },
        Node::ResizeLike { clip: v, like: y, resampler: Resampler::Bilinear },
        Node::Max(y, (at + 4) as ClipId),
        Node::Max((at + 6) as ClipId, (at + 5) as ClipId),
        Node::Max((at + 3) as ClipId, u),
        Node::Max((at + 8) as ClipId, v),
        Node::ShufflePlanes { y: (at + 7) as ClipId, u: (at + 9) as ClipId, v: (at + 9) as ClipId },
    ]
}

/// Appends the per-pixel maximum over the planes of `src`.
pub fn max_yuv(g: &mut Graph, src: ClipId) -> (r: ClipId)
    requires
        old(g).wf(),
        old(g).has(src),
        room(old(g), 12),
    ensures
        final(g).wf(),
        final(g).nodes@ == old(g).nodes@ + max_yuv_nodes(src, old(g).nodes@.len() as int),
        r == final(g).nodes@.len() - 1,
{
    let ghost base = g.nodes@;
    let y = g.add(Node::ToGray8(src));
    let u = g.add(Node::PlaneToGray8 { clip: src, plane: 1 });
    let v = g.add(Node::PlaneToGray8 { clip: src, plane: 2 });
    let yc = g.add(Node::ResizeLike { clip: y, like: u, resampler: Resampler::Bilinear });
    let uf = g.add(Node::ResizeLike { clip: u, like: y, resampler: Resampler::Bilinear });
    let vf = g.add(Node::ResizeLike { clip: v, like: y, resampler: Resampler::Bilinear });
    let l1 = g.add(Node::Max(y, uf));
    let ls = g.add(Node::Max(l1, vf));
    let c1 = g.add(Node::Max(yc, u));
    let cs = g.add(Node::Max(c1, v));
    let r = g.add(Node::ShufflePlanes { y: ls, u: cs, v: cs });
    assert(g.nodes@ =~= base + max_yuv_nodes(src, base.len() as int));
    r
}

/// The nodes of the temporal limiter's graph appended at `at`: the frame
/// difference of `clip` to the neighbours of `reff`, per field and reduced
/// over planes; its minimum over adjacent field pairs, dilated by radii 2
/// and 1 and rewoven; and the limiter's final stage over that bound.
#[verifier::opaque]
pub open spec fn limit_nodes(clip: ClipId, flt: ClipId, reff: ClipId, diffscl: Scale, at: int) -> Seq<
    Node,
> {
    let diff = (at + 14) as ClipId;
    seq![
        Node::SelectEvery { clip: reff, cycle: 1, pick: Pick::Two(-1i64, 1) },
        Node::SelectEvery { clip, cycle: 1, pick: Pick::Two(0, 0) },
        Node::Diff((at + 1) as ClipId, at as ClipId),
        Node::SeparateRows((at + 2) as ClipId),
    ] + max_yuv_nodes((at + 3) as ClipId, at + 4) + seq![
        Node::SelectEvery { clip: diff, cycle: 4, pick: Pick::Two(0, 1) },
        Node::SelectEvery { clip: diff, cycle: 4, pick: Pick::Two(2, 3) },
        Node::Min((at + 15) as ClipId, (at + 16) as ClipId),
        Node::Expand { clip: (at + 17) as ClipId, mode: ExpandMode::Square, process_chroma: true },
        Node::Expand {
            clip: (at + 18) as ClipId,
            mode: ExpandMode::Horizontal,
            process_chroma: true,
        },
        Node::WeaveRows((at + 19) as ClipId),
        Node::TempLimit { clip, flt, diff2: (at + 20) as ClipId, diffscl },
    ]
}

/// Bounds the filtered clip `flt` to within `diffscl` times a
/// neighbour-difference envelope of `clip`, measured against `reff`.
pub fn temp_limit(g: &mut Graph, clip: ClipId, flt: ClipId, reff: ClipId, diffscl: Scale) -> (r:
    ClipId)
    requires
        old(g).wf(),
        old(g).has(clip),
        old(g).has(flt),
        old(g).has(reff),
        room(old(g), 24),
    ensures
        final(g).wf(),
        final(g).nodes@ == old(g).nodes@ + limit_nodes(
            clip,
            flt,
            reff,
            diffscl,
            old(g).nodes@.len() as int,
        ),
        r == final(g).nodes@.len() - 1,
        final(g).nodes@.len() == old(g).nodes@.len() + 22,
        at(final(g), r) == (Node::TempLimit { clip, flt, diff2: (r - 1) as ClipId, diffscl }),
{
    reveal(limit_nodes);
    let ghost base = g.nodes@;
    let adj = g.add(Node::SelectEvery { clip: reff, cycle: 1, pick: Pick::Two(-1, 1) });
    let cur = g.add(Node::SelectEvery { clip, cycle: 1, pick: Pick::Two(0, 0) });
    let d = g.add(Node::Diff(cur, adj));
    let fields = g.add(Node::SeparateRows(d));
    let ghost pre = g.nodes@;
    let diff = max_yuv(g, fields);
    let ghost mid = g.nodes@;
    let top = g.add(Node::SelectEvery { clip: diff, cycle: 4, pick: Pick::Two(0, 1) });
    let bottom = g.add(Node::SelectEvery { clip: diff, cycle: 4, pick: Pick::Two(2, 3) });
    let low = g.add(Node::Min(top, bottom));
    proof {
        reveal_with_fuel(steps_spec, 3);
        reveal_with_fuel(morph_chain, 3);
        assert(steps_spec(2, 1) =~= seq![ExpandMode::Square, ExpandMode::Horizontal]);
    }
    let ghost before = g.nodes@;
    let wide = expand_multi(g, low, 2, 1, true);
    proof {
        let st = seq![ExpandMode::Square, ExpandMode::Horizontal];
        assert(st.subrange(1, 2) =~= seq![ExpandMode::Horizontal]);
        assert(st.subrange(1, 2).subrange(1, 1) =~= Seq::<ExpandMode>::empty());
        assert(g.nodes@ =~= before + seq![
            Node::Expand { clip: low, mode: ExpandMode::Square, process_chroma: true },
            Node::Expand {
                clip: (before.len()) as ClipId,
                mode: ExpandMode::Horizontal,
                process_chroma: true,
            },
        ]);
    }
    let diff2 = g.add(Node::WeaveRows(wide));
    let r = g.add(Node::TempLimit { clip, flt, diff2, diffscl });
    assert(pre =~= base + seq![
        Node::SelectEvery { clip: reff, cycle: 1, pick: Pick::Two(-1i64, 1) },
        Node::SelectEvery { clip, cycle: 1, pick: Pick::Two(0, 0) },
        Node::Diff((base.len() + 1) as ClipId, base.len() as ClipId),
        Node::SeparateRows((base.len() + 2) as ClipId),
    ]);
    assert(g.nodes@ =~= base + limit_nodes(clip, flt, reff, diffscl, base.len() as int));
    r
}

/// The nodes of a bob of `src` with `mode`, followed by the motion
/// adaptation that `order` asks for, appended at `at`.
#[verifier::opaque]
pub open spec fn deint_nodes(src: ClipId, mode: FilterMode, order: Order, gray8: bool, at: int) -> Seq<
    Node,
> {
    let bob = bob_step_nodes(src, mode.deint_spec(), gray8, at);
    let b = at + bob.len() - 1;
    bob + match order {
        Order::Unadapted => Seq::empty(),
        Order::Progressive => seq![
            Node::SelectEvery { clip: b as ClipId, cycle: 2, pick: Pick::Two(1, 0) },
            Node::MotionAdapt { clip: src, edeint: (b + 1) as ClipId, order: 0, mode: 3 },
            Node::SelectEvery { clip: (b + 2) as ClipId, cycle: 2, pick: Pick::Two(1, 0) },
        ],
        Order::FieldOrder => seq![
            Node::MotionAdapt { clip: src, edeint: b as ClipId, order: 1, mode: 3 },
        ],
    }
}

/// Bobs `src` with `mode` (`gray8` tells whether `src` is in 8-bit gray).
/// Motion adaptation then runs on the bob as is for the true field order,
/// or, for a progressive source, on the bob with its frame pairs swapped,
/// which are swapped back afterwards.
pub fn deint(g: &mut Graph, src: ClipId, mode: FilterMode, order: Order, gray8: bool) -> (r: ClipId)
    requires
        old(g).wf(),
        old(g).has(src),
        room(old(g), 40),
    ensures
        final(g).wf(),
        final(g).nodes@ == old(g).nodes@ + deint_nodes(
            src,
            mode,
            order,
            gray8,
            old(g).nodes@.len() as int,
        ),
        r == final(g).nodes@.len() - 1,
        final(g).nodes@.len() <= old(g).nodes@.len() + 27,
{
    reveal(deint_nodes);
    let ghost base = g.nodes@;
    proof {
        lemma_bob_len(src, mode.deint_spec(), gray8, base.len() as int);
    }
    let bobbed = bob(g, src, mode.deint(), gray8);
    let ghost after_bob = g.nodes@;
    let r = match order {
        Order::Unadapted => bobbed,
        Order::Progressive => {
            let swapped = g.add(Node::SelectEvery { clip: bobbed, cycle: 2, pick: Pick::Two(1, 0) });
            // the source is nominally progressive: the spatial check would do
            // more harm than good, so mode 3 leaves it out
            let adapted = g.add(Node::MotionAdapt { clip: src, edeint: swapped, order: 0, mode: 3 });
            g.add(Node::SelectEvery { clip: adapted, cycle: 2, pick: Pick::Two(1, 0) })
        },
        Order::FieldOrder => g.add(Node::MotionAdapt { clip: src, edeint: bobbed, order: 1, mode: 3 }),
    };
    assert(g.nodes@ =~= base + deint_nodes(src, mode, order, gray8, base.len() as int));
    r
}

/// A built pipeline: its graph and the clips of its named stages.
pub struct Plan {
    pub graph: Graph,
    /// The first cross-field repair of the input.
    pub repair1: ClipId,
    /// `repair1`, temporally limited against the input when asked for.
    pub first: ClipId,
    /// The second cross-field repair, of `first`.
    pub repair2: ClipId,
    /// `repair2`, temporally limited against the input when asked for.
    pub second: ClipId,
    /// The average of `first` and `second`.
    pub average: ClipId,
    /// `average`, blurred vertically when the blur strength is positive.
    pub nuked: ClipId,
    /// `nuked` blurred twice at strength one, when contra-sharpening.
    pub nuked_blurred: Option<ClipId>,
    /// The pipeline's result.
    pub output: ClipId,
}

/// The last stages appended at `avg`: the average of the two passes'
/// results, the vertical blur when its strength is positive, and, when
/// contra-sharpening, two more blurs at strength one and the sharpening.
pub open spec fn tail_nodes(f1: ClipId, f2: ClipId, c: Config, avg: int) -> Seq<Node> {
    let one = Scale { num: 1, den: 1 };
    let blur = if c.blurv.num > 0 {
        seq![Node::BlurV { clip: avg as ClipId, strength: c.blurv }]
    } else {
        Seq::empty()
    };
    let nuked = avg + blur.len();
    let contra = if c.contra {
        seq![
            Node::BlurV { clip: nuked as ClipId, strength: one },
            Node::BlurV { clip: (nuked + 1) as ClipId, strength: one },
            Node::Contra {
                src: 0,
                nuked: nuked as ClipId,
                nuked_blurred: (nuked + 2) as ClipId,
                sstr: c.sstr,
                scl: c.scl,
            },
        ]
    } else {
        Seq::empty()
    };
    seq![Node::Average(f1, f2)] + blur + contra
}

/// The nodes of the whole pipeline for configuration `c`: the input, two
/// passes (the second on the first's result, both limited against the
/// input), their average, the optional blur, and the contra-sharpening
/// stage with its two extra blurs.
#[verifier::opaque]
pub open spec fn plan_nodes(c: Config, gray8: bool) -> Seq<Node> {
    let p1 = pass_nodes(0, 0, c, gray8, 1);
    let f1 = pass_ends(0, c, gray8, 1).1;
    let at2 = 1 + p1.len() as int;
    let p2 = pass_nodes(f1, f1, c, gray8, at2);
    let f2 = pass_ends(f1, c, gray8, at2).1;
    seq![Node::Input] + p1 + p2 + tail_nodes(f1, f2, c, at2 + p2.len())
}

/// The clip `c` holds the node `n` in plan `p`.
pub open spec fn holds(p: &Plan, c: ClipId, n: Node) -> bool {
    p.graph.has(c) && at(&p.graph, c) == n
}

/// What a plan built for configuration `c` consists of.
pub open spec fn plan_of(p: &Plan, c: Config, gray8: bool) -> bool {
    let one = Scale { num: 1, den: 1 };
    &&& p.graph.nodes@ == plan_nodes(c, gray8)
    &&& (p.repair1, p.first) == pass_ends(0, c, gray8, 1)
    &&& (p.repair2, p.second) == pass_ends(
        p.first,
        c,
        gray8,
        1 + pass_nodes(0, 0, c, gray8, 1).len() as int,
    )
    &&& p.graph.wf()
    &&& p.graph.nodes@[0] == Node::Input
    &&& p.graph.has(p.repair1) && at(&p.graph, p.repair1) is WeaveRows
    &&& p.graph.has(p.repair2) && at(&p.graph, p.repair2) is WeaveRows
    &&& match c.diffscl {
        None => p.first == p.repair1 && p.second == p.repair2,
        Some(s) => {
            &&& p.graph.has(p.first)
            &&& at(&p.graph, p.first) is TempLimit
            &&& at(&p.graph, p.first)->TempLimit_clip == 0
            &&& at(&p.graph, p.first)->TempLimit_flt == p.repair1
            &&& at(&p.graph, p.first)->TempLimit_diffscl == s
            &&& p.graph.has(p.second)
            &&& at(&p.graph, p.second) is TempLimit
            &&& at(&p.graph, p.second)->TempLimit_clip == p.first
            &&& at(&p.graph, p.second)->TempLimit_flt == p.repair2
            &&& at(&p.graph, p.second)->TempLimit_diffscl == s
        },
    }
    &&& holds(p, p.average, Node::Average(p.first, p.second))
    &&& if c.blurv.num > 0 {
        holds(p, p.nuked, Node::BlurV { clip: p.average, strength: c.blurv })
    } else {
        p.nuked == p.average
    }
    &&& if c.contra {
        &&& p.nuked_blurred is Some
        &&& holds(
            p,
            p.nuked_blurred->0,
            Node::BlurV { clip: (p.nuked_blurred->0 - 1) as ClipId, strength: one },
        )
        &&& holds(
            p,
            (p.nuked_blurred->0 - 1) as ClipId,
            Node::BlurV { clip: p.nuked, strength: one },
        )
        &&& holds(
            p,
            p.output,
            Node::Contra {
                src: 0,
                nuked: p.nuked,
                nuked_blurred: p.nuked_blurred->0,
                sstr: c.sstr,
                scl: c.scl,
            },
        )
    } else {
        p.nuked_blurred is None && p.output == p.nuked
    }
}

proof fn lemma_repair_nodes_len(
    src: ClipId,
    bobbed: Option<ClipId>,
    sw: u32,
    sh: u32,
    process_chroma: bool,
    gray8: bool,
    at: int,
)
    ensures
        repair_nodes(src, bobbed, sw, sh, process_chroma, gray8, at).len() <= 2 * (sw + sh) + 40,
        bobbed is Some ==> repair_nodes(src, bobbed, sw, sh, process_chroma, gray8, at).len() <= 2
            * (sw + sh) + 12,
{
    reveal(repair_nodes);
    reveal(middle_nodes);
    crate::geometry::lemma_steps_count(sw as nat, sh as nat);
    lemma_bob_len(src, BobStep::Spline36 { process_chroma }, gray8, at);
    let st = steps_spec(sw as nat, sh as nat);
    let conv = conv_at(src, bobbed, process_chroma, gray8, at);
    let n = n_steps(sw, sh);
    lemma_morph_chain_len(st, conv as ClipId, conv + 1, true, process_chroma);
    lemma_morph_chain_len(st, conv as ClipId, conv + 1 + n, false, process_chroma);
}

/// Frame `n` of `SelectEvery { cycle, pick }` is this frame of its input.
pub open spec fn select_source(cycle: int, pick: Pick, n: int) -> int {
    match pick {
        Pick::One(o) => n * cycle + o,
        Pick::Two(o0, o1) => (n / 2) * cycle + if n % 2 == 0 {
            o0 as int
        } else {
            o1 as int
        },
    }
}

/// Frame `k` of `Interleave(a, b)` is frame `k / 2` of `a` for even `k`
/// (first component 0) and of `b` for odd `k` (first component 1).
pub open spec fn interleave_source(k: int) -> (int, int) {
    (k % 2, k / 2)
}

/// Field `j` of `SeparateRows` is the field of parity `j % 2` (0 top,
/// 1 bottom) of input frame `j / 2`.
pub open spec fn separate_source(j: int) -> (int, int) {
    (j / 2, j % 2)
}

/// Frame `n` of `WeaveRows` is woven from input fields `2n` and `2n + 1`.
pub open spec fn weave_sources(n: int) -> (int, int) {
    (2 * n, 2 * n + 1)
}

/// The collapse at the end of cross-field repair brings the field-rate
/// intermediate back to the source rate: output frame `n` is woven from
/// the top field of frame `n` of the odd-field repair and the bottom field
/// of frame `n` of the even-field repair.
pub proof fn lemma_collapse_fields(n: int)
    requires
        n >= 0,
    ensures
        ({
            let (f0, f1) = weave_sources(n);
            let s0 = select_source(4, Pick::Two(2, 1), f0);
            let s1 = select_source(4, Pick::Two(2, 1), f1);
            let (i0, par0) = separate_source(s0);
            let (i1, par1) = separate_source(s1);
            &&& par0 == 0 && interleave_source(i0) == (1int, n)
            &&& par1 == 1 && interleave_source(i1) == (0int, n)
        }),
{
    assert((2 * n) / 2 == n && (2 * n) % 2 == 0) by (nonlinear_arith)
        requires
            n >= 0,
    ;
    assert((2 * n + 1) / 2 == n && (2 * n + 1) % 2 == 1) by (nonlinear_arith)
        requires
            n >= 0,
    ;
    assert((4 * n + 2) / 2 == 2 * n + 1 && (4 * n + 2) % 2 == 0) by (nonlinear_arith)
        requires
            n >= 0,
    ;
    assert((4 * n + 1) / 2 == 2 * n && (4 * n + 1) % 2 == 1) by (nonlinear_arith)
        requires
            n >= 0,
    ;
    assert((2 * n + 1) % 2 == 1 && (2 * n + 1) / 2 == n);
    assert(n * 4 == 4 * n);
}

/// The nodes of one pass appended at `at`: the bob of `src` that the
/// configuration asks for, cross-field repair of `src` against it, and the
/// temporal limit of the result against `limit_clip` when one is set.
#[verifier::opaque]
pub open spec fn pass_nodes(src: ClipId, limit_clip: ClipId, c: Config, gray8: bool, at: int) -> Seq<
    Node,
> {
    let d = deint_nodes(src, c.mode, c.order, gray8, at);
    let r = repair_nodes(src, Some((at + d.len() - 1) as ClipId), c.sw, c.sh, true, gray8, at + d.len());
    let repaired = (at + d.len() + r.len() - 1) as ClipId;
    d + r + match c.diffscl {
        None => Seq::empty(),
        Some(s) => limit_nodes(limit_clip, repaired, 0, s, at + d.len() + r.len()),
    }
}

/// The repaired clip of a pass appended at `at`, and the pass's result.
#[verifier::opaque]
pub open spec fn pass_ends(src: ClipId, c: Config, gray8: bool, at: int) -> (ClipId, ClipId) {
    let d = deint_nodes(src, c.mode, c.order, gray8, at);
    let r = repair_nodes(src, Some((at + d.len() - 1) as ClipId), c.sw, c.sh, true, gray8, at + d.len());
    let repaired = (at + d.len() + r.len() - 1) as ClipId;
    (
        repaired,
        match c.diffscl {
            None => repaired,
            Some(_) => (at + d.len() + r.len() + 21) as ClipId,
        },
    )
}

/// One pass: cross-field repair of `src` against its bob, then the
/// temporal limit when one is configured.
fn repair_pass(g: &mut Graph, src: ClipId, limit_clip: ClipId, c: &Config, gray8: bool) -> (r: (
    ClipId,
    ClipId,
))
    requires
        old(g).wf(),
        old(g).has(src),
        old(g).has(limit_clip),
        room(old(g), 2 * (c.sw + c.sh) + 128),
    ensures
        final(g).wf(),
        final(g).nodes@ == old(g).nodes@ + pass_nodes(
            src,
            limit_clip,
            *c,
            gray8,
            old(g).nodes@.len() as int,
        ),
        r == pass_ends(src, *c, gray8, old(g).nodes@.len() as int),
        old(g).nodes@.is_prefix_of(final(g).nodes@),
        final(g).nodes@.len() <= old(g).nodes@.len() + 2 * (c.sw + c.sh) + 100,
        final(g).has(r.0) && at(final(g), r.0) is WeaveRows,
        match c.diffscl {
            None => r.1 == r.0,
            Some(s) => {
                &&& final(g).has(r.1)
                &&& at(final(g), r.1) is TempLimit
                &&& at(final(g), r.1)->TempLimit_clip == limit_clip
                &&& at(final(g), r.1)->TempLimit_flt == r.0
                &&& at(final(g), r.1)->TempLimit_diffscl == s
            },
        },
{
    let ghost base = g.nodes@;
    proof {
        lemma_bob_len(src, c.mode.deint_spec(), gray8, base.len() as int);
    }
    let bobbed = deint(g, src, c.mode, c.order, gray8);
    let ghost g1 = g.nodes@;
    let repaired = cross_field_repair2(g, src, Some(bobbed), c.sw, c.sh, true, gray8);
    let ghost g2 = g.nodes@;
    proof {
        lemma_repair_nodes_len(src, Some(bobbed), c.sw, c.sh, true, gray8, g1.len() as int);
        assert(base.is_prefix_of(g2));
    }
    proof {
        reveal(pass_nodes);
        reveal(pass_ends);
    }
    match c.diffscl {
        Some(s) => {
            let limited = temp_limit(g, limit_clip, repaired, 0, s);
            assert(g.nodes@[repaired as int] == g2[repaired as int]);
            assert(base.is_prefix_of(g.nodes@));
            assert(g.nodes@ =~= base + pass_nodes(src, limit_clip, *c, gray8, base.len() as int));
            (repaired, limited)
        },
        None => {
            assert(g.nodes@ =~= base + pass_nodes(src, limit_clip, *c, gray8, base.len() as int));
            (repaired, repaired)
        },
    }
}

fn finish(g: &mut Graph, first: ClipId, second: ClipId, c: &Config) -> (r: (
    ClipId,
    ClipId,
    Option<ClipId>,
    ClipId,
))
    requires
        old(g).wf(),
        old(g).has(first),
        old(g).has(second),
        room(old(g), 8),
        c.wf(),
    ensures
        final(g).wf(),
        final(g).nodes@ == old(g).nodes@ + tail_nodes(first, second, *c, old(g).nodes@.len() as int),
        ({
            let (average, nuked, nuked_blurred, output) = r;
            let one = Scale { num: 1, den: 1 };
            &&& average == old(g).nodes@.len()
            &&& at(final(g), average) == Node::Average(first, second)
            &&& if c.blurv.num > 0 {
                nuked == average + 1 && at(final(g), nuked) == (Node::BlurV {
                    clip: average,
                    strength: c.blurv,
                })
            } else {
                nuked == average
            }
            &&& if c.contra {
                &&& nuked_blurred == Some((nuked + 2) as ClipId)
                &&& at(final(g), (nuked + 1) as ClipId) == (Node::BlurV { clip: nuked, strength: one })
                &&& at(final(g), (nuked + 2) as ClipId) == (Node::BlurV {
                    clip: (nuked + 1) as ClipId,
                    strength: one,
                })
                &&& output == nuked + 3
                &&& at(final(g), output) == (Node::Contra {
                    src: 0,
                    nuked,
                    nuked_blurred: (nuked + 2) as ClipId,
                    sstr: c.sstr,
                    scl: c.scl,
                })
            } else {
                nuked_blurred is None && output == nuked
            }
            &&& output < final(g).nodes@.len()
        }),
{
    let ghost base = g.nodes@;
    let average = g.add(Node::Average(first, second));
    let nuked = if c.blurs() {
        g.add(Node::BlurV { clip: average, strength: c.blurv })
    } else {
        average
    };
    let mut nuked_blurred: Option<ClipId> = None;
    let mut output = nuked;
    if c.contra {
        let once = g.add(Node::BlurV { clip: nuked, strength: Scale::one() });
        let twice = g.add(Node::BlurV { clip: once, strength: Scale::one() });
        output = g.add(
            Node::Contra { src: 0, nuked, nuked_blurred: twice, sstr: c.sstr, scl: c.scl },
        );
        nuked_blurred = Some(twice);
    }
    assert(g.nodes@ =~= base + tail_nodes(first, second, *c, base.len() as int));
    (average, nuked, nuked_blurred, output)
}

/// Validates the options, then builds the whole pipeline: two passes of
/// repair, their average, the optional vertical blur, and contra-sharpening
/// when enabled. `gray8` tells whether the input clip is in 8-bit gray.
pub fn create_mpeg2stinx(o: Options, gray8: bool) -> (r: Result<Plan, StinxError>)
    requires
        4 * (crate::config::radius_of(o.sw) + crate::config::radius_of(o.sh)) + 512 < usize::MAX,
        crate::config::scale_ok(o.blurv),
        crate::config::scale_ok(o.sstr),
        crate::config::scale_ok(o.scl),
        crate::config::scale_ok(o.diffscl),
    ensures
        options_error(o) is Some ==> r == Err::<Plan, StinxError>(options_error(o)->0),
        options_error(o) is None ==> r is Ok && plan_of(&r->Ok_0, config_of(o), gray8),
{
    let c = match Config::new(o) {
        Ok(c) => c,
        Err(e) => {
            return Err(e);
        },
    };
    let mut g = Graph::new();
    let (repair1, first) = repair_pass(&mut g, 0, 0, &c, gray8);
    let ghost g1 = g.nodes@;
    let (repair2, second) = repair_pass(&mut g, first, first, &c, gray8);
    let ghost g2 = g.nodes@;
    let (average, nuked, nuked_blurred, output) = finish(&mut g, first, second, &c);
    proof {
        assert(g.nodes@[0] == g1[0]);
        assert(g.nodes@[repair1 as int] == g1[repair1 as int]);
        assert(g.nodes@[first as int] == g1[first as int]);
        assert(g.nodes@[repair2 as int] == g2[repair2 as int]);
        assert(g.nodes@[second as int] == g2[second as int]);
    }
    let p = Plan {
        graph: g,
        repair1,
        first,
        repair2,
        second,
        average,
        nuked,
        nuked_blurred,
        output,
    };
    let ghost cfg = config_of(o);
    assert(c == cfg);
    proof {
        reveal(plan_nodes);
        assert(p.graph.nodes@ =~= plan_nodes(cfg, gray8));
    }
    assert(plan_of(&p, cfg, gray8));
    Ok(p)
}

} // verus!
