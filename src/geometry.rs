use vstd::prelude::*;

verus! {

/// The structuring element of one dilation or erosion step.
#[derive(Clone, Copy, Debug, PartialEq, Eq, Structural)]
pub enum ExpandMode {
    /// All eight neighbours.
    Square,
    /// Left and right neighbours.
    Horizontal,
    /// Neighbours above and below.
    Vertical,
    /// No neighbours: the step is the identity.
    Empty,
}

/// The eight neighbour flags of a structuring element, row by row
/// (top-left, top, top-right, left, right, bottom-left, bottom, bottom-right).
pub open spec fn coords_spec(m: ExpandMode) -> Seq<i64> {
    match m {
        ExpandMode::Square => seq![1, 1, 1, 1, 1, 1, 1, 1],
        ExpandMode::Horizontal => seq![0, 0, 0, 1, 1, 0, 0, 0],
        ExpandMode::Vertical => seq![0, 1, 0, 0, 0, 0, 1, 0],
        ExpandMode::Empty => seq![0, 0, 0, 0, 0, 0, 0, 0],
    }
}

impl ExpandMode {
    /// The neighbour flags handed to the morphological primitives.
    pub fn to_coords(self) -> (r: Vec<i64>)
        ensures
            r@ == coords_spec(self),
    {
        let r = match self {
            ExpandMode::Square => vec![1, 1, 1, 1, 1, 1, 1, 1],
            ExpandMode::Horizontal => vec![0, 0, 0, 1, 1, 0, 0, 0],
            ExpandMode::Vertical => vec![0, 1, 0, 0, 0, 0, 1, 0],
            ExpandMode::Empty => vec![0, 0, 0, 0, 0, 0, 0, 0],
        };
        assert(r@ =~= coords_spec(self));
        r
    }
}

/// The element of one step with remaining radii `sw` and `sh`.
pub open spec fn mode_for(sw: nat, sh: nat) -> ExpandMode {
    if sw == 0 && sh == 0 {
        ExpandMode::Empty
    } else if sw == 0 {
        ExpandMode::Vertical
    } else if sh == 0 {
        ExpandMode::Horizontal
    } else {
        ExpandMode::Square
    }
}

/// The steps of an iterated dilation or erosion of radii `sw` and `sh`:
/// one step with `mode_for(sw, sh)`, then the steps of the radii each
/// reduced by one, floored at zero; nothing once both are zero.
pub open spec fn steps_spec(sw: nat, sh: nat) -> Seq<ExpandMode>
    decreases sw + sh,
{
    if sw == 0 && sh == 0 {
        Seq::empty()
    } else {
        seq![mode_for(sw, sh)] + steps_spec(
            if sw > 0 {
                (sw - 1) as nat
            } else {
                0
            },
            if sh > 0 {
                (sh - 1) as nat
            } else {
                0
            },
        )
    }
}

/// The element for remaining radii `sw` and `sh`.
pub fn expand_mode(sw: u32, sh: u32) -> (r: ExpandMode)
    ensures
        r == mode_for(sw as nat, sh as nat),
{
    match (sw, sh) {
        (0, 0) => ExpandMode::Empty,
        (0, _) => ExpandMode::Vertical,
        (_, 0) => ExpandMode::Horizontal,
        _ => ExpandMode::Square,
    }
}

/// The steps to run for an iterated dilation or erosion of radii `sw` and
/// `sh`. Running none leaves the clip unchanged.
pub fn multi_steps(sw: u32, sh: u32) -> (r: Vec<ExpandMode>)
    ensures
        r@ == steps_spec(sw as nat, sh as nat),
{
    let mut out: Vec<ExpandMode> = Vec::new();
    let mut w = sw;
    let mut h = sh;
    loop
        invariant
            out@ + steps_spec(w as nat, h as nat) == steps_spec(sw as nat, sh as nat),
        decreases w + h,
    {
        let mode = expand_mode(w, h);
        if mode == ExpandMode::Empty {
            assert(out@ + steps_spec(w as nat, h as nat) =~= out@);
            return out;
        }
        let ghost prev = out@;
        out.push(mode);
        let nw = w.saturating_sub(1);
        let nh = h.saturating_sub(1);
        assert(out@ + steps_spec(nw as nat, nh as nat) =~= prev + steps_spec(w as nat, h as nat));
        w = nw;
        h = nh;
    }
}

/// The steps of a dilation or erosion number the larger radius, and none
/// are run when both radii are zero.
pub proof fn lemma_steps_count(sw: nat, sh: nat)
    ensures
        steps_spec(sw, sh).len() == if sw >= sh {
            sw
        } else {
            sh
        },
        (sw == 0 && sh == 0) ==> steps_spec(sw, sh) == Seq::<ExpandMode>::empty(),
        forall|i: int|
            0 <= i < steps_spec(sw, sh).len() ==> #[trigger] steps_spec(sw, sh)[i]
                != ExpandMode::Empty,
    decreases sw + sh,
{
    if !(sw == 0 && sh == 0) {
        let nw: nat = if sw > 0 {
            (sw - 1) as nat
        } else {
            0
        };
        let nh: nat = if sh > 0 {
            (sh - 1) as nat
        } else {
            0
        };
        lemma_steps_count(nw, nh);
        let s = steps_spec(sw, sh);
        assert forall|i: int| 0 <= i < s.len() implies #[trigger] s[i] != ExpandMode::Empty by {
            if i > 0 {
                assert(s[i] == steps_spec(nw, nh)[i - 1]);
            }
        }
    }
}

} // verus!
