use mpeg2stinx::config::{FilterMode, Options, Order};
use mpeg2stinx::error::{ConfigError, StinxError};
use mpeg2stinx::geometry::ExpandMode;
use mpeg2stinx::graph::{
    create_mpeg2stinx, cross_field_repair2, deint, expand_multi, inpand_multi, max_yuv, point_bob,
    spline36_bob, temp_limit, Graph, Node, Pick, Resampler,
};
use mpeg2stinx::sample::Scale;

fn defaults() -> Options {
    Options {
        mode: None,
        sw: None,
        sh: None,
        contra: None,
        blurv: None,
        sstr: None,
        scl: None,
        dither: None,
        order: None,
        diffscl: None,
    }
}

fn refs_ok(g: &Graph) -> bool {
    g.nodes.iter().enumerate().all(|(i, n)| {
        let ids: Vec<usize> = match *n {
            Node::Input => vec![],
            Node::Neural { clip, .. }
            | Node::ToGray8(clip)
            | Node::PlaneToGray8 { clip, .. }
            | Node::DoubleHeight { clip, .. } => vec![clip],
            Node::ResizeLike { clip, like, .. } => vec![clip, like],
            Node::ShufflePlanes { y, u, v } => vec![y, u, v],
            Node::MotionAdapt { clip, edeint, .. } => vec![clip, edeint],
            Node::ConvertLike { clip, like } => vec![clip, like],
            Node::SeparateRows(c) | Node::WeaveRows(c) => vec![c],
            Node::SelectEvery { clip, .. } => vec![clip],
            Node::Interleave(a, b)
            | Node::Min(a, b)
            | Node::Max(a, b)
            | Node::Diff(a, b)
            | Node::Average(a, b) => {
                vec![a, b]
            }
            Node::Repair { clip, reference, .. } => vec![clip, reference],
            Node::Expand { clip, .. } | Node::Inpand { clip, .. } | Node::BlurV { clip, .. } => {
                vec![clip]
            }
            Node::Median3 { a, b, c, .. } => vec![a, b, c],
            Node::TempLimit { clip, flt, diff2, .. } => vec![clip, flt, diff2],
            Node::Contra { src, nuked, nuked_blurred, .. } => vec![src, nuked, nuked_blurred],
        };
        ids.iter().all(|&c| c < i)
    })
}

#[test]
fn expand_with_zero_radii_is_identity() {
    let mut g = Graph::new();
    assert_eq!(expand_multi(&mut g, 0, 0, 0, true), 0);
    assert_eq!(inpand_multi(&mut g, 0, 0, 0, false), 0);
    assert_eq!(g.nodes, vec![Node::Input]);
}

#[test]
fn expand_chain() {
    let mut g = Graph::new();
    let r = expand_multi(&mut g, 0, 2, 1, false);
    assert_eq!(r, 2);
    assert_eq!(
        g.nodes,
        vec![
            Node::Input,
            Node::Expand { clip: 0, mode: ExpandMode::Square, process_chroma: false },
            Node::Expand { clip: 1, mode: ExpandMode::Horizontal, process_chroma: false },
        ]
    );
    let r = inpand_multi(&mut g, 0, 0, 1, true);
    assert_eq!(r, 3);
    assert_eq!(g.nodes[3], Node::Inpand { clip: 0, mode: ExpandMode::Vertical, process_chroma: true });
}

#[test]
fn repair_fast_path() {
    let mut g = Graph::new();
    let r = cross_field_repair2(&mut g, 0, None, 1, 1, true, true);
    // input, a seven-node luma bob, conversion, six, four
    assert_eq!(g.nodes.len(), 19);
    assert_eq!(r, 18);
    assert_eq!(g.nodes[1], Node::ToGray8(0));
    assert_eq!(g.nodes[8], Node::ConvertLike { clip: 7, like: 0 });
    assert_eq!(g.nodes[9], Node::SelectEvery { clip: 8, cycle: 2, pick: Pick::One(0) });
    assert_eq!(g.nodes[11], Node::Repair { clip: 0, reference: 10, mode: 1 });
    assert_eq!(g.nodes[14], Node::Repair { clip: 0, reference: 13, mode: 1 });
    assert_eq!(g.nodes[15], Node::Interleave(11, 14));
    assert_eq!(g.nodes[16], Node::SeparateRows(15));
    assert_eq!(g.nodes[17], Node::SelectEvery { clip: 16, cycle: 4, pick: Pick::Two(2, 1) });
    assert_eq!(g.nodes[18], Node::WeaveRows(17));
    assert!(refs_ok(&g));
}

#[test]
fn spline36_bob_nodes() {
    let mut g = Graph::new();
    let r = spline36_bob(&mut g, 0, true, true);
    assert_eq!(r, 7);
    assert_eq!(g.nodes[2], Node::SeparateRows(1));
    assert_eq!(
        g.nodes[5],
        Node::DoubleHeight { clip: 3, resampler: Resampler::Spline36, shift: Scale::new(1, 4) }
    );
    assert_eq!(
        g.nodes[6],
        Node::DoubleHeight { clip: 4, resampler: Resampler::Spline36, shift: Scale::new(-1, 4) }
    );
    assert_eq!(g.nodes[7], Node::Interleave(5, 6));

    let mut g = Graph::new();
    let r = spline36_bob(&mut g, 0, true, false);
    assert_eq!(r, 24);
    assert_eq!(g.nodes[8], Node::PlaneToGray8 { clip: 0, plane: 1 });
    assert_eq!(g.nodes[9], Node::ToGray8(8));
    assert_eq!(g.nodes[16], Node::PlaneToGray8 { clip: 0, plane: 2 });
    assert_eq!(g.nodes[24], Node::ShufflePlanes { y: 7, u: 15, v: 23 });
    assert!(refs_ok(&g));

    let mut g = Graph::new();
    let r = spline36_bob(&mut g, 0, false, false);
    assert_eq!(r, 12);
    assert_eq!(g.nodes[9], Node::SelectEvery { clip: 8, cycle: 1, pick: Pick::Two(0, 0) });
    assert_eq!(g.nodes[12], Node::ShufflePlanes { y: 7, u: 9, v: 11 });
}

#[test]
fn point_bob_nodes() {
    let mut g = Graph::new();
    assert_eq!(point_bob(&mut g, 0), 2);
    assert_eq!(g.nodes[1], Node::SeparateRows(0));
    assert_eq!(
        g.nodes[2],
        Node::DoubleHeight { clip: 1, resampler: Resampler::Point, shift: Scale::new(0, 1) }
    );
}

#[test]
fn max_yuv_nodes() {
    let mut g = Graph::new();
    assert_eq!(max_yuv(&mut g, 0), 11);
    assert_eq!(g.nodes[4], Node::ResizeLike { clip: 1, like: 2, resampler: Resampler::Bilinear });
    assert_eq!(g.nodes[7], Node::Max(1, 5));
    assert_eq!(g.nodes[8], Node::Max(7, 6));
    assert_eq!(g.nodes[9], Node::Max(4, 2));
    assert_eq!(g.nodes[10], Node::Max(9, 3));
    assert_eq!(g.nodes[11], Node::ShufflePlanes { y: 8, u: 10, v: 10 });
    assert!(refs_ok(&g));
}

#[test]
fn repair_median_path() {
    let mut g = Graph::new();
    let bob = deint(&mut g, 0, FilterMode::Nnedi3, Order::Unadapted, false);
    let r = cross_field_repair2(&mut g, 0, Some(bob), 2, 1, false, false);
    // input, bob, conversion, two dilations, two erosions, six, four
    assert_eq!(g.nodes.len(), 17);
    assert_eq!(r, 16);
    assert_eq!(g.nodes[2], Node::ConvertLike { clip: 1, like: 0 });
    assert_eq!(g.nodes[7], Node::SelectEvery { clip: 4, cycle: 2, pick: Pick::One(0) });
    assert_eq!(g.nodes[8], Node::SelectEvery { clip: 6, cycle: 2, pick: Pick::One(0) });
    assert_eq!(g.nodes[9], Node::Median3 { a: 0, b: 7, c: 8, process_chroma: false });
    assert_eq!(g.nodes[12], Node::Median3 { a: 0, b: 10, c: 11, process_chroma: false });
    assert_eq!(g.nodes[13], Node::Interleave(9, 12));
    assert!(refs_ok(&g));
}

#[test]
fn limiter_graph() {
    let mut g = Graph::new();
    let r = temp_limit(&mut g, 0, 0, 0, Scale::new(3, 2));
    assert_eq!(g.nodes.len(), 23);
    assert_eq!(r, 22);
    assert_eq!(g.nodes[1], Node::SelectEvery { clip: 0, cycle: 1, pick: Pick::Two(-1, 1) });
    assert_eq!(g.nodes[3], Node::Diff(2, 1));
    assert_eq!(g.nodes[5], Node::ToGray8(4));
    assert_eq!(g.nodes[16], Node::SelectEvery { clip: 15, cycle: 4, pick: Pick::Two(0, 1) });
    assert_eq!(g.nodes[18], Node::Min(16, 17));
    assert_eq!(g.nodes[19], Node::Expand { clip: 18, mode: ExpandMode::Square, process_chroma: true });
    assert_eq!(g.nodes[21], Node::WeaveRows(20));
    assert_eq!(
        g.nodes[22],
        Node::TempLimit { clip: 0, flt: 0, diff2: 21, diffscl: Scale::new(3, 2) }
    );
    assert!(refs_ok(&g));
}

#[test]
fn deint_orders() {
    let mut g = Graph::new();
    assert_eq!(deint(&mut g, 0, FilterMode::Nnedi3, Order::Unadapted, true), 1);
    assert_eq!(g.nodes[1], Node::Neural { clip: 0, field: 3, opencl: false });
    assert_eq!(deint(&mut g, 0, FilterMode::Nnedi3CL, Order::FieldOrder, true), 3);
    assert_eq!(g.nodes[2], Node::Neural { clip: 0, field: 3, opencl: true });
    assert_eq!(g.nodes[3], Node::MotionAdapt { clip: 0, edeint: 2, order: 1, mode: 3 });
    assert_eq!(deint(&mut g, 0, FilterMode::PointBob, Order::Progressive, true), 8);
    assert_eq!(g.nodes[4], Node::SeparateRows(0));
    assert_eq!(g.nodes[6], Node::SelectEvery { clip: 5, cycle: 2, pick: Pick::Two(1, 0) });
    assert_eq!(g.nodes[7], Node::MotionAdapt { clip: 0, edeint: 6, order: 0, mode: 3 });
    assert_eq!(g.nodes[8], Node::SelectEvery { clip: 7, cycle: 2, pick: Pick::Two(1, 0) });
    assert_eq!(deint(&mut g, 0, FilterMode::Spline36Bob, Order::Unadapted, false), 32);
    assert_eq!(g.nodes[32], Node::ShufflePlanes { y: 15, u: 23, v: 31 });
}

#[test]
fn default_pipeline_plan() {
    let p = create_mpeg2stinx(defaults(), false).unwrap();
    assert!(refs_ok(&p.graph));
    assert_eq!(p.graph.nodes[0], Node::Input);
    assert_eq!(p.first, p.repair1);
    assert_eq!(p.second, p.repair2);
    assert_eq!(p.graph.nodes[p.average], Node::Average(p.first, p.second));
    assert_eq!(
        p.graph.nodes[p.nuked],
        Node::BlurV { clip: p.average, strength: Scale::new(9, 10) }
    );
    let nb = p.nuked_blurred.unwrap();
    assert_eq!(
        p.graph.nodes[p.output],
        Node::Contra {
            src: 0,
            nuked: p.nuked,
            nuked_blurred: nb,
            sstr: Scale::new(2, 1),
            scl: Scale::new(1, 4),
        }
    );
    assert_eq!(p.output, p.graph.nodes.len() - 1);
}

#[test]
fn plan_with_limit_and_no_contra() {
    let mut o = defaults();
    o.contra = Some(0);
    o.diffscl = Some(Scale::new(1, 2));
    o.mode = Some(0);
    let p = create_mpeg2stinx(o, true).unwrap();
    assert!(refs_ok(&p.graph));
    assert_eq!(p.output, p.nuked);
    assert_eq!(p.nuked, p.average);
    assert_eq!(p.nuked_blurred, None);
    match p.graph.nodes[p.first] {
        Node::TempLimit { clip, flt, diffscl, .. } => {
            assert_eq!((clip, flt, diffscl), (0, p.repair1, Scale::new(1, 2)));
        }
        _ => panic!("first pass is not limited"),
    }
    match p.graph.nodes[p.second] {
        Node::TempLimit { clip, flt, .. } => assert_eq!((clip, flt), (p.first, p.repair2)),
        _ => panic!("second pass is not limited"),
    }
}

#[test]
fn plan_rejects_bad_options() {
    let mut o = defaults();
    o.mode = Some(4);
    assert_eq!(
        create_mpeg2stinx(o, true).err(),
        Some(StinxError::InvalidConfig(ConfigError::Mode(4)))
    );
    let mut o = defaults();
    o.order = Some(2);
    assert_eq!(
        create_mpeg2stinx(o, true).err(),
        Some(StinxError::InvalidConfig(ConfigError::Order(2)))
    );
    let mut o = defaults();
    o.diffscl = Some(Scale::new(-1, 1));
    assert_eq!(
        create_mpeg2stinx(o, true).err(),
        Some(StinxError::InvalidConfig(ConfigError::DiffScale))
    );
}
