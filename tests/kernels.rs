use mpeg2stinx::error::FormatMismatch;
use mpeg2stinx::frame::{Frame, Plane};
use mpeg2stinx::kernels::Kernel;
use mpeg2stinx::ops::{
    add_diff, lutxy_diff, lutxy_limd, lutxy_sharp, lutxy_sharpd, make_diff, max, median3, min,
};
use mpeg2stinx::sample::{bias_value, max_value, Scale};

fn gray(bits: u32, w: usize, h: usize, samples: Vec<u32>) -> Frame {
    Frame::new(bits, vec![Plane::new(w, h, samples)])
}

fn flat(bits: u32, v: u32) -> Frame {
    gray(bits, 2, 2, vec![v; 4])
}

fn yuv(bits: u32, y: u32, u: u32, v: u32) -> Frame {
    Frame::new(
        bits,
        vec![
            Plane::new(2, 2, vec![y; 4]),
            Plane::new(1, 1, vec![u]),
            Plane::new(1, 1, vec![v]),
        ],
    )
}

fn first(f: &Frame) -> Vec<u32> {
    f.planes[0].samples.clone()
}

#[test]
fn sample_constants() {
    assert_eq!(max_value(8), 255);
    assert_eq!(max_value(16), 65535);
    assert_eq!(max_value(32), 4294967295);
    assert_eq!(bias_value(8), 16);
    assert_eq!(bias_value(16), 256);
    assert_eq!(bias_value(32), 65536);
}

#[test]
fn self_combination() {
    for &(bits, a) in &[(8u32, 0u32), (8, 77), (8, 255), (16, 40000), (32, 4294967295)] {
        let f = flat(bits, a);
        assert_eq!(first(&min(&f, &f)), vec![a; 4]);
        assert_eq!(first(&max(&f, &f)), vec![a; 4]);
        assert_eq!(first(&median3(&f, &f, &f, true).unwrap()), vec![a; 4]);
        assert_eq!(first(&lutxy_diff(&f, &f)), vec![0; 4]);
    }
}

#[test]
fn commutative_operands() {
    let a = gray(8, 2, 2, vec![0, 10, 200, 255]);
    let b = gray(8, 2, 2, vec![255, 3, 201, 0]);
    assert_eq!(first(&min(&a, &b)), vec![0, 3, 200, 0]);
    assert_eq!(first(&min(&a, &b)), first(&min(&b, &a)));
    assert_eq!(first(&max(&a, &b)), vec![255, 10, 201, 255]);
    assert_eq!(first(&max(&a, &b)), first(&max(&b, &a)));
    assert_eq!(first(&lutxy_diff(&a, &b)), vec![255, 7, 1, 255]);
    assert_eq!(first(&lutxy_diff(&a, &b)), first(&lutxy_diff(&b, &a)));
}

#[test]
fn outputs_stay_in_range() {
    let strong = Scale::new(7, 1);
    let negative = Scale::new(-5, 2);
    for &bits in &[8u32, 16, 32] {
        let top = max_value(bits);
        let a = gray(bits, 2, 2, vec![0, top, top / 2, 1]);
        let b = gray(bits, 2, 2, vec![top, 0, 1, top / 2]);
        let outs = vec![
            make_diff(&a, &b),
            add_diff(&a, &b),
            lutxy_sharp(&a, &b, strong),
            lutxy_sharp(&a, &b, negative),
            lutxy_sharpd(&a, &b, strong),
            lutxy_limd(&a, &b, negative),
            lutxy_diff(&a, &b),
        ];
        for f in &outs {
            assert!(f.check());
            for &s in &f.planes[0].samples {
                assert!(s <= top);
            }
        }
    }
}

#[test]
fn make_and_add_diff_values() {
    let a = gray(8, 2, 2, vec![100, 255, 0, 50]);
    let b = gray(8, 2, 2, vec![90, 0, 255, 50]);
    // bias 16 at 8 bits
    assert_eq!(first(&make_diff(&a, &b)), vec![26, 255, 0, 16]);
    assert_eq!(first(&add_diff(&a, &b)), vec![174, 239, 239, 84]);
    let a16 = gray(16, 1, 1, vec![1000]);
    let b16 = gray(16, 1, 1, vec![300]);
    assert_eq!(first(&make_diff(&a16, &b16)), vec![956]);
}

#[test]
fn add_diff_restores_make_diff() {
    let a = gray(8, 2, 2, vec![100, 40, 30, 200]);
    let b = gray(8, 2, 2, vec![90, 50, 30, 199]);
    let d = make_diff(&a, &b);
    assert_eq!(first(&add_diff(&b, &d)), first(&a));
}

#[test]
fn diff_round_trip_saturates() {
    let a = gray(8, 1, 2, vec![250, 0]);
    let b = gray(8, 1, 2, vec![250, 0]);
    assert_eq!(first(&add_diff(&a, &b)), vec![255, 0]);
    let c = gray(8, 1, 2, vec![255, 0]);
    let d = gray(8, 1, 2, vec![0, 255]);
    assert_eq!(first(&make_diff(&c, &d)), vec![255, 0]);
}

#[test]
fn sharp_values() {
    let cur = gray(8, 2, 1, vec![100, 90]);
    let blur = gray(8, 2, 1, vec![90, 100]);
    let two = Scale::new(2, 1);
    assert_eq!(first(&lutxy_sharp(&cur, &blur, two)), vec![120, 70]);
    assert_eq!(first(&lutxy_sharpd(&cur, &blur, two)), vec![36, 0]);
    let quarter = Scale::new(1, 4);
    // (100 - 90) / 4 = 2.5 and (90 - 100) / 4 = -2.5, both cut toward zero
    assert_eq!(first(&lutxy_sharp(&cur, &blur, quarter)), vec![102, 88]);
}

#[test]
fn sharp_with_zero_strength_is_identity() {
    let cur = gray(8, 2, 2, vec![0, 17, 128, 255]);
    let blur = gray(8, 2, 2, vec![255, 3, 127, 0]);
    let zero = Scale::new(0, 1);
    assert_eq!(first(&lutxy_sharp(&cur, &blur, zero)), first(&cur));
}

#[test]
fn limd_values() {
    // bias 16: deviations -6 and 14 disagree in sign
    let a = gray(8, 2, 1, vec![10, 20]);
    let b = gray(8, 2, 1, vec![30, 40]);
    let quarter = Scale::new(1, 4);
    // -6 / 4 cut toward zero is -1; deviations 4 and 24 agree, 4 kept as is
    assert_eq!(first(&lutxy_limd(&a, &b, quarter)), vec![15, 20]);
}

#[test]
fn limd_with_unit_scale_keeps_smaller_deviation() {
    let a = gray(8, 2, 2, vec![10, 20, 0, 255]);
    let b = gray(8, 2, 2, vec![30, 40, 17, 16]);
    let one = Scale::one();
    assert_eq!(first(&lutxy_limd(&a, &b, one)), vec![10, 20, 17, 16]);
}

#[test]
fn kernel_apply_direct() {
    assert_eq!(Kernel::Min.apply(3, 9, 8), 3);
    assert_eq!(Kernel::Max.apply(3, 9, 8), 9);
    assert_eq!(Kernel::Diff.apply(3, 9, 8), 6);
    assert_eq!(Kernel::MakeDiff.apply(3, 9, 8), 10);
    assert_eq!(Kernel::AddDiff.apply(3, 9, 8), 0);
}

#[test]
fn median_values() {
    let a = gray(8, 3, 1, vec![1, 9, 5]);
    let b = gray(8, 3, 1, vec![5, 1, 9]);
    let c = gray(8, 3, 1, vec![9, 5, 1]);
    assert_eq!(first(&median3(&a, &b, &c, false).unwrap()), vec![5, 5, 5]);
}

#[test]
fn median_without_chroma_copies_chroma() {
    let a = yuv(8, 10, 20, 30);
    let b = yuv(8, 50, 60, 70);
    let c = yuv(8, 90, 100, 110);
    let r = median3(&a, &b, &c, false).unwrap();
    assert_eq!(r.planes[0].samples, vec![50; 4]);
    assert_eq!(r.planes[1].samples, vec![20]);
    assert_eq!(r.planes[2].samples, vec![30]);
    let r = median3(&a, &b, &c, true).unwrap();
    assert_eq!(r.planes[1].samples, vec![60]);
    assert_eq!(r.planes[2].samples, vec![70]);
}

#[test]
fn median_format_mismatches() {
    let g = flat(8, 1);
    let y = yuv(8, 1, 1, 1);
    assert_eq!(
        median3(&g, &y, &g, true).unwrap_err(),
        FormatMismatch::PlaneCount { operand: 2, found: 3, expected: 1 }
    );
    assert_eq!(
        median3(&g, &g, &y, true).unwrap_err(),
        FormatMismatch::PlaneCount { operand: 3, found: 3, expected: 1 }
    );
    let g16 = flat(16, 1);
    assert_eq!(
        median3(&g, &g16, &g, true).unwrap_err(),
        FormatMismatch::BitDepth { operand: 2, found: 16, expected: 8 }
    );
    assert_eq!(
        median3(&g, &g, &g16, true).unwrap_err(),
        FormatMismatch::BitDepth { operand: 3, found: 16, expected: 8 }
    );
    let wide = gray(8, 4, 1, vec![1; 4]);
    assert_eq!(
        median3(&g, &wide, &g, true).unwrap_err(),
        FormatMismatch::PlaneSize { operand: 2 }
    );
    assert_eq!(
        median3(&g, &g, &wide, true).unwrap_err(),
        FormatMismatch::PlaneSize { operand: 3 }
    );
}

#[test]
fn frame_check() {
    assert!(flat(8, 255).check());
    assert!(!flat(8, 256).check());
    assert!(!gray(8, 3, 1, vec![1, 2]).check());
    assert!(!gray(0, 1, 1, vec![0]).check());
    assert!(!gray(33, 1, 1, vec![0]).check());
    assert!(!Frame::new(8, vec![]).check());
    assert!(yuv(10, 1023, 0, 512).check());
    let f = gray(8, 2, 2, vec![1, 2, 3, 4]);
    assert_eq!(f.planes[0].at(1, 1), 4);
    assert_eq!(f.bytes_per_sample(), 1);
    assert_eq!(flat(10, 0).bytes_per_sample(), 2);
    assert_eq!(flat(32, 0).bytes_per_sample(), 4);
}
