use mpeg2stinx::config::{Config, Options};
use mpeg2stinx::error::{FormatMismatch, StinxError};
use mpeg2stinx::frame::{Frame, Plane};
use mpeg2stinx::pipeline::{contra_sharpen, temp_limit_frame, Mpeg2Stinx, Upstream};
use mpeg2stinx::sample::Scale;

fn gray(bits: u32, w: usize, h: usize, samples: Vec<u32>) -> Frame {
    Frame::new(bits, vec![Plane::new(w, h, samples)])
}

fn px(v: u32) -> Frame {
    gray(8, 1, 1, vec![v])
}

fn first(f: &Frame) -> Vec<u32> {
    f.planes[0].samples.clone()
}

fn stage(contra: bool, scl: Scale) -> Mpeg2Stinx {
    let o = Options {
        mode: None,
        sw: None,
        sh: None,
        contra: Some(if contra { 1 } else { 0 }),
        blurv: None,
        sstr: None,
        scl: Some(scl),
        dither: None,
        order: None,
        diffscl: None,
    };
    Mpeg2Stinx::new(&Config::new(o).unwrap())
}

#[test]
fn temp_limit_values() {
    let clip = gray(8, 3, 1, vec![100, 100, 100]);
    let flt = gray(8, 3, 1, vec![200, 50, 95]);
    let diff2 = gray(8, 3, 1, vec![10, 10, 10]);
    let r = temp_limit_frame(&clip, &flt, &diff2, Scale::one()).unwrap();
    assert_eq!(first(&r), vec![110, 90, 95]);
    let r = temp_limit_frame(&clip, &flt, &diff2, Scale::new(0, 1)).unwrap();
    assert_eq!(first(&r), vec![100, 100, 100]);
    let half = gray(8, 3, 1, vec![5, 5, 5]);
    let r = temp_limit_frame(&clip, &flt, &half, Scale::new(1, 2)).unwrap();
    assert_eq!(first(&r), vec![102, 98, 98]);
}

#[test]
fn temp_limit_clamps_band_ends() {
    let clip = gray(8, 2, 1, vec![5, 250]);
    let flt = gray(8, 2, 1, vec![0, 255]);
    let diff2 = gray(8, 2, 1, vec![100, 100]);
    let r = temp_limit_frame(&clip, &flt, &diff2, Scale::new(3, 1)).unwrap();
    assert_eq!(first(&r), vec![0, 255]);
}

#[test]
fn temp_limit_bound_on_pseudo_random_frames() {
    let mut seed: u64 = 0x2545_f491_4f6c_dd1d;
    let mut next = move || {
        seed = seed.wrapping_mul(6364136223846793005).wrapping_add(1442695040888963407);
        ((seed >> 33) % 256) as u32
    };
    for &(num, den) in &[(0i32, 1u32), (1, 1), (1, 3), (5, 2), (7, 1)] {
        let s = Scale::new(num, den);
        for _ in 0..20 {
            let c: Vec<u32> = (0..16).map(|_| next()).collect();
            let f: Vec<u32> = (0..16).map(|_| next()).collect();
            let d: Vec<u32> = (0..16).map(|_| next() / 8).collect();
            let clip = gray(8, 4, 4, c.clone());
            let r = temp_limit_frame(&clip, &gray(8, 4, 4, f), &gray(8, 4, 4, d.clone()), s).unwrap();
            for i in 0..16 {
                let dist = (r.planes[0].samples[i] as i64 - c[i] as i64).abs();
                assert!(dist * den as i64 <= num as i64 * d[i] as i64);
            }
        }
    }
}

#[test]
fn temp_limit_format_mismatch() {
    let a = px(1);
    let b = gray(16, 1, 1, vec![1]);
    assert_eq!(
        temp_limit_frame(&a, &a, &b, Scale::one()).unwrap_err(),
        StinxError::FormatMismatch(FormatMismatch::BitDepth { operand: 3, found: 16, expected: 8 })
    );
}

#[test]
fn contra_sharpen_median_path() {
    let r = contra_sharpen(&px(100), &px(90), &px(105), Scale::new(2, 1), Scale::new(0, 1));
    assert_eq!(first(&r.unwrap()), vec![105]);
    let r = contra_sharpen(&px(100), &px(90), &px(130), Scale::new(2, 1), Scale::new(0, 1));
    assert_eq!(first(&r.unwrap()), vec![120]);
}

#[test]
fn contra_sharpen_limited_path() {
    let r = contra_sharpen(&px(100), &px(90), &px(105), Scale::new(2, 1), Scale::new(1, 4));
    assert_eq!(first(&r.unwrap()), vec![105]);
    let r = contra_sharpen(&px(100), &px(90), &px(95), Scale::new(2, 1), Scale::new(1, 4));
    assert_eq!(first(&r.unwrap()), vec![99]);
}

#[test]
fn contra_sharpen_mismatch() {
    let two = gray(8, 2, 1, vec![0, 0]);
    let r = contra_sharpen(&px(1), &px(1), &two, Scale::one(), Scale::one());
    assert_eq!(r.unwrap_err(), StinxError::FormatMismatch(FormatMismatch::PlaneSize { operand: 3 }));
}

#[test]
fn stage_requests() {
    let on = stage(true, Scale::new(1, 4));
    assert_eq!(
        on.get_frame_initial(),
        vec![Upstream::Source, Upstream::Nuked, Upstream::NukedBlurred]
    );
    let off = stage(false, Scale::new(1, 4));
    assert_eq!(off.get_frame_initial(), vec![Upstream::Source, Upstream::Nuked]);
}

#[test]
fn stage_without_contra_passes_nuked() {
    let off = stage(false, Scale::new(1, 4));
    let r = off.get_frame(None, Some(px(42)), None).unwrap();
    assert_eq!(first(&r), vec![42]);
}

#[test]
fn stage_missing_frames() {
    let on = stage(true, Scale::new(1, 4));
    assert_eq!(
        on.get_frame(Some(px(1)), None, Some(px(1))).unwrap_err(),
        StinxError::DependencyUnavailable
    );
    assert_eq!(
        on.get_frame(None, Some(px(1)), Some(px(1))).unwrap_err(),
        StinxError::DependencyUnavailable
    );
    assert_eq!(
        on.get_frame(Some(px(1)), Some(px(1)), None).unwrap_err(),
        StinxError::DependencyUnavailable
    );
}

#[test]
fn stage_with_contra() {
    let on = stage(true, Scale::new(1, 4));
    let r = on.get_frame(Some(px(95)), Some(px(100)), Some(px(90))).unwrap();
    assert_eq!(first(&r), vec![99]);
}
