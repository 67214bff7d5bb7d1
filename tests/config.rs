use mpeg2stinx::config::{BobStep, Config, FilterMode, Options, Order, BOTH_FIELDS};
use mpeg2stinx::error::{ConfigError, StinxError};
use mpeg2stinx::geometry::{expand_mode, multi_steps, ExpandMode};
use mpeg2stinx::sample::Scale;

fn defaults() -> Options {
    Options {
        mode: None,
        sw: None,
        sh: None,
        contra: None,
        blurv: None,
        sstr: None,
        scl: None,
        dither: None,
        order: None,
        diffscl: None,
    }
}

#[test]
fn default_configuration() {
    let c = Config::new(defaults()).unwrap();
    assert_eq!(c.mode, FilterMode::Spline36Bob);
    assert_eq!((c.sw, c.sh), (1, 1));
    assert!(c.contra);
    assert_eq!(c.blurv, Scale::new(9, 10));
    assert!(c.blurs());
    assert_eq!(c.sstr, Scale::new(2, 1));
    assert_eq!(c.scl, Scale::new(1, 4));
    assert_eq!(c.order, Order::Unadapted);
    assert_eq!(c.diffscl, None);
}

#[test]
fn no_blur_without_contra() {
    let mut o = defaults();
    o.contra = Some(0);
    let c = Config::new(o).unwrap();
    assert!(!c.contra);
    assert!(!c.blurs());
}

#[test]
fn mode_out_of_range() {
    let mut o = defaults();
    o.mode = Some(4);
    assert_eq!(Config::new(o), Err(StinxError::InvalidConfig(ConfigError::Mode(4))));
    o.mode = Some(-1);
    assert_eq!(Config::new(o), Err(StinxError::InvalidConfig(ConfigError::Mode(-1))));
}

#[test]
fn order_out_of_range() {
    let mut o = defaults();
    o.order = Some(2);
    assert_eq!(Config::new(o), Err(StinxError::InvalidConfig(ConfigError::Order(2))));
    o.order = Some(0);
    assert_eq!(Config::new(o).unwrap().order, Order::Progressive);
    o.order = Some(1);
    assert_eq!(Config::new(o).unwrap().order, Order::FieldOrder);
}

#[test]
fn negative_diffscl() {
    let mut o = defaults();
    o.diffscl = Some(Scale::new(-1, 1));
    assert_eq!(Config::new(o), Err(StinxError::InvalidConfig(ConfigError::DiffScale)));
    o.diffscl = Some(Scale::new(0, 1));
    assert_eq!(Config::new(o).unwrap().diffscl, Some(Scale::new(0, 1)));
}

#[test]
fn negative_radius() {
    let mut o = defaults();
    o.sw = Some(-1);
    assert_eq!(Config::new(o), Err(StinxError::InvalidConfig(ConfigError::Radius(-1))));
    let mut o = defaults();
    o.sh = Some(-3);
    assert_eq!(Config::new(o), Err(StinxError::InvalidConfig(ConfigError::Radius(-3))));
    let mut o = defaults();
    o.sw = Some(0);
    o.sh = Some(2);
    let c = Config::new(o).unwrap();
    assert_eq!((c.sw, c.sh), (0, 2));
}

#[test]
fn dither_is_unimplemented() {
    let mut o = defaults();
    o.dither = Some(1);
    assert_eq!(Config::new(o), Err(StinxError::Unimplemented));
    o.dither = Some(0);
    assert!(Config::new(o).is_ok());
}

#[test]
fn mode_codes() {
    assert_eq!(FilterMode::try_from(0), Ok(FilterMode::PointBob));
    assert_eq!(FilterMode::try_from(1), Ok(FilterMode::Spline36Bob));
    assert_eq!(FilterMode::try_from(2), Ok(FilterMode::Nnedi3));
    assert_eq!(FilterMode::try_from(3), Ok(FilterMode::Nnedi3CL));
    assert_eq!(FilterMode::try_from(4), Err(ConfigError::Mode(4)));
    assert_eq!(FilterMode::default(), FilterMode::Spline36Bob);
    assert_eq!(Order::try_from(-2), Err(ConfigError::Order(-2)));
}

#[test]
fn bob_dispatch() {
    assert_eq!(FilterMode::PointBob.deint(), BobStep::Point);
    assert_eq!(
        FilterMode::Spline36Bob.deint(),
        BobStep::Spline36 { process_chroma: true }
    );
    assert_eq!(
        FilterMode::Nnedi3.deint(),
        BobStep::Neural { field: BOTH_FIELDS, opencl: false }
    );
    assert_eq!(
        FilterMode::Nnedi3CL.deint(),
        BobStep::Neural { field: 3, opencl: true }
    );
}

#[test]
fn expand_coordinates() {
    assert_eq!(ExpandMode::Square.to_coords(), vec![1; 8]);
    assert_eq!(ExpandMode::Horizontal.to_coords(), vec![0, 0, 0, 1, 1, 0, 0, 0]);
    assert_eq!(ExpandMode::Vertical.to_coords(), vec![0, 1, 0, 0, 0, 0, 1, 0]);
    assert_eq!(ExpandMode::Empty.to_coords(), vec![0; 8]);
}

#[test]
fn expand_schedule() {
    assert_eq!(multi_steps(0, 0), vec![]);
    assert_eq!(expand_mode(0, 0), ExpandMode::Empty);
    assert_eq!(multi_steps(1, 1), vec![ExpandMode::Square]);
    assert_eq!(multi_steps(2, 1), vec![ExpandMode::Square, ExpandMode::Horizontal]);
    assert_eq!(multi_steps(0, 3), vec![ExpandMode::Vertical; 3]);
    assert_eq!(
        multi_steps(1, 3),
        vec![ExpandMode::Square, ExpandMode::Vertical, ExpandMode::Vertical]
    );
}
