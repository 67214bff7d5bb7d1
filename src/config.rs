use crate::error::{ConfigError, StinxError};
use crate::sample::Scale;
use vstd::prelude::*;

verus! {

/// Which bob producer turns an interlaced clip into a double-rate one.
#[derive(Clone, Copy, Debug, PartialEq, Eq, Structural)]
pub enum FilterMode {
    /// Nearest-neighbour vertical doubling of each field.
    PointBob,
    /// Spline36 resampling with a quarter-row shift per field parity.
    Spline36Bob,
    /// The neural field interpolator on the CPU.
    Nnedi3,
    /// The neural field interpolator on an OpenCL device.
    Nnedi3CL,
}

/// What a bob producer is asked to run.
#[derive(Clone, Copy, Debug, PartialEq, Eq, Structural)]
pub enum BobStep {
    /// Separate the fields and double each by point resizing.
    Point,
    /// Spline36 bob; chroma bobbed the same way when `process_chroma`.
    Spline36 { process_chroma: bool },
    /// Neural interpolation with field selector `field`, on OpenCL or not.
    Neural { field: i64, opencl: bool },
}

/// Field selector that asks the neural interpolator for both fields.
pub const BOTH_FIELDS: i64 = 3;

impl Default for FilterMode {
    fn default() -> (r: FilterMode)
        ensures
            r == FilterMode::Spline36Bob,
    {
        FilterMode::Spline36Bob
    }
}

/// The bob mode that a mode code selects, if any.
pub open spec fn mode_of(code: i64) -> Option<FilterMode> {
    if code == 0 {
        Some(FilterMode::PointBob)
    } else if code == 1 {
        Some(FilterMode::Spline36Bob)
    } else if code == 2 {
        Some(FilterMode::Nnedi3)
    } else if code == 3 {
        Some(FilterMode::Nnedi3CL)
    } else {
        None
    }
}

impl FilterMode {
    /// Reads a mode code: 0 point, 1 spline36, 2 and 3 the neural
    /// interpolator on the CPU and on OpenCL.
    pub fn try_from(code: i64) -> (r: Result<FilterMode, ConfigError>)
        ensures
            mode_of(code) is Some ==> r == Ok::<FilterMode, ConfigError>(mode_of(code)->0),
            mode_of(code) is None ==> r == Err::<FilterMode, ConfigError>(ConfigError::Mode(code)),
    {
        match code {
            0 => Ok(FilterMode::PointBob),
            1 => Ok(FilterMode::Spline36Bob),
            2 => Ok(FilterMode::Nnedi3),
            3 => Ok(FilterMode::Nnedi3CL),
            _ => Err(ConfigError::Mode(code)),
        }
    }

    /// The bob producer a mode stands for.
    pub open spec fn deint_spec(self) -> BobStep {
        match self {
            FilterMode::PointBob => BobStep::Point,
            FilterMode::Spline36Bob => BobStep::Spline36 { process_chroma: true },
            FilterMode::Nnedi3 => BobStep::Neural { field: BOTH_FIELDS, opencl: false },
            FilterMode::Nnedi3CL => BobStep::Neural { field: BOTH_FIELDS, opencl: true },
        }
    }

    /// The bob producer this mode stands for.
    pub fn deint(self) -> (r: BobStep)
        ensures
            r == self.deint_spec(),
    {
        match self {
            FilterMode::PointBob => BobStep::Point,
            FilterMode::Spline36Bob => BobStep::Spline36 { process_chroma: true },
            FilterMode::Nnedi3 => BobStep::Neural { field: BOTH_FIELDS, opencl: false },
            FilterMode::Nnedi3CL => BobStep::Neural { field: BOTH_FIELDS, opencl: true },
        }
    }
}

/// Motion adaptation applied after bobbing.
#[derive(Clone, Copy, Debug, PartialEq, Eq, Structural)]
pub enum Order {
    /// No adaptation (code -1).
    Unadapted,
    /// Adapt assuming a progressive source (code 0).
    Progressive,
    /// Adapt using the true field order (code 1).
    FieldOrder,
}

pub open spec fn order_of(code: i64) -> Option<Order> {
    if code == -1 {
        Some(Order::Unadapted)
    } else if code == 0 {
        Some(Order::Progressive)
    } else if code == 1 {
        Some(Order::FieldOrder)
    } else {
        None
    }
}

impl Order {
    pub fn try_from(code: i64) -> (r: Result<Order, ConfigError>)
        ensures
            order_of(code) is Some ==> r == Ok::<Order, ConfigError>(order_of(code)->0),
            order_of(code) is None ==> r == Err::<Order, ConfigError>(ConfigError::Order(code)),
    {
        match code {
            -1 => Ok(Order::Unadapted),
            0 => Ok(Order::Progressive),
            1 => Ok(Order::FieldOrder),
            _ => Err(ConfigError::Order(code)),
        }
    }
}

/// The settings of one pipeline, fixed at construction.
#[derive(Clone, Copy, Debug, PartialEq, Eq, Structural)]
pub struct Config {
    pub mode: FilterMode,
    pub sw: u32,
    pub sh: u32,
    pub contra: bool,
    pub blurv: Scale,
    pub sstr: Scale,
    pub scl: Scale,
    pub order: Order,
    pub diffscl: Option<Scale>,
}

/// The settings a caller may give; `None` takes the default.
#[derive(Clone, Copy, Debug, PartialEq, Eq, Structural)]
pub struct Options {
    pub mode: Option<i64>,
    pub sw: Option<i64>,
    pub sh: Option<i64>,
    pub contra: Option<i64>,
    pub blurv: Option<Scale>,
    pub sstr: Option<Scale>,
    pub scl: Option<Scale>,
    pub dither: Option<i64>,
    pub order: Option<i64>,
    pub diffscl: Option<Scale>,
}

/// A radius code is usable: non-negative and within `u32`.
pub open spec fn radius_ok(v: Option<i64>) -> bool {
    match v {
        Some(x) => 0 <= x <= u32::MAX,
        None => true,
    }
}

pub open spec fn radius_of(v: Option<i64>) -> u32 {
    match v {
        Some(x) => x as u32,
        None => 1,
    }
}

pub open spec fn scale_ok(s: Option<Scale>) -> bool {
    match s {
        Some(x) => x.wf(),
        None => true,
    }
}

/// The first problem with the options, in the order they are checked.
pub open spec fn options_error(o: Options) -> Option<StinxError> {
    if o.mode is Some && mode_of(o.mode->0) is None {
        Some(StinxError::InvalidConfig(ConfigError::Mode(o.mode->0)))
    } else if !radius_ok(o.sw) {
        Some(StinxError::InvalidConfig(ConfigError::Radius(o.sw->0)))
    } else if !radius_ok(o.sh) {
        Some(StinxError::InvalidConfig(ConfigError::Radius(o.sh->0)))
    } else if o.order is Some && order_of(o.order->0) is None {
        Some(StinxError::InvalidConfig(ConfigError::Order(o.order->0)))
    } else if o.diffscl is Some && o.diffscl->0.num < 0 {
        Some(StinxError::InvalidConfig(ConfigError::DiffScale))
    } else if o.dither is Some && o.dither->0 != 0 {
        Some(StinxError::Unimplemented)
    } else {
        None
    }
}

/// The configuration that valid options describe, defaults filled in.
pub open spec fn config_of(o: Options) -> Config {
    let contra = match o.contra {
        Some(c) => c != 0,
        None => true,
    };
    Config {
        mode: match o.mode {
            Some(m) => mode_of(m)->0,
            None => FilterMode::Spline36Bob,
        },
        sw: radius_of(o.sw),
        sh: radius_of(o.sh),
        contra,
        blurv: match o.blurv {
            Some(b) => b,
            None => if contra {
                Scale { num: 9, den: 10 }
            } else {
                Scale { num: 0, den: 1 }
            },
        },
        sstr: match o.sstr {
            Some(s) => s,
            None => Scale { num: 2, den: 1 },
        },
        scl: match o.scl {
            Some(s) => s,
            None => Scale { num: 1, den: 4 },
        },
        order: match o.order {
            Some(c) => order_of(c)->0,
            None => Order::Unadapted,
        },
        diffscl: o.diffscl,
    }
}

impl Config {
    pub open spec fn wf(self) -> bool {
        &&& self.blurv.wf()
        &&& self.sstr.wf()
        &&& self.scl.wf()
        &&& match self.diffscl {
            Some(d) => d.wf() && d.num >= 0,
            None => true,
        }
    }

    /// Validates the options and fills in defaults: mode 1, radii 1,
    /// contra-sharpening on, vertical blur 0.9 (0 without contra-sharpening),
    /// sharpening strength 2, limit scale 0.25, no dithering, no motion
    /// adaptation, no temporal limit.
    pub fn new(o: Options) -> (r: Result<Config, StinxError>)
        requires
            scale_ok(o.blurv),
            scale_ok(o.sstr),
            scale_ok(o.scl),
            scale_ok(o.diffscl),
        ensures
            options_error(o) is Some ==> r == Err::<Config, StinxError>(options_error(o)->0),
            options_error(o) is None ==> r == Ok::<Config, StinxError>(config_of(o)),
            r is Ok ==> r->Ok_0.wf(),
    {
        let mode = match o.mode {
            Some(m) => match FilterMode::try_from(m) {
                Ok(f) => f,
                Err(e) => {
                    return Err(StinxError::InvalidConfig(e));
                },
            },
            None => FilterMode::default(),
        };
        let sw = match check_radius(o.sw) {
            Ok(v) => v,
            Err(e) => {
                return Err(e);
            },
        };
        let sh = match check_radius(o.sh) {
            Ok(v) => v,
            Err(e) => {
                return Err(e);
            },
        };
        let order = match o.order {
            Some(c) => match Order::try_from(c) {
                Ok(v) => v,
                Err(e) => {
                    return Err(StinxError::InvalidConfig(e));
                },
            },
            None => Order::Unadapted,
        };
        if let Some(d) = o.diffscl {
            if d.is_negative() {
                return Err(StinxError::InvalidConfig(ConfigError::DiffScale));
            }
        }
        if let Some(d) = o.dither {
            if d != 0 {
                return Err(StinxError::Unimplemented);
            }
        }
        let contra = match o.contra {
            Some(c) => c != 0,
            None => true,
        };
        let blurv = match o.blurv {
            Some(b) => b,
            None => if contra {
                Scale::new(9, 10)
            } else {
                Scale::new(0, 1)
            },
        };
        let sstr = match o.sstr {
            Some(s) => s,
            None => Scale::new(2, 1),
        };
        let scl = match o.scl {
            Some(s) => s,
            None => Scale::new(1, 4),
        };
        Ok(Config { mode, sw, sh, contra, blurv, sstr, scl, order, diffscl: o.diffscl })
    }

    /// Whether the averaged result is blurred vertically before sharpening.
    pub fn blurs(&self) -> (r: bool)
        ensures
            r == (self.blurv.num > 0),
    {
        self.blurv.num > 0
    }
}

fn check_radius(v: Option<i64>) -> (r: Result<u32, StinxError>)
    ensures
        radius_ok(v) ==> r == Ok::<u32, StinxError>(radius_of(v)),
        !radius_ok(v) ==> r == Err::<u32, StinxError>(
            StinxError::InvalidConfig(ConfigError::Radius(v->0)),
        ),
{
    match v {
        Some(x) => if 0 <= x && x <= u32::MAX as i64 {
            Ok(x as u32)
        } else {
            Err(StinxError::InvalidConfig(ConfigError::Radius(x)))
        },
        None => Ok(1),
    }
}

} // verus!
