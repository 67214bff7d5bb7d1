use vstd::prelude::*;

verus! {

/// Which property of an operand disagrees with the first operand.
#[derive(Clone, Copy, Debug, PartialEq, Eq, Structural)]
pub enum FormatMismatch {
    /// Operand `operand` (counted from 1) has `found` planes, `expected` wanted.
    PlaneCount { operand: u32, found: usize, expected: usize },
    /// Operand `operand` has bit depth `found`, `expected` wanted.
    BitDepth { operand: u32, found: u32, expected: u32 },
    /// A plane of operand `operand` differs in width or height.
    PlaneSize { operand: u32 },
}

/// Why a configuration value was rejected.
#[derive(Clone, Copy, Debug, PartialEq, Eq, Structural)]
pub enum ConfigError {
    /// The bob mode code is outside 0..=3.
    Mode(i64),
    /// A radius (`sw` or `sh`) is negative.
    Radius(i64),
    /// The motion-adaptation order is outside -1..=1.
    Order(i64),
    /// The temporal-limit scale is negative.
    DiffScale,
}

/// The errors of the repair pipeline.
#[derive(Clone, Copy, Debug, PartialEq, Eq, Structural)]
pub enum StinxError {
    /// A configuration value is out of its domain; raised before any frame.
    InvalidConfig(ConfigError),
    /// Operands disagree in format.
    FormatMismatch(FormatMismatch),
    /// An upstream frame could not be produced.
    DependencyUnavailable,
    /// Dithered averaging was requested.
    Unimplemented,
}

} // verus!
