//! Error types reported by the parsers, the resolver and the compositor.

use vstd::prelude::*;
use vstd::string::*;

verus! {

/// Why a region, placement or colour string was rejected.
#[derive(Clone, Copy, Debug, PartialEq, Eq, Structural)]
pub enum GrammarError {
    /// The identifier is not part of the grammar, or it was written without
    /// the argument list it needs.
    UnknownIdentifier,
    /// The identifier is known but takes a different number of arguments.
    ArityMismatch,
    /// An argument is not an unsigned decimal number.
    NonNumeric,
    /// The argument list is not closed by `)`.
    Unterminated,
    /// An argument is a number too large for the field it fills.
    OutOfRange,
}

/// Why a specification could not be resolved against a canvas.
#[derive(Clone, Copy, Debug, PartialEq, Eq, Structural)]
pub enum GeometryError {
    /// The target does not fit the canvas horizontally.
    WidthExceedsCanvas,
    /// The target does not fit the canvas vertically.
    HeightExceedsCanvas,
    /// The square frame around a text mask would be wider than `u32::MAX`.
    FrameTooLarge,
}

/// Why a setting was rejected before any pixel was touched.
#[derive(Clone, Copy, Debug, PartialEq, Eq, Structural)]
pub enum ConfigurationError {
    /// Tiling with a spacing of zero would never advance.
    ZeroSpacing,
}

/// Why a watermark was not applied.
#[derive(Clone, Copy, Debug, PartialEq, Eq, Structural)]
pub enum WatermarkError {
    /// The overlay cannot be placed where the placement asks.
    Geometry(GeometryError),
    /// A setting of the placement is not usable.
    Configuration(ConfigurationError),
}

impl GrammarError {
    /// The text shown for each variant.
    pub open spec fn text(self) -> Seq<char> {
        match self {
            GrammarError::UnknownIdentifier => "Unknown identifier"@,
            GrammarError::ArityMismatch => "Format error: The number of parameters does not match"@,
            GrammarError::NonNumeric => "The parameter must be a non-negative integer"@,
            GrammarError::Unterminated => "Format error: Need to end with ')'"@,
            GrammarError::OutOfRange => "The parameter is out of range"@,
        }
    }

    /// The text of the error, for display.
    pub fn message(&self) -> (r: String)
        ensures
            r@ == self.text(),
    {
        match self {
            GrammarError::UnknownIdentifier => "Unknown identifier".to_owned(),
            GrammarError::ArityMismatch => {
                "Format error: The number of parameters does not match".to_owned()
            },
            GrammarError::NonNumeric => "The parameter must be a non-negative integer".to_owned(),
            GrammarError::Unterminated => "Format error: Need to end with ')'".to_owned(),
            GrammarError::OutOfRange => "The parameter is out of range".to_owned(),
        }
    }
}

impl GeometryError {
    /// The text shown for each variant.
    pub open spec fn text(self) -> Seq<char> {
        match self {
            GeometryError::WidthExceedsCanvas => "The target is wider than the canvas allows"@,
            GeometryError::HeightExceedsCanvas => "The target is taller than the canvas allows"@,
            GeometryError::FrameTooLarge => "The text is too large to be framed"@,
        }
    }

    /// The text of the error, for display.
    pub fn message(&self) -> (r: String)
        ensures
            r@ == self.text(),
    {
        match self {
            GeometryError::WidthExceedsCanvas => {
                "The target is wider than the canvas allows".to_owned()
            },
            GeometryError::HeightExceedsCanvas => {
                "The target is taller than the canvas allows".to_owned()
            },
            GeometryError::FrameTooLarge => "The text is too large to be framed".to_owned(),
        }
    }
}

impl ConfigurationError {
    /// The text shown for each variant.
    pub open spec fn text(self) -> Seq<char> {
        match self {
            ConfigurationError::ZeroSpacing => "The tiling spacing must be greater than zero"@,
        }
    }

    /// The text of the error, for display.
    pub fn message(&self) -> (r: String)
        ensures
            r@ == self.text(),
    {
        match self {
            ConfigurationError::ZeroSpacing => {
                "The tiling spacing must be greater than zero".to_owned()
            },
        }
    }
}

impl WatermarkError {
    /// The text shown for each variant.
    pub open spec fn text(self) -> Seq<char> {
        match self {
            WatermarkError::Geometry(e) => e.text(),
            WatermarkError::Configuration(e) => e.text(),
        }
    }

    /// The text of the error, for display.
    pub fn message(&self) -> (r: String)
        ensures
            r@ == self.text(),
    {
        match self {
            WatermarkError::Geometry(e) => e.message(),
            WatermarkError::Configuration(e) => e.message(),
        }
    }
}

} // verus!
