//! The geometry and colour mini-language of an image editor, the resolver
//! that turns anchored regions and placements into pixel coordinates, and
//! the watermark compositor that places or tiles an overlay on a canvas.

pub mod anchor;
pub mod color;
pub mod crop;
pub mod error;
pub mod format;
pub mod position;
pub mod raster;
pub mod render;
pub mod text;
pub mod watermark;

pub use crate::anchor::{Align, Anchor};
pub use crate::color::Color;
pub use crate::crop::{resolve_region, Crop};
pub use crate::error::{ConfigurationError, GeometryError, GrammarError, WatermarkError};
pub use crate::format::{Filter, Format, Rotate};
pub use crate::position::{resolve_placement, Position};
pub use crate::raster::{composite, Raster};
pub use crate::watermark::{apply, text_frame, tile, Frame};
