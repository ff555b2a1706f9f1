//! Verified core of a terminal music visualizer: the style and theme cycles,
//! the sample ring buffer, the frame controller, the bar layout and glyph
//! rules, the half-cell raster and the xorshift generator behind the rain.

pub mod styles;
pub mod rng;
pub mod audio;
pub mod layout;
pub mod halfcell;
pub mod controls;
pub mod matrix;
pub mod history;
pub mod dsp;
pub mod bars;
