//! Shaded text rendering of a rotating torus: the integer side of the pipeline.
//!
//! The surface is sampled elsewhere; each sample arrives here as a projected
//! pixel, a light flag, a brightness level and a depth key. This crate decides
//! which samples reach the picture, keeps the nearest one per pixel, picks the
//! glyphs and lays the picture out as text. It also reads the command line.

pub mod args;
pub mod config;
pub mod frame;
pub mod nearest;
pub mod number;
pub mod report;
pub mod text;

pub use args::{flag_of, parse_args, scan_args, Flag, Setting};
pub use config::{Config, ConfigView};
pub use frame::{Frame, FrameBuffer, Sample};
pub use number::parse_usize;
pub use report::benchmark_report;
pub use text::render_frame;
