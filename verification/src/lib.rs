//! Engine of a screen-recording and clip-editing tool.
//!
//! The heart of the crate is the edit-decision-list compiler: it turns a
//! project's declarative timeline of cuts, speed ramps, zooms, annotations
//! and audio-mix settings into the exact argument list for the external
//! media-processing engine.  All quantities are held as fixed-point
//! integers: times in microseconds, speed and scale factors in millionths,
//! volumes and pixel offsets in thousandths.

pub mod audio;
pub mod capture;
pub mod clock;
pub mod error;
pub mod export;
pub mod numtext;
pub mod probe;
pub mod project;
pub mod shell;
pub mod text;
pub mod timeline;
pub mod video;
