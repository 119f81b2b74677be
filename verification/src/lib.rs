//! A lightweight instrumentation library: callers mark the start and end of
//! named work sessions, record how long named jobs took under coarser parts,
//! and query accumulated totals and elapsed times.
//!
//! The heart of the crate is [`stats::Statistic`], the timing statistics
//! store. [`indent::IndentCounter`] tracks the nesting depth used for traced
//! output, [`timer::TimerInfo`] is the handle a caller keeps between starting
//! and finishing a job, and [`text`] renders durations and indentation.

mod assoc;
mod clock;
pub mod indent;
pub mod laws;
pub mod stats;
pub mod text;
pub mod timer;

pub use crate::indent::IndentCounter;
pub use crate::stats::StatError;
pub use crate::stats::Statistic;
pub use crate::stats::default_work;
pub use crate::text::compute_indent_whitespace;
pub use crate::text::debug_duration;
pub use crate::timer::TimerInfo;
