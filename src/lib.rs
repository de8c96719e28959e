//! Smoothly drives a zoom factor from one value to another: descriptor and
//! option parsing, sampling of an easing curve, and the paced schedule of
//! setter calls and pauses, with a fail-fast runner over it.

pub mod config;
mod duration_text;
pub mod ease;
pub mod pacing;
pub mod sequence;

pub use config::{
    check_duration, parse_duration, parse_log_level, parse_steps, ConfigError, LogLevel,
    MIN_DURATION_NANOS, MIN_STEPS,
};
pub use ease::{chars_of, parse_ease, resolve_ease, Ease, EaseError, EaseFamily, EaseMode};
pub use pacing::{paced_script, two_phase_script, Action, Next, RunStatus, Runner};
pub use sequence::ease_range;
