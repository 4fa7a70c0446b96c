//! A logging backend that renders events to the error stream, filtering by a
//! verbosity-derived severity threshold and an optional allow-list of module
//! path prefixes, with optional timestamps and per-severity coloring.

pub mod config;
pub mod level;
pub mod registry;
pub mod render;
pub mod strorder;

pub use config::StdErrLog;
pub use config::new;
pub use level::Color;
pub use level::ColorChoice;
pub use level::Level;
pub use level::LevelFilter;
pub use level::Timestamp;
