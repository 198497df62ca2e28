//! Gesture-triggered folder backup: the decision logic of the program,
//! with its contracts.
//!
//! - `tracker`: recognises a rectangle traced along the screen edges and a
//!   horizontal "minus" stroke from a stream of pointer positions.
//! - `gesture`: what sequences of pointer moves the rectangle tracker reports.
//! - `monitor`: the event loop's decisions (debounce, phases, timeout).
//! - `backup`: what a backup request means and which files it copies.
//! - `config`: the configuration form, its file contents and autorun entries.
//! - `project_dir`: locating the project directory from the executable path.
//! - `text`: decimal and quoted renderings used by the generated files.
pub mod backup;
pub mod config;
pub mod gesture;
pub mod monitor;
pub mod project_dir;
pub mod text;
pub mod tracker;
