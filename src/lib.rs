//! A companion that keeps an eye on recurring self-care tasks.
//!
//! The library holds the logic: the schedule resolver, the task ledger,
//! the happiness score, the animation library and the companion's state
//! machine. Terminal drawing, notifications, sound and configuration files
//! are left to the program around it.

pub mod clock;
pub mod config;
pub mod task;
pub mod task_manager;
pub mod happiness;
pub mod animation;
pub mod animation_text;
pub mod text;
pub mod lil_guy;
pub mod interface;
