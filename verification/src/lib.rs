//! Blocks of a status bar: each block samples a piece of system state on its
//! own cadence, renders it into a widget with a severity, and reacts to clicks.
//! A scheduler keeps the due times of the blocks and routes input events.

pub mod aggregate;
pub mod blocks;
pub mod clock;
pub mod errors;
pub mod format;
pub mod identity;
pub mod input;
pub mod reading;
pub mod scheduler;
pub mod sensors;
pub mod severity;
pub mod text;
pub mod widget;
