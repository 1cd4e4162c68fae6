//! A terminal emulator: the screen that a program's output bytes draw.

pub mod cell;
pub mod modes;
pub mod buffer;
pub mod events;
pub mod screen;
pub mod laws;
pub mod control_laws;
pub mod drawing_laws;
pub mod setting_laws;
