//! A Pomodoro timer core: stages, cycles and pause accounting, with clock
//! readings passed in by the caller.

pub mod app;
pub mod events;
pub mod format;
pub mod laws;
pub mod model;
pub mod pomodoro_technique;
pub mod strings;
pub mod time;
pub mod widgets;
