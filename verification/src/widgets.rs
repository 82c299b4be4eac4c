//! What the timer's widgets put on the screen, as lists of marks on cells.

pub mod clock;
pub mod paint;
pub mod timer;

pub use clock::Clock;
pub use timer::Timer;
