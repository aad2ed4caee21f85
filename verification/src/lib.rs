//! Verified control core for a small interrupt-driven LED controller:
//! colour generation, gamma correction, power estimation, wrapping clock
//! arithmetic and a fixed-priority scheduler with priority ceilings.

pub mod color;
pub mod gamma;
pub mod period;
pub mod power;
pub mod clock;
pub mod task;
pub mod scheduler;
pub mod exclusion;
pub mod duty;
pub mod text;
pub mod console;
pub mod strip;
pub mod tasks;
pub mod resource;
pub mod prelude;

pub use console::Console;
