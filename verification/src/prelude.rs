//! The names most callers want.

pub use crate::color::{wheel, Rainbow};
pub use crate::console::Console;
