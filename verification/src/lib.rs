//! A set whose elements expire.
//!
//! Every element is stored with a deadline, the instant at which it stops being a
//! member. Nothing sweeps the set: an expired element stays in storage until it is
//! inserted again or a drain visits it.
//!
//! Each operation that depends on the time comes in two forms. The form whose name
//! ends in `_at` takes the instant as an argument, in nanoseconds since the Unix
//! epoch, and its contract says exactly what it does. The other form reads the system
//! clock and then does the same; its contract says that it acted on some reading.

pub mod clock;
pub mod model;
pub mod set;
pub mod iter;
pub mod laws;

pub use crate::iter::Iter;
pub use crate::set::TimedSet;
