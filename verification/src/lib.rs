//! Parsing primitives: cursors over slices and strings, the result of one
//! parsing step, and a driver for alternation and repetition that remembers
//! the furthest failure.

pub mod alternation;
pub mod bytes;
pub mod master;
pub mod order;
pub mod point;
pub mod progress;
pub mod slices;
pub mod strings;

pub use master::{Alternate, ParseMaster};
pub use point::{Point, Recoverable};
pub use progress::{Progress, Status};
pub use slices::SlicePoint;
pub use strings::{Identifier, StringPoint};
