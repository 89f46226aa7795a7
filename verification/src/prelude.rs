//! The names that most users of the crate want in scope.

pub use crate::board::square::Square;
