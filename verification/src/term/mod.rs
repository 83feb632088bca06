//! Term frames and their clauses.

pub mod clause;
pub mod frame;

pub use self::clause::{TermClause, TermTag};
pub use self::frame::TermFrame;
