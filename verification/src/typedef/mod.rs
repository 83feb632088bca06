//! Typedef frames and their clauses.

pub mod clause;
pub mod frame;

pub use self::clause::{TypedefClause, TypedefTag};
pub use self::frame::TypedefFrame;
