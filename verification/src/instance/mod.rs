//! Instance frames and their clauses.

pub mod clause;
pub mod frame;

pub use self::clause::{InstanceClause, InstanceTag};
pub use self::frame::InstanceFrame;
