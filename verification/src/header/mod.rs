//! The header frame and its clauses.

pub mod clause;
pub mod frame;
pub mod import;

pub use self::clause::{HeaderClause, HeaderTag};
pub use self::frame::HeaderFrame;
pub use self::import::{Import, Iri};
