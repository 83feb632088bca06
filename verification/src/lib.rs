//! Documents in the OBO flat-file ontology format: reading them, holding
//! them, and writing them, with machine-checked contracts.
//!
//! # The format
//!
//! A document is a sequence of lines. The lines in front of the first line
//! that begins with `[` are the header frame; each line that begins with
//! `[` is the title of an entity frame, which runs up to the next title.
//!
//! ```text
//! format-version: 1.4
//! ontology: go
//!
//! [Term]
//! id: GO:0000001
//! name: mitochondrion inheritance
//! def: "The distribution of mitochondria." [GOC:mcc, PMID:10873824]
//! is_a: GO:0048308 {source="x"} ! organelle inheritance
//! ```
//!
//! A line of a frame is a tag, a colon, a space, a value, and at its end
//! an optional list of qualifiers between braces and an optional comment
//! behind ` ! `. A value is free text, or tokens with one space between
//! them: identifiers, strings between double quotes, and lists of
//! references between square brackets. An identifier is read as the first
//! that it fits of: a prefix, a colon and a local part; a name without a
//! colon; an absolute URL. A backslash in front of a character takes away
//! what the character means to the format.
//!
//! # The contracts
//!
//! Every type has a view, a value of mathematics that says what it is;
//! every grammar rule has a function of mathematics from texts to views,
//! and one from views to texts. Each function that reads is proved to give
//! what the first says, and the error that it says; each function that
//! writes is proved to give what the second says. On top of that the
//! library proves laws, among them:
//!
//! - writing a document and reading the text back gives the document
//!   ([`doc::lemma_parse_render_doc`]), and so for each smaller part;
//! - a document that was read can be written and read back, and gives
//!   itself again ([`doc::lemma_reparse`]);
//! - an identifier in canonical form is written as it was read
//!   ([`id::lemma_render_parse_ident`]);
//! - reading a text line by line, one frame at a time, gives the document
//!   or the error that reading the whole text gives
//!   ([`stream::lemma_streaming_equivalence`]).

pub mod clause;
pub mod date;
pub mod doc;
pub mod error;
pub mod frame;
pub mod header;
pub mod id;
pub mod instance;
pub mod line;
pub mod lines;
pub mod order;
pub mod pv;
pub mod stream;
pub mod strings;
pub mod synonym;
pub mod term;
pub mod text;
pub mod token;
pub mod trailer;
pub mod typedef;
pub mod value;
pub mod xref;

pub use crate::doc::{EntityFrame, OboDoc};
pub use crate::error::{Error, Rule};
pub use crate::header::{HeaderClause, HeaderFrame, Import};
pub use crate::id::{
    ClassIdent, Id, IdLocal, IdPrefix, Ident, IdentLocal, IdentPrefix, InstanceIdent,
    NamespaceIdent, PrefixedId, PrefixedIdent, RelationId, RelationIdent, SubsetIdent,
    SynonymTypeIdent, UnprefixedId, UnprefixedIdent, Url,
};
pub use crate::instance::{InstanceClause, InstanceFrame};
pub use crate::line::Line;
pub use crate::pv::{PropVal, PropertyValue};
pub use crate::stream::{FrameReader, ReaderState};
pub use crate::strings::{QuotedStr, QuotedString, UnquotedString};
pub use crate::term::{TermClause, TermFrame};
pub use crate::token::Token;
pub use crate::trailer::{Qualifier, Trailer};
pub use crate::typedef::{TypedefClause, TypedefFrame};
pub use crate::value::Value;
pub use crate::xref::Xref;
