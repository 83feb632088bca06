//! The errors of the library and the names of the grammar rules.

use vstd::prelude::*;

verus! {

/// The rules of the grammar, one for each syntactic category that can be
/// parsed on its own.
#[derive(Clone, Copy, Debug, PartialEq, Eq, Hash, Structural)]
pub enum Rule {
    /// An identifier of any kind.
    Id,
    /// The prefix of a prefixed identifier.
    IdPrefix,
    /// The local part of a prefixed identifier.
    IdLocal,
    /// A prefixed identifier: prefix, colon, local part.
    PrefixedId,
    /// An identifier without a prefix.
    UnprefixedId,
    /// An identifier that is an absolute URL.
    UrlId,
    /// A string between double quotes.
    QuotedString,
    /// Free text up to the end of the line.
    UnquotedString,
    /// A relation followed by a value.
    PropertyValue,
    /// A date and a time of day.
    Date,
    /// One clause of the header frame.
    HeaderClause,
    /// One clause of a `[Term]` frame.
    TermClause,
    /// One clause of a `[Typedef]` frame.
    TypedefClause,
    /// One clause of an `[Instance]` frame.
    InstanceClause,
    /// One frame of any of the three entity kinds.
    EntityFrame,
    /// A `[Term]` frame.
    TermFrame,
    /// A `[Typedef]` frame.
    TypedefFrame,
    /// An `[Instance]` frame.
    InstanceFrame,
    /// A whole document.
    OboDoc,
}

/// What can go wrong when text is turned into values.
#[derive(Clone, Copy, Debug, PartialEq, Eq, Hash, Structural)]
pub enum Error {
    /// The text is not a derivation of the rule.
    SyntaxError { rule: Rule },
    /// A derivation tagged for one rule was handed to the reader of another.
    GrammarMismatch { expected: Rule, found: Rule },
    /// The text is a derivation of the rule, in a shape that the library
    /// recognises and does not support.
    NotImplemented { rule: Rule },
}

impl Error {
    /// The rule that the error is about.
    pub open spec fn spec_rule(self) -> Rule {
        match self {
            Error::SyntaxError { rule } => rule,
            Error::GrammarMismatch { expected, found } => expected,
            Error::NotImplemented { rule } => rule,
        }
    }

    /// The rule that the error is about.
    #[verifier::when_used_as_spec(spec_rule)]
    pub fn rule(self) -> (r: Rule)
        ensures
            r == self.spec_rule(),
    {
        match self {
            Error::SyntaxError { rule } => rule,
            Error::GrammarMismatch { expected, found } => expected,
            Error::NotImplemented { rule } => rule,
        }
    }
}

} // verus!
