//! The scopes of synonyms.

use crate::text::str_eq;
use vstd::prelude::*;

verus! {

/// How close a synonym is to the name that it stands beside.
#[derive(Clone, Copy, Debug, PartialEq, Eq, Hash, Structural)]
pub enum SynonymScope {
    Exact,
    Broad,
    Narrow,
    Related,
}

impl View for SynonymScope {
    type V = SynonymScope;

    open spec fn view(&self) -> SynonymScope {
        *self
    }
}

impl SynonymScope {
    /// The word that the scope is written as.
    pub open spec fn text(self) -> Seq<char> {
        match self {
            SynonymScope::Exact => "EXACT"@,
            SynonymScope::Broad => "BROAD"@,
            SynonymScope::Narrow => "NARROW"@,
            SynonymScope::Related => "RELATED"@,
        }
    }

    /// The scope that a word stands for.
    pub open spec fn of(text: Seq<char>) -> Option<SynonymScope> {
        if text == "EXACT"@ {
            Some(SynonymScope::Exact)
        } else if text == "BROAD"@ {
            Some(SynonymScope::Broad)
        } else if text == "NARROW"@ {
            Some(SynonymScope::Narrow)
        } else if text == "RELATED"@ {
            Some(SynonymScope::Related)
        } else {
            None
        }
    }

    /// The word of a scope stands for that scope, and is not empty.
    pub proof fn lemma_of_text(scope: SynonymScope)
        ensures
            Self::of(scope.text()) == Some(scope),
            scope.text().len() > 0,
    {
        reveal_strlit("EXACT");
        reveal_strlit("BROAD");
        reveal_strlit("NARROW");
        reveal_strlit("RELATED");
        assert("EXACT"@.len() == 5 && "EXACT"@[0] == 'E');
        assert("BROAD"@.len() == 5 && "BROAD"@[0] == 'B');
        assert("NARROW"@.len() == 6);
        assert("RELATED"@.len() == 7);
    }

    /// The word that the scope is written as.
    pub fn as_str(self) -> (s: &'static str)
        ensures
            s@ == self.text(),
    {
        match self {
            SynonymScope::Exact => "EXACT",
            SynonymScope::Broad => "BROAD",
            SynonymScope::Narrow => "NARROW",
            SynonymScope::Related => "RELATED",
        }
    }

    /// The scope that a word stands for.
    pub fn from_str(text: &str) -> (r: Option<SynonymScope>)
        ensures
            r == Self::of(text@),
    {
        if str_eq(text, "EXACT") {
            Some(SynonymScope::Exact)
        } else if str_eq(text, "BROAD") {
            Some(SynonymScope::Broad)
        } else if str_eq(text, "NARROW") {
            Some(SynonymScope::Narrow)
        } else if str_eq(text, "RELATED") {
            Some(SynonymScope::Related)
        } else {
            None
        }
    }
}

/// The word that a truth value is written as.
pub open spec fn bool_text(b: bool) -> Seq<char> {
    if b {
        "true"@
    } else {
        "false"@
    }
}

/// The truth value that a word stands for.
pub open spec fn bool_of(text: Seq<char>) -> Option<bool> {
    if text == "true"@ {
        Some(true)
    } else if text == "false"@ {
        Some(false)
    } else {
        None
    }
}

/// The word of a truth value stands for that value, and is not empty.
pub proof fn lemma_bool_of_text(b: bool)
    ensures
        bool_of(bool_text(b)) == Some(b),
        bool_text(b).len() > 0,
{
    reveal_strlit("true");
    reveal_strlit("false");
    assert("true"@.len() == 4);
    assert("false"@.len() == 5);
}

/// The word that a truth value is written as.
pub fn bool_str(b: bool) -> (s: &'static str)
    ensures
        s@ == bool_text(b),
{
    if b {
        "true"
    } else {
        "false"
    }
}

/// The truth value that a word stands for.
pub fn bool_from_str(text: &str) -> (r: Option<bool>)
    ensures
        r == bool_of(text@),
{
    if str_eq(text, "true") {
        Some(true)
    } else if str_eq(text, "false") {
        Some(false)
    } else {
        None
    }
}

} // verus!
