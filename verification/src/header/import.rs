//! References to documents that are to be read along with a document.

use crate::id::{render_ident, Ident, IdentView, Url};
use vstd::prelude::*;

verus! {

/// An absolute URL that names a document.
pub type Iri = Url;

/// A reference to another document: its URL, or an abbreviation of it.
#[derive(Debug, PartialEq, Eq, Hash)]
pub enum Import {
    /// The URL of the document.
    Iri(Iri),
    /// An identifier that stands for the document. It is never a URL: a
    /// URL is written as such.
    Abbreviated(Ident),
}

impl View for Import {
    type V = IdentView;

    open spec fn view(&self) -> IdentView {
        match self {
            Import::Iri(url) => IdentView::Url(url@),
            Import::Abbreviated(id) => id@,
        }
    }
}

impl Clone for Import {
    fn clone(&self) -> (r: Self)
        ensures
            r@ == self@,
    {
        match self {
            Import::Iri(url) => Import::Iri(url.clone()),
            Import::Abbreviated(id) => Import::Abbreviated(id.clone()),
        }
    }
}

impl Import {
    /// The reference that an identifier is: a URL for a URL, else an
    /// abbreviation.
    pub fn from_ident(id: Ident) -> (r: Self)
        ensures
            r@ == id@,
            r is Iri <==> id is Url,
    {
        match id {
            Ident::Url(url) => Import::Iri(url),
            other => Import::Abbreviated(other),
        }
    }

    /// The identifier that the reference is written as.
    pub fn to_ident(&self) -> (r: Ident)
        ensures
            r@ == self@,
    {
        match self {
            Import::Iri(url) => Ident::Url(url.clone()),
            Import::Abbreviated(id) => id.clone(),
        }
    }

    /// Appends the text of the reference to `out`.
    pub fn write(&self, out: &mut Vec<char>)
        ensures
            final(out)@ == old(out)@ + render_ident(self@),
    {
        match self {
            Import::Iri(url) => url.write(out),
            Import::Abbreviated(id) => id.write(out),
        }
    }

    /// The text of the reference.
    pub fn to_string(&self) -> (s: String)
        ensures
            s@ == render_ident(self@),
    {
        match self {
            Import::Iri(url) => url.to_string(),
            Import::Abbreviated(id) => id.to_string(),
        }
    }
}

impl From<Iri> for Import {
    fn from(iri: Iri) -> (r: Self) {
        Import::Iri(iri)
    }
}

impl vstd::std_specs::convert::FromSpecImpl<Iri> for Import {
    open spec fn obeys_from_spec() -> bool {
        true
    }

    open spec fn from_spec(iri: Iri) -> Self {
        Import::Iri(iri)
    }
}

impl From<Ident> for Import {
    fn from(id: Ident) -> (r: Self) {
        match id {
            Ident::Url(url) => Import::Iri(url),
            other => Import::Abbreviated(other),
        }
    }
}

impl vstd::std_specs::convert::FromSpecImpl<Ident> for Import {
    open spec fn obeys_from_spec() -> bool {
        true
    }

    open spec fn from_spec(id: Ident) -> Self {
        match id {
            Ident::Url(url) => Import::Iri(url),
            other => Import::Abbreviated(other),
        }
    }
}

} // verus!
