//! Identifiers without a prefix.

use crate::error::{Error, Rule};
use crate::id::prefix::is_word_char;
use crate::text::{
    chars_of, escape, is_verbatim, lemma_scan_same_length, lemma_scan_verbatim, push_escaped,
    scan_all, scan_run, string_from, Charset,
};
use std::borrow::Cow;
use vstd::prelude::*;

verus! {

/// Whether an unprefixed identifier is in canonical form: not empty, and
/// made of letters, digits and underscores only.
pub open spec fn is_canonical_unprefixed(s: Seq<char>) -> bool {
    s.len() > 0 && forall|i: int| 0 <= i < s.len() ==> is_word_char(#[trigger] s[i])
}

/// The text of an unprefixed identifier: its value, escaped as an
/// identifier, so that a colon in it is not taken for the end of a prefix.
pub open spec fn render_unprefixed(value: Seq<char>) -> Seq<char> {
    escape(Charset::Ident, value)
}

/// The unprefixed identifier that a text stands for: the text must be, as a
/// whole, a non-empty run of plain and escaped identifier characters.
pub open spec fn parse_unprefixed(t: Seq<char>) -> Option<Seq<char>> {
    match scan_all(Charset::Ident, t) {
        Some(v) => if v.len() > 0 {
            Some(v)
        } else {
            None
        },
        None => None,
    }
}

/// An identifier without a prefix, such as `goslim_plant`. It holds the
/// unescaped value.
#[derive(Debug, PartialEq, Eq, Hash, PartialOrd, Ord)]
pub struct UnprefixedIdent {
    value: String,
}

impl View for UnprefixedIdent {
    type V = Seq<char>;

    closed spec fn view(&self) -> Seq<char> {
        self.value@
    }
}

impl Clone for UnprefixedIdent {
    fn clone(&self) -> (r: Self)
        ensures
            r@ == self@,
    {
        UnprefixedIdent { value: self.value.clone() }
    }
}

impl UnprefixedIdent {
    /// Makes an unprefixed identifier from its unescaped value.
    pub fn new(value: String) -> (r: Self)
        ensures
            r@ == value@,
    {
        UnprefixedIdent { value }
    }

    /// The unescaped value.
    pub fn as_str(&self) -> (s: &str)
        ensures
            s@ == self@,
    {
        self.value.as_str()
    }

    /// The unescaped value, without the identifier around it.
    pub fn into_string(self) -> (s: String)
        ensures
            s@ == self@,
    {
        self.value
    }

    /// Whether the identifier is in canonical form.
    pub fn is_canonical(&self) -> (b: bool)
        ensures
            b == is_canonical_unprefixed(self@),
    {
        let s = self.value.as_str();
        let mut all: bool = true;
        let mut count: usize = 0;
        for c in it: s.chars()
            invariant
                it.seq() == s@,
                count == 0 <==> it.index() == 0,
                all == forall|i: int| 0 <= i < it.index() ==> is_word_char(#[trigger] s@[i]),
        {
            let word = ('a' <= c && c <= 'z') || ('A' <= c && c <= 'Z') || ('0' <= c && c <= '9')
                || c == '_';
            all = all && word;
            count = 1;
        }
        all && count > 0
    }

    /// Appends the text of the identifier to `out`.
    pub fn write(&self, out: &mut Vec<char>)
        ensures
            final(out)@ == old(out)@ + render_unprefixed(self@),
    {
        push_escaped(out, Charset::Ident, self.value.as_str());
    }

    /// The text of the identifier.
    pub fn to_string(&self) -> (s: String)
        ensures
            s@ == render_unprefixed(self@),
    {
        let mut out: Vec<char> = Vec::new();
        self.write(&mut out);
        string_from(&out)
    }

    /// Reads the unprefixed identifier that `v[from..to]` stands for.
    pub fn from_chars(v: &Vec<char>, from: usize, to: usize) -> (r: Result<Self, Error>)
        requires
            from <= to <= v.len(),
        ensures
            match parse_unprefixed(v@.subrange(from as int, to as int)) {
                Some(value) => r matches Ok(p) && p@ == value,
                None => r == Err::<Self, Error>(Error::SyntaxError { rule: Rule::UnprefixedId }),
            },
    {
        match scan_run(Charset::Ident, v, from, to) {
            Some((value, end)) => {
                if end == to && value.len() > 0 {
                    Ok(UnprefixedIdent { value: string_from(&value) })
                } else {
                    Err(Error::SyntaxError { rule: Rule::UnprefixedId })
                }
            },
            None => Err(Error::SyntaxError { rule: Rule::UnprefixedId }),
        }
    }

    /// Reads the unprefixed identifier that `s` stands for.
    pub fn from_str(s: &str) -> (r: Result<Self, Error>)
        ensures
            match parse_unprefixed(s@) {
                Some(value) => r matches Ok(p) && p@ == value,
                None => r == Err::<Self, Error>(Error::SyntaxError { rule: Rule::UnprefixedId }),
            },
    {
        let v = chars_of(s);
        assert(v@.subrange(0, v@.len() as int) == s@);
        Self::from_chars(&v, 0, v.len())
    }
}

impl UnprefixedIdent {
    /// A borrowed view of the same value.
    pub fn share<'a>(&'a self) -> (r: UnprefixedId<'a>)
        ensures
            r@ == self@,
            r.is_borrowed(),
    {
        UnprefixedId::new(self.value.as_str())
    }
}

/// An identifier without a prefix, borrowed from the text that it was read
/// from where that text holds it as it is, and owned where escapes had to
/// be undone.
#[derive(Debug, PartialEq, Eq, Hash)]
pub struct UnprefixedId<'a> {
    value: Cow<'a, str>,
}

impl<'a> View for UnprefixedId<'a> {
    type V = Seq<char>;

    closed spec fn view(&self) -> Seq<char> {
        self.value@
    }
}

impl<'a> Clone for UnprefixedId<'a> {
    fn clone(&self) -> (r: Self)
        ensures
            r@ == self@,
            r.is_borrowed() == self.is_borrowed(),
    {
        match &self.value {
            Cow::Borrowed(b) => UnprefixedId { value: Cow::Borrowed(b) },
            Cow::Owned(o) => UnprefixedId { value: Cow::Owned(o.clone()) },
        }
    }
}

impl<'a> UnprefixedId<'a> {
    /// Whether the value is borrowed rather than owned.
    pub closed spec fn is_borrowed(&self) -> bool {
        self.value is Borrowed
    }

    /// A view of an unescaped value that lives elsewhere.
    pub fn new(value: &'a str) -> (r: Self)
        ensures
            r@ == value@,
            r.is_borrowed(),
    {
        UnprefixedId { value: Cow::Borrowed(value) }
    }

    /// A view that owns its unescaped value.
    pub fn from_owned(value: String) -> (r: Self)
        ensures
            r@ == value@,
            !r.is_borrowed(),
    {
        UnprefixedId { value: Cow::Owned(value) }
    }

    /// The unescaped value.
    pub fn as_str(&self) -> (s: &str)
        ensures
            s@ == self@,
    {
        match &self.value {
            Cow::Borrowed(b) => b,
            Cow::Owned(o) => o.as_str(),
        }
    }

    /// An owned copy of the value.
    pub fn redeem(&self) -> (r: UnprefixedIdent)
        ensures
            r@ == self@,
    {
        UnprefixedIdent::new(self.as_str().to_owned())
    }

    /// Appends the text of the value to `out`.
    pub fn write(&self, out: &mut Vec<char>)
        ensures
            final(out)@ == old(out)@ + render_unprefixed(self@),
    {
        push_escaped(out, Charset::Ident, self.as_str());
    }

    /// The text of the value.
    pub fn to_string(&self) -> (s: String)
        ensures
            s@ == render_unprefixed(self@),
    {
        let mut out: Vec<char> = Vec::new();
        self.write(&mut out);
        string_from(&out)
    }

    /// Reads the value that `s` stands for, without copying `s` where it
    /// holds no escape.
    pub fn from_str(s: &'a str) -> (r: Result<Self, Error>)
        ensures
            match parse_unprefixed(s@) {
                Some(value) => r matches Ok(p) && p@ == value && (is_verbatim(s@)
                    ==> p.is_borrowed()),
                None => r == Err::<Self, Error>(Error::SyntaxError { rule: Rule::UnprefixedId }),
            },
    {
        let v = chars_of(s);
        assert(v@.subrange(0, v@.len() as int) == s@);
        match scan_run(Charset::Ident, &v, 0, v.len()) {
            Some((value, end)) => {
                if end == v.len() && value.len() > 0 {
                    proof {
                        lemma_scan_same_length(Charset::Ident, s@);
                        if is_verbatim(s@) {
                            lemma_scan_verbatim(Charset::Ident, s@);
                        }
                        assert(s@.take(s@.len() as int) == s@);
                    }
                    if value.len() == end {
                        Ok(UnprefixedId::new(s))
                    } else {
                        Ok(UnprefixedId::from_owned(string_from(&value)))
                    }
                } else {
                    Err(Error::SyntaxError { rule: Rule::UnprefixedId })
                }
            },
            None => Err(Error::SyntaxError { rule: Rule::UnprefixedId }),
        }
    }
}

} // verus!
