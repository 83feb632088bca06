//! The local part of a prefixed identifier.

use crate::error::{Error, Rule};
use crate::text::{
    chars_of, escape, is_verbatim, lemma_scan_same_length, lemma_scan_verbatim, push_escaped,
    scan_all, scan_run, string_from, Charset,
};
use std::borrow::Cow;
use vstd::prelude::*;

verus! {

/// A decimal digit: the characters of a canonical local part.
pub open spec fn is_digit_char(c: char) -> bool {
    '0' <= c <= '9'
}

/// Whether a local part is in canonical form: not empty, and made of
/// digits only.
pub open spec fn is_canonical_local(s: Seq<char>) -> bool {
    s.len() > 0 && forall|i: int| 0 <= i < s.len() ==> is_digit_char(#[trigger] s[i])
}

/// The text of a local part: its value, escaped as an identifier.
pub open spec fn render_local(value: Seq<char>) -> Seq<char> {
    escape(Charset::Ident, value)
}

/// The local part that a text stands for: the text must be, as a whole, a
/// non-empty run of plain and escaped identifier characters.
pub open spec fn parse_local(t: Seq<char>) -> Option<Seq<char>> {
    match scan_all(Charset::Ident, t) {
        Some(v) => if v.len() > 0 {
            Some(v)
        } else {
            None
        },
        None => None,
    }
}

/// The local part of a prefixed identifier, such as `0046154` in
/// `GO:0046154`. It holds the unescaped value.
#[derive(Debug, PartialEq, Eq, Hash, PartialOrd, Ord)]
pub struct IdentLocal {
    value: String,
}

impl View for IdentLocal {
    type V = Seq<char>;

    closed spec fn view(&self) -> Seq<char> {
        self.value@
    }
}

impl Clone for IdentLocal {
    fn clone(&self) -> (r: Self)
        ensures
            r@ == self@,
    {
        IdentLocal { value: self.value.clone() }
    }
}

impl IdentLocal {
    /// Makes a local part from its unescaped value.
    pub fn new(value: String) -> (r: Self)
        ensures
            r@ == value@,
    {
        IdentLocal { value }
    }

    /// The unescaped value.
    pub fn as_str(&self) -> (s: &str)
        ensures
            s@ == self@,
    {
        self.value.as_str()
    }

    /// Whether the local part is in canonical form.
    pub fn is_canonical(&self) -> (b: bool)
        ensures
            b == is_canonical_local(self@),
    {
        let s = self.value.as_str();
        let mut all: bool = true;
        let mut count: usize = 0;
        for c in it: s.chars()
            invariant
                it.seq() == s@,
                count == 0 <==> it.index() == 0,
                all == forall|i: int| 0 <= i < it.index() ==> is_digit_char(#[trigger] s@[i]),
        {
            let digit = '0' <= c && c <= '9';
            all = all && digit;
            count = 1;
        }
        all && count > 0
    }

    /// Appends the text of the local part to `out`.
    pub fn write(&self, out: &mut Vec<char>)
        ensures
            final(out)@ == old(out)@ + render_local(self@),
    {
        push_escaped(out, Charset::Ident, self.value.as_str());
    }

    /// The text of the local part.
    pub fn to_string(&self) -> (s: String)
        ensures
            s@ == render_local(self@),
    {
        let mut out: Vec<char> = Vec::new();
        self.write(&mut out);
        string_from(&out)
    }

    /// Reads the local part that `v[from..to]` stands for.
    pub fn from_chars(v: &Vec<char>, from: usize, to: usize) -> (r: Result<Self, Error>)
        requires
            from <= to <= v.len(),
        ensures
            match parse_local(v@.subrange(from as int, to as int)) {
                Some(value) => r matches Ok(p) && p@ == value,
                None => r == Err::<Self, Error>(Error::SyntaxError { rule: Rule::IdLocal }),
            },
    {
        match scan_run(Charset::Ident, v, from, to) {
            Some((value, end)) => {
                if end == to && value.len() > 0 {
                    Ok(IdentLocal { value: string_from(&value) })
                } else {
                    Err(Error::SyntaxError { rule: Rule::IdLocal })
                }
            },
            None => Err(Error::SyntaxError { rule: Rule::IdLocal }),
        }
    }

    /// Reads the local part that `s` stands for.
    pub fn from_str(s: &str) -> (r: Result<Self, Error>)
        ensures
            match parse_local(s@) {
                Some(value) => r matches Ok(p) && p@ == value,
                None => r == Err::<Self, Error>(Error::SyntaxError { rule: Rule::IdLocal }),
            },
    {
        let v = chars_of(s);
        assert(v@.subrange(0, v@.len() as int) == s@);
        Self::from_chars(&v, 0, v.len())
    }
}

impl IdentLocal {
    /// A borrowed view of the same value.
    pub fn share<'a>(&'a self) -> (r: IdLocal<'a>)
        ensures
            r@ == self@,
            r.is_borrowed(),
    {
        IdLocal::new(self.value.as_str())
    }
}

/// The local part of a prefixed identifier, borrowed from the text that it was read
/// from where that text holds it as it is, and owned where escapes had to
/// be undone.
#[derive(Debug, PartialEq, Eq, Hash)]
pub struct IdLocal<'a> {
    value: Cow<'a, str>,
}

impl<'a> View for IdLocal<'a> {
    type V = Seq<char>;

    closed spec fn view(&self) -> Seq<char> {
        self.value@
    }
}

impl<'a> Clone for IdLocal<'a> {
    fn clone(&self) -> (r: Self)
        ensures
            r@ == self@,
            r.is_borrowed() == self.is_borrowed(),
    {
        match &self.value {
            Cow::Borrowed(b) => IdLocal { value: Cow::Borrowed(b) },
            Cow::Owned(o) => IdLocal { value: Cow::Owned(o.clone()) },
        }
    }
}

impl<'a> IdLocal<'a> {
    /// Whether the value is borrowed rather than owned.
    pub closed spec fn is_borrowed(&self) -> bool {
        self.value is Borrowed
    }

    /// A view of an unescaped value that lives elsewhere.
    pub fn new(value: &'a str) -> (r: Self)
        ensures
            r@ == value@,
            r.is_borrowed(),
    {
        IdLocal { value: Cow::Borrowed(value) }
    }

    /// A view that owns its unescaped value.
    pub fn from_owned(value: String) -> (r: Self)
        ensures
            r@ == value@,
            !r.is_borrowed(),
    {
        IdLocal { value: Cow::Owned(value) }
    }

    /// The unescaped value.
    pub fn as_str(&self) -> (s: &str)
        ensures
            s@ == self@,
    {
        match &self.value {
            Cow::Borrowed(b) => b,
            Cow::Owned(o) => o.as_str(),
        }
    }

    /// An owned copy of the value.
    pub fn redeem(&self) -> (r: IdentLocal)
        ensures
            r@ == self@,
    {
        IdentLocal::new(self.as_str().to_owned())
    }

    /// Appends the text of the value to `out`.
    pub fn write(&self, out: &mut Vec<char>)
        ensures
            final(out)@ == old(out)@ + render_local(self@),
    {
        push_escaped(out, Charset::Ident, self.as_str());
    }

    /// The text of the value.
    pub fn to_string(&self) -> (s: String)
        ensures
            s@ == render_local(self@),
    {
        let mut out: Vec<char> = Vec::new();
        self.write(&mut out);
        string_from(&out)
    }

    /// Reads the value that `s` stands for, without copying `s` where it
    /// holds no escape.
    pub fn from_str(s: &'a str) -> (r: Result<Self, Error>)
        ensures
            match parse_local(s@) {
                Some(value) => r matches Ok(p) && p@ == value && (is_verbatim(s@)
                    ==> p.is_borrowed()),
                None => r == Err::<Self, Error>(Error::SyntaxError { rule: Rule::IdLocal }),
            },
    {
        let v = chars_of(s);
        assert(v@.subrange(0, v@.len() as int) == s@);
        match scan_run(Charset::Ident, &v, 0, v.len()) {
            Some((value, end)) => {
                if end == v.len() && value.len() > 0 {
                    proof {
                        lemma_scan_same_length(Charset::Ident, s@);
                        if is_verbatim(s@) {
                            lemma_scan_verbatim(Charset::Ident, s@);
                        }
                        assert(s@.take(s@.len() as int) == s@);
                    }
                    if value.len() == end {
                        Ok(IdLocal::new(s))
                    } else {
                        Ok(IdLocal::from_owned(string_from(&value)))
                    }
                } else {
                    Err(Error::SyntaxError { rule: Rule::IdLocal })
                }
            },
            None => Err(Error::SyntaxError { rule: Rule::IdLocal }),
        }
    }
}

} // verus!
