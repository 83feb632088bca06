//! The prefix of a prefixed identifier.

use crate::error::{Error, Rule};
use crate::text::{
    chars_of, escape, is_verbatim, lemma_scan_same_length, lemma_scan_verbatim, push_escaped,
    scan_all, scan_run, string_from, Charset,
};
use std::borrow::Cow;
use vstd::prelude::*;

verus! {

/// Letter, digit or underscore: the characters of a canonical prefix.
pub open spec fn is_word_char(c: char) -> bool {
    ('a' <= c <= 'z') || ('A' <= c <= 'Z') || ('0' <= c <= '9') || c == '_'
}

/// Whether a prefix is in canonical form: not empty, and made of letters,
/// digits and underscores only.
pub open spec fn is_canonical_prefix(s: Seq<char>) -> bool {
    s.len() > 0 && forall|i: int| 0 <= i < s.len() ==> is_word_char(#[trigger] s[i])
}

/// The text of a prefix: its value, escaped as an identifier.
pub open spec fn render_prefix(value: Seq<char>) -> Seq<char> {
    escape(Charset::Ident, value)
}

/// The prefix that a text stands for: the text must be, as a whole, a
/// non-empty run of plain and escaped identifier characters.
pub open spec fn parse_prefix(t: Seq<char>) -> Option<Seq<char>> {
    match scan_all(Charset::Ident, t) {
        Some(v) => if v.len() > 0 {
            Some(v)
        } else {
            None
        },
        None => None,
    }
}

/// The prefix of a prefixed identifier, such as `GO` in `GO:0046154`. It
/// holds the unescaped value.
#[derive(Debug, PartialEq, Eq, Hash, PartialOrd, Ord)]
pub struct IdentPrefix {
    value: String,
}

impl View for IdentPrefix {
    type V = Seq<char>;

    closed spec fn view(&self) -> Seq<char> {
        self.value@
    }
}

impl Clone for IdentPrefix {
    fn clone(&self) -> (r: Self)
        ensures
            r@ == self@,
    {
        IdentPrefix { value: self.value.clone() }
    }
}

impl IdentPrefix {
    /// Makes a prefix from its unescaped value.
    pub fn new(value: String) -> (r: Self)
        ensures
            r@ == value@,
    {
        IdentPrefix { value }
    }

    /// The unescaped value.
    pub fn as_str(&self) -> (s: &str)
        ensures
            s@ == self@,
    {
        self.value.as_str()
    }

    /// Whether the prefix is in canonical form.
    pub fn is_canonical(&self) -> (b: bool)
        ensures
            b == is_canonical_prefix(self@),
    {
        let s = self.value.as_str();
        let mut all: bool = true;
        let mut count: usize = 0;
        for c in it: s.chars()
            invariant
                it.seq() == s@,
                count == 0 <==> it.index() == 0,
                all == forall|i: int| 0 <= i < it.index() ==> is_word_char(#[trigger] s@[i]),
        {
            let word = ('a' <= c && c <= 'z') || ('A' <= c && c <= 'Z') || ('0' <= c && c <= '9')
                || c == '_';
            all = all && word;
            count = 1;
        }
        all && count > 0
    }

    /// Appends the text of the prefix to `out`.
    pub fn write(&self, out: &mut Vec<char>)
        ensures
            final(out)@ == old(out)@ + render_prefix(self@),
    {
        push_escaped(out, Charset::Ident, self.value.as_str());
    }

    /// The text of the prefix.
    pub fn to_string(&self) -> (s: String)
        ensures
            s@ == render_prefix(self@),
    {
        let mut out: Vec<char> = Vec::new();
        self.write(&mut out);
        string_from(&out)
    }

    /// Reads the prefix that `v[from..to]` stands for.
    pub fn from_chars(v: &Vec<char>, from: usize, to: usize) -> (r: Result<Self, Error>)
        requires
            from <= to <= v.len(),
        ensures
            match parse_prefix(v@.subrange(from as int, to as int)) {
                Some(value) => r matches Ok(p) && p@ == value,
                None => r == Err::<Self, Error>(Error::SyntaxError { rule: Rule::IdPrefix }),
            },
    {
        match scan_run(Charset::Ident, v, from, to) {
            Some((value, end)) => {
                if end == to && value.len() > 0 {
                    Ok(IdentPrefix { value: string_from(&value) })
                } else {
                    Err(Error::SyntaxError { rule: Rule::IdPrefix })
                }
            },
            None => Err(Error::SyntaxError { rule: Rule::IdPrefix }),
        }
    }

    /// Reads the prefix that `s` stands for.
    pub fn from_str(s: &str) -> (r: Result<Self, Error>)
        ensures
            match parse_prefix(s@) {
                Some(value) => r matches Ok(p) && p@ == value,
                None => r == Err::<Self, Error>(Error::SyntaxError { rule: Rule::IdPrefix }),
            },
    {
        let v = chars_of(s);
        assert(v@.subrange(0, v@.len() as int) == s@);
        Self::from_chars(&v, 0, v.len())
    }
}

impl IdentPrefix {
    /// A borrowed view of the same value.
    pub fn share<'a>(&'a self) -> (r: IdPrefix<'a>)
        ensures
            r@ == self@,
            r.is_borrowed(),
    {
        IdPrefix::new(self.value.as_str())
    }
}

/// The prefix of a prefixed identifier, borrowed from the text that it was read
/// from where that text holds it as it is, and owned where escapes had to
/// be undone.
#[derive(Debug, PartialEq, Eq, Hash)]
pub struct IdPrefix<'a> {
    value: Cow<'a, str>,
}

impl<'a> View for IdPrefix<'a> {
    type V = Seq<char>;

    closed spec fn view(&self) -> Seq<char> {
        self.value@
    }
}

impl<'a> Clone for IdPrefix<'a> {
    fn clone(&self) -> (r: Self)
        ensures
            r@ == self@,
            r.is_borrowed() == self.is_borrowed(),
    {
        match &self.value {
            Cow::Borrowed(b) => IdPrefix { value: Cow::Borrowed(b) },
            Cow::Owned(o) => IdPrefix { value: Cow::Owned(o.clone()) },
        }
    }
}

impl<'a> IdPrefix<'a> {
    /// Whether the value is borrowed rather than owned.
    pub closed spec fn is_borrowed(&self) -> bool {
        self.value is Borrowed
    }

    /// A view of an unescaped value that lives elsewhere.
    pub fn new(value: &'a str) -> (r: Self)
        ensures
            r@ == value@,
            r.is_borrowed(),
    {
        IdPrefix { value: Cow::Borrowed(value) }
    }

    /// A view that owns its unescaped value.
    pub fn from_owned(value: String) -> (r: Self)
        ensures
            r@ == value@,
            !r.is_borrowed(),
    {
        IdPrefix { value: Cow::Owned(value) }
    }

    /// The unescaped value.
    pub fn as_str(&self) -> (s: &str)
        ensures
            s@ == self@,
    {
        match &self.value {
            Cow::Borrowed(b) => b,
            Cow::Owned(o) => o.as_str(),
        }
    }

    /// An owned copy of the value.
    pub fn redeem(&self) -> (r: IdentPrefix)
        ensures
            r@ == self@,
    {
        IdentPrefix::new(self.as_str().to_owned())
    }

    /// Appends the text of the value to `out`.
    pub fn write(&self, out: &mut Vec<char>)
        ensures
            final(out)@ == old(out)@ + render_prefix(self@),
    {
        push_escaped(out, Charset::Ident, self.as_str());
    }

    /// The text of the value.
    pub fn to_string(&self) -> (s: String)
        ensures
            s@ == render_prefix(self@),
    {
        let mut out: Vec<char> = Vec::new();
        self.write(&mut out);
        string_from(&out)
    }

    /// Reads the value that `s` stands for, without copying `s` where it
    /// holds no escape.
    pub fn from_str(s: &'a str) -> (r: Result<Self, Error>)
        ensures
            match parse_prefix(s@) {
                Some(value) => r matches Ok(p) && p@ == value && (is_verbatim(s@)
                    ==> p.is_borrowed()),
                None => r == Err::<Self, Error>(Error::SyntaxError { rule: Rule::IdPrefix }),
            },
    {
        let v = chars_of(s);
        assert(v@.subrange(0, v@.len() as int) == s@);
        match scan_run(Charset::Ident, &v, 0, v.len()) {
            Some((value, end)) => {
                if end == v.len() && value.len() > 0 {
                    proof {
                        lemma_scan_same_length(Charset::Ident, s@);
                        if is_verbatim(s@) {
                            lemma_scan_verbatim(Charset::Ident, s@);
                        }
                        assert(s@.take(s@.len() as int) == s@);
                    }
                    if value.len() == end {
                        Ok(IdPrefix::new(s))
                    } else {
                        Ok(IdPrefix::from_owned(string_from(&value)))
                    }
                } else {
                    Err(Error::SyntaxError { rule: Rule::IdPrefix })
                }
            },
            None => Err(Error::SyntaxError { rule: Rule::IdPrefix }),
        }
    }
}

} // verus!
