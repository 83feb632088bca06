//! Quoted and unquoted strings.

use crate::error::{Error, Rule};
use crate::text::{
    chars_of, escape, is_one_line, lemma_escape_one_line, lemma_one_line_concat, lemma_scan_escaped,
    push_escaped, scan, scan_all, scan_run, string_from, Charset,
};
use vstd::prelude::*;

verus! {

/// The text of a quoted string: the value between double quotes, with the
/// double quotes, backslashes and line breaks in it escaped.
pub open spec fn render_quoted(value: Seq<char>) -> Seq<char> {
    seq!['"'] + escape(Charset::Quoted, value) + seq!['"']
}

/// Reads a quoted string at the start of `s`: gives its value and the
/// number of characters that it takes, both quotes included.
pub open spec fn parse_quoted_at(s: Seq<char>) -> Option<(Seq<char>, int)> {
    if s.len() > 0 && s[0] == '"' {
        match scan(Charset::Quoted, s.skip(1)) {
            Some((value, n)) => if 0 <= n && n + 1 < s.len() && s[n + 1] == '"' {
                Some((value, n + 2))
            } else {
                None
            },
            None => None,
        }
    } else {
        None
    }
}

/// The quoted string that a whole text stands for.
pub open spec fn parse_quoted(t: Seq<char>) -> Option<Seq<char>> {
    match parse_quoted_at(t) {
        Some((value, n)) => if n == t.len() {
            Some(value)
        } else {
            None
        },
        None => None,
    }
}

/// Reading goes through a written quoted string, gives its value, and stops
/// right behind the closing quote, whatever follows.
pub proof fn lemma_parse_render_quoted_at(value: Seq<char>, rest: Seq<char>)
    ensures
        parse_quoted_at(render_quoted(value) + rest) == Some(
            (value, render_quoted(value).len() as int),
        ),
{
    let body = escape(Charset::Quoted, value);
    let s = render_quoted(value) + rest;
    assert(s.skip(1) == body + (seq!['"'] + rest));
    lemma_scan_escaped(Charset::Quoted, Charset::Quoted, value, seq!['"'] + rest);
}

/// Writing a quoted string and reading the text back gives the string.
pub proof fn lemma_parse_render_quoted(value: Seq<char>)
    ensures
        parse_quoted(render_quoted(value)) == Some(value),
{
    lemma_parse_render_quoted_at(value, Seq::<char>::empty());
    assert(render_quoted(value) + Seq::<char>::empty() == render_quoted(value));
}

/// A written quoted string holds no line feed.
pub proof fn lemma_quoted_one_line(q: Seq<char>)
    ensures
        is_one_line(render_quoted(q)),
{
    lemma_escape_one_line(Charset::Quoted, q);
    lemma_one_line_concat(seq!['"'], escape(Charset::Quoted, q));
    lemma_one_line_concat(seq!['"'] + escape(Charset::Quoted, q), seq!['"']);
}

/// A string that is written between double quotes. It holds the unescaped
/// value.
#[derive(Debug, PartialEq, Eq, Hash, PartialOrd, Ord)]
pub struct QuotedString {
    value: String,
}

impl View for QuotedString {
    type V = Seq<char>;

    closed spec fn view(&self) -> Seq<char> {
        self.value@
    }
}

impl Clone for QuotedString {
    fn clone(&self) -> (r: Self)
        ensures
            r@ == self@,
    {
        QuotedString { value: self.value.clone() }
    }
}

impl QuotedString {
    /// Makes a quoted string from its unescaped value.
    pub fn new(value: String) -> (r: Self)
        ensures
            r@ == value@,
    {
        QuotedString { value }
    }

    /// The unescaped value.
    pub fn as_str(&self) -> (s: &str)
        ensures
            s@ == self@,
    {
        self.value.as_str()
    }

    /// A borrowed view of the same string.
    pub fn share<'a>(&'a self) -> (r: QuotedStr<'a>)
        ensures
            r@ == self@,
    {
        QuotedStr::new(self.value.as_str())
    }

    /// Appends the text of the string, quotes included, to `out`.
    pub fn write(&self, out: &mut Vec<char>)
        ensures
            final(out)@ == old(out)@ + render_quoted(self@),
    {
        write_quoted(out, self.value.as_str());
    }

    /// The text of the string, quotes included.
    pub fn to_string(&self) -> (s: String)
        ensures
            s@ == render_quoted(self@),
    {
        let mut out: Vec<char> = Vec::new();
        self.write(&mut out);
        string_from(&out)
    }

    /// Reads a quoted string at `v[from..to]`: gives the string and the
    /// position right behind its closing quote.
    pub fn read(v: &Vec<char>, from: usize, to: usize) -> (r: Option<(Self, usize)>)
        requires
            from <= to <= v.len(),
        ensures
            match parse_quoted_at(v@.subrange(from as int, to as int)) {
                Some((value, n)) => r matches Some((q, end)) && q@ == value && end == from + n
                    && from < end <= to,
                None => r is None,
            },
    {
        if from >= to || v[from] != '"' {
            return None;
        }
        let ghost s = v@.subrange(from as int, to as int);
        assert(s.skip(1) == v@.subrange(from + 1, to as int));
        match scan_run(Charset::Quoted, v, from + 1, to) {
            Some((value, end)) => {
                if end < to && v[end] == '"' {
                    Some((QuotedString { value: string_from(&value) }, end + 1))
                } else {
                    None
                }
            },
            None => None,
        }
    }

    /// Reads the quoted string that `s` stands for.
    pub fn from_str(s: &str) -> (r: Result<Self, Error>)
        ensures
            match parse_quoted(s@) {
                Some(value) => r matches Ok(q) && q@ == value,
                None => r == Err::<Self, Error>(Error::SyntaxError { rule: Rule::QuotedString }),
            },
    {
        let v = chars_of(s);
        assert(v@.subrange(0, v@.len() as int) == s@);
        match Self::read(&v, 0, v.len()) {
            Some((q, end)) => {
                if end == v.len() {
                    Ok(q)
                } else {
                    Err(Error::SyntaxError { rule: Rule::QuotedString })
                }
            },
            None => Err(Error::SyntaxError { rule: Rule::QuotedString }),
        }
    }
}

/// Writes `value` to `out` as a quoted string.
pub fn write_quoted(out: &mut Vec<char>, value: &str)
    ensures
        final(out)@ == old(out)@ + render_quoted(value@),
{
    out.push('"');
    push_escaped(out, Charset::Quoted, value);
    out.push('"');
    assert(out@ == old(out)@ + render_quoted(value@));
}

/// A borrowed quoted string.
#[derive(Clone, Copy, Debug, PartialEq, Eq, Hash)]
pub struct QuotedStr<'a> {
    value: &'a str,
}

impl<'a> View for QuotedStr<'a> {
    type V = Seq<char>;

    closed spec fn view(&self) -> Seq<char> {
        self.value@
    }
}

impl<'a> QuotedStr<'a> {
    /// A view of an unescaped value that lives elsewhere.
    pub fn new(value: &'a str) -> (r: Self)
        ensures
            r@ == value@,
    {
        QuotedStr { value }
    }

    /// The unescaped value.
    pub fn as_str(&self) -> (s: &'a str)
        ensures
            s@ == self@,
    {
        self.value
    }

    /// An owned copy of the string.
    pub fn redeem(&self) -> (r: QuotedString)
        ensures
            r@ == self@,
    {
        QuotedString::new(self.value.to_owned())
    }

    /// Appends the text of the string, quotes included, to `out`.
    pub fn write(&self, out: &mut Vec<char>)
        ensures
            final(out)@ == old(out)@ + render_quoted(self@),
    {
        write_quoted(out, self.value);
    }

    /// The text of the string, quotes included.
    pub fn to_string(&self) -> (s: String)
        ensures
            s@ == render_quoted(self@),
    {
        let mut out: Vec<char> = Vec::new();
        self.write(&mut out);
        string_from(&out)
    }
}

/// The text of an unquoted string: the value with `!`, `{`, backslashes and
/// line breaks escaped.
pub open spec fn render_unquoted(value: Seq<char>) -> Seq<char> {
    escape(Charset::Unquoted, value)
}

/// The unquoted string that a whole text stands for.
pub open spec fn parse_unquoted(t: Seq<char>) -> Option<Seq<char>> {
    scan_all(Charset::Unquoted, t)
}

/// Writing an unquoted string and reading the text back gives the string.
pub proof fn lemma_parse_render_unquoted(value: Seq<char>)
    ensures
        parse_unquoted(render_unquoted(value)) == Some(value),
{
    lemma_scan_escaped(Charset::Unquoted, Charset::Unquoted, value, Seq::<char>::empty());
    assert(render_unquoted(value) + Seq::<char>::empty() == render_unquoted(value));
}

/// Free text that runs to the end of its line. It holds the unescaped
/// value.
#[derive(Debug, PartialEq, Eq, Hash, PartialOrd, Ord)]
pub struct UnquotedString {
    value: String,
}

impl View for UnquotedString {
    type V = Seq<char>;

    closed spec fn view(&self) -> Seq<char> {
        self.value@
    }
}

impl Clone for UnquotedString {
    fn clone(&self) -> (r: Self)
        ensures
            r@ == self@,
    {
        UnquotedString { value: self.value.clone() }
    }
}

impl UnquotedString {
    /// Makes an unquoted string from its unescaped value.
    pub fn new(value: String) -> (r: Self)
        ensures
            r@ == value@,
    {
        UnquotedString { value }
    }

    /// The unescaped value.
    pub fn as_str(&self) -> (s: &str)
        ensures
            s@ == self@,
    {
        self.value.as_str()
    }

    /// Appends the text of the string to `out`.
    pub fn write(&self, out: &mut Vec<char>)
        ensures
            final(out)@ == old(out)@ + render_unquoted(self@),
    {
        push_escaped(out, Charset::Unquoted, self.value.as_str());
    }

    /// The text of the string.
    pub fn to_string(&self) -> (s: String)
        ensures
            s@ == render_unquoted(self@),
    {
        let mut out: Vec<char> = Vec::new();
        self.write(&mut out);
        string_from(&out)
    }

    /// Reads the unquoted string that `s` stands for.
    pub fn from_str(s: &str) -> (r: Result<Self, Error>)
        ensures
            match parse_unquoted(s@) {
                Some(value) => r matches Ok(q) && q@ == value,
                None => r == Err::<Self, Error>(
                    Error::SyntaxError { rule: Rule::UnquotedString },
                ),
            },
    {
        let v = chars_of(s);
        assert(v@.subrange(0, v@.len() as int) == s@);
        match scan_run(Charset::Unquoted, &v, 0, v.len()) {
            Some((value, end)) => {
                if end == v.len() {
                    Ok(UnquotedString { value: string_from(&value) })
                } else {
                    Err(Error::SyntaxError { rule: Rule::UnquotedString })
                }
            },
            None => Err(Error::SyntaxError { rule: Rule::UnquotedString }),
        }
    }
}

} // verus!
