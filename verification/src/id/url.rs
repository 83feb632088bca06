//! Identifiers that are absolute URLs.
//!
//! A URL is kept as its serialization, the text by which URLs are written,
//! compared, ordered and hashed.

use crate::error::{Error, Rule};
use crate::text::{is_plain, push_chars, Charset};
use vstd::prelude::*;

verus! {

/// The serialization of the absolute URL that `input` is parsed to, if it
/// is parsed to one.
pub uninterp spec fn url_serialization(input: Seq<char>) -> Option<Seq<char>>;

/// Parses `input` as an absolute URL and gives its serialization.
///
/// Trusted: the body calls `url::Url::parse` and turns the URL into its
/// serialization with `String::from`. The contract only names the result;
/// it claims nothing of what the serialization looks like.
#[verifier::external_body]
fn serialize_url(input: &str) -> (r: Option<String>)
    ensures
        match r {
            Some(text) => url_serialization(input@) == Some(text@),
            None => url_serialization(input@) is None,
        },
{
    match url::Url::parse(input) {
        Ok(parsed) => Some(String::from(parsed)),
        Err(_) => None,
    }
}

/// Whether a text can stand as one token of a line: it begins with a
/// letter, as a scheme does, and holds no backslash, blank, line break or
/// double quote.
pub open spec fn is_url_text(t: Seq<char>) -> bool {
    t.len() > 0 && is_letter(t[0]) && is_plain(Charset::Token, t)
}

/// A letter of the basic Latin alphabet.
pub open spec fn is_letter(c: char) -> bool {
    ('a' <= c <= 'z') || ('A' <= c <= 'Z')
}

/// Whether a text is a URL as this library keeps one: a token that is its
/// own serialization.
pub open spec fn is_url(t: Seq<char>) -> bool {
    is_url_text(t) && url_serialization(t) == Some(t)
}

/// The URL that a text stands for: its serialization, provided that this is
/// a URL as the library keeps one.
pub open spec fn parse_url(t: Seq<char>) -> Option<Seq<char>> {
    match url_serialization(t) {
        Some(text) => if is_url(text) {
            Some(text)
        } else {
            None
        },
        None => None,
    }
}

/// An absolute URL, held as its serialization.
#[derive(Debug, PartialEq, Eq, Hash, PartialOrd, Ord)]
pub struct Url {
    text: String,
}

impl View for Url {
    type V = Seq<char>;

    closed spec fn view(&self) -> Seq<char> {
        self.text@
    }
}

/// Tests whether a text can stand as one token of a line.
fn check_url_text(text: &str) -> (b: bool)
    ensures
        b == is_url_text(text@),
{
    let mut plain: bool = true;
    let mut first: bool = true;
    let mut start: bool = true;
    for c in it: text.chars()
        invariant
            it.seq() == text@,
            first <==> it.index() == 0,
            plain == is_plain(Charset::Token, text@.take(it.index() as int)),
            start == (it.index() == 0 || is_letter(text@[0])),
    {
        proof {
            let done = text@.take(it.index() as int);
            let next = text@.take(it.index() + 1);
            assert(next == done.push(c));
            if is_plain(Charset::Token, next) {
                assert forall|i: int| 0 <= i < done.len() implies done[i] != '\\'
                    && !Charset::Token.contains(#[trigger] done[i]) by {
                    assert(done[i] == next[i]);
                }
            }
            if !(c != '\\' && !Charset::Token.contains(c)) {
                assert(next[it.index() as int] == c);
            }
        }
        if first {
            start = ('a' <= c && c <= 'z') || ('A' <= c && c <= 'Z');
        }
        first = false;
        plain = plain && c != '\\' && !Charset::Token.has(c);
    }
    assert(text@.take(text@.len() as int) == text@);
    !first && plain && start
}

impl Clone for Url {
    fn clone(&self) -> (r: Self)
        ensures
            r@ == self@,
    {
        Url { text: self.text.clone() }
    }
}

impl Url {
    /// Parses an absolute URL. The text is accepted when it is parsed to a
    /// URL whose serialization can stand as one token of a line and is
    /// parsed to itself.
    pub fn parse(input: &str) -> (r: Result<Url, Error>)
        ensures
            match parse_url(input@) {
                Some(text) => r matches Ok(url) && url@ == text && is_url(url@),
                None => r == Err::<Url, Error>(Error::SyntaxError { rule: Rule::UrlId }),
            },
    {
        match serialize_url(input) {
            Some(text) => {
                let again = serialize_url(text.as_str());
                Url::from_serialization(text, again)
            },
            None => Err(Error::SyntaxError { rule: Rule::UrlId }),
        }
    }

    /// Accepts `text`, the serialization of a URL, given `again`, what the
    /// same text is serialized to when it is parsed in turn: the two must
    /// agree, and the text must be able to stand as one token of a line.
    pub fn from_serialization(text: String, again: Option<String>) -> (r: Result<Url, Error>)
        ensures
            match again {
                Some(other) if other@ == text@ && is_url_text(text@) => r matches Ok(url) && url@
                    == text@,
                _ => r == Err::<Url, Error>(Error::SyntaxError { rule: Rule::UrlId }),
            },
    {
        match again {
            Some(other) => {
                if other == text && check_url_text(text.as_str()) {
                    Ok(Url { text })
                } else {
                    Err(Error::SyntaxError { rule: Rule::UrlId })
                }
            },
            None => Err(Error::SyntaxError { rule: Rule::UrlId }),
        }
    }

    /// Tests whether the URL is one as the library keeps it: a token that
    /// is its own serialization. Every URL that `parse` gives is.
    pub fn is_valid(&self) -> (b: bool)
        ensures
            b == is_url(self@),
    {
        match serialize_url(self.text.as_str()) {
            Some(again) => again == self.text && check_url_text(self.text.as_str()),
            None => false,
        }
    }

    /// The serialization of the URL.
    pub fn as_str(&self) -> (s: &str)
        ensures
            s@ == self@,
    {
        self.text.as_str()
    }

    /// Appends the serialization of the URL to `out`.
    pub fn write(&self, out: &mut Vec<char>)
        ensures
            final(out)@ == old(out)@ + self@,
    {
        push_chars(out, self.text.as_str());
    }

    /// The serialization of the URL.
    pub fn to_string(&self) -> (s: String)
        ensures
            s@ == self@,
    {
        self.text.clone()
    }
}

} // verus!
