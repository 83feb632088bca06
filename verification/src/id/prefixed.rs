//! Prefixed identifiers: a prefix, a colon, a local part.

use crate::error::{Error, Rule};
use crate::id::local::{is_canonical_local, render_local, IdLocal, IdentLocal};
use crate::id::prefix::{is_canonical_prefix, render_prefix, IdPrefix, IdentPrefix};
use crate::order::{compare_text, lemma_text_order, reversed, text_order};
use crate::text::{
    chars_of, escape, is_verbatim, lemma_escape_plain, lemma_scan_escaped, lemma_scan_same_length,
    lemma_scan_verbatim, scan, scan_all, scan_run, string_from, Charset,
};
use std::cmp::Ordering;
use vstd::prelude::*;

verus! {

/// What a prefixed identifier is: the unescaped prefix and local part.
pub struct PrefixedView {
    pub prefix: Seq<char>,
    pub local: Seq<char>,
}

/// Whether a text begins with two slashes. After a colon these mark the
/// authority of a URL, so no local part is written that way.
pub open spec fn starts_with_slashes(t: Seq<char>) -> bool {
    t.len() >= 2 && t[0] == '/' && t[1] == '/'
}

impl PrefixedView {
    /// What can be written and read back: both parts are non-empty, and the
    /// local part does not begin with two slashes.
    pub open spec fn wf(self) -> bool {
        self.prefix.len() > 0 && self.local.len() > 0 && !starts_with_slashes(self.local)
    }

    /// Canonical form: a canonical prefix and a canonical local part.
    pub open spec fn is_canonical(self) -> bool {
        is_canonical_prefix(self.prefix) && is_canonical_local(self.local)
    }
}

/// The text of a prefixed identifier.
pub open spec fn render_prefixed(p: PrefixedView) -> Seq<char> {
    render_prefix(p.prefix) + seq![':'] + render_local(p.local)
}

/// The prefixed identifier that a text stands for: a non-empty prefix up to
/// the first unescaped colon, then a local part that runs to the end of the
/// text, is not empty and does not begin with two slashes.
pub open spec fn parse_prefixed(t: Seq<char>) -> Option<PrefixedView> {
    match scan(Charset::Ident, t) {
        Some((prefix, n)) => {
            if 0 <= n < t.len() && t[n] == ':' && prefix.len() > 0 {
                match scan_all(Charset::Ident, t.skip(n + 1)) {
                    Some(local) => if local.len() > 0 && !starts_with_slashes(local) {
                        Some(PrefixedView { prefix, local })
                    } else {
                        None
                    },
                    None => None,
                }
            } else {
                None
            }
        },
        None => None,
    }
}

/// Writing a prefixed identifier and reading the text back gives the
/// identifier.
pub proof fn lemma_parse_render_prefixed(p: PrefixedView)
    requires
        p.wf(),
    ensures
        parse_prefixed(render_prefixed(p)) == Some(p),
{
    let set = Charset::Ident;
    let head = escape(set, p.prefix);
    let tail = escape(set, p.local);
    let t = render_prefixed(p);
    assert(t == head + (seq![':'] + tail));
    lemma_scan_escaped(set, set, p.prefix, seq![':'] + tail);
    let n = head.len() as int;
    assert(t[n] == ':');
    assert(t.skip(n + 1) == tail);
    assert(tail + Seq::<char>::empty() == tail);
    lemma_scan_escaped(set, set, p.local, Seq::<char>::empty());
}

/// A text in canonical form, read and written again, is unchanged: the
/// parts of a canonical prefixed identifier are written as they are.
pub proof fn lemma_render_canonical_prefixed(p: PrefixedView)
    requires
        p.is_canonical(),
    ensures
        p.wf(),
        render_prefixed(p) == p.prefix + seq![':'] + p.local,
        parse_prefixed(p.prefix + seq![':'] + p.local) == Some(p),
{
    let set = Charset::Ident;
    lemma_escape_plain(set, p.prefix);
    lemma_escape_plain(set, p.local);
    assert(!starts_with_slashes(p.local)) by {
        assert(crate::id::local::is_digit_char(p.local[0]));
    }
    lemma_parse_render_prefixed(p);
}

/// The order of two prefixed identifiers: by prefix, and by local part
/// where the prefixes are the same.
pub open spec fn prefixed_order(a: PrefixedView, b: PrefixedView) -> Ordering {
    match text_order(a.prefix, b.prefix) {
        Ordering::Equal => text_order(a.local, b.local),
        other => other,
    }
}

/// Two prefixed identifiers are in the same place of the order exactly if
/// they are the same, and the order of two is the order of the same two
/// the other way round, turned around.
pub proof fn lemma_prefixed_order(a: PrefixedView, b: PrefixedView)
    ensures
        prefixed_order(a, b) == Ordering::Equal <==> a == b,
        prefixed_order(b, a) == reversed(prefixed_order(a, b)),
{
    lemma_text_order(a.prefix, b.prefix);
    lemma_text_order(a.local, b.local);
}

/// An identifier with a prefix, such as `GO:0046154`.
#[derive(Debug, PartialEq, Eq, Hash, Ord)]
pub struct PrefixedIdent {
    pub prefix: IdentPrefix,
    pub local: IdentLocal,
}

impl View for PrefixedIdent {
    type V = PrefixedView;

    open spec fn view(&self) -> PrefixedView {
        PrefixedView { prefix: self.prefix@, local: self.local@ }
    }
}

impl Clone for PrefixedIdent {
    fn clone(&self) -> (r: Self)
        ensures
            r@ == self@,
    {
        PrefixedIdent { prefix: self.prefix.clone(), local: self.local.clone() }
    }
}

impl PartialOrd for PrefixedIdent {
    fn partial_cmp(&self, other: &Self) -> (r: Option<Ordering>) {
        match compare_text(self.prefix.as_str(), other.prefix.as_str()) {
            Ordering::Equal => Some(compare_text(self.local.as_str(), other.local.as_str())),
            ord => Some(ord),
        }
    }
}

impl vstd::std_specs::cmp::PartialOrdSpecImpl for PrefixedIdent {
    open spec fn obeys_partial_cmp_spec() -> bool {
        true
    }

    open spec fn partial_cmp_spec(&self, other: &Self) -> Option<Ordering> {
        Some(prefixed_order(self@, other@))
    }
}

impl PrefixedIdent {
    /// Makes a prefixed identifier from a prefix and a local part.
    pub fn new(prefix: IdentPrefix, local: IdentLocal) -> (r: Self)
        ensures
            r.prefix == prefix,
            r.local == local,
    {
        PrefixedIdent { prefix, local }
    }

    /// Whether the identifier is in canonical form: the prefix is made of
    /// letters, digits and underscores, and the local part of digits.
    pub fn is_canonical(&self) -> (b: bool)
        ensures
            b == self@.is_canonical(),
    {
        self.prefix.is_canonical() && self.local.is_canonical()
    }

    /// Tests whether the identifier can be written and read back.
    pub fn is_valid(&self) -> (b: bool)
        ensures
            b == self@.wf(),
    {
        let local = chars_of(self.local.as_str());
        let slashes = local.len() >= 2 && local[0] == '/' && local[1] == '/';
        !self.prefix.as_str().is_empty() && local.len() > 0 && !slashes
    }

    /// Appends the text of the identifier to `out`.
    pub fn write(&self, out: &mut Vec<char>)
        ensures
            final(out)@ == old(out)@ + render_prefixed(self@),
    {
        self.prefix.write(out);
        out.push(':');
        self.local.write(out);
        assert(out@ == old(out)@ + render_prefixed(self@));
    }

    /// The text of the identifier: the prefix, a colon and the local part,
    /// each escaped.
    pub fn to_string(&self) -> (s: String)
        ensures
            s@ == render_prefixed(self@),
    {
        let mut out: Vec<char> = Vec::new();
        self.write(&mut out);
        string_from(&out)
    }

    /// Reads the prefixed identifier that `v[from..to]` stands for.
    pub fn from_chars(v: &Vec<char>, from: usize, to: usize) -> (r: Result<Self, Error>)
        requires
            from <= to <= v.len(),
        ensures
            match parse_prefixed(v@.subrange(from as int, to as int)) {
                Some(p) => r matches Ok(id) && id@ == p,
                None => r == Err::<Self, Error>(Error::SyntaxError { rule: Rule::PrefixedId }),
            },
    {
        let ghost t = v@.subrange(from as int, to as int);
        let fail = Err(Error::SyntaxError { rule: Rule::PrefixedId });
        match scan_run(Charset::Ident, v, from, to) {
            Some((prefix, colon)) => {
                if colon >= to || v[colon] != ':' || prefix.len() == 0 {
                    return fail;
                }
                assert(t[colon - from] == ':');
                let start = colon + 1;
                assert(t.skip(colon - from + 1) == v@.subrange(start as int, to as int));
                match scan_run(Charset::Ident, v, start, to) {
                    Some((local, end)) => {
                        let slashes = local.len() >= 2 && local[0] == '/' && local[1] == '/';
                        if end == to && local.len() > 0 && !slashes {
                            Ok(
                                PrefixedIdent {
                                    prefix: IdentPrefix::new(string_from(&prefix)),
                                    local: IdentLocal::new(string_from(&local)),
                                },
                            )
                        } else {
                            fail
                        }
                    },
                    None => fail,
                }
            },
            None => fail,
        }
    }

    /// Reads the prefixed identifier that `s` stands for.
    pub fn from_str(s: &str) -> (r: Result<Self, Error>)
        ensures
            match parse_prefixed(s@) {
                Some(p) => r matches Ok(id) && id@ == p && p.wf(),
                None => r == Err::<Self, Error>(Error::SyntaxError { rule: Rule::PrefixedId }),
            },
    {
        let v = chars_of(s);
        assert(v@.subrange(0, v@.len() as int) == s@);
        Self::from_chars(&v, 0, v.len())
    }
}

impl PrefixedIdent {
    /// A borrowed view of the same identifier.
    pub fn share<'a>(&'a self) -> (r: PrefixedId<'a>)
        ensures
            r@ == self@,
            r.is_borrowed(),
    {
        PrefixedId::new(self.prefix.share(), self.local.share())
    }
}

/// A prefixed identifier whose parts are borrowed where they can be.
#[derive(Debug, PartialEq, Eq, Hash)]
pub struct PrefixedId<'a> {
    prefix: IdPrefix<'a>,
    local: IdLocal<'a>,
}

impl<'a> View for PrefixedId<'a> {
    type V = PrefixedView;

    closed spec fn view(&self) -> PrefixedView {
        PrefixedView { prefix: self.prefix@, local: self.local@ }
    }
}

impl<'a> Clone for PrefixedId<'a> {
    fn clone(&self) -> (r: Self)
        ensures
            r@ == self@,
            r.is_borrowed() == self.is_borrowed(),
    {
        PrefixedId { prefix: self.prefix.clone(), local: self.local.clone() }
    }
}

impl<'a> PrefixedId<'a> {
    /// Whether both parts are borrowed rather than owned.
    pub closed spec fn is_borrowed(&self) -> bool {
        self.prefix.is_borrowed() && self.local.is_borrowed()
    }

    /// Makes a prefixed identifier from the views of a prefix and of a
    /// local part.
    pub fn new(prefix: IdPrefix<'a>, local: IdLocal<'a>) -> (r: Self)
        ensures
            r@ == (PrefixedView { prefix: prefix@, local: local@ }),
            r.is_borrowed() == (prefix.is_borrowed() && local.is_borrowed()),
    {
        PrefixedId { prefix, local }
    }

    /// The prefix.
    pub fn prefix(&self) -> (r: &IdPrefix<'a>)
        ensures
            r@ == self@.prefix,
    {
        &self.prefix
    }

    /// The local part.
    pub fn local(&self) -> (r: &IdLocal<'a>)
        ensures
            r@ == self@.local,
    {
        &self.local
    }

    /// An owned copy of the identifier.
    pub fn redeem(&self) -> (r: PrefixedIdent)
        ensures
            r@ == self@,
    {
        PrefixedIdent::new(self.prefix.redeem(), self.local.redeem())
    }

    /// Appends the text of the identifier to `out`.
    pub fn write(&self, out: &mut Vec<char>)
        ensures
            final(out)@ == old(out)@ + render_prefixed(self@),
    {
        self.prefix.write(out);
        out.push(':');
        self.local.write(out);
        assert(out@ == old(out)@ + render_prefixed(self@));
    }

    /// The text of the identifier: the prefix, a colon and the local part,
    /// each escaped.
    pub fn to_string(&self) -> (s: String)
        ensures
            s@ == render_prefixed(self@),
    {
        let mut out: Vec<char> = Vec::new();
        self.write(&mut out);
        string_from(&out)
    }

    /// Reads the prefixed identifier that `s` stands for, without copying
    /// the parts that hold no escape.
    pub fn from_str(s: &'a str) -> (r: Result<Self, Error>)
        ensures
            match parse_prefixed(s@) {
                Some(p) => r matches Ok(id) && id@ == p && (is_verbatim(s@) ==> id.is_borrowed()),
                None => r == Err::<Self, Error>(Error::SyntaxError { rule: Rule::PrefixedId }),
            },
    {
        let v = chars_of(s);
        let n = v.len();
        assert(v@.subrange(0, n as int) == s@);
        let fail = Err(Error::SyntaxError { rule: Rule::PrefixedId });
        match scan_run(Charset::Ident, &v, 0, n) {
            Some((prefix, colon)) => {
                if colon >= n || v[colon] != ':' || prefix.len() == 0 {
                    return fail;
                }
                let start = colon + 1;
                let ghost rest = s@.skip(start as int);
                assert(rest == v@.subrange(start as int, n as int));
                match scan_run(Charset::Ident, &v, start, n) {
                    Some((local, end)) => {
                        let slashes = local.len() >= 2 && local[0] == '/' && local[1] == '/';
                        if end != n || local.len() == 0 || slashes {
                            return fail;
                        }
                        proof {
                            lemma_scan_same_length(Charset::Ident, s@);
                            lemma_scan_same_length(Charset::Ident, rest);
                            assert(rest.take(rest.len() as int) == rest);
                            if is_verbatim(s@) {
                                lemma_scan_verbatim(Charset::Ident, s@);
                                assert forall|i: int| 0 <= i < rest.len() implies #[trigger] rest[i]
                                    != '\\' by {
                                    assert(rest[i] == s@[i + start]);
                                }
                                lemma_scan_verbatim(Charset::Ident, rest);
                            }
                        }
                        let head = if prefix.len() == colon {
                            IdPrefix::new(s.substring_char(0, colon))
                        } else {
                            IdPrefix::from_owned(string_from(&prefix))
                        };
                        let tail = if local.len() == n - start {
                            IdLocal::new(s.substring_char(start, n))
                        } else {
                            IdLocal::from_owned(string_from(&local))
                        };
                        Ok(PrefixedId { prefix: head, local: tail })
                    },
                    None => fail,
                }
            },
            None => fail,
        }
    }
}

} // verus!
