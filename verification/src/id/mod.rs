//! Identifiers: prefixed, unprefixed, or an absolute URL.
//!
//! A text is read as the first kind that it fits, in this order: prefixed,
//! unprefixed, URL.

pub mod local;
pub mod prefix;
pub mod prefixed;
pub mod subclasses;
pub mod unprefixed;
pub mod url;

pub use self::local::{IdLocal, IdentLocal};
pub use self::prefix::{IdPrefix, IdentPrefix};
pub use self::prefixed::{PrefixedId, PrefixedIdent};
pub use self::subclasses::{
    ClassIdent, InstanceIdent, NamespaceIdent, RelationId, RelationIdent, SubsetIdent,
    SynonymTypeIdent,
};
pub use self::unprefixed::{UnprefixedId, UnprefixedIdent};
pub use self::url::Url;

use crate::error::{Error, Rule};
use crate::id::local::is_digit_char;
use crate::id::prefix::is_word_char;
use crate::id::prefixed::{
    lemma_parse_render_prefixed, lemma_prefixed_order, lemma_render_canonical_prefixed,
    parse_prefixed, prefixed_order, render_prefixed, PrefixedView,
};
use crate::id::unprefixed::{is_canonical_unprefixed, parse_unprefixed, render_unprefixed};
use crate::id::url::{is_url, parse_url};
use crate::order::{compare_text, lemma_text_order, reversed, text_order};
use crate::text::{
    chars_of, check_plain, escape, is_one_line, is_plain, is_verbatim, lemma_escape_first,
    lemma_escape_one_line, lemma_escape_plain, lemma_one_line_concat, lemma_plain_within,
    lemma_scan_escaped, lemma_scan_plain_through, lemma_scan_through, lemma_scan_verbatim,
    len_after, scan, scan_len, string_from, string_of, Charset,
};
use std::cmp::Ordering;
use vstd::prelude::*;

verus! {

/// What an identifier is: one of three kinds, with its unescaped parts.
pub enum IdentView {
    Prefixed(PrefixedView),
    Unprefixed(Seq<char>),
    Url(Seq<char>),
}

impl IdentView {
    /// Canonical form: a prefixed identifier with a canonical prefix and a
    /// canonical local part, an unprefixed identifier made of letters,
    /// digits and underscores, or any URL.
    pub open spec fn is_canonical(self) -> bool {
        match self {
            IdentView::Prefixed(p) => p.is_canonical(),
            IdentView::Unprefixed(u) => is_canonical_unprefixed(u),
            IdentView::Url(_) => true,
        }
    }

    /// What can be written and read back as the same kind: a prefixed
    /// identifier with non-empty parts, a non-empty unprefixed identifier,
    /// or a URL whose text is read neither as prefixed nor as unprefixed.
    pub open spec fn wf(self) -> bool {
        match self {
            IdentView::Prefixed(p) => p.wf(),
            IdentView::Unprefixed(u) => u.len() > 0,
            IdentView::Url(t) => is_url(t) && parse_prefixed(t) is None && parse_unprefixed(t)
                is None,
        }
    }
}

/// The text of an identifier.
pub open spec fn render_ident(id: IdentView) -> Seq<char> {
    match id {
        IdentView::Prefixed(p) => render_prefixed(p),
        IdentView::Unprefixed(u) => render_unprefixed(u),
        IdentView::Url(t) => t,
    }
}

/// The URL identifier that a text stands for: the text holds no backslash,
/// blank, line break or double quote, and is a URL whose serialization is
/// itself read neither as prefixed nor as unprefixed.
pub open spec fn parse_url_ident(t: Seq<char>) -> Option<Seq<char>> {
    if is_plain(Charset::Token, t) {
        match parse_url(t) {
            Some(text) => if parse_prefixed(text) is None && parse_unprefixed(text) is None {
                Some(text)
            } else {
                None
            },
            None => None,
        }
    } else {
        None
    }
}

/// The identifier that a text stands for: the first of prefixed, unprefixed
/// and URL that the whole text fits.
pub open spec fn parse_ident(t: Seq<char>) -> Option<IdentView> {
    match parse_prefixed(t) {
        Some(p) => Some(IdentView::Prefixed(p)),
        None => match parse_unprefixed(t) {
            Some(u) => Some(IdentView::Unprefixed(u)),
            None => match parse_url_ident(t) {
                Some(text) => Some(IdentView::Url(text)),
                None => None,
            },
        },
    }
}

/// A prefixed text is never read as unprefixed, nor an unprefixed text as
/// prefixed: the first unescaped colon decides.
pub proof fn lemma_kinds_disjoint(t: Seq<char>)
    ensures
        !(parse_prefixed(t) is Some && parse_unprefixed(t) is Some),
{
}

/// Writing an identifier and reading the text back gives the identifier.
pub proof fn lemma_parse_render_ident(id: IdentView)
    requires
        id.wf(),
    ensures
        parse_ident(render_ident(id)) == Some(id),
{
    match id {
        IdentView::Prefixed(p) => {
            lemma_parse_render_prefixed(p);
        },
        IdentView::Unprefixed(u) => {
            lemma_scan_escaped(Charset::Ident, Charset::Ident, u, Seq::<char>::empty());
            assert(escape(Charset::Ident, u) + Seq::<char>::empty() == escape(Charset::Ident, u));
        },
        IdentView::Url(t) => {},
    }
}

/// What is read from a text can be written and read back.
pub proof fn lemma_parsed_ident_wf(t: Seq<char>)
    ensures
        parse_ident(t) matches Some(id) ==> id.wf(),
{
}

/// Whether a text is an identifier in canonical form: written without
/// escapes and, where it is read as a URL, in the serialized form of that
/// URL.
pub open spec fn is_canonical_text(t: Seq<char>) -> bool {
    is_verbatim(t) && match parse_ident(t) {
        Some(IdentView::Url(text)) => text == t,
        Some(_) => true,
        None => false,
    }
}

/// Reading an identifier in canonical form and writing it again gives the
/// text that was read.
pub proof fn lemma_render_parse_ident(t: Seq<char>)
    requires
        is_canonical_text(t),
    ensures
        parse_ident(t) matches Some(id) && render_ident(id) == t,
{
    let set = Charset::Ident;
    lemma_scan_verbatim(set, t);
    let (head, n) = scan(set, t).unwrap();
    lemma_escape_plain(set, head);
    match parse_ident(t).unwrap() {
        IdentView::Prefixed(p) => {
            let rest = t.skip(n + 1);
            assert forall|i: int| 0 <= i < rest.len() implies #[trigger] rest[i] != '\\' by {
                assert(rest[i] == t[i + n + 1]);
            }
            lemma_scan_verbatim(set, rest);
            assert(rest.take(rest.len() as int) == rest);
            lemma_escape_plain(set, p.local);
            assert(t.take(n) + seq![':'] + rest == t);
        },
        IdentView::Unprefixed(u) => {
            assert(t.take(t.len() as int) == t);
        },
        IdentView::Url(text) => {},
    }
}

/// A prefixed identifier in canonical form is written as a text in
/// canonical form: its parts as they are, with a colon between them.
pub proof fn lemma_canonical_prefixed_text(p: PrefixedView)
    requires
        p.is_canonical(),
    ensures
        render_prefixed(p) == p.prefix + seq![':'] + p.local,
        is_canonical_text(render_prefixed(p)),
        parse_ident(render_prefixed(p)) == Some(IdentView::Prefixed(p)),
{
    lemma_render_canonical_prefixed(p);
    let t = p.prefix + seq![':'] + p.local;
    assert forall|i: int| 0 <= i < t.len() implies #[trigger] t[i] != '\\' by {
        if i < p.prefix.len() {
            assert(is_word_char(p.prefix[i]));
        } else if i > p.prefix.len() {
            assert(is_digit_char(p.local[i - p.prefix.len() - 1]));
        }
    }
}

/// The order of two identifiers: prefixed identifiers come before
/// unprefixed ones, and these before URLs; two of one kind are in the order
/// of their parts.
pub open spec fn ident_order(a: IdentView, b: IdentView) -> Ordering {
    match (a, b) {
        (IdentView::Prefixed(x), IdentView::Prefixed(y)) => prefixed_order(x, y),
        (IdentView::Prefixed(_), _) => Ordering::Less,
        (IdentView::Unprefixed(_), IdentView::Prefixed(_)) => Ordering::Greater,
        (IdentView::Unprefixed(x), IdentView::Unprefixed(y)) => text_order(x, y),
        (IdentView::Unprefixed(_), IdentView::Url(_)) => Ordering::Less,
        (IdentView::Url(x), IdentView::Url(y)) => text_order(x, y),
        (IdentView::Url(_), _) => Ordering::Greater,
    }
}

/// Two identifiers are in the same place of the order exactly if they are
/// the same, and the order of two is the order of the same two the other
/// way round, turned around.
pub proof fn lemma_ident_order(a: IdentView, b: IdentView)
    ensures
        ident_order(a, b) == Ordering::Equal <==> a == b,
        ident_order(b, a) == reversed(ident_order(a, b)),
{
    match (a, b) {
        (IdentView::Prefixed(x), IdentView::Prefixed(y)) => {
            lemma_prefixed_order(x, y);
        },
        (IdentView::Unprefixed(x), IdentView::Unprefixed(y)) => {
            lemma_text_order(x, y);
        },
        (IdentView::Url(x), IdentView::Url(y)) => {
            lemma_text_order(x, y);
        },
        _ => {},
    }
}

/// A written identifier begins with a backslash or with a character that
/// is not reserved in identifiers.
pub proof fn lemma_ident_first(id: IdentView)
    requires
        id.wf(),
    ensures
        render_ident(id).len() > 0,
        render_ident(id)[0] == '\\' || !Charset::Ident.contains(render_ident(id)[0]),
{
    match id {
        IdentView::Prefixed(p) => {
            lemma_escape_first(Charset::Ident, p.prefix);
        },
        IdentView::Unprefixed(u) => {
            lemma_escape_first(Charset::Ident, u);
        },
        IdentView::Url(t) => {},
    }
}

/// Whether an identifier is written without any unescaped character of
/// `stop`: an escaped identifier is, where its escapes cover `stop`; a URL
/// is where it holds none.
pub open spec fn avoids(id: IdentView, stop: Charset) -> bool {
    &&& stop.within(Charset::Ident)
    &&& !stop.contains(':')
    &&& id matches IdentView::Url(t) ==> is_plain(stop, t)
}

/// A written identifier holds no unescaped blank, line break or double
/// quote.
pub proof fn lemma_avoids_token(id: IdentView, stop: Charset)
    requires
        id.wf(),
        stop.within(Charset::Token),
    ensures
        avoids(id, stop),
{
    assert(stop.within(Charset::Ident)) by {
        assert forall|c: char| stop.contains(c) implies Charset::Ident.contains(c) by {
            assert(Charset::Token.contains(c));
        }
    }
    if stop.contains(':') {
        assert(Charset::Token.contains(':'));
    }
    if let IdentView::Url(t) = id {
        lemma_plain_within(stop, Charset::Token, t);
    }
}

/// Reading up to a stop character goes through a written identifier that
/// holds none, and on into what follows it.
pub proof fn lemma_scan_through_ident(stop: Charset, id: IdentView, rest: Seq<char>)
    requires
        id.wf(),
        avoids(id, stop),
    ensures
        scan_len(stop, render_ident(id) + rest) == len_after(
            render_ident(id).len() as int,
            scan_len(stop, rest),
        ),
{
    let set = Charset::Ident;
    match id {
        IdentView::Prefixed(p) => {
            let head = escape(set, p.prefix);
            let tail = escape(set, p.local);
            let after = seq![':'] + (tail + rest);
            assert(render_ident(id) + rest == head + after);
            lemma_scan_through(stop, set, p.prefix, after);
            assert(after.skip(1) == tail + rest);
            lemma_scan_through(stop, set, p.local, rest);
        },
        IdentView::Unprefixed(u) => {
            lemma_scan_through(stop, set, u, rest);
        },
        IdentView::Url(t) => {
            lemma_scan_plain_through(stop, t, rest);
        },
    }
}

/// A written identifier holds no line feed.
pub proof fn lemma_ident_one_line(id: IdentView)
    requires
        id.wf(),
    ensures
        is_one_line(render_ident(id)),
{
    let set = Charset::Ident;
    match id {
        IdentView::Prefixed(p) => {
            lemma_escape_one_line(set, p.prefix);
            lemma_escape_one_line(set, p.local);
            lemma_one_line_concat(escape(set, p.prefix), seq![':']);
            lemma_one_line_concat(escape(set, p.prefix) + seq![':'], escape(set, p.local));
        },
        IdentView::Unprefixed(u) => {
            lemma_escape_one_line(set, u);
        },
        IdentView::Url(t) => {},
    }
}

/// An identifier: prefixed, unprefixed, or an absolute URL.
#[derive(Debug, PartialEq, Eq, Hash, Ord)]
pub enum Ident {
    Prefixed(PrefixedIdent),
    Unprefixed(UnprefixedIdent),
    Url(Url),
}

impl View for Ident {
    type V = IdentView;

    open spec fn view(&self) -> IdentView {
        match self {
            Ident::Prefixed(p) => IdentView::Prefixed(p@),
            Ident::Unprefixed(u) => IdentView::Unprefixed(u@),
            Ident::Url(url) => IdentView::Url(url@),
        }
    }
}

impl Clone for Ident {
    fn clone(&self) -> (r: Self)
        ensures
            r@ == self@,
    {
        match self {
            Ident::Prefixed(p) => Ident::Prefixed(p.clone()),
            Ident::Unprefixed(u) => Ident::Unprefixed(u.clone()),
            Ident::Url(url) => Ident::Url(url.clone()),
        }
    }
}

impl PartialOrd for Ident {
    fn partial_cmp(&self, other: &Self) -> (r: Option<Ordering>) {
        match (self, other) {
            (Ident::Prefixed(x), Ident::Prefixed(y)) => x.partial_cmp(y),
            (Ident::Prefixed(_), _) => Some(Ordering::Less),
            (Ident::Unprefixed(_), Ident::Prefixed(_)) => Some(Ordering::Greater),
            (Ident::Unprefixed(x), Ident::Unprefixed(y)) => Some(
                compare_text(x.as_str(), y.as_str()),
            ),
            (Ident::Unprefixed(_), Ident::Url(_)) => Some(Ordering::Less),
            (Ident::Url(x), Ident::Url(y)) => Some(compare_text(x.as_str(), y.as_str())),
            (Ident::Url(_), _) => Some(Ordering::Greater),
        }
    }
}

impl vstd::std_specs::cmp::PartialOrdSpecImpl for Ident {
    open spec fn obeys_partial_cmp_spec() -> bool {
        true
    }

    open spec fn partial_cmp_spec(&self, other: &Self) -> Option<Ordering> {
        Some(ident_order(self@, other@))
    }
}

impl Ident {
    /// The error that reading an identifier fails with.
    pub open spec fn parse_error() -> Error {
        Error::SyntaxError { rule: Rule::Id }
    }

    /// Whether the identifier is in canonical form.
    pub fn is_canonical(&self) -> (b: bool)
        ensures
            b == self@.is_canonical(),
    {
        match self {
            Ident::Prefixed(p) => p.is_canonical(),
            Ident::Unprefixed(u) => u.is_canonical(),
            Ident::Url(_) => true,
        }
    }

    /// Tests whether the identifier can be written and read back as the
    /// same kind. Every identifier that `from_str` gives can.
    pub fn is_valid(&self) -> (b: bool)
        ensures
            b == self@.wf(),
    {
        match self {
            Ident::Prefixed(p) => p.is_valid(),
            Ident::Unprefixed(u) => !u.as_str().is_empty(),
            Ident::Url(url) => {
                let text = chars_of(url.as_str());
                assert(text@.subrange(0, text@.len() as int) == text@);
                url.is_valid() && PrefixedIdent::from_chars(&text, 0, text.len()).is_err()
                    && UnprefixedIdent::from_chars(&text, 0, text.len()).is_err()
            },
        }
    }

    /// Appends the text of the identifier to `out`.
    pub fn write(&self, out: &mut Vec<char>)
        ensures
            final(out)@ == old(out)@ + render_ident(self@),
    {
        match self {
            Ident::Prefixed(p) => p.write(out),
            Ident::Unprefixed(u) => u.write(out),
            Ident::Url(url) => url.write(out),
        }
    }

    /// The text of the identifier.
    pub fn to_string(&self) -> (s: String)
        ensures
            s@ == render_ident(self@),
    {
        let mut out: Vec<char> = Vec::new();
        self.write(&mut out);
        string_from(&out)
    }

    /// Reads the identifier that `v[from..to]` stands for.
    pub fn from_chars(v: &Vec<char>, from: usize, to: usize) -> (r: Result<Self, Error>)
        requires
            from <= to <= v.len(),
        ensures
            match parse_ident(v@.subrange(from as int, to as int)) {
                Some(id) => r matches Ok(found) && found@ == id && id.wf(),
                None => r == Err::<Self, Error>(Error::SyntaxError { rule: Rule::Id }),
            },
    {
        if let Ok(p) = PrefixedIdent::from_chars(v, from, to) {
            return Ok(Ident::Prefixed(p));
        }
        if let Ok(u) = UnprefixedIdent::from_chars(v, from, to) {
            return Ok(Ident::Unprefixed(u));
        }
        let token = string_of(v, from, to);
        if !check_plain(Charset::Token, token.as_str()) {
            return Err(Error::SyntaxError { rule: Rule::Id });
        }
        match Url::parse(token.as_str()) {
            Ok(url) => Ident::from_url(url),
            Err(_) => Err(Error::SyntaxError { rule: Rule::Id }),
        }
    }

    /// The identifier that a URL is. A URL whose text is read as a prefixed
    /// or as an unprefixed identifier is none: written, it would be read
    /// as that.
    pub fn from_url(url: Url) -> (r: Result<Self, Error>)
        ensures
            match r {
                Ok(id) => id == Ident::Url(url) && parse_prefixed(url@) is None
                    && parse_unprefixed(url@) is None,
                Err(e) => e == Self::parse_error() && !(parse_prefixed(url@) is None
                    && parse_unprefixed(url@) is None),
            },
    {
        let text = chars_of(url.as_str());
        assert(text@.subrange(0, text@.len() as int) == text@);
        if PrefixedIdent::from_chars(&text, 0, text.len()).is_err() && UnprefixedIdent::from_chars(
            &text,
            0,
            text.len(),
        ).is_err() {
            Ok(Ident::Url(url))
        } else {
            Err(Error::SyntaxError { rule: Rule::Id })
        }
    }

    /// Reads the identifier that `s` stands for.
    pub fn from_str(s: &str) -> (r: Result<Self, Error>)
        ensures
            match parse_ident(s@) {
                Some(id) => r matches Ok(found) && found@ == id && id.wf(),
                None => r == Err::<Self, Error>(Error::SyntaxError { rule: Rule::Id }),
            },
    {
        let v = chars_of(s);
        assert(v@.subrange(0, v@.len() as int) == s@);
        Self::from_chars(&v, 0, v.len())
    }
}

impl Ident {
    /// A borrowed view of the same identifier.
    pub fn share<'a>(&'a self) -> (r: Id<'a>)
        ensures
            r@ == self@,
    {
        match self {
            Ident::Prefixed(p) => Id::Prefixed(p.share()),
            Ident::Unprefixed(u) => Id::Unprefixed(u.share()),
            Ident::Url(url) => Id::Url(url),
        }
    }
}

/// An identifier whose parts are borrowed where they can be.
#[derive(Debug, PartialEq, Eq, Hash)]
pub enum Id<'a> {
    Prefixed(PrefixedId<'a>),
    Unprefixed(UnprefixedId<'a>),
    Url(&'a Url),
}

impl<'a> View for Id<'a> {
    type V = IdentView;

    open spec fn view(&self) -> IdentView {
        match self {
            Id::Prefixed(p) => IdentView::Prefixed(p@),
            Id::Unprefixed(u) => IdentView::Unprefixed(u@),
            Id::Url(url) => IdentView::Url(url@),
        }
    }
}

impl<'a> Clone for Id<'a> {
    fn clone(&self) -> (r: Self)
        ensures
            r@ == self@,
    {
        match self {
            Id::Prefixed(p) => Id::Prefixed(p.clone()),
            Id::Unprefixed(u) => Id::Unprefixed(u.clone()),
            Id::Url(url) => Id::Url(url),
        }
    }
}

impl<'a> Id<'a> {
    /// An owned copy of the identifier.
    pub fn redeem(&self) -> (r: Ident)
        ensures
            r@ == self@,
    {
        match self {
            Id::Prefixed(p) => Ident::Prefixed(p.redeem()),
            Id::Unprefixed(u) => Ident::Unprefixed(u.redeem()),
            Id::Url(url) => Ident::Url((*url).clone()),
        }
    }

    /// Appends the text of the identifier to `out`.
    pub fn write(&self, out: &mut Vec<char>)
        ensures
            final(out)@ == old(out)@ + render_ident(self@),
    {
        match self {
            Id::Prefixed(p) => p.write(out),
            Id::Unprefixed(u) => u.write(out),
            Id::Url(url) => url.write(out),
        }
    }

    /// The text of the identifier.
    pub fn to_string(&self) -> (s: String)
        ensures
            s@ == render_ident(self@),
    {
        let mut out: Vec<char> = Vec::new();
        self.write(&mut out);
        string_from(&out)
    }
}

impl From<PrefixedIdent> for Ident {
    fn from(id: PrefixedIdent) -> (r: Self) {
        Ident::Prefixed(id)
    }
}

impl vstd::std_specs::convert::FromSpecImpl<PrefixedIdent> for Ident {
    open spec fn obeys_from_spec() -> bool {
        true
    }

    open spec fn from_spec(id: PrefixedIdent) -> Self {
        Ident::Prefixed(id)
    }
}

impl From<UnprefixedIdent> for Ident {
    fn from(id: UnprefixedIdent) -> (r: Self) {
        Ident::Unprefixed(id)
    }
}

impl vstd::std_specs::convert::FromSpecImpl<UnprefixedIdent> for Ident {
    open spec fn obeys_from_spec() -> bool {
        true
    }

    open spec fn from_spec(id: UnprefixedIdent) -> Self {
        Ident::Unprefixed(id)
    }
}

impl From<Url> for Ident {
    fn from(url: Url) -> (r: Self) {
        Ident::Url(url)
    }
}

impl vstd::std_specs::convert::FromSpecImpl<Url> for Ident {
    open spec fn obeys_from_spec() -> bool {
        true
    }

    open spec fn from_spec(url: Url) -> Self {
        Ident::Url(url)
    }
}

} // verus!
