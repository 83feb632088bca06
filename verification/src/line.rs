//! Clause lines: a tag, a value, and what stands behind the value.
//!
//! ```text
//! tag: value {key="text", key="text"} ! comment
//! ```

use crate::text::{is_one_line, lemma_escape_one_line, lemma_one_line_concat, Charset};
use crate::token::lemma_tokens_one_line;
use crate::trailer::{lemma_trailer_one_line, render_trailer, Qualifier, Trailer, TrailerView};
use crate::value::{render_value, ValueView};
use vstd::prelude::*;

verus! {

/// What a line is: what it holds, and what stands behind that.
pub struct LineView<V> {
    pub inner: V,
    pub trailer: TrailerView,
}

/// A value together with what stands behind it on its line: the qualifiers
/// and the comment.
#[derive(Debug, PartialEq, Eq, Hash)]
pub struct Line<T> {
    pub inner: T,
    pub trailer: Trailer,
}

impl<T: View> View for Line<T> {
    type V = LineView<T::V>;

    open spec fn view(&self) -> LineView<T::V> {
        LineView { inner: self.inner@, trailer: self.trailer@ }
    }
}

impl<T: Clone> Clone for Line<T> {
    fn clone(&self) -> (r: Self)
        ensures
            r.trailer@ == self.trailer@,
            call_ensures(T::clone, (&self.inner,), r.inner),
    {
        Line { inner: self.inner.clone(), trailer: self.trailer.clone() }
    }
}

impl<T> Line<T> {
    /// A line that holds `inner` and nothing behind it.
    pub fn new(inner: T) -> (r: Self)
        ensures
            r.inner == inner,
            r.trailer@ == TrailerView::none(),
    {
        Line { inner, trailer: Trailer::none() }
    }

    /// A line that holds `inner` and, behind it, `trailer`.
    pub fn with_trailer(inner: T, trailer: Trailer) -> (r: Self)
        ensures
            r.inner == inner,
            r.trailer == trailer,
    {
        Line { inner, trailer }
    }

    /// The same line with qualifiers behind what it holds.
    pub fn and_qualifiers(self, qualifiers: Vec<Qualifier>) -> (r: Self)
        ensures
            r.inner == self.inner,
            r.trailer.qualifiers == Some(qualifiers),
            r.trailer.comment == self.trailer.comment,
    {
        Line {
            inner: self.inner,
            trailer: Trailer { qualifiers: Some(qualifiers), comment: self.trailer.comment },
        }
    }

    /// The same line with a comment at its end.
    pub fn and_comment(self, comment: String) -> (r: Self)
        ensures
            r.inner == self.inner,
            r.trailer.qualifiers == self.trailer.qualifiers,
            r.trailer.comment == Some(comment),
    {
        Line {
            inner: self.inner,
            trailer: Trailer { qualifiers: self.trailer.qualifiers, comment: Some(comment) },
        }
    }

    /// The same line around another value.
    pub fn and_inner<U>(self, inner: U) -> (r: Line<U>)
        ensures
            r.inner == inner,
            r.trailer == self.trailer,
    {
        Line { inner, trailer: self.trailer }
    }

    /// What the line holds.
    pub fn as_inner(&self) -> (r: &T)
        ensures
            *r == self.inner,
    {
        &self.inner
    }

    /// What the line holds, without the line.
    pub fn into_inner(self) -> (r: T)
        ensures
            r == self.inner,
    {
        self.inner
    }

    /// The qualifiers of the line.
    pub fn qualifiers(&self) -> (r: &Option<Vec<Qualifier>>)
        ensures
            *r == self.trailer.qualifiers,
    {
        &self.trailer.qualifiers
    }

    /// The comment of the line.
    pub fn comment(&self) -> (r: &Option<String>)
        ensures
            *r == self.trailer.comment,
    {
        &self.trailer.comment
    }
}

impl<T> From<T> for Line<T> {
    fn from(inner: T) -> (r: Self) {
        Line { inner, trailer: Trailer { qualifiers: None, comment: None } }
    }
}

impl<T> vstd::std_specs::convert::FromSpecImpl<T> for Line<T> {
    open spec fn obeys_from_spec() -> bool {
        true
    }

    open spec fn from_spec(inner: T) -> Self {
        Line { inner, trailer: Trailer { qualifiers: None, comment: None } }
    }
}

/// Letter, digit, underscore or hyphen: the characters of a tag.
pub open spec fn is_tag_char(c: char) -> bool {
    ('a' <= c <= 'z') || ('A' <= c <= 'Z') || ('0' <= c <= '9') || c == '_' || c == '-'
}

/// Whether a text can be a tag: it is not empty and made of tag characters.
pub open spec fn is_tag(t: Seq<char>) -> bool {
    t.len() > 0 && forall|i: int| 0 <= i < t.len() ==> is_tag_char(#[trigger] t[i])
}

/// The number of tag characters at the start of `s`.
pub open spec fn tag_len(s: Seq<char>) -> int
    decreases s.len(),
{
    if s.len() > 0 && is_tag_char(s[0]) {
        1 + tag_len(s.skip(1))
    } else {
        0
    }
}

/// Reads the tag at the start of a line: one or more tag characters, then a
/// colon and a space. Gives the tag and the position at which the value
/// begins.
pub open spec fn parse_tag(s: Seq<char>) -> Option<(Seq<char>, int)> {
    let k = tag_len(s);
    if 0 < k && k + 1 < s.len() && s[k] == ':' && s[k + 1] == ' ' {
        Some((s.take(k), k + 2))
    } else {
        None
    }
}

/// The tag characters at the start of a text are within the text.
pub proof fn lemma_tag_len_bounds(s: Seq<char>)
    ensures
        0 <= tag_len(s) <= s.len(),
        is_tag(s.take(tag_len(s))) || tag_len(s) == 0,
        tag_len(s) < s.len() ==> !is_tag_char(s[tag_len(s)]),
    decreases s.len(),
{
    if s.len() > 0 && is_tag_char(s[0]) {
        let rest = s.skip(1);
        lemma_tag_len_bounds(rest);
        let k = tag_len(s);
        assert forall|i: int| 0 <= i < k implies is_tag_char(#[trigger] s.take(k)[i]) by {
            if i > 0 {
                assert(s.take(k)[i] == rest.take(k - 1)[i - 1]);
            }
        }
    }
}

/// A tag in front of something that is no tag character is counted whole.
pub proof fn lemma_tag_len(tag: Seq<char>, rest: Seq<char>)
    requires
        forall|i: int| 0 <= i < tag.len() ==> is_tag_char(#[trigger] tag[i]),
        rest.len() > 0 ==> !is_tag_char(rest[0]),
    ensures
        tag_len(tag + rest) == tag.len(),
    decreases tag.len(),
{
    let s = tag + rest;
    if tag.len() > 0 {
        assert(s[0] == tag[0]);
        assert(s.skip(1) == tag.skip(1) + rest);
        lemma_tag_len(tag.skip(1), rest);
    } else {
        assert(s == rest);
    }
}

/// Reading the tag of a written line gives the tag.
pub proof fn lemma_parse_render_tag(tag: Seq<char>, rest: Seq<char>)
    requires
        is_tag(tag),
    ensures
        parse_tag(tag + seq![':', ' '] + rest) == Some((tag, tag.len() as int + 2)),
{
    let s = tag + seq![':', ' '] + rest;
    assert(s == tag + (seq![':', ' '] + rest));
    lemma_tag_len(tag, seq![':', ' '] + rest);
    assert(s.take(tag.len() as int) == tag);
}

/// Tests whether `c` is a tag character.
pub fn is_tag_char_exec(c: char) -> (b: bool)
    ensures
        b == is_tag_char(c),
{
    ('a' <= c && c <= 'z') || ('A' <= c && c <= 'Z') || ('0' <= c && c <= '9') || c == '_' || c
        == '-'
}

/// Reads the tag at the start of `v[from..to]`: gives the position of the
/// colon behind it.
pub fn read_tag(v: &Vec<char>, from: usize, to: usize) -> (r: Option<usize>)
    requires
        from <= to <= v.len(),
    ensures
        match parse_tag(v@.subrange(from as int, to as int)) {
            Some((tag, n)) => r matches Some(colon) && from < colon && colon + 2 <= to && colon
                - from == tag.len() && n == tag.len() + 2 && tag == v@.subrange(
                from as int,
                colon as int,
            ) && is_tag(tag),
            None => r is None,
        },
{
    let ghost s = v@.subrange(from as int, to as int);
    let mut i: usize = from;
    proof {
        assert(s.skip(0) == s);
    }
    while i < to && is_tag_char_exec(v[i])
        invariant
            from <= i <= to <= v.len(),
            s == v@.subrange(from as int, to as int),
            tag_len(s) == (i - from) + tag_len(s.skip(i - from)),
        decreases to - i,
    {
        proof {
            let here = s.skip(i - from);
            assert(here[0] == v@[i as int]);
            assert(here.skip(1) == s.skip(i - from + 1));
        }
        i = i + 1;
    }
    proof {
        let here = s.skip(i - from);
        if i < to {
            assert(here[0] == v@[i as int]);
        }
        assert(tag_len(here) == 0);
        lemma_tag_len_bounds(s);
        assert(s.take(i - from) == v@.subrange(from as int, i as int));
    }
    if i > from && to - i >= 2 && v[i] == ':' && v[i + 1] == ' ' {
        Some(i)
    } else {
        None
    }
}

/// Tests whether a text can be a tag.
pub fn check_tag(v: &Vec<char>) -> (b: bool)
    ensures
        b == is_tag(v@),
{
    let mut i: usize = 0;
    while i < v.len()
        invariant
            i <= v.len(),
            forall|j: int| 0 <= j < i ==> is_tag_char(#[trigger] v@[j]),
        decreases v.len() - i,
    {
        if !is_tag_char_exec(v[i]) {
            return false;
        }
        i = i + 1;
    }
    v.len() > 0
}

/// What a clause is: a tag and a value.
pub struct ClauseView {
    pub tag: Seq<char>,
    pub value: ValueView,
}

/// The text of a clause line: tag, colon, space, value, and what stands
/// behind the value.
pub open spec fn render_clause_line(l: LineView<ClauseView>) -> Seq<char> {
    l.inner.tag + seq![':', ' '] + render_value(l.inner.value) + render_trailer(l.trailer)
}

/// What can be written and read back as a clause line.
pub open spec fn clause_line_wf(l: LineView<ClauseView>) -> bool {
    is_tag(l.inner.tag) && l.inner.value.wf() && l.trailer.wf()
}

/// A written clause line holds no line feed, and begins with a tag
/// character.
pub proof fn lemma_clause_line_one_line(l: LineView<ClauseView>)
    requires
        clause_line_wf(l),
    ensures
        is_one_line(render_clause_line(l)),
        render_clause_line(l).len() > 0,
        is_tag_char(render_clause_line(l)[0]),
{
    let tag = l.inner.tag;
    assert(is_one_line(tag)) by {
        assert forall|i: int| 0 <= i < tag.len() implies #[trigger] tag[i] != '\n' by {
            assert(is_tag_char(tag[i]));
        }
    }
    match l.inner.value {
        ValueView::Text(t) => {
            lemma_escape_one_line(Charset::Unquoted, t);
        },
        ValueView::Tokens(ts) => {
            lemma_tokens_one_line(ts);
        },
    }
    lemma_trailer_one_line(l.trailer);
    lemma_one_line_concat(tag, seq![':', ' ']);
    lemma_one_line_concat(tag + seq![':', ' '], render_value(l.inner.value));
    lemma_one_line_concat(
        tag + seq![':', ' '] + render_value(l.inner.value),
        render_trailer(l.trailer),
    );
    assert(render_clause_line(l)[0] == tag[0]);
}

} // verus!
