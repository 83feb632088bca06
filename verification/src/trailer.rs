//! What stands at the end of a line behind the value: qualifiers between
//! braces, and a comment.
//!
//! ```text
//!  {key="text", key="text"} ! comment
//! ```

use crate::id::{
    lemma_avoids_token, lemma_ident_first, lemma_ident_one_line, lemma_parse_render_ident,
    lemma_parsed_ident_wf, lemma_scan_through_ident, parse_ident, render_ident, Ident, IdentView,
};
use crate::strings::{
    lemma_parse_render_quoted_at, lemma_quoted_one_line, parse_quoted_at, render_quoted,
    QuotedString,
};
use crate::text::{
    chars_of, is_one_line, lemma_one_line_concat, push_chars, scan, scan_len, scan_run, string_of,
    Charset,
};
use crate::token::at_trailer;
use vstd::prelude::*;

verus! {

/// What a qualifier is: a key and the value of a quoted string.
pub struct QualifierView {
    pub key: IdentView,
    pub value: Seq<char>,
}

/// The text of a qualifier: key, equals sign, quoted value.
pub open spec fn render_qualifier(q: QualifierView) -> Seq<char> {
    render_ident(q.key) + seq!['='] + render_quoted(q.value)
}

/// Reads a qualifier at the start of `s`: the key runs up to the equals
/// sign in front of the first double quote.
#[verifier::opaque]
pub open spec fn parse_qualifier(s: Seq<char>) -> Option<(QualifierView, int)> {
    match scan_len(Charset::Quote, s) {
        Some(n) => {
            if 1 <= n < s.len() && s[n - 1] == '=' {
                match (parse_ident(s.take(n - 1)), parse_quoted_at(s.skip(n))) {
                    (Some(key), Some((value, m))) => Some((QualifierView { key, value }, n + m)),
                    _ => None,
                }
            } else {
                None
            }
        },
        None => None,
    }
}

/// The text of the qualifiers behind the opening brace: the qualifiers with
/// a comma and a space between them, and the closing brace.
pub open spec fn render_qualifier_list(qs: Seq<QualifierView>) -> Seq<char>
    decreases qs.len(),
{
    if qs.len() == 0 {
        seq!['}']
    } else if qs.len() == 1 {
        render_qualifier(qs[0]) + seq!['}']
    } else {
        render_qualifier(qs[0]) + seq![',', ' '] + render_qualifier_list(qs.drop_first())
    }
}

/// Reads one or more qualifiers and the closing brace.
pub open spec fn parse_qualifier_items(s: Seq<char>) -> Option<(Seq<QualifierView>, int)>
    decreases s.len(),
{
    match parse_qualifier(s) {
        Some((q, n)) => {
            if n < 0 || n >= s.len() {
                None
            } else if s[n] == '}' {
                Some((seq![q], n + 1))
            } else if n + 1 < s.len() && s[n] == ',' && s[n + 1] == ' ' {
                match parse_qualifier_items(s.skip(n + 2)) {
                    Some((qs, m)) => Some((seq![q] + qs, n + 2 + m)),
                    None => None,
                }
            } else {
                None
            }
        },
        None => None,
    }
}

/// Reads the qualifiers behind the opening brace, and the closing brace.
pub open spec fn parse_qualifier_list(s: Seq<char>) -> Option<(Seq<QualifierView>, int)> {
    if s.len() > 0 && s[0] == '}' {
        Some((Seq::<QualifierView>::empty(), 1int))
    } else {
        parse_qualifier_items(s)
    }
}

/// Whether every key of the qualifiers can be written and read back.
pub open spec fn qualifiers_wf(qs: Seq<QualifierView>) -> bool {
    forall|i: int| 0 <= i < qs.len() ==> (#[trigger] qs[i]).key.wf()
}

/// Reading goes through a written qualifier and gives it, whatever
/// follows.
pub proof fn lemma_parse_render_qualifier(q: QualifierView, rest: Seq<char>)
    requires
        q.key.wf(),
    ensures
        parse_qualifier(render_qualifier(q) + rest) == Some(
            (q, render_qualifier(q).len() as int),
        ),
{
    reveal(parse_qualifier);
    let key = render_ident(q.key);
    let value = render_quoted(q.value);
    let s = render_qualifier(q) + rest;
    let after = seq!['='] + (value + rest);
    assert(s == key + after);
    lemma_avoids_token(q.key, Charset::Quote);
    lemma_scan_through_ident(Charset::Quote, q.key, after);
    assert(scan_len(Charset::Quote, after) == Some(1int)) by {
        reveal_with_fuel(scan, 3);
        assert(after.skip(1) == value + rest);
        assert(value[0] == '"');
    }
    let n = key.len() as int + 1;
    assert(s.take(n - 1) == key);
    lemma_parse_render_ident(q.key);
    assert(s.skip(n) == value + rest);
    lemma_parse_render_quoted_at(q.value, rest);
}

/// Reading goes through one or more written qualifiers and the closing
/// brace, and gives the qualifiers, whatever follows the brace.
pub proof fn lemma_parse_render_qualifier_items(qs: Seq<QualifierView>, rest: Seq<char>)
    requires
        qs.len() > 0,
        qualifiers_wf(qs),
    ensures
        parse_qualifier_items(render_qualifier_list(qs) + rest) == Some(
            (qs, render_qualifier_list(qs).len() as int),
        ),
    decreases qs.len(),
{
    let s = render_qualifier_list(qs) + rest;
    let first = render_qualifier(qs[0]);
    let n = first.len() as int;
    if qs.len() == 1 {
        let after = seq!['}'] + rest;
        assert(s == first + after);
        lemma_parse_render_qualifier(qs[0], after);
        assert(s[n] == '}');
        assert(seq![qs[0]] == qs);
    } else {
        let tail = qs.drop_first();
        assert(qualifiers_wf(tail)) by {
            assert forall|i: int| 0 <= i < tail.len() implies (#[trigger] tail[i]).key.wf() by {
                assert(tail[i] == qs[i + 1]);
            }
        }
        let inner = render_qualifier_list(tail) + rest;
        let after = seq![',', ' '] + inner;
        assert(s == first + after);
        lemma_parse_render_qualifier(qs[0], after);
        lemma_parse_render_qualifier_items(tail, rest);
        assert(s[n] == ',' && s[n + 1] == ' ');
        assert(s.skip(n + 2) == inner);
        assert(seq![qs[0]] + tail == qs);
    }
}

/// Reading goes through a written list of qualifiers and gives them,
/// whatever follows the closing brace.
pub proof fn lemma_parse_render_qualifier_list(qs: Seq<QualifierView>, rest: Seq<char>)
    requires
        qualifiers_wf(qs),
    ensures
        parse_qualifier_list(render_qualifier_list(qs) + rest) == Some(
            (qs, render_qualifier_list(qs).len() as int),
        ),
{
    let s = render_qualifier_list(qs) + rest;
    if qs.len() == 0 {
        assert(qs == Seq::<QualifierView>::empty());
    } else {
        lemma_ident_first(qs[0].key);
        assert(s[0] == render_ident(qs[0].key)[0]) by {
            assert(render_qualifier_list(qs)[0] == render_qualifier(qs[0])[0]);
        }
        lemma_parse_render_qualifier_items(qs, rest);
    }
}

/// A written list of qualifiers holds no line feed.
pub proof fn lemma_qualifier_list_one_line(qs: Seq<QualifierView>)
    requires
        qualifiers_wf(qs),
    ensures
        is_one_line(render_qualifier_list(qs)),
    decreases qs.len(),
{
    if qs.len() > 0 {
        let q = qs[0];
        lemma_ident_one_line(q.key);
        lemma_quoted_one_line(q.value);
        lemma_one_line_concat(render_ident(q.key), seq!['=']);
        lemma_one_line_concat(render_ident(q.key) + seq!['='], render_quoted(q.value));
        if qs.len() == 1 {
            lemma_one_line_concat(render_qualifier(q), seq!['}']);
        } else {
            let tail = qs.drop_first();
            assert(qualifiers_wf(tail)) by {
                assert forall|i: int| 0 <= i < tail.len() implies (#[trigger] tail[i]).key.wf() by {
                    assert(tail[i] == qs[i + 1]);
                }
            }
            lemma_qualifier_list_one_line(tail);
            lemma_one_line_concat(render_qualifier(q), seq![',', ' ']);
            lemma_one_line_concat(
                render_qualifier(q) + seq![',', ' '],
                render_qualifier_list(tail),
            );
        }
    }
}

/// A pair of a key and a quoted value, as it stands between braces at the
/// end of a line.
#[derive(Debug, PartialEq, Eq, Hash)]
pub struct Qualifier {
    pub key: Ident,
    pub value: QuotedString,
}

impl View for Qualifier {
    type V = QualifierView;

    open spec fn view(&self) -> QualifierView {
        QualifierView { key: self.key@, value: self.value@ }
    }
}

impl Clone for Qualifier {
    fn clone(&self) -> (r: Self)
        ensures
            r@ == self@,
    {
        Qualifier { key: self.key.clone(), value: self.value.clone() }
    }
}

impl Qualifier {
    /// Makes a qualifier from its key and its value.
    pub fn new(key: Ident, value: QuotedString) -> (r: Self)
        ensures
            r.key == key,
            r.value == value,
    {
        Qualifier { key, value }
    }

    /// Appends the text of the qualifier to `out`.
    pub fn write(&self, out: &mut Vec<char>)
        ensures
            final(out)@ == old(out)@ + render_qualifier(self@),
    {
        self.key.write(out);
        out.push('=');
        self.value.write(out);
        assert(out@ == old(out)@ + render_qualifier(self@));
    }

    /// Reads a qualifier at `v[from..to]`: gives the qualifier and the
    /// position right behind it.
    pub fn read(v: &Vec<char>, from: usize, to: usize) -> (r: Option<(Qualifier, usize)>)
        requires
            from <= to <= v.len(),
        ensures
            match parse_qualifier(v@.subrange(from as int, to as int)) {
                Some((q, n)) => r matches Some((found, end)) && found@ == q && end == from + n
                    && from < end <= to && q.key.wf(),
                None => r is None,
            },
    {
        let ghost s = v@.subrange(from as int, to as int);
        proof {
            reveal(parse_qualifier);
        }
        match scan_run(Charset::Quote, v, from, to) {
            Some((_, quote)) => {
                if quote <= from || quote >= to || v[quote - 1] != '=' {
                    return None;
                }
                assert(s.take(quote - from - 1) == v@.subrange(from as int, quote - 1));
                assert(s.skip(quote - from) == v@.subrange(quote as int, to as int));
                match Ident::from_chars(v, from, quote - 1) {
                    Ok(key) => match QuotedString::read(v, quote, to) {
                        Some((value, end)) => Some((Qualifier { key, value }, end)),
                        None => None,
                    },
                    Err(_) => None,
                }
            },
            None => None,
        }
    }
}

/// What a sequence of qualifiers is.
pub open spec fn qualifiers_view(v: Seq<Qualifier>) -> Seq<QualifierView> {
    v.map_values(|q: Qualifier| q@)
}

/// Tests whether every key of a sequence of qualifiers can be written and
/// read back.
pub fn check_qualifiers(qualifiers: &Vec<Qualifier>) -> (b: bool)
    ensures
        b == qualifiers_wf(qualifiers_view(qualifiers@)),
{
    let mut i: usize = 0;
    while i < qualifiers.len()
        invariant
            i <= qualifiers.len(),
            forall|j: int| 0 <= j < i ==> (#[trigger] qualifiers_view(qualifiers@)[j]).key.wf(),
        decreases qualifiers.len() - i,
    {
        if !qualifiers[i].key.is_valid() {
            assert(!qualifiers_view(qualifiers@)[i as int].key.wf());
            return false;
        }
        i = i + 1;
    }
    true
}

/// Copies a sequence of qualifiers.
pub fn clone_qualifiers(v: &Vec<Qualifier>) -> (r: Vec<Qualifier>)
    ensures
        qualifiers_view(r@) == qualifiers_view(v@),
{
    let mut r: Vec<Qualifier> = Vec::new();
    let mut i: usize = 0;
    while i < v.len()
        invariant
            i <= v.len(),
            qualifiers_view(r@) == qualifiers_view(v@.take(i as int)),
        decreases v.len() - i,
    {
        let item = v[i].clone();
        let ghost before = r@;
        r.push(item);
        proof {
            let done = v@.take(i as int);
            assert(v@.take(i + 1) == done.push(v@[i as int]));
            assert(qualifiers_view(before.push(item)) == qualifiers_view(before).push(item@));
            assert(qualifiers_view(done.push(v@[i as int])) == qualifiers_view(done).push(
                v@[i as int]@,
            ));
        }
        i = i + 1;
    }
    assert(v@.take(v@.len() as int) == v@);
    r
}

/// Appends to `out` the text of the qualifiers from the `i`-th on, and the
/// closing brace.
pub fn write_qualifier_list(out: &mut Vec<char>, qualifiers: &Vec<Qualifier>, i: usize)
    requires
        i <= qualifiers.len(),
    ensures
        final(out)@ == old(out)@ + render_qualifier_list(
            qualifiers_view(qualifiers@).skip(i as int),
        ),
    decreases qualifiers.len() - i,
{
    let ghost qs = qualifiers_view(qualifiers@).skip(i as int);
    if i < qualifiers.len() {
        qualifiers[i].write(out);
        if i + 1 < qualifiers.len() {
            out.push(',');
            out.push(' ');
            write_qualifier_list(out, qualifiers, i + 1);
            assert(qs.drop_first() == qualifiers_view(qualifiers@).skip(i + 1));
        } else {
            out.push('}');
        }
        assert(out@ == old(out)@ + render_qualifier_list(qs));
    } else {
        out.push('}');
        assert(out@ == old(out)@ + render_qualifier_list(qs));
    }
}

/// Reads one or more qualifiers and the closing brace at `v[from..to]`, and
/// appends the qualifiers to `acc`: gives the position right behind the
/// brace.
pub fn read_qualifier_items(
    v: &Vec<char>,
    from: usize,
    to: usize,
    acc: &mut Vec<Qualifier>,
) -> (r: Option<usize>)
    requires
        from <= to <= v.len(),
    ensures
        match parse_qualifier_items(v@.subrange(from as int, to as int)) {
            Some((qs, n)) => r == Some((from + n) as usize) && from < from + n <= to
                && qualifiers_view(final(acc)@) == qualifiers_view(old(acc)@) + qs
                && qualifiers_wf(qs),
            None => r is None,
        },
    decreases to - from,
{
    let ghost s = v@.subrange(from as int, to as int);
    match Qualifier::read(v, from, to) {
        Some((qualifier, end)) => {
            let ghost q = qualifier@;
            let ghost before = qualifiers_view(acc@);
            acc.push(qualifier);
            assert(qualifiers_view(acc@) == before + seq![q]);
            if end >= to {
                None
            } else if v[end] == '}' {
                Some(end + 1)
            } else if to - end >= 2 && v[end] == ',' && v[end + 1] == ' ' {
                assert(s.skip(end - from + 2) == v@.subrange(end + 2, to as int));
                let r = read_qualifier_items(v, end + 2, to, acc);
                proof {
                    if let Some((qs, m)) = parse_qualifier_items(s.skip(end - from + 2)) {
                        assert(before + seq![q] + qs == before + (seq![q] + qs));
                        assert(qualifiers_wf(seq![q] + qs));
                    }
                }
                r
            } else {
                None
            }
        },
        None => None,
    }
}

/// What stands at the end of a line behind the value.
pub struct TrailerView {
    pub qualifiers: Option<Seq<QualifierView>>,
    pub comment: Option<Seq<char>>,
}

impl TrailerView {
    /// Nothing behind the value.
    pub open spec fn none() -> TrailerView {
        TrailerView { qualifiers: None, comment: None }
    }

    /// What can be written and read back: the keys of the qualifiers can,
    /// and the comment holds no line feed.
    pub open spec fn wf(self) -> bool {
        &&& self.qualifiers matches Some(qs) ==> forall|i: int|
            0 <= i < qs.len() ==> (#[trigger] qs[i]).key.wf()
        &&& self.comment matches Some(c) ==> is_one_line(c)
    }
}

/// The text of a comment at the end of a line.
pub open spec fn render_comment(comment: Option<Seq<char>>) -> Seq<char> {
    match comment {
        Some(c) => seq![' ', '!', ' '] + c,
        None => Seq::<char>::empty(),
    }
}

/// The text of what stands behind the value.
pub open spec fn render_trailer(t: TrailerView) -> Seq<char> {
    match t.qualifiers {
        Some(qs) => seq![' ', '{'] + render_qualifier_list(qs) + render_comment(t.comment),
        None => render_comment(t.comment),
    }
}

/// Reads a comment that takes the rest of the line, or nothing where the
/// line has ended.
pub open spec fn parse_comment(s: Seq<char>) -> Option<Option<Seq<char>>> {
    if s.len() == 0 {
        Some(None)
    } else if s.len() >= 3 && s[0] == ' ' && s[1] == '!' && s[2] == ' ' && is_one_line(s.skip(3)) {
        Some(Some(s.skip(3)))
    } else {
        None
    }
}

/// Reads what stands behind the value, up to the end of the line.
pub open spec fn parse_trailer(s: Seq<char>) -> Option<TrailerView> {
    if s.len() >= 2 && s[0] == ' ' && s[1] == '{' {
        match parse_qualifier_list(s.skip(2)) {
            Some((qs, n)) => if 0 <= n <= s.len() - 2 {
                match parse_comment(s.skip(2 + n)) {
                    Some(comment) => Some(TrailerView { qualifiers: Some(qs), comment }),
                    None => None,
                }
            } else {
                None
            },
            None => None,
        }
    } else {
        match parse_comment(s) {
            Some(comment) => Some(TrailerView { qualifiers: None, comment }),
            None => None,
        }
    }
}

/// What is written behind a value is nothing, or begins with a space and
/// then `{` or `!`.
pub proof fn lemma_trailer_first(t: TrailerView)
    ensures
        render_trailer(t).len() == 0 || at_trailer(render_trailer(t)),
        render_trailer(t).len() == 0 <==> t == TrailerView::none(),
{
}

/// Writing what stands behind a value and reading the text back gives the
/// same.
pub proof fn lemma_parse_render_trailer(t: TrailerView)
    requires
        t.wf(),
    ensures
        parse_trailer(render_trailer(t)) == Some(t),
{
    let s = render_trailer(t);
    let comment = render_comment(t.comment);
    assert(parse_comment(comment) == Some(t.comment)) by {
        if let Some(c) = t.comment {
            assert(comment.skip(3) == c);
        }
    }
    match t.qualifiers {
        Some(qs) => {
            let list = render_qualifier_list(qs);
            assert(s.skip(2) == list + comment);
            lemma_parse_render_qualifier_list(qs, comment);
            assert(s.skip(2 + list.len() as int) == comment);
        },
        None => {},
    }
}

/// What is written behind a value holds no line feed.
pub proof fn lemma_trailer_one_line(t: TrailerView)
    requires
        t.wf(),
    ensures
        is_one_line(render_trailer(t)),
{
    let comment = render_comment(t.comment);
    assert(is_one_line(comment)) by {
        if let Some(c) = t.comment {
            lemma_one_line_concat(seq![' ', '!', ' '], c);
        }
    }
    if let Some(qs) = t.qualifiers {
        lemma_qualifier_list_one_line(qs);
        lemma_one_line_concat(seq![' ', '{'], render_qualifier_list(qs));
        lemma_one_line_concat(seq![' ', '{'] + render_qualifier_list(qs), comment);
    }
}

/// What stands at the end of a line behind the value: qualifiers between
/// braces, and a comment.
#[derive(Debug, PartialEq, Eq, Hash)]
pub struct Trailer {
    pub qualifiers: Option<Vec<Qualifier>>,
    pub comment: Option<String>,
}

impl View for Trailer {
    type V = TrailerView;

    open spec fn view(&self) -> TrailerView {
        TrailerView {
            qualifiers: match self.qualifiers {
                Some(qs) => Some(qualifiers_view(qs@)),
                None => None,
            },
            comment: match self.comment {
                Some(c) => Some(c@),
                None => None,
            },
        }
    }
}

impl Clone for Trailer {
    fn clone(&self) -> (r: Self)
        ensures
            r@ == self@,
    {
        Trailer {
            qualifiers: match &self.qualifiers {
                Some(qs) => Some(clone_qualifiers(qs)),
                None => None,
            },
            comment: match &self.comment {
                Some(c) => Some(c.clone()),
                None => None,
            },
        }
    }
}

/// Tests whether `v[from..to]` holds no line feed.
fn check_one_line(v: &Vec<char>, from: usize, to: usize) -> (b: bool)
    requires
        from <= to <= v.len(),
    ensures
        b == is_one_line(v@.subrange(from as int, to as int)),
{
    let ghost s = v@.subrange(from as int, to as int);
    let mut i: usize = from;
    while i < to
        invariant
            from <= i <= to <= v.len(),
            s == v@.subrange(from as int, to as int),
            forall|j: int| 0 <= j < i - from ==> #[trigger] s[j] != '\n',
        decreases to - i,
    {
        if v[i] == '\n' {
            assert(s[i - from] == '\n');
            return false;
        }
        i = i + 1;
    }
    true
}

impl Trailer {
    /// Nothing behind the value.
    pub fn none() -> (r: Self)
        ensures
            r@ == TrailerView::none(),
    {
        Trailer { qualifiers: None, comment: None }
    }

    /// Tests whether the trailer can be written and read back: the keys of
    /// its qualifiers can, and its comment holds no line feed.
    pub fn is_valid(&self) -> (b: bool)
        ensures
            b == self@.wf(),
    {
        let keys = match &self.qualifiers {
            Some(qs) => check_qualifiers(qs),
            None => true,
        };
        let comment = match &self.comment {
            Some(c) => {
                let text = chars_of(c.as_str());
                assert(text@.subrange(0, text@.len() as int) == text@);
                check_one_line(&text, 0, text.len())
            },
            None => true,
        };
        keys && comment
    }

    /// Whether there is nothing behind the value.
    pub fn is_none(&self) -> (b: bool)
        ensures
            b == (self@ == TrailerView::none()),
    {
        self.qualifiers.is_none() && self.comment.is_none()
    }

    /// Appends the text of the trailer to `out`.
    pub fn write(&self, out: &mut Vec<char>)
        ensures
            final(out)@ == old(out)@ + render_trailer(self@),
    {
        let ghost start = out@;
        match &self.qualifiers {
            Some(qs) => {
                out.push(' ');
                out.push('{');
                write_qualifier_list(out, qs, 0);
                assert(qualifiers_view(qs@).skip(0) == qualifiers_view(qs@));
            },
            None => {},
        }
        let ghost middle = out@;
        match &self.comment {
            Some(c) => {
                out.push(' ');
                out.push('!');
                out.push(' ');
                push_chars(out, c.as_str());
                assert(out@ == middle + render_comment(self@.comment));
            },
            None => {
                assert(out@ == middle + render_comment(self@.comment));
            },
        }
        assert(out@ == start + render_trailer(self@));
    }

    /// Reads a comment, or nothing, at `v[from..to]`.
    fn read_comment(v: &Vec<char>, from: usize, to: usize) -> (r: Option<Option<String>>)
        requires
            from <= to <= v.len(),
        ensures
            match parse_comment(v@.subrange(from as int, to as int)) {
                Some(Some(c)) => r matches Some(Some(found)) && found@ == c,
                Some(None) => r == Some(None::<String>),
                None => r is None,
            },
    {
        let ghost s = v@.subrange(from as int, to as int);
        if from == to {
            Some(None)
        } else if to - from >= 3 && v[from] == ' ' && v[from + 1] == '!' && v[from + 2] == ' ' {
            assert(s.skip(3) == v@.subrange(from + 3, to as int));
            if check_one_line(v, from + 3, to) {
                Some(Some(string_of(v, from + 3, to)))
            } else {
                None
            }
        } else {
            None
        }
    }

    /// Reads what stands behind a value at `v[from..to]`, which must run to
    /// the end of the line.
    pub fn read(v: &Vec<char>, from: usize, to: usize) -> (r: Option<Trailer>)
        requires
            from <= to <= v.len(),
        ensures
            match parse_trailer(v@.subrange(from as int, to as int)) {
                Some(t) => r matches Some(found) && found@ == t && t.wf(),
                None => r is None,
            },
    {
        let ghost s = v@.subrange(from as int, to as int);
        if to - from >= 2 && v[from] == ' ' && v[from + 1] == '{' {
            let start = from + 2;
            assert(s.skip(2) == v@.subrange(start as int, to as int));
            let mut qualifiers: Vec<Qualifier> = Vec::new();
            assert(qualifiers_view(qualifiers@) == Seq::<QualifierView>::empty());
            let end = if start < to && v[start] == '}' {
                start + 1
            } else {
                match read_qualifier_items(v, start, to, &mut qualifiers) {
                    Some(end) => end,
                    None => {
                        return None;
                    },
                }
            };
            assert(s.skip(2 + (end - start)) == v@.subrange(end as int, to as int));
            match Self::read_comment(v, end, to) {
                Some(comment) => {
                    let found = Trailer { qualifiers: Some(qualifiers), comment };
                    proof {
                        let (qs, n) = parse_qualifier_list(s.skip(2)).unwrap();
                        assert(Seq::<QualifierView>::empty() + qs == qs);
                    }
                    Some(found)
                },
                None => None,
            }
        } else {
            match Self::read_comment(v, from, to) {
                Some(comment) => Some(Trailer { qualifiers: None, comment }),
                None => None,
            }
        }
    }
}

/// Qualifiers that are read from a text can be written and read back.
pub proof fn lemma_parsed_qualifiers_wf(s: Seq<char>)
    ensures
        parse_qualifier(s) matches Some((q, n)) ==> q.key.wf(),
        parse_qualifier_items(s) matches Some((qs, n)) ==> qualifiers_wf(qs),
        parse_qualifier_list(s) matches Some((qs, n)) ==> qualifiers_wf(qs),
    decreases s.len(),
{
    reveal(parse_qualifier);
    if let Some(k) = scan_len(Charset::Quote, s) {
        lemma_parsed_ident_wf(s.take(k - 1));
    }
    if let Some((q, n)) = parse_qualifier(s) {
        if 0 <= n < s.len() && s[n] != '}' && n + 1 < s.len() {
            lemma_parsed_qualifiers_wf(s.skip(n + 2));
            if let Some((qs, m)) = parse_qualifier_items(s.skip(n + 2)) {
                let all = seq![q] + qs;
                assert forall|i: int| 0 <= i < all.len() implies (#[trigger] all[i]).key.wf() by {
                    if i > 0 {
                        assert(all[i] == qs[i - 1]);
                    }
                }
            }
        }
    }
}

/// What is read behind a value can be written and read back.
pub proof fn lemma_parsed_trailer_wf(s: Seq<char>)
    ensures
        parse_trailer(s) matches Some(t) ==> t.wf(),
{
    if s.len() >= 2 {
        lemma_parsed_qualifiers_wf(s.skip(2));
    }
}

} // verus!
