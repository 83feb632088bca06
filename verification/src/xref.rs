//! References to other databases, and lists of them between square
//! brackets.
//!
//! ```text
//! [GOC:mah, PMID:12345 "a description"]
//! ```

use crate::id::{
    avoids, lemma_ident_first, lemma_ident_one_line, lemma_parse_render_ident,
    lemma_parsed_ident_wf, lemma_scan_through_ident, parse_ident, render_ident, Ident, IdentView,
};
use crate::strings::{
    lemma_parse_render_quoted_at, lemma_quoted_one_line, parse_quoted_at, render_quoted,
    QuotedString,
};
use crate::text::{check_plain, is_one_line, lemma_one_line_concat, scan_len, scan_run, Charset};
use vstd::prelude::*;

verus! {

/// What a reference is: an identifier, and the value of an optional
/// description.
pub struct XrefView {
    pub id: IdentView,
    pub desc: Option<Seq<char>>,
}

impl XrefView {
    /// What can be written in a list and read back: the identifier can, and
    /// holds no unescaped blank, comma or closing square bracket.
    pub open spec fn wf(self) -> bool {
        self.id.wf() && avoids(self.id, Charset::Xref)
    }
}

/// The text of a description behind an identifier.
pub open spec fn render_desc(desc: Option<Seq<char>>) -> Seq<char> {
    match desc {
        Some(d) => seq![' '] + render_quoted(d),
        None => Seq::<char>::empty(),
    }
}

/// The text of a reference: the identifier and, behind a space, the
/// description.
pub open spec fn render_xref(x: XrefView) -> Seq<char> {
    render_ident(x.id) + render_desc(x.desc)
}

/// Reads a reference at the start of `s`: an identifier that runs up to the
/// first blank, comma or closing square bracket, and a description where a
/// space and a double quote follow.
#[verifier::opaque]
pub open spec fn parse_xref(s: Seq<char>) -> Option<(XrefView, int)> {
    match scan_len(Charset::Xref, s) {
        Some(n) => match parse_ident(s.take(n)) {
            Some(id) => {
                if !avoids(id, Charset::Xref) || n < 0 || n > s.len() {
                    None
                } else if n + 1 < s.len() && s[n] == ' ' && s[n + 1] == '"' {
                    match parse_quoted_at(s.skip(n + 1)) {
                        Some((d, m)) => Some((XrefView { id, desc: Some(d) }, n + 1 + m)),
                        None => None,
                    }
                } else {
                    Some((XrefView { id, desc: None }, n))
                }
            },
            None => None,
        },
        None => None,
    }
}

/// The text of the references behind the opening bracket: the references
/// with a comma and a space between them, and the closing bracket.
pub open spec fn render_xref_list(xs: Seq<XrefView>) -> Seq<char>
    decreases xs.len(),
{
    if xs.len() == 0 {
        seq![']']
    } else if xs.len() == 1 {
        render_xref(xs[0]) + seq![']']
    } else {
        render_xref(xs[0]) + seq![',', ' '] + render_xref_list(xs.drop_first())
    }
}

/// Reads one or more references and the closing bracket.
pub open spec fn parse_xref_items(s: Seq<char>) -> Option<(Seq<XrefView>, int)>
    decreases s.len(),
{
    match parse_xref(s) {
        Some((x, n)) => {
            if n < 0 || n >= s.len() {
                None
            } else if s[n] == ']' {
                Some((seq![x], n + 1))
            } else if n + 1 < s.len() && s[n] == ',' && s[n + 1] == ' ' {
                match parse_xref_items(s.skip(n + 2)) {
                    Some((xs, m)) => Some((seq![x] + xs, n + 2 + m)),
                    None => None,
                }
            } else {
                None
            }
        },
        None => None,
    }
}

/// Reads the references behind the opening bracket, and the closing
/// bracket.
pub open spec fn parse_xref_list(s: Seq<char>) -> Option<(Seq<XrefView>, int)> {
    if s.len() > 0 && s[0] == ']' {
        Some((Seq::<XrefView>::empty(), 1int))
    } else {
        parse_xref_items(s)
    }
}

/// Whether every reference of a sequence can be written and read back.
pub open spec fn xrefs_wf(xs: Seq<XrefView>) -> bool {
    forall|i: int| 0 <= i < xs.len() ==> (#[trigger] xs[i]).wf()
}

/// Reading goes through a written reference and gives it, whenever a comma
/// or a closing square bracket follows.
pub proof fn lemma_parse_render_xref(x: XrefView, rest: Seq<char>)
    requires
        x.wf(),
        rest.len() > 0 && (rest[0] == ',' || rest[0] == ']'),
    ensures
        parse_xref(render_xref(x) + rest) == Some((x, render_xref(x).len() as int)),
{
    reveal(parse_xref);
    let id = render_ident(x.id);
    let n = id.len() as int;
    let after = render_desc(x.desc) + rest;
    let s = render_xref(x) + rest;
    assert(s == id + after);
    lemma_scan_through_ident(Charset::Xref, x.id, after);
    assert(scan_len(Charset::Xref, after) == Some(0int));
    assert(s.take(n) == id);
    lemma_parse_render_ident(x.id);
    match x.desc {
        Some(d) => {
            assert(s.skip(n + 1) == render_quoted(d) + rest);
            assert(s[n + 1] == render_quoted(d)[0]);
            lemma_parse_render_quoted_at(d, rest);
        },
        None => {
            assert(s[n] == rest[0]);
        },
    }
}

/// Reading goes through one or more written references and the closing
/// bracket, and gives the references, whatever follows the bracket.
pub proof fn lemma_parse_render_xref_items(xs: Seq<XrefView>, rest: Seq<char>)
    requires
        xs.len() > 0,
        xrefs_wf(xs),
    ensures
        parse_xref_items(render_xref_list(xs) + rest) == Some(
            (xs, render_xref_list(xs).len() as int),
        ),
    decreases xs.len(),
{
    let s = render_xref_list(xs) + rest;
    let first = render_xref(xs[0]);
    let n = first.len() as int;
    if xs.len() == 1 {
        let after = seq![']'] + rest;
        assert(s == first + after);
        lemma_parse_render_xref(xs[0], after);
        assert(s[n] == ']');
        assert(seq![xs[0]] == xs);
    } else {
        let tail = xs.drop_first();
        assert(xrefs_wf(tail)) by {
            assert forall|i: int| 0 <= i < tail.len() implies (#[trigger] tail[i]).wf() by {
                assert(tail[i] == xs[i + 1]);
            }
        }
        let inner = render_xref_list(tail) + rest;
        let after = seq![',', ' '] + inner;
        assert(s == first + after);
        lemma_parse_render_xref(xs[0], after);
        lemma_parse_render_xref_items(tail, rest);
        assert(s[n] == ',' && s[n + 1] == ' ');
        assert(s.skip(n + 2) == inner);
        assert(seq![xs[0]] + tail == xs);
    }
}

/// Reading goes through a written list of references and gives them,
/// whatever follows the closing bracket.
pub proof fn lemma_parse_render_xref_list(xs: Seq<XrefView>, rest: Seq<char>)
    requires
        xrefs_wf(xs),
    ensures
        parse_xref_list(render_xref_list(xs) + rest) == Some(
            (xs, render_xref_list(xs).len() as int),
        ),
{
    let s = render_xref_list(xs) + rest;
    if xs.len() == 0 {
        assert(xs == Seq::<XrefView>::empty());
    } else {
        lemma_ident_first(xs[0].id);
        assert(s[0] == render_ident(xs[0].id)[0]) by {
            assert(render_xref_list(xs)[0] == render_xref(xs[0])[0]);
        }
        lemma_parse_render_xref_items(xs, rest);
    }
}

/// A written list of references holds no line feed.
pub proof fn lemma_xref_list_one_line(xs: Seq<XrefView>)
    requires
        xrefs_wf(xs),
    ensures
        is_one_line(render_xref_list(xs)),
    decreases xs.len(),
{
    if xs.len() > 0 {
        let x = xs[0];
        lemma_ident_one_line(x.id);
        if let Some(d) = x.desc {
            lemma_quoted_one_line(d);
            lemma_one_line_concat(seq![' '], render_quoted(d));
        }
        lemma_one_line_concat(render_ident(x.id), render_desc(x.desc));
        if xs.len() == 1 {
            lemma_one_line_concat(render_xref(x), seq![']']);
        } else {
            let tail = xs.drop_first();
            assert(xrefs_wf(tail)) by {
                assert forall|i: int| 0 <= i < tail.len() implies (#[trigger] tail[i]).wf() by {
                    assert(tail[i] == xs[i + 1]);
                }
            }
            lemma_xref_list_one_line(tail);
            lemma_one_line_concat(render_xref(x), seq![',', ' ']);
            lemma_one_line_concat(render_xref(x) + seq![',', ' '], render_xref_list(tail));
        }
    }
}

/// A reference to the same thing in another database: its identifier
/// there, and an optional description.
#[derive(Debug, PartialEq, Eq, Hash)]
pub struct Xref {
    pub id: Ident,
    pub desc: Option<QuotedString>,
}

impl View for Xref {
    type V = XrefView;

    open spec fn view(&self) -> XrefView {
        XrefView {
            id: self.id@,
            desc: match self.desc {
                Some(d) => Some(d@),
                None => None,
            },
        }
    }
}

impl Clone for Xref {
    fn clone(&self) -> (r: Self)
        ensures
            r@ == self@,
    {
        Xref {
            id: self.id.clone(),
            desc: match &self.desc {
                Some(d) => Some(d.clone()),
                None => None,
            },
        }
    }
}

/// Tests whether an identifier holds no unescaped blank, comma or closing
/// square bracket.
fn check_avoids(id: &Ident) -> (b: bool)
    ensures
        b == avoids(id@, Charset::Xref),
{
    match id {
        Ident::Url(url) => check_plain(Charset::Xref, url.as_str()),
        _ => true,
    }
}

impl Xref {
    /// A reference without a description.
    pub fn new(id: Ident) -> (r: Self)
        ensures
            r@ == (XrefView { id: id@, desc: None }),
    {
        Xref { id, desc: None }
    }

    /// A reference with a description.
    pub fn with_desc(id: Ident, desc: QuotedString) -> (r: Self)
        ensures
            r@ == (XrefView { id: id@, desc: Some(desc@) }),
    {
        Xref { id, desc: Some(desc) }
    }

    /// Tests whether the reference can be written in a list and read back.
    pub fn is_valid(&self) -> (b: bool)
        ensures
            b == self@.wf(),
    {
        self.id.is_valid() && check_avoids(&self.id)
    }

    /// Appends the text of the reference to `out`.
    pub fn write(&self, out: &mut Vec<char>)
        ensures
            final(out)@ == old(out)@ + render_xref(self@),
    {
        self.id.write(out);
        match &self.desc {
            Some(d) => {
                out.push(' ');
                d.write(out);
            },
            None => {},
        }
        assert(out@ == old(out)@ + render_xref(self@));
    }

    /// Reads a reference at `v[from..to]`: gives the reference and the
    /// position right behind it.
    pub fn read(v: &Vec<char>, from: usize, to: usize) -> (r: Option<(Xref, usize)>)
        requires
            from <= to <= v.len(),
        ensures
            match parse_xref(v@.subrange(from as int, to as int)) {
                Some((x, n)) => r matches Some((found, end)) && found@ == x && end == from + n
                    && from <= end <= to && x.wf(),
                None => r is None,
            },
    {
        let ghost s = v@.subrange(from as int, to as int);
        proof {
            reveal(parse_xref);
        }
        match scan_run(Charset::Xref, v, from, to) {
            Some((_, end)) => {
                assert(s.take(end - from) == v@.subrange(from as int, end as int));
                match Ident::from_chars(v, from, end) {
                    Ok(id) => {
                        if !check_avoids(&id) {
                            None
                        } else if to - end >= 2 && v[end] == ' ' && v[end + 1] == '"' {
                            assert(s.skip(end - from + 1) == v@.subrange(end + 1, to as int));
                            match QuotedString::read(v, end + 1, to) {
                                Some((desc, behind)) => Some(
                                    (Xref { id, desc: Some(desc) }, behind),
                                ),
                                None => None,
                            }
                        } else {
                            Some((Xref { id, desc: None }, end))
                        }
                    },
                    Err(_) => None,
                }
            },
            None => None,
        }
    }
}

/// What a sequence of references is.
pub open spec fn xrefs_view(v: Seq<Xref>) -> Seq<XrefView> {
    v.map_values(|x: Xref| x@)
}

/// Tests whether every reference of a sequence can be written in a list
/// and read back.
pub fn check_xrefs(xrefs: &Vec<Xref>) -> (b: bool)
    ensures
        b == xrefs_wf(xrefs_view(xrefs@)),
{
    let mut i: usize = 0;
    while i < xrefs.len()
        invariant
            i <= xrefs.len(),
            forall|j: int| 0 <= j < i ==> (#[trigger] xrefs_view(xrefs@)[j]).wf(),
        decreases xrefs.len() - i,
    {
        if !xrefs[i].is_valid() {
            assert(!xrefs_view(xrefs@)[i as int].wf());
            return false;
        }
        i = i + 1;
    }
    true
}

/// Copies a sequence of references.
pub fn clone_xrefs(v: &Vec<Xref>) -> (r: Vec<Xref>)
    ensures
        xrefs_view(r@) == xrefs_view(v@),
{
    let mut r: Vec<Xref> = Vec::new();
    let mut i: usize = 0;
    while i < v.len()
        invariant
            i <= v.len(),
            xrefs_view(r@) == xrefs_view(v@.take(i as int)),
        decreases v.len() - i,
    {
        let item = v[i].clone();
        let ghost before = r@;
        r.push(item);
        proof {
            let done = v@.take(i as int);
            assert(v@.take(i + 1) == done.push(v@[i as int]));
            assert(xrefs_view(before.push(item)) == xrefs_view(before).push(item@));
            assert(xrefs_view(done.push(v@[i as int])) == xrefs_view(done).push(v@[i as int]@));
        }
        i = i + 1;
    }
    assert(v@.take(v@.len() as int) == v@);
    r
}

/// Appends to `out` the text of the references from the `i`-th on, and the
/// closing bracket.
pub fn write_xref_list(out: &mut Vec<char>, xrefs: &Vec<Xref>, i: usize)
    requires
        i <= xrefs.len(),
    ensures
        final(out)@ == old(out)@ + render_xref_list(xrefs_view(xrefs@).skip(i as int)),
    decreases xrefs.len() - i,
{
    let ghost xs = xrefs_view(xrefs@).skip(i as int);
    if i < xrefs.len() {
        xrefs[i].write(out);
        if i + 1 < xrefs.len() {
            out.push(',');
            out.push(' ');
            write_xref_list(out, xrefs, i + 1);
            assert(xs.drop_first() == xrefs_view(xrefs@).skip(i + 1));
        } else {
            out.push(']');
        }
        assert(out@ == old(out)@ + render_xref_list(xs));
    } else {
        out.push(']');
        assert(out@ == old(out)@ + render_xref_list(xs));
    }
}

/// Reads one or more references and the closing bracket at `v[from..to]`,
/// and appends the references to `acc`: gives the position right behind
/// the bracket.
pub fn read_xref_items(v: &Vec<char>, from: usize, to: usize, acc: &mut Vec<Xref>) -> (r: Option<
    usize,
>)
    requires
        from <= to <= v.len(),
    ensures
        match parse_xref_items(v@.subrange(from as int, to as int)) {
            Some((xs, n)) => r == Some((from + n) as usize) && from < from + n <= to
                && xrefs_view(final(acc)@) == xrefs_view(old(acc)@) + xs && xrefs_wf(xs),
            None => r is None,
        },
    decreases to - from,
{
    let ghost s = v@.subrange(from as int, to as int);
    match Xref::read(v, from, to) {
        Some((xref, end)) => {
            let ghost x = xref@;
            let ghost before = xrefs_view(acc@);
            acc.push(xref);
            assert(xrefs_view(acc@) == before + seq![x]);
            if end >= to {
                None
            } else if v[end] == ']' {
                Some(end + 1)
            } else if to - end >= 2 && v[end] == ',' && v[end + 1] == ' ' {
                assert(s.skip(end - from + 2) == v@.subrange(end + 2, to as int));
                let r = read_xref_items(v, end + 2, to, acc);
                proof {
                    if let Some((xs, m)) = parse_xref_items(s.skip(end - from + 2)) {
                        assert(before + seq![x] + xs == before + (seq![x] + xs));
                        assert(xrefs_wf(seq![x] + xs));
                    }
                }
                r
            } else {
                None
            }
        },
        None => None,
    }
}

/// Reads the references behind the opening bracket at `v[from..to]`, and
/// the closing bracket: gives the references and the position right behind
/// the bracket.
pub fn read_xref_list(v: &Vec<char>, from: usize, to: usize) -> (r: Option<(Vec<Xref>, usize)>)
    requires
        from <= to <= v.len(),
    ensures
        match parse_xref_list(v@.subrange(from as int, to as int)) {
            Some((xs, n)) => r matches Some((found, end)) && xrefs_view(found@) == xs && end
                == from + n && from < end <= to && xrefs_wf(xs),
            None => r is None,
        },
{
    let mut xrefs: Vec<Xref> = Vec::new();
    assert(xrefs_view(xrefs@) == Seq::<XrefView>::empty());
    if from < to && v[from] == ']' {
        Some((xrefs, from + 1))
    } else {
        match read_xref_items(v, from, to, &mut xrefs) {
            Some(end) => {
                proof {
                    let (xs, n) = parse_xref_items(v@.subrange(from as int, to as int)).unwrap();
                    assert(Seq::<XrefView>::empty() + xs == xs);
                }
                Some((xrefs, end))
            },
            None => None,
        }
    }
}

/// A reference that is read from a text can be written in a list and read
/// back.
pub proof fn lemma_parsed_xref_wf(s: Seq<char>)
    ensures
        parse_xref(s) matches Some((x, n)) ==> x.wf(),
{
    reveal(parse_xref);
    if let Some(n) = scan_len(Charset::Xref, s) {
        lemma_parsed_ident_wf(s.take(n));
    }
}

/// References that are read from a text can be written and read back.
pub proof fn lemma_parsed_xref_list_wf(s: Seq<char>)
    ensures
        parse_xref_items(s) matches Some((xs, n)) ==> xrefs_wf(xs),
        parse_xref_list(s) matches Some((xs, n)) ==> xrefs_wf(xs),
    decreases s.len(),
{
    lemma_parsed_xref_wf(s);
    if let Some((x, n)) = parse_xref(s) {
        if 0 <= n < s.len() && s[n] != ']' && n + 1 < s.len() {
            lemma_parsed_xref_list_wf(s.skip(n + 2));
            if let Some((xs, m)) = parse_xref_items(s.skip(n + 2)) {
                let all = seq![x] + xs;
                assert forall|i: int| 0 <= i < all.len() implies (#[trigger] all[i]).wf() by {
                    if i > 0 {
                        assert(all[i] == xs[i - 1]);
                    }
                }
            }
        }
    }
}

} // verus!
