//! Frames as sequences of lines: the clause lines of any frame, and the
//! title and identifier of an entity frame.
//!
//! ```text
//! [Term]
//! id: GO:0046154
//! name: rhodopsin metabolic process
//! ```

use crate::clause::{line_valid, LineKind, LineSyntax};
use crate::error::{Error, Rule};
use crate::id::{lemma_ident_one_line, render_ident, Ident, IdentView};
use crate::line::{
    clause_line_wf, is_tag_char, lemma_clause_line_one_line, render_clause_line, ClauseView, Line,
    LineView,
};
use crate::lines::{are_lines, join_lines, lemma_join_concat, lines_view};
use crate::text::{chars_eq, is_blank, is_one_line, lemma_one_line_concat, push_chars};
use crate::token::{render_tokens, take_one, TokenView};
use crate::trailer::{lemma_trailer_one_line, render_trailer, Trailer};
use crate::value::{
    lemma_parse_render_value, lemma_parsed_value_wf, parse_value, Shape, Value, ValueView,
};
use vstd::prelude::*;

verus! {

/// The number of blanks at the start of a line.
pub open spec fn blank_len(l: Seq<char>) -> int
    decreases l.len(),
{
    if l.len() > 0 && is_blank(l[0]) {
        1 + blank_len(l.skip(1))
    } else {
        0
    }
}

/// Whether a line holds nothing but blanks.
pub open spec fn is_blank_line(l: Seq<char>) -> bool {
    blank_len(l) == l.len()
}

/// Whether a line begins a frame: its first character that is no blank is
/// an opening square bracket.
pub open spec fn is_frame_start(l: Seq<char>) -> bool {
    0 <= blank_len(l) < l.len() && l[blank_len(l)] == '['
}

/// The blanks at the start of a line are within the line.
pub proof fn lemma_blank_len(l: Seq<char>)
    ensures
        0 <= blank_len(l) <= l.len(),
        blank_len(l) < l.len() ==> !is_blank(l[blank_len(l)]),
    decreases l.len(),
{
    if l.len() > 0 && is_blank(l[0]) {
        lemma_blank_len(l.skip(1));
    }
}

/// Counts the blanks at the start of a line.
pub fn leading_blanks(v: &Vec<char>) -> (n: usize)
    ensures
        n == blank_len(v@),
        n <= v.len(),
{
    let mut i: usize = 0;
    proof {
        assert(v@.skip(0) == v@);
    }
    while i < v.len() && (v[i] == ' ' || v[i] == '\t')
        invariant
            i <= v.len(),
            blank_len(v@) == i + blank_len(v@.skip(i as int)),
        decreases v.len() - i,
    {
        proof {
            let here = v@.skip(i as int);
            assert(here[0] == v@[i as int]);
            assert(here.skip(1) == v@.skip(i + 1));
        }
        i = i + 1;
    }
    proof {
        let here = v@.skip(i as int);
        if i < v.len() {
            assert(here[0] == v@[i as int]);
        }
    }
    i
}

/// Tests whether a line holds nothing but blanks.
pub fn check_blank_line(v: &Vec<char>) -> (b: bool)
    ensures
        b == is_blank_line(v@),
{
    leading_blanks(v) == v.len()
}

/// Tests whether a line begins a frame.
pub fn check_frame_start(v: &Vec<char>) -> (b: bool)
    ensures
        b == is_frame_start(v@),
{
    let n = leading_blanks(v);
    n < v.len() && v[n] == '['
}

/// The clause lines of a kind that a sequence of lines stands for. Lines
/// that hold nothing but blanks are passed over. The first line that is no
/// clause line of the kind decides the error.
pub open spec fn parse_clause_lines(kind: LineKind, lines: Seq<Seq<char>>) -> Result<
    Seq<LineView<ClauseView>>,
    Error,
>
    decreases lines.len(),
{
    if lines.len() == 0 {
        Ok(Seq::<LineView<ClauseView>>::empty())
    } else if is_blank_line(lines[0]) {
        parse_clause_lines(kind, lines.drop_first())
    } else {
        match kind.parse(lines[0]) {
            Ok(l) => match parse_clause_lines(kind, lines.drop_first()) {
                Ok(ls) => Ok(seq![l] + ls),
                Err(e) => Err(e),
            },
            Err(e) => Err(e),
        }
    }
}

/// The texts of a sequence of clause lines.
pub open spec fn render_clause_lines(ls: Seq<LineView<ClauseView>>) -> Seq<Seq<char>> {
    ls.map_values(|l: LineView<ClauseView>| render_clause_line(l))
}

/// Whether every line of a sequence can be written and read back as a
/// clause line of the kind.
pub open spec fn clause_lines_wf(kind: LineKind, ls: Seq<LineView<ClauseView>>) -> bool {
    forall|i: int| 0 <= i < ls.len() ==> clause_line_wf(#[trigger] ls[i]) && kind.is_typed(ls[i])
}

/// Whether every line of a sequence holds nothing but blanks.
pub open spec fn are_blank_lines(lines: Seq<Seq<char>>) -> bool {
    forall|i: int| 0 <= i < lines.len() ==> is_blank_line(#[trigger] lines[i])
}

/// A line that begins with a tag character holds more than blanks and
/// begins no frame.
pub proof fn lemma_tag_line(l: Seq<char>)
    requires
        l.len() > 0,
        is_tag_char(l[0]),
    ensures
        !is_blank_line(l),
        !is_frame_start(l),
{
}

/// Lines that hold nothing but blanks stand for no clause lines.
pub proof fn lemma_parse_blank_lines(kind: LineKind, lines: Seq<Seq<char>>)
    requires
        are_blank_lines(lines),
    ensures
        parse_clause_lines(kind, lines) == Ok::<Seq<LineView<ClauseView>>, Error>(
            Seq::<LineView<ClauseView>>::empty(),
        ),
    decreases lines.len(),
{
    if lines.len() > 0 {
        let tail = lines.drop_first();
        assert forall|i: int| 0 <= i < tail.len() implies is_blank_line(#[trigger] tail[i]) by {
            assert(tail[i] == lines[i + 1]);
        }
        lemma_parse_blank_lines(kind, tail);
    }
}

/// Writing clause lines, with blank lines behind them, and reading the
/// lines back gives the clause lines.
pub proof fn lemma_parse_render_clause_lines(
    kind: LineKind,
    ls: Seq<LineView<ClauseView>>,
    blanks: Seq<Seq<char>>,
)
    requires
        clause_lines_wf(kind, ls),
        are_blank_lines(blanks),
    ensures
        parse_clause_lines(kind, render_clause_lines(ls) + blanks) == Ok::<
            Seq<LineView<ClauseView>>,
            Error,
        >(ls),
    decreases ls.len(),
{
    let lines = render_clause_lines(ls) + blanks;
    if ls.len() == 0 {
        assert(lines == blanks);
        lemma_parse_blank_lines(kind, blanks);
        assert(ls == Seq::<LineView<ClauseView>>::empty());
    } else {
        let tail = ls.drop_first();
        assert(clause_lines_wf(kind, tail)) by {
            assert forall|i: int| 0 <= i < tail.len() implies clause_line_wf(#[trigger] tail[i])
                && kind.is_typed(tail[i]) by {
                assert(tail[i] == ls[i + 1]);
            }
        }
        assert(lines[0] == render_clause_line(ls[0]));
        assert(lines.drop_first() == render_clause_lines(tail) + blanks);
        lemma_clause_line_one_line(ls[0]);
        lemma_tag_line(lines[0]);
        kind.lemma_parse_render(ls[0]);
        lemma_parse_render_clause_lines(kind, tail, blanks);
        assert(seq![ls[0]] + tail == ls);
    }
}

/// Written clause lines hold no line feed and begin no frame.
pub proof fn lemma_clause_lines_shape(kind: LineKind, ls: Seq<LineView<ClauseView>>)
    requires
        clause_lines_wf(kind, ls),
    ensures
        are_lines(render_clause_lines(ls)),
        forall|i: int|
            0 <= i < ls.len() ==> !is_frame_start(#[trigger] render_clause_lines(ls)[i]),
{
    assert forall|i: int| 0 <= i < ls.len() implies is_one_line(
        #[trigger] render_clause_lines(ls)[i],
    ) && !is_frame_start(render_clause_lines(ls)[i]) by {
        lemma_clause_line_one_line(ls[i]);
        lemma_tag_line(render_clause_line(ls[i]));
    }
}

/// Clause lines that are read from lines can be written and read back.
pub proof fn lemma_parsed_clause_lines(kind: LineKind, lines: Seq<Seq<char>>)
    ensures
        parse_clause_lines(kind, lines) matches Ok(ls) ==> clause_lines_wf(kind, ls),
    decreases lines.len(),
{
    if lines.len() > 0 {
        lemma_parsed_clause_lines(kind, lines.drop_first());
        if !is_blank_line(lines[0]) {
            kind.lemma_parsed(lines[0]);
            if let Ok(l) = kind.parse(lines[0]) {
                if let Ok(ls) = parse_clause_lines(kind, lines.drop_first()) {
                    let all = seq![l] + ls;
                    assert forall|i: int| 0 <= i < all.len() implies clause_line_wf(
                        #[trigger] all[i],
                    ) && kind.is_typed(all[i]) by {
                        if i > 0 {
                            assert(all[i] == ls[i - 1]);
                        }
                    }
                }
            }
        }
    }
}

/// What a sequence of typed clause lines is.
pub open spec fn typed_lines_view<L: LineSyntax>(v: Seq<L>) -> Seq<LineView<ClauseView>> {
    v.map_values(|l: L| l@)
}

/// Whether every line of a sequence of typed clause lines can be written
/// and read back.
pub open spec fn typed_lines_valid<L: LineSyntax>(v: Seq<L>) -> bool {
    forall|i: int| 0 <= i < v.len() ==> line_valid(#[trigger] v[i])
}

/// Tests whether every line of a sequence can be written and read back.
pub fn check_lines<L: LineSyntax>(lines: &Vec<L>) -> (b: bool)
    ensures
        b == typed_lines_valid(lines@),
{
    let mut i: usize = 0;
    while i < lines.len()
        invariant
            i <= lines.len(),
            forall|j: int| 0 <= j < i ==> line_valid(#[trigger] lines@[j]),
        decreases lines.len() - i,
    {
        if !lines[i].is_valid() {
            assert(!line_valid(lines@[i as int]));
            return false;
        }
        i = i + 1;
    }
    true
}

/// Typed clause lines that can be written and read back are, as clause
/// lines of their kind, lines that can.
pub proof fn lemma_typed_lines<L: LineSyntax>(v: Seq<L>)
    requires
        typed_lines_valid(v),
    ensures
        clause_lines_wf(L::kind(), typed_lines_view(v)),
{
    let ls = typed_lines_view(v);
    assert forall|i: int| 0 <= i < ls.len() implies clause_line_wf(#[trigger] ls[i])
        && L::kind().is_typed(ls[i]) by {
        assert(line_valid(v[i]));
        v[i].lemma_typed();
    }
}

/// Reads the clause lines that the lines `lines[from..to]` stand for.
pub fn read_clause_lines<L: LineSyntax>(lines: &Vec<Vec<char>>, from: usize, to: usize) -> (r:
    Result<Vec<L>, Error>)
    requires
        from <= to <= lines.len(),
    ensures
        match parse_clause_lines(L::kind(), lines_view(lines@).subrange(from as int, to as int)) {
            Ok(ls) => r matches Ok(found) && typed_lines_view(found@) == ls && typed_lines_valid(
                found@,
            ),
            Err(e) => r matches Err(found) && found == e,
        },
{
    let ghost window = lines_view(lines@).subrange(from as int, to as int);
    let ghost kind = L::kind();
    let mut found: Vec<L> = Vec::new();
    let mut i: usize = from;
    proof {
        assert(window.skip(0) == window);
        assert(typed_lines_view(found@) == Seq::<LineView<ClauseView>>::empty());
        if let Ok(rest) = parse_clause_lines(kind, window) {
            assert(typed_lines_view(found@) + rest == rest);
        }
    }
    while i < to
        invariant
            from <= i <= to <= lines.len(),
            kind == L::kind(),
            window == lines_view(lines@).subrange(from as int, to as int),
            typed_lines_valid(found@),
            match parse_clause_lines(kind, window.skip(i - from)) {
                Ok(rest) => parse_clause_lines(kind, window) == Ok::<
                    Seq<LineView<ClauseView>>,
                    Error,
                >(typed_lines_view(found@) + rest),
                Err(e) => parse_clause_lines(kind, window) == Err::<
                    Seq<LineView<ClauseView>>,
                    Error,
                >(e),
            },
        decreases to - i,
    {
        let line = &lines[i];
        let ghost here = window.skip(i - from);
        proof {
            assert(here[0] == line@);
            assert(here.drop_first() == window.skip(i + 1 - from));
        }
        if !check_blank_line(line) {
            match L::read(line) {
                Ok(l) => {
                    let ghost before = typed_lines_view(found@);
                    let ghost lv = l@;
                    let ghost old_found = found@;
                    found.push(l);
                    proof {
                        assert forall|j: int| 0 <= j < found@.len() implies line_valid(
                            #[trigger] found@[j],
                        ) by {
                            if j < old_found.len() {
                                assert(found@[j] == old_found[j]);
                            }
                        }
                        assert(typed_lines_view(found@) == before.push(lv));
                        if let Ok(rest) = parse_clause_lines(kind, here.drop_first()) {
                            assert(before.push(lv) + rest == before + (seq![lv] + rest));
                        }
                    }
                },
                Err(e) => {
                    return Err(e);
                },
            }
        }
        i = i + 1;
    }
    proof {
        assert(window.skip(to - from) == Seq::<Seq<char>>::empty());
        assert(typed_lines_view(found@) + Seq::<LineView<ClauseView>>::empty()
            == typed_lines_view(found@));
    }
    Ok(found)
}

/// Appends to `out` the texts of the clause lines from the `i`-th on, each
/// with a line feed behind it.
pub fn write_clause_lines<L: LineSyntax>(out: &mut Vec<char>, clauses: &Vec<L>, i: usize)
    requires
        i <= clauses.len(),
    ensures
        final(out)@ == old(out)@ + join_lines(
            render_clause_lines(typed_lines_view(clauses@)).skip(i as int),
        ),
    decreases clauses.len() - i,
{
    let ghost all = render_clause_lines(typed_lines_view(clauses@));
    if i < clauses.len() {
        clauses[i].write(out);
        out.push('\n');
        write_clause_lines(out, clauses, i + 1);
        proof {
            let here = all.skip(i as int);
            assert(here[0] == render_clause_line(clauses@[i as int]@));
            assert(here.drop_first() == all.skip(i + 1));
            assert(out@ == old(out)@ + join_lines(here));
        }
    } else {
        assert(all.skip(i as int) == Seq::<Seq<char>>::empty());
        assert(out@ == old(out)@ + join_lines(all.skip(i as int)));
    }
}

/// The three kinds of entity frame.
#[derive(Clone, Copy, Debug, PartialEq, Eq, Hash, Structural)]
pub enum EntityKind {
    Term,
    Typedef,
    Instance,
}

impl EntityKind {
    /// The title line of a frame of the kind.
    pub open spec fn marker(self) -> Seq<char> {
        match self {
            EntityKind::Term => seq!['[', 'T', 'e', 'r', 'm', ']'],
            EntityKind::Typedef => seq!['[', 'T', 'y', 'p', 'e', 'd', 'e', 'f', ']'],
            EntityKind::Instance => seq!['[', 'I', 'n', 's', 't', 'a', 'n', 'c', 'e', ']'],
        }
    }

    /// The kind of the clause lines of a frame of the kind.
    pub open spec fn line_kind(self) -> LineKind {
        match self {
            EntityKind::Term => LineKind::Term,
            EntityKind::Typedef => LineKind::Typedef,
            EntityKind::Instance => LineKind::Instance,
        }
    }

    /// The rule that errors in the title or the identifier of a frame of
    /// the kind name.
    pub open spec fn rule(self) -> Rule {
        match self {
            EntityKind::Term => Rule::TermFrame,
            EntityKind::Typedef => Rule::TypedefFrame,
            EntityKind::Instance => Rule::InstanceFrame,
        }
    }

    /// The title line of a frame of the kind.
    pub fn marker_str(self) -> (s: &'static str)
        ensures
            s@ == self.marker(),
    {
        match self {
            EntityKind::Term => {
                proof {
                    reveal_strlit("[Term]");
                }
                assert("[Term]"@ =~= self.marker());
                "[Term]"
            },
            EntityKind::Typedef => {
                proof {
                    reveal_strlit("[Typedef]");
                }
                assert("[Typedef]"@ =~= self.marker());
                "[Typedef]"
            },
            EntityKind::Instance => {
                proof {
                    reveal_strlit("[Instance]");
                }
                assert("[Instance]"@ =~= self.marker());
                "[Instance]"
            },
        }
    }

    /// The rule that errors in the title or the identifier of a frame of
    /// the kind name.
    pub fn frame_rule(self) -> (r: Rule)
        ensures
            r == self.rule(),
    {
        match self {
            EntityKind::Term => Rule::TermFrame,
            EntityKind::Typedef => Rule::TypedefFrame,
            EntityKind::Instance => Rule::InstanceFrame,
        }
    }
}

/// What an entity frame is: the line of its identifier, and its clause
/// lines.
pub struct FrameView {
    pub id: LineView<IdentView>,
    pub clauses: Seq<LineView<ClauseView>>,
}

impl FrameView {
    /// What can be written and read back as a frame of the kind.
    pub open spec fn wf(self, kind: EntityKind) -> bool {
        self.id.inner.wf() && self.id.trailer.wf() && clause_lines_wf(
            kind.line_kind(),
            self.clauses,
        )
    }
}

/// The text of the line that gives the identifier of a frame.
pub open spec fn render_id_line(id: LineView<IdentView>) -> Seq<char> {
    seq!['i', 'd', ':', ' '] + render_ident(id.inner) + render_trailer(id.trailer)
}

/// The line of an identifier that a text stands for: `id: `, one
/// identifier, and what stands behind it.
pub open spec fn parse_id_line(s: Seq<char>) -> Option<LineView<IdentView>> {
    if s.len() >= 4 && s[0] == 'i' && s[1] == 'd' && s[2] == ':' && s[3] == ' ' {
        match parse_value(Shape::Tokens, s.skip(4)) {
            Some((ValueView::Tokens(ts), trailer)) => {
                if ts.len() == 1 {
                    match ts[0] {
                        TokenView::Ident(id) => Some(LineView { inner: id, trailer }),
                        _ => None,
                    }
                } else {
                    None
                }
            },
            _ => None,
        }
    } else {
        None
    }
}

/// Writing the line of an identifier and reading the text back gives the
/// line.
pub proof fn lemma_parse_render_id_line(id: LineView<IdentView>)
    requires
        id.inner.wf(),
        id.trailer.wf(),
    ensures
        parse_id_line(render_id_line(id)) == Some(id),
        is_one_line(render_id_line(id)),
        !is_blank_line(render_id_line(id)),
        !is_frame_start(render_id_line(id)),
{
    let s = render_id_line(id);
    let value = ValueView::Tokens(seq![TokenView::Ident(id.inner)]);
    assert(value.wf());
    lemma_parse_render_value(value, id.trailer);
    assert(render_tokens(seq![TokenView::Ident(id.inner)]) == render_ident(id.inner));
    assert(s.skip(4) == render_ident(id.inner) + render_trailer(id.trailer));
    lemma_ident_one_line(id.inner);
    lemma_trailer_one_line(id.trailer);
    lemma_one_line_concat(seq!['i', 'd', ':', ' '], render_ident(id.inner));
    lemma_one_line_concat(
        seq!['i', 'd', ':', ' '] + render_ident(id.inner),
        render_trailer(id.trailer),
    );
    assert(s[0] == 'i');
    lemma_tag_line(s);
}

/// The line of an identifier that is read from a text can be written and
/// read back.
pub proof fn lemma_parsed_id_line(s: Seq<char>)
    ensures
        parse_id_line(s) matches Some(l) ==> l.inner.wf() && l.trailer.wf(),
{
    if s.len() >= 4 {
        lemma_parsed_value_wf(Shape::Tokens, s.skip(4));
        if let Some((ValueView::Tokens(ts), trailer)) = parse_value(Shape::Tokens, s.skip(4)) {
            if ts.len() == 1 {
                assert(ts[0].wf());
            }
        }
    }
}

/// The lines of an entity frame: its title, the line of its identifier,
/// and its clause lines.
pub open spec fn render_frame_lines(kind: EntityKind, f: FrameView) -> Seq<Seq<char>> {
    seq![kind.marker(), render_id_line(f.id)] + render_clause_lines(f.clauses)
}

/// The frame of the kind that a sequence of lines stands for: the first
/// line is the title of the kind, the second gives the identifier, the
/// others are clause lines.
pub open spec fn parse_frame_lines(kind: EntityKind, lines: Seq<Seq<char>>) -> Result<
    FrameView,
    Error,
> {
    if lines.len() >= 2 && lines[0] == kind.marker() {
        match parse_id_line(lines[1]) {
            Some(id) => match parse_clause_lines(kind.line_kind(), lines.skip(2)) {
                Ok(clauses) => Ok(FrameView { id, clauses }),
                Err(e) => Err(e),
            },
            None => Err(Error::SyntaxError { rule: kind.rule() }),
        }
    } else {
        Err(Error::SyntaxError { rule: kind.rule() })
    }
}

/// Writing a frame, with blank lines behind it, and reading the lines back
/// gives the frame.
pub proof fn lemma_parse_render_frame(kind: EntityKind, f: FrameView, blanks: Seq<Seq<char>>)
    requires
        f.wf(kind),
        are_blank_lines(blanks),
    ensures
        parse_frame_lines(kind, render_frame_lines(kind, f) + blanks) == Ok::<FrameView, Error>(
            f,
        ),
{
    let lines = render_frame_lines(kind, f) + blanks;
    assert(lines[0] == kind.marker());
    assert(lines[1] == render_id_line(f.id));
    lemma_parse_render_id_line(f.id);
    assert(lines.skip(2) == render_clause_lines(f.clauses) + blanks);
    lemma_parse_render_clause_lines(kind.line_kind(), f.clauses, blanks);
}

/// A frame that is read from lines can be written and read back.
pub proof fn lemma_parsed_frame(kind: EntityKind, lines: Seq<Seq<char>>)
    ensures
        parse_frame_lines(kind, lines) matches Ok(f) ==> f.wf(kind),
{
    if lines.len() >= 2 {
        lemma_parsed_id_line(lines[1]);
        lemma_parsed_clause_lines(kind.line_kind(), lines.skip(2));
    }
}

/// The title of a frame begins a frame and holds no line feed.
pub proof fn lemma_marker(kind: EntityKind)
    ensures
        is_frame_start(kind.marker()),
        is_one_line(kind.marker()),
        kind.marker().len() > 0,
        kind.marker()[0] == '[',
{
}

/// The lines of a written frame hold no line feed; the first begins a
/// frame and the others do not.
pub proof fn lemma_frame_lines_shape(kind: EntityKind, f: FrameView)
    requires
        f.wf(kind),
    ensures
        are_lines(render_frame_lines(kind, f)),
        is_frame_start(render_frame_lines(kind, f)[0]),
        forall|i: int|
            1 <= i < render_frame_lines(kind, f).len() ==> !is_frame_start(
                #[trigger] render_frame_lines(kind, f)[i],
            ),
{
    let lines = render_frame_lines(kind, f);
    lemma_marker(kind);
    lemma_parse_render_id_line(f.id);
    lemma_clause_lines_shape(kind.line_kind(), f.clauses);
    assert forall|i: int| 0 <= i < lines.len() implies is_one_line(#[trigger] lines[i]) && (i
        >= 1 ==> !is_frame_start(lines[i])) by {
        if i >= 2 {
            assert(lines[i] == render_clause_lines(f.clauses)[i - 2]);
        }
    }
}

/// The text of a frame: its title, the line of its identifier and its
/// clause lines, each with a line feed behind it.
pub proof fn lemma_join_frame_lines(kind: EntityKind, f: FrameView)
    ensures
        join_lines(render_frame_lines(kind, f)) == kind.marker() + seq!['\n'] + render_id_line(
            f.id,
        ) + seq!['\n'] + join_lines(render_clause_lines(f.clauses)),
{
    let head = seq![kind.marker(), render_id_line(f.id)];
    lemma_join_concat(head, render_clause_lines(f.clauses));
    assert(join_lines(head) == kind.marker() + seq!['\n'] + render_id_line(f.id) + seq!['\n'])
        by {
        reveal_with_fuel(join_lines, 3);
        assert(head.drop_first() == seq![render_id_line(f.id)]);
        assert(head.drop_first().drop_first() == Seq::<Seq<char>>::empty());
    }
}

/// Reads the frame of the kind that the lines `lines[from..to]` stand for:
/// gives the line of its identifier and its clause lines.
pub fn read_frame<L: LineSyntax>(
    kind: EntityKind,
    lines: &Vec<Vec<char>>,
    from: usize,
    to: usize,
) -> (r: Result<(Line<Ident>, Vec<L>), Error>)
    requires
        from <= to <= lines.len(),
        L::kind() == kind.line_kind(),
    ensures
        match parse_frame_lines(kind, lines_view(lines@).subrange(from as int, to as int)) {
            Ok(f) => r matches Ok((id, clauses)) && id@ == f.id && typed_lines_view(clauses@)
                == f.clauses && f.id.inner.wf() && f.id.trailer.wf() && typed_lines_valid(
                clauses@,
            ),
            Err(e) => r matches Err(found) && found == e,
        },
{
    let ghost window = lines_view(lines@).subrange(from as int, to as int);
    let fail = Err(Error::SyntaxError { rule: kind.frame_rule() });
    if to - from < 2 {
        return fail;
    }
    let title = &lines[from];
    assert(window[0] == title@);
    assert(title@.subrange(0, title@.len() as int) == title@);
    if !chars_eq(title, 0, title.len(), kind.marker_str()) {
        return fail;
    }
    let second = &lines[from + 1];
    assert(window[1] == second@);
    let id = match read_id_line(second) {
        Some(id) => id,
        None => {
            return fail;
        },
    };
    assert(window.skip(2) == lines_view(lines@).subrange(from + 2, to as int));
    match read_clause_lines::<L>(lines, from + 2, to) {
        Ok(clauses) => Ok((id, clauses)),
        Err(e) => Err(e),
    }
}

/// Reads the line of an identifier that the whole of `v` stands for.
pub fn read_id_line(v: &Vec<char>) -> (r: Option<Line<Ident>>)
    ensures
        match parse_id_line(v@) {
            Some(l) => r matches Some(found) && found@ == l && l.inner.wf() && l.trailer.wf(),
            None => r is None,
        },
{
    if v.len() < 4 || v[0] != 'i' || v[1] != 'd' || v[2] != ':' || v[3] != ' ' {
        return None;
    }
    assert(v@.skip(4) == v@.subrange(4, v@.len() as int));
    match Value::read(Shape::Tokens, v, 4, v.len()) {
        Some((Value::Tokens(tokens), trailer)) => match take_one(tokens) {
            Some(token) => match token.into_ident() {
                Some(id) => Some(Line::with_trailer(id, trailer)),
                None => None,
            },
            None => None,
        },
        _ => None,
    }
}

/// Appends to `out` the title of a frame and the line of its identifier,
/// each with a line feed behind it.
pub fn write_frame_head(out: &mut Vec<char>, kind: EntityKind, id: &Ident, trailer: &Trailer)
    ensures
        final(out)@ == old(out)@ + kind.marker() + seq!['\n'] + render_id_line(
            LineView { inner: id@, trailer: trailer@ },
        ) + seq!['\n'],
{
    push_chars(out, kind.marker_str());
    out.push('\n');
    out.push('i');
    out.push('d');
    out.push(':');
    out.push(' ');
    id.write(out);
    trailer.write(out);
    out.push('\n');
    assert(out@ == old(out)@ + kind.marker() + seq!['\n'] + render_id_line(
        LineView { inner: id@, trailer: trailer@ },
    ) + seq!['\n']);
}

} // verus!
