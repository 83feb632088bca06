//! Documents: a header frame followed by entity frames.
//!
//! In the text of a document a frame begins at each line whose first
//! character that is no blank is an opening square bracket. What stands in
//! front of the first such line is the header frame.

use crate::clause::LineKind;
use crate::error::{Error, Rule};
use crate::frame::{
    are_blank_lines, check_frame_start, clause_lines_wf, is_blank_line, is_frame_start,
    lemma_clause_lines_shape, lemma_frame_lines_shape, lemma_parse_render_clause_lines,
    lemma_parse_render_frame, lemma_parsed_clause_lines, lemma_parsed_frame, parse_clause_lines,
    parse_frame_lines, render_clause_lines, render_frame_lines, EntityKind, FrameView,
};
use crate::header::frame::HeaderFrame;
use crate::instance::frame::InstanceFrame;
use crate::line::{ClauseView, LineView};
use crate::lines::{
    are_lines, join_lines, lemma_join_concat, lemma_lines_of_join, lines_of, lines_view,
    split_lines,
};
use crate::term::frame::TermFrame;
use crate::text::{chars_eq, chars_of, is_one_line, string_from};
use crate::typedef::frame::TypedefFrame;
use vstd::prelude::*;

verus! {

/// What an entity frame is: its kind, and the frame.
pub struct EntityView {
    pub kind: EntityKind,
    pub frame: FrameView,
}

/// What a document is: the clause lines of its header, and its entity
/// frames.
pub struct DocView {
    pub header: Seq<LineView<ClauseView>>,
    pub entities: Seq<EntityView>,
}

/// The entity frame that a sequence of lines stands for: the first line is
/// the title of one of the three kinds, and decides the kind.
pub open spec fn parse_entity_lines(lines: Seq<Seq<char>>) -> Result<EntityView, Error> {
    if lines.len() > 0 && lines[0] == EntityKind::Term.marker() {
        entity_of(EntityKind::Term, parse_frame_lines(EntityKind::Term, lines))
    } else if lines.len() > 0 && lines[0] == EntityKind::Typedef.marker() {
        entity_of(EntityKind::Typedef, parse_frame_lines(EntityKind::Typedef, lines))
    } else if lines.len() > 0 && lines[0] == EntityKind::Instance.marker() {
        entity_of(EntityKind::Instance, parse_frame_lines(EntityKind::Instance, lines))
    } else {
        Err(Error::SyntaxError { rule: Rule::EntityFrame })
    }
}

/// A frame of a kind as an entity frame.
pub open spec fn entity_of(kind: EntityKind, frame: Result<FrameView, Error>) -> Result<
    EntityView,
    Error,
> {
    match frame {
        Ok(frame) => Ok(EntityView { kind, frame }),
        Err(e) => Err(e),
    }
}

/// The number of lines at the start of a sequence that begin no frame.
pub open spec fn chunk_len(lines: Seq<Seq<char>>) -> int
    decreases lines.len(),
{
    if lines.len() > 0 && !is_frame_start(lines[0]) {
        1 + chunk_len(lines.drop_first())
    } else {
        0
    }
}

/// The lines that begin no frame at the start of a sequence are within the
/// sequence.
pub proof fn lemma_chunk_len(lines: Seq<Seq<char>>)
    ensures
        0 <= chunk_len(lines) <= lines.len(),
        chunk_len(lines) < lines.len() ==> is_frame_start(lines[chunk_len(lines)]),
    decreases lines.len(),
{
    if lines.len() > 0 && !is_frame_start(lines[0]) {
        lemma_chunk_len(lines.drop_first());
    }
}

/// Lines that begin no frame, in front of a line that begins one or of
/// nothing, are counted whole.
pub proof fn lemma_chunk_len_of(chunk: Seq<Seq<char>>, rest: Seq<Seq<char>>)
    requires
        forall|i: int| 0 <= i < chunk.len() ==> !is_frame_start(#[trigger] chunk[i]),
        rest.len() == 0 || is_frame_start(rest[0]),
    ensures
        chunk_len(chunk + rest) == chunk.len(),
    decreases chunk.len(),
{
    let lines = chunk + rest;
    if chunk.len() == 0 {
        assert(lines == rest);
    } else {
        assert(lines[0] == chunk[0]);
        let tail = chunk.drop_first();
        assert forall|i: int| 0 <= i < tail.len() implies !is_frame_start(#[trigger] tail[i]) by {
            assert(tail[i] == chunk[i + 1]);
        }
        assert(lines.drop_first() == tail + rest);
        lemma_chunk_len_of(tail, rest);
    }
}

/// The entity frames that a sequence of lines stands for. Each frame runs
/// from its first line up to the next line that begins a frame. The first
/// frame that cannot be read decides the error.
pub open spec fn parse_entities(lines: Seq<Seq<char>>) -> Result<Seq<EntityView>, Error>
    decreases lines.len(),
{
    if lines.len() == 0 {
        Ok(Seq::<EntityView>::empty())
    } else {
        let n = 1 + chunk_len(lines.drop_first());
        if n < 1 || n > lines.len() {
            Err(Error::SyntaxError { rule: Rule::EntityFrame })
        } else {
            match parse_entity_lines(lines.take(n)) {
                Ok(entity) => match parse_entities(lines.skip(n)) {
                    Ok(entities) => Ok(seq![entity] + entities),
                    Err(e) => Err(e),
                },
                Err(e) => Err(e),
            }
        }
    }
}

/// The document that a sequence of lines stands for: the lines in front of
/// the first line that begins a frame are the header, the others are the
/// entity frames. An error in the header comes before one in a frame.
pub open spec fn parse_doc_lines(lines: Seq<Seq<char>>) -> Result<DocView, Error> {
    let h = chunk_len(lines);
    match parse_clause_lines(LineKind::Header, lines.take(h)) {
        Ok(header) => match parse_entities(lines.skip(h)) {
            Ok(entities) => Ok(DocView { header, entities }),
            Err(e) => Err(e),
        },
        Err(e) => Err(e),
    }
}

/// The document that a text stands for.
pub open spec fn parse_doc(text: Seq<char>) -> Result<DocView, Error> {
    parse_doc_lines(lines_of(text))
}

/// One empty line where `more` holds, else nothing.
pub open spec fn separator(more: bool) -> Seq<Seq<char>> {
    if more {
        seq![Seq::<char>::empty()]
    } else {
        Seq::<Seq<char>>::empty()
    }
}

/// The lines of a sequence of entity frames, with an empty line between
/// one frame and the next.
pub open spec fn render_entities_lines(es: Seq<EntityView>) -> Seq<Seq<char>>
    decreases es.len(),
{
    if es.len() == 0 {
        Seq::<Seq<char>>::empty()
    } else {
        render_frame_lines(es[0].kind, es[0].frame) + separator(es.len() > 1)
            + render_entities_lines(es.drop_first())
    }
}

/// The lines of a document: those of the header and those of the entity
/// frames, with an empty line between the two.
pub open spec fn render_doc_lines(d: DocView) -> Seq<Seq<char>> {
    render_clause_lines(d.header) + separator(d.entities.len() > 0) + render_entities_lines(
        d.entities,
    )
}

/// The text of a document.
pub open spec fn render_doc(d: DocView) -> Seq<char> {
    join_lines(render_doc_lines(d))
}

/// Whether every frame of a sequence can be written and read back.
pub open spec fn entities_wf(es: Seq<EntityView>) -> bool {
    forall|i: int| 0 <= i < es.len() ==> (#[trigger] es[i]).frame.wf(es[i].kind)
}

impl DocView {
    /// What can be written and read back: the header and every frame can.
    pub open spec fn wf(self) -> bool {
        clause_lines_wf(LineKind::Header, self.header) && entities_wf(self.entities)
    }
}

/// The lines of written entity frames hold no line feed, and the first of
/// them, if there is one, begins a frame.
pub proof fn lemma_entities_lines_shape(es: Seq<EntityView>)
    requires
        entities_wf(es),
    ensures
        are_lines(render_entities_lines(es)),
        es.len() > 0 ==> render_entities_lines(es).len() > 0 && is_frame_start(
            render_entities_lines(es)[0],
        ),
    decreases es.len(),
{
    if es.len() > 0 {
        let tail = es.drop_first();
        assert(entities_wf(tail)) by {
            assert forall|i: int| 0 <= i < tail.len() implies (#[trigger] tail[i]).frame.wf(
                tail[i].kind,
            ) by {
                assert(tail[i] == es[i + 1]);
            }
        }
        lemma_entities_lines_shape(tail);
        lemma_frame_lines_shape(es[0].kind, es[0].frame);
        let f = render_frame_lines(es[0].kind, es[0].frame);
        let sep = separator(es.len() > 1);
        let r = render_entities_lines(tail);
        let all = render_entities_lines(es);
        assert forall|i: int| 0 <= i < all.len() implies is_one_line(
            #[trigger] all[i],
        ) by {
            if i < f.len() {
                assert(all[i] == f[i]);
            } else if i < f.len() + sep.len() {
                assert(all[i] == sep[i - f.len()]);
            } else {
                assert(all[i] == r[i - f.len() - sep.len()]);
            }
        }
        assert(all[0] == f[0]);
    }
}

/// The titles of the three kinds are three different lines.
pub proof fn lemma_markers_differ()
    ensures
        EntityKind::Term.marker() != EntityKind::Typedef.marker(),
        EntityKind::Term.marker() != EntityKind::Instance.marker(),
        EntityKind::Typedef.marker() != EntityKind::Instance.marker(),
{
    assert(EntityKind::Term.marker().len() == 6);
    assert(EntityKind::Typedef.marker().len() == 9);
    assert(EntityKind::Instance.marker().len() == 10);
}

/// The lines of a written frame, with blank lines behind them and in front
/// of a line that begins a frame or of nothing, are the first frame of the
/// whole, and stand for the frame that was written.
pub proof fn lemma_first_entity(e: EntityView, sep: Seq<Seq<char>>, rest: Seq<Seq<char>>)
    requires
        e.frame.wf(e.kind),
        are_blank_lines(sep),
        rest.len() == 0 || is_frame_start(rest[0]),
    ensures
        ({
            let chunk = render_frame_lines(e.kind, e.frame) + sep;
            let lines = chunk + rest;
            &&& lines.len() > 0
            &&& 1 + chunk_len(lines.drop_first()) == chunk.len()
            &&& lines.take(chunk.len() as int) == chunk
            &&& lines.skip(chunk.len() as int) == rest
            &&& parse_entity_lines(chunk) == Ok::<EntityView, Error>(e)
        }),
{
    let f = render_frame_lines(e.kind, e.frame);
    let chunk = f + sep;
    let lines = chunk + rest;
    lemma_frame_lines_shape(e.kind, e.frame);
    let tail = chunk.drop_first();
    assert(lines.drop_first() == tail + rest);
    assert forall|i: int| 0 <= i < tail.len() implies !is_frame_start(#[trigger] tail[i]) by {
        if i < f.len() - 1 {
            assert(tail[i] == f[i + 1]);
        } else {
            assert(tail[i] == sep[i - (f.len() - 1)]);
            assert(is_blank_line(sep[i - (f.len() - 1)]));
        }
    }
    lemma_chunk_len_of(tail, rest);
    lemma_parse_render_frame(e.kind, e.frame, sep);
    lemma_markers_differ();
    assert(chunk[0] == e.kind.marker());
}

/// Writing entity frames and reading the lines back gives the frames.
pub proof fn lemma_parse_render_entities(es: Seq<EntityView>)
    requires
        entities_wf(es),
    ensures
        parse_entities(render_entities_lines(es)) == Ok::<Seq<EntityView>, Error>(es),
    decreases es.len(),
{
    if es.len() == 0 {
        assert(es == Seq::<EntityView>::empty());
    } else {
        let tail = es.drop_first();
        assert(entities_wf(tail)) by {
            assert forall|i: int| 0 <= i < tail.len() implies (#[trigger] tail[i]).frame.wf(
                tail[i].kind,
            ) by {
                assert(tail[i] == es[i + 1]);
            }
        }
        let sep = separator(es.len() > 1);
        let rest = render_entities_lines(tail);
        lemma_entities_lines_shape(tail);
        assert(are_blank_lines(sep));
        lemma_first_entity(es[0], sep, rest);
        lemma_parse_render_entities(tail);
        assert(seq![es[0]] + tail == es);
    }
}

/// Writing a document and reading the lines back gives the document.
pub proof fn lemma_parse_render_doc_lines(d: DocView)
    requires
        d.wf(),
    ensures
        parse_doc_lines(render_doc_lines(d)) == Ok::<DocView, Error>(d),
        are_lines(render_doc_lines(d)),
{
    let h = render_clause_lines(d.header);
    let sep = separator(d.entities.len() > 0);
    let e = render_entities_lines(d.entities);
    let all = render_doc_lines(d);
    lemma_clause_lines_shape(LineKind::Header, d.header);
    lemma_entities_lines_shape(d.entities);
    let chunk = h + sep;
    assert(all == chunk + e);
    assert forall|i: int| 0 <= i < chunk.len() implies !is_frame_start(#[trigger] chunk[i]) by {
        if i < h.len() {
            assert(chunk[i] == h[i]);
        } else {
            assert(chunk[i] == Seq::<char>::empty());
        }
    }
    lemma_chunk_len_of(chunk, e);
    assert(all.take(chunk.len() as int) == chunk);
    assert(all.skip(chunk.len() as int) == e);
    assert(are_blank_lines(sep));
    lemma_parse_render_clause_lines(LineKind::Header, d.header, sep);
    lemma_parse_render_entities(d.entities);
    assert forall|i: int| 0 <= i < all.len() implies is_one_line(#[trigger] all[i]) by {
        if i < h.len() {
            assert(all[i] == h[i]);
        } else if i < h.len() + sep.len() {
            assert(all[i] == sep[i - h.len()]);
        } else {
            assert(all[i] == e[i - h.len() - sep.len()]);
        }
    }
}

/// Writing a document and reading the text back gives the document.
pub proof fn lemma_parse_render_doc(d: DocView)
    requires
        d.wf(),
    ensures
        parse_doc(render_doc(d)) == Ok::<DocView, Error>(d),
{
    lemma_parse_render_doc_lines(d);
    lemma_lines_of_join(render_doc_lines(d));
}

/// Entity frames that are read from lines can be written and read back.
pub proof fn lemma_parsed_entities(lines: Seq<Seq<char>>)
    ensures
        parse_entities(lines) matches Ok(es) ==> entities_wf(es),
    decreases lines.len(),
{
    if lines.len() > 0 {
        let n = 1 + chunk_len(lines.drop_first());
        lemma_chunk_len(lines.drop_first());
        let chunk = lines.take(n);
        lemma_parsed_frame(EntityKind::Term, chunk);
        lemma_parsed_frame(EntityKind::Typedef, chunk);
        lemma_parsed_frame(EntityKind::Instance, chunk);
        lemma_parsed_entities(lines.skip(n));
        if let Ok(e) = parse_entity_lines(chunk) {
            if let Ok(es) = parse_entities(lines.skip(n)) {
                let all = seq![e] + es;
                assert forall|i: int| 0 <= i < all.len() implies (#[trigger] all[i]).frame.wf(
                    all[i].kind,
                ) by {
                    if i > 0 {
                        assert(all[i] == es[i - 1]);
                    }
                }
            }
        }
    }
}

/// A document that is read from a text can be written and read back.
pub proof fn lemma_parsed_doc(text: Seq<char>)
    ensures
        parse_doc(text) matches Ok(d) ==> d.wf(),
{
    let lines = lines_of(text);
    let h = chunk_len(lines);
    lemma_chunk_len(lines);
    lemma_parsed_clause_lines(LineKind::Header, lines.take(h));
    lemma_parsed_entities(lines.skip(h));
}

/// Reading a text, writing the document and reading what was written gives
/// the document again.
pub proof fn lemma_reparse(text: Seq<char>)
    ensures
        parse_doc(text) matches Ok(d) ==> parse_doc(render_doc(d)) == Ok::<DocView, Error>(d),
{
    lemma_parsed_doc(text);
    if let Ok(d) = parse_doc(text) {
        lemma_parse_render_doc(d);
    }
}

/// Two documents that are written as the same text are the same document.
pub proof fn lemma_render_injective(a: DocView, b: DocView)
    requires
        a.wf(),
        b.wf(),
        render_doc(a) == render_doc(b),
    ensures
        a == b,
{
    lemma_parse_render_doc(a);
    lemma_parse_render_doc(b);
}

/// An entity frame: a term frame, a typedef frame or an instance frame.
#[derive(Debug, PartialEq, Eq, Hash)]
pub enum EntityFrame {
    Term(TermFrame),
    Typedef(TypedefFrame),
    Instance(InstanceFrame),
}

impl View for EntityFrame {
    type V = EntityView;

    open spec fn view(&self) -> EntityView {
        match self {
            EntityFrame::Term(f) => EntityView { kind: EntityKind::Term, frame: f@ },
            EntityFrame::Typedef(f) => EntityView { kind: EntityKind::Typedef, frame: f@ },
            EntityFrame::Instance(f) => EntityView { kind: EntityKind::Instance, frame: f@ },
        }
    }
}

impl From<TermFrame> for EntityFrame {
    fn from(frame: TermFrame) -> (r: Self) {
        EntityFrame::Term(frame)
    }
}

impl vstd::std_specs::convert::FromSpecImpl<TermFrame> for EntityFrame {
    open spec fn obeys_from_spec() -> bool {
        true
    }

    open spec fn from_spec(frame: TermFrame) -> Self {
        EntityFrame::Term(frame)
    }
}

impl From<TypedefFrame> for EntityFrame {
    fn from(frame: TypedefFrame) -> (r: Self) {
        EntityFrame::Typedef(frame)
    }
}

impl vstd::std_specs::convert::FromSpecImpl<TypedefFrame> for EntityFrame {
    open spec fn obeys_from_spec() -> bool {
        true
    }

    open spec fn from_spec(frame: TypedefFrame) -> Self {
        EntityFrame::Typedef(frame)
    }
}

impl From<InstanceFrame> for EntityFrame {
    fn from(frame: InstanceFrame) -> (r: Self) {
        EntityFrame::Instance(frame)
    }
}

impl vstd::std_specs::convert::FromSpecImpl<InstanceFrame> for EntityFrame {
    open spec fn obeys_from_spec() -> bool {
        true
    }

    open spec fn from_spec(frame: InstanceFrame) -> Self {
        EntityFrame::Instance(frame)
    }
}

impl EntityFrame {
    /// The kind of the frame.
    pub fn kind(&self) -> (r: EntityKind)
        ensures
            r == self@.kind,
    {
        match self {
            EntityFrame::Term(_) => EntityKind::Term,
            EntityFrame::Typedef(_) => EntityKind::Typedef,
            EntityFrame::Instance(_) => EntityKind::Instance,
        }
    }

    /// The rule that the frame is a derivation of.
    pub fn rule(&self) -> (r: Rule)
        ensures
            r == self@.kind.rule(),
    {
        match self {
            EntityFrame::Term(_) => Rule::TermFrame,
            EntityFrame::Typedef(_) => Rule::TypedefFrame,
            EntityFrame::Instance(_) => Rule::InstanceFrame,
        }
    }

    /// The term frame that the frame is; for a frame of another kind, the
    /// error that names both kinds.
    pub fn into_term(self) -> (r: Result<TermFrame, Error>)
        ensures
            match self {
                EntityFrame::Term(f) => r == Ok::<TermFrame, Error>(f),
                _ => r == Err::<TermFrame, Error>(
                    Error::GrammarMismatch { expected: Rule::TermFrame, found: self@.kind.rule() },
                ),
            },
    {
        let found = self.rule();
        match self {
            EntityFrame::Term(f) => Ok(f),
            _ => Err(Error::GrammarMismatch { expected: Rule::TermFrame, found }),
        }
    }

    /// The typedef frame that the frame is; for a frame of another kind,
    /// the error that names both kinds.
    pub fn into_typedef(self) -> (r: Result<TypedefFrame, Error>)
        ensures
            match self {
                EntityFrame::Typedef(f) => r == Ok::<TypedefFrame, Error>(f),
                _ => r == Err::<TypedefFrame, Error>(
                    Error::GrammarMismatch {
                        expected: Rule::TypedefFrame,
                        found: self@.kind.rule(),
                    },
                ),
            },
    {
        let found = self.rule();
        match self {
            EntityFrame::Typedef(f) => Ok(f),
            _ => Err(Error::GrammarMismatch { expected: Rule::TypedefFrame, found }),
        }
    }

    /// The instance frame that the frame is; for a frame of another kind,
    /// the error that names both kinds.
    pub fn into_instance(self) -> (r: Result<InstanceFrame, Error>)
        ensures
            match self {
                EntityFrame::Instance(f) => r == Ok::<InstanceFrame, Error>(f),
                _ => r == Err::<InstanceFrame, Error>(
                    Error::GrammarMismatch {
                        expected: Rule::InstanceFrame,
                        found: self@.kind.rule(),
                    },
                ),
            },
    {
        let found = self.rule();
        match self {
            EntityFrame::Instance(f) => Ok(f),
            _ => Err(Error::GrammarMismatch { expected: Rule::InstanceFrame, found }),
        }
    }

    /// Appends the text of the frame to `out`.
    pub fn write(&self, out: &mut Vec<char>)
        ensures
            final(out)@ == old(out)@ + join_lines(render_frame_lines(self@.kind, self@.frame)),
    {
        match self {
            EntityFrame::Term(f) => f.write(out),
            EntityFrame::Typedef(f) => f.write(out),
            EntityFrame::Instance(f) => f.write(out),
        }
    }

    /// The text of the frame.
    pub fn to_string(&self) -> (s: String)
        ensures
            s@ == join_lines(render_frame_lines(self@.kind, self@.frame)),
    {
        let mut out: Vec<char> = Vec::new();
        self.write(&mut out);
        string_from(&out)
    }

    /// Reads the entity frame that the lines `lines[from..to]` stand for.
    /// The title decides which of the three kinds of frame is read.
    pub fn from_lines(lines: &Vec<Vec<char>>, from: usize, to: usize) -> (r: Result<Self, Error>)
        requires
            from <= to <= lines.len(),
        ensures
            match parse_entity_lines(lines_view(lines@).subrange(from as int, to as int)) {
                Ok(entity) => r matches Ok(found) && found@ == entity && found.valid(),
                Err(e) => r matches Err(found) && found == e,
            },
    {
        let ghost window = lines_view(lines@).subrange(from as int, to as int);
        if from == to {
            return Err(Error::SyntaxError { rule: Rule::EntityFrame });
        }
        let title = &lines[from];
        assert(window[0] == title@);
        assert(title@.subrange(0, title@.len() as int) == title@);
        if chars_eq(title, 0, title.len(), EntityKind::Term.marker_str()) {
            match TermFrame::from_lines(lines, from, to) {
                Ok(f) => Ok(EntityFrame::Term(f)),
                Err(e) => Err(e),
            }
        } else if chars_eq(title, 0, title.len(), EntityKind::Typedef.marker_str()) {
            match TypedefFrame::from_lines(lines, from, to) {
                Ok(f) => Ok(EntityFrame::Typedef(f)),
                Err(e) => Err(e),
            }
        } else if chars_eq(title, 0, title.len(), EntityKind::Instance.marker_str()) {
            match InstanceFrame::from_lines(lines, from, to) {
                Ok(f) => Ok(EntityFrame::Instance(f)),
                Err(e) => Err(e),
            }
        } else {
            Err(Error::SyntaxError { rule: Rule::EntityFrame })
        }
    }

    /// Whether the frame can be written and read back.
    pub open spec fn valid(&self) -> bool {
        match self {
            EntityFrame::Term(f) => f.valid(),
            EntityFrame::Typedef(f) => f.valid(),
            EntityFrame::Instance(f) => f.valid(),
        }
    }

    /// Tests whether the frame can be written and read back.
    pub fn is_valid(&self) -> (b: bool)
        ensures
            b == self.valid(),
    {
        match self {
            EntityFrame::Term(f) => f.is_valid(),
            EntityFrame::Typedef(f) => f.is_valid(),
            EntityFrame::Instance(f) => f.is_valid(),
        }
    }

    /// A frame that can be written and read back is, as a frame of its
    /// kind, one that can.
    pub proof fn lemma_valid(&self)
        requires
            self.valid(),
        ensures
            self@.frame.wf(self@.kind),
    {
        match self {
            EntityFrame::Term(f) => f.lemma_valid(),
            EntityFrame::Typedef(f) => f.lemma_valid(),
            EntityFrame::Instance(f) => f.lemma_valid(),
        }
    }

    /// Reads the entity frame that `s` stands for.
    pub fn from_str(s: &str) -> (r: Result<Self, Error>)
        ensures
            match parse_entity_lines(lines_of(s@)) {
                Ok(entity) => r matches Ok(found) && found@ == entity && found.valid(),
                Err(e) => r matches Err(found) && found == e,
            },
    {
        let lines = split_lines(&chars_of(s));
        assert(lines_view(lines@).subrange(0, lines@.len() as int) == lines_view(lines@));
        Self::from_lines(&lines, 0, lines.len())
    }
}

/// What a sequence of entity frames is.
pub open spec fn entities_view(v: Seq<EntityFrame>) -> Seq<EntityView> {
    v.map_values(|e: EntityFrame| e@)
}

/// The text of one empty line.
pub proof fn lemma_join_separator()
    ensures
        join_lines(separator(true)) == seq!['\n'],
        join_lines(separator(false)) == Seq::<char>::empty(),
{
    reveal_with_fuel(join_lines, 2);
    assert(separator(true).drop_first() == Seq::<Seq<char>>::empty());
    assert(Seq::<char>::empty() + seq!['\n'] + Seq::<char>::empty() == seq!['\n']);
}

/// Appends to `out` the text of the entity frames from the `i`-th on, with
/// an empty line between one frame and the next.
pub fn write_entities(out: &mut Vec<char>, entities: &Vec<EntityFrame>, i: usize)
    requires
        i <= entities.len(),
    ensures
        final(out)@ == old(out)@ + join_lines(
            render_entities_lines(entities_view(entities@).skip(i as int)),
        ),
    decreases entities.len() - i,
{
    let ghost es = entities_view(entities@).skip(i as int);
    if i < entities.len() {
        entities[i].write(out);
        if i + 1 < entities.len() {
            out.push('\n');
        }
        write_entities(out, entities, i + 1);
        proof {
            let f = render_frame_lines(es[0].kind, es[0].frame);
            let sep = separator(es.len() > 1);
            let r = render_entities_lines(es.drop_first());
            assert(es.drop_first() == entities_view(entities@).skip(i + 1));
            lemma_join_concat(f + sep, r);
            lemma_join_concat(f, sep);
            lemma_join_separator();
            assert(out@ == old(out)@ + join_lines(render_entities_lines(es)));
        }
    } else {
        assert(out@ == old(out)@ + join_lines(render_entities_lines(es)));
    }
}

/// Counts the lines from the `from`-th on that begin no frame: gives the
/// position of the next line that begins one, or the number of lines.
pub fn chunk_end(lines: &Vec<Vec<char>>, from: usize) -> (end: usize)
    requires
        from <= lines.len(),
    ensures
        from <= end <= lines.len(),
        end == from + chunk_len(lines_view(lines@).skip(from as int)),
{
    let ghost all = lines_view(lines@);
    let mut i: usize = from;
    while i < lines.len() && !check_frame_start(&lines[i])
        invariant
            from <= i <= lines.len(),
            all == lines_view(lines@),
            chunk_len(all.skip(from as int)) == (i - from) + chunk_len(all.skip(i as int)),
        decreases lines.len() - i,
    {
        proof {
            let here = all.skip(i as int);
            assert(here[0] == lines@[i as int]@);
            assert(here.drop_first() == all.skip(i + 1));
        }
        i = i + 1;
    }
    proof {
        let here = all.skip(i as int);
        if i < lines.len() {
            assert(here[0] == lines@[i as int]@);
        }
    }
    i
}

/// What reading the frames of `here` gives, behind the frames `done`.
pub open spec fn entities_behind(done: Seq<EntityView>, here: Seq<Seq<char>>) -> Result<
    Seq<EntityView>,
    Error,
> {
    match parse_entities(here) {
        Ok(rest) => Ok(done + rest),
        Err(e) => Err(e),
    }
}

/// Reading the frames of a sequence of lines is reading the first frame,
/// and then the frames of the lines behind it.
pub proof fn lemma_entities_behind(done: Seq<EntityView>, here: Seq<Seq<char>>, n: int)
    requires
        here.len() > 0,
        n == 1 + chunk_len(here.drop_first()),
    ensures
        1 <= n <= here.len(),
        entities_behind(done, here) == match parse_entity_lines(here.take(n)) {
            Ok(entity) => entities_behind(done.push(entity), here.skip(n)),
            Err(e) => Err(e),
        },
{
    lemma_chunk_len(here.drop_first());
    if let Ok(entity) = parse_entity_lines(here.take(n)) {
        if let Ok(rest) = parse_entities(here.skip(n)) {
            assert(done.push(entity) + rest == done + (seq![entity] + rest));
        }
    }
}

/// Reads the entity frames that the lines from the `from`-th on stand for.
pub fn read_entities(lines: &Vec<Vec<char>>, from: usize) -> (r: Result<Vec<EntityFrame>, Error>)
    requires
        from <= lines.len(),
    ensures
        match parse_entities(lines_view(lines@).skip(from as int)) {
            Ok(es) => r matches Ok(found) && entities_view(found@) == es && forall|i: int|
                0 <= i < found@.len() ==> (#[trigger] found@[i]).valid(),
            Err(e) => r matches Err(found) && found == e,
        },
{
    let ghost all = lines_view(lines@);
    let ghost whole = parse_entities(all.skip(from as int));
    let mut entities: Vec<EntityFrame> = Vec::new();
    let mut pos: usize = from;
    proof {
        assert(entities_view(entities@) == Seq::<EntityView>::empty());
        if let Ok(rest) = whole {
            assert(entities_view(entities@) + rest == rest);
        }
    }
    while pos < lines.len()
        invariant
            from <= pos <= lines.len(),
            all == lines_view(lines@),
            forall|i: int| 0 <= i < entities@.len() ==> (#[trigger] entities@[i]).valid(),
            whole == parse_entities(all.skip(from as int)),
            entities_behind(entities_view(entities@), all.skip(pos as int)) == whole,
        decreases lines.len() - pos,
    {
        let ghost here = all.skip(pos as int);
        let ghost done = entities_view(entities@);
        let end = chunk_end(lines, pos + 1);
        proof {
            assert(here.drop_first() == all.skip(pos + 1));
            lemma_entities_behind(done, here, end - pos);
            assert(here.take(end - pos) == all.subrange(pos as int, end as int));
            assert(here.skip(end - pos) == all.skip(end as int));
        }
        match EntityFrame::from_lines(lines, pos, end) {
            Ok(entity) => {
                let ghost ev = entity@;
                let ghost before = entities@;
                entities.push(entity);
                proof {
                    assert(entities_view(entities@) == done.push(ev));
                    assert forall|i: int| 0 <= i < entities@.len() implies (
                    #[trigger] entities@[i]).valid() by {
                        if i < before.len() {
                            assert(entities@[i] == before[i]);
                        }
                    }
                }
            },
            Err(e) => {
                return Err(e);
            },
        }
        pos = end;
    }
    proof {
        assert(all.skip(pos as int) == Seq::<Seq<char>>::empty());
        assert(entities_view(entities@) + Seq::<EntityView>::empty() == entities_view(entities@));
    }
    Ok(entities)
}

/// A whole document: a header frame and entity frames, in the order in
/// which they stand in the text.
#[derive(Debug, PartialEq, Eq, Hash)]
pub struct OboDoc {
    header: HeaderFrame,
    entities: Vec<EntityFrame>,
}

impl View for OboDoc {
    type V = DocView;

    closed spec fn view(&self) -> DocView {
        DocView { header: self.header@, entities: entities_view(self.entities@) }
    }
}

impl OboDoc {
    /// A document with the given header and no entity frame.
    pub fn new(header: HeaderFrame) -> (r: Self)
        ensures
            r@ == (DocView { header: header@, entities: Seq::<EntityView>::empty() }),
    {
        let r = OboDoc { header, entities: Vec::new() };
        assert(r@.entities == Seq::<EntityView>::empty());
        r
    }

    /// A document with the given header and entity frames.
    pub fn with_entities(header: HeaderFrame, entities: Vec<EntityFrame>) -> (r: Self)
        ensures
            r@ == (DocView { header: header@, entities: entities_view(entities@) }),
            r.valid() == (header.valid() && forall|i: int|
                0 <= i < entities@.len() ==> (#[trigger] entities@[i]).valid()),
    {
        let r = OboDoc { header, entities };
        assert(r.entities@ == entities@);
        r
    }

    /// The header frame.
    pub fn header(&self) -> (r: &HeaderFrame)
        ensures
            r@ == self@.header,
    {
        &self.header
    }

    /// The header frame, to be changed in place.
    pub fn header_mut(&mut self) -> (r: &mut HeaderFrame)
        ensures
            r@ == old(self)@.header,
            final(self)@ == (DocView { header: final(r)@, entities: old(self)@.entities }),
    {
        &mut self.header
    }

    /// Puts another header frame in place of the header frame.
    pub fn set_header(&mut self, header: HeaderFrame)
        ensures
            final(self)@ == (DocView { header: header@, entities: old(self)@.entities }),
    {
        self.header = header
    }

    /// The entity frames, in the order in which they stand.
    pub fn entities(&self) -> (r: &Vec<EntityFrame>)
        ensures
            entities_view(r@) == self@.entities,
    {
        &self.entities
    }

    /// The entity frames, to be changed in place.
    pub fn entities_mut(&mut self) -> (r: &mut Vec<EntityFrame>)
        ensures
            entities_view(r@) == old(self)@.entities,
            final(self)@ == (DocView {
                header: old(self)@.header,
                entities: entities_view(final(r)@),
            }),
    {
        &mut self.entities
    }

    /// Appends an entity frame to the document.
    pub fn push(&mut self, entity: EntityFrame)
        ensures
            final(self)@ == (DocView {
                header: old(self)@.header,
                entities: old(self)@.entities.push(entity@),
            }),
    {
        let ghost before = entities_view(self.entities@);
        self.entities.push(entity);
        assert(entities_view(self.entities@) == before.push(entity@));
    }

    /// Appends the text of the document to `out`.
    pub fn write(&self, out: &mut Vec<char>)
        ensures
            final(out)@ == old(out)@ + render_doc(self@),
    {
        self.header.write(out);
        if self.entities.len() > 0 {
            out.push('\n');
        }
        write_entities(out, &self.entities, 0);
        proof {
            let d = self@;
            let h = render_clause_lines(d.header);
            let sep = separator(d.entities.len() > 0);
            let e = render_entities_lines(d.entities);
            assert(d.entities.skip(0) == d.entities);
            lemma_join_concat(h + sep, e);
            lemma_join_concat(h, sep);
            lemma_join_separator();
            assert(out@ == old(out)@ + render_doc(d));
        }
    }

    /// The text of the document: the header frame, then the entity frames,
    /// each with an empty line in front of it.
    pub fn to_string(&self) -> (s: String)
        ensures
            s@ == render_doc(self@),
    {
        let mut out: Vec<char> = Vec::new();
        self.write(&mut out);
        string_from(&out)
    }

    /// Reads the document that a sequence of lines stands for.
    pub fn from_lines(lines: &Vec<Vec<char>>) -> (r: Result<Self, Error>)
        ensures
            match parse_doc_lines(lines_view(lines@)) {
                Ok(d) => r matches Ok(found) && found@ == d && found.valid(),
                Err(e) => r matches Err(found) && found == e,
            },
    {
        let ghost all = lines_view(lines@);
        assert(all.skip(0) == all);
        let h = chunk_end(lines, 0);
        assert(all.take(h as int) == all.subrange(0, h as int));
        let header = match HeaderFrame::from_lines(lines, 0, h) {
            Ok(header) => header,
            Err(e) => {
                return Err(e);
            },
        };
        match read_entities(lines, h) {
            Ok(entities) => Ok(OboDoc { header, entities }),
            Err(e) => Err(e),
        }
    }

    /// Whether the document can be written and read back: the header and
    /// every frame can.
    pub closed spec fn valid(&self) -> bool {
        self.header.valid() && forall|i: int|
            0 <= i < self.entities@.len() ==> (#[trigger] self.entities@[i]).valid()
    }

    /// Tests whether the document can be written and read back.
    pub fn is_valid(&self) -> (b: bool)
        ensures
            b == self.valid(),
    {
        if !self.header.is_valid() {
            return false;
        }
        let mut i: usize = 0;
        while i < self.entities.len()
            invariant
                i <= self.entities.len(),
                forall|j: int| 0 <= j < i ==> (#[trigger] self.entities@[j]).valid(),
            decreases self.entities.len() - i,
        {
            if !self.entities[i].is_valid() {
                return false;
            }
            i = i + 1;
        }
        true
    }

    /// What a document that can be written and read back is, is what can.
    pub proof fn lemma_valid(&self)
        requires
            self.valid(),
        ensures
            self@.wf(),
    {
        self.header.lemma_valid();
        assert forall|i: int| 0 <= i < self@.entities.len() implies (
        #[trigger] self@.entities[i]).frame.wf(self@.entities[i].kind) by {
            self.entities@[i].lemma_valid();
        }
    }

    /// Writing a document that can be written and read back, and reading
    /// the text, gives the document.
    pub proof fn lemma_round_trip(&self)
        requires
            self.valid(),
        ensures
            parse_doc(render_doc(self@)) == Ok::<DocView, Error>(self@),
    {
        self.lemma_valid();
        lemma_parse_render_doc(self@);
    }

    /// Reads the document that `s` stands for.
    pub fn from_str(s: &str) -> (r: Result<Self, Error>)
        ensures
            match parse_doc(s@) {
                Ok(d) => r matches Ok(found) && found@ == d && found.valid(),
                Err(e) => r matches Err(found) && found == e,
            },
    {
        let lines = split_lines(&chars_of(s));
        Self::from_lines(&lines)
    }
}

} // verus!
