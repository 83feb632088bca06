//! `[Instance]` frames.

use crate::error::Error;
use crate::frame::{
    check_lines, lemma_join_frame_lines, lemma_typed_lines, parse_frame_lines, read_frame,
    render_clause_lines, render_frame_lines, typed_lines_valid, typed_lines_view,
    write_clause_lines, write_frame_head, EntityKind, FrameView,
};
use crate::id::InstanceIdent;
use crate::instance::clause::InstanceClause;
use crate::line::{ClauseView, Line, LineView};
use crate::lines::{join_lines, lines_of, lines_view, split_lines};
use crate::text::{chars_of, string_from};
use vstd::prelude::*;

verus! {

/// An instance frame, which describes a particular individual.
#[derive(Debug, PartialEq, Eq, Hash)]
pub struct InstanceFrame {
    id: Line<InstanceIdent>,
    clauses: Vec<Line<InstanceClause>>,
}

impl View for InstanceFrame {
    type V = FrameView;

    closed spec fn view(&self) -> FrameView {
        FrameView { id: self.id@, clauses: typed_lines_view(self.clauses@) }
    }
}

impl InstanceFrame {
    /// A frame with the given identifier and no clause.
    pub fn new(id: Line<InstanceIdent>) -> (r: Self)
        ensures
            r@ == (FrameView { id: id@, clauses: Seq::<LineView<ClauseView>>::empty() }),
    {
        let r = Self::with_clauses(id, Vec::new());
        assert(r@.clauses == Seq::<LineView<ClauseView>>::empty());
        r
    }

    /// A frame with the given identifier and clauses.
    pub fn with_clauses(id: Line<InstanceIdent>, clauses: Vec<Line<InstanceClause>>) -> (r: Self)
        ensures
            r@ == (FrameView { id: id@, clauses: typed_lines_view(clauses@) }),
    {
        InstanceFrame { id, clauses }
    }

    /// The line that gives the identifier of the frame.
    pub fn id(&self) -> (r: &Line<InstanceIdent>)
        ensures
            r@ == self@.id,
    {
        &self.id
    }

    /// The clauses of the frame, in the order in which they stand.
    pub fn clauses(&self) -> (r: &Vec<Line<InstanceClause>>)
        ensures
            typed_lines_view(r@) == self@.clauses,
    {
        &self.clauses
    }

    /// The clauses of the frame, to be changed in place.
    pub fn clauses_mut(&mut self) -> (r: &mut Vec<Line<InstanceClause>>)
        ensures
            typed_lines_view(r@) == old(self)@.clauses,
            final(self)@ == (FrameView {
                id: old(self)@.id,
                clauses: typed_lines_view(final(r)@),
            }),
    {
        &mut self.clauses
    }

    /// The clauses of the frame, without the frame.
    pub fn into_clauses(self) -> (r: Vec<Line<InstanceClause>>)
        ensures
            typed_lines_view(r@) == self@.clauses,
    {
        self.clauses
    }

    /// The number of clauses of the frame.
    pub fn len(&self) -> (n: usize)
        ensures
            n == self@.clauses.len(),
    {
        self.clauses.len()
    }

    /// Appends a clause to the frame.
    pub fn push(&mut self, clause: Line<InstanceClause>)
        ensures
            final(self)@ == (FrameView {
                id: old(self)@.id,
                clauses: old(self)@.clauses.push(clause@),
            }),
    {
        let ghost before = typed_lines_view(self.clauses@);
        self.clauses.push(clause);
        assert(typed_lines_view(self.clauses@) == before.push(clause@));
    }

    /// Appends the text of the frame to `out`.
    pub fn write(&self, out: &mut Vec<char>)
        ensures
            final(out)@ == old(out)@ + join_lines(render_frame_lines(EntityKind::Instance, self@)),
    {
        proof {
            lemma_join_frame_lines(EntityKind::Instance, self@);
        }
        write_frame_head(out, EntityKind::Instance, self.id.inner.as_ident(), &self.id.trailer);
        write_clause_lines(out, &self.clauses, 0);
        assert(render_clause_lines(self@.clauses).skip(0) == render_clause_lines(self@.clauses));
    }

    /// The text of the frame: its title, the line of its identifier and
    /// its clauses, each on a line of its own.
    pub fn to_string(&self) -> (s: String)
        ensures
            s@ == join_lines(render_frame_lines(EntityKind::Instance, self@)),
    {
        let mut out: Vec<char> = Vec::new();
        self.write(&mut out);
        string_from(&out)
    }

    /// Reads the frame that the lines `lines[from..to]` stand for.
    pub fn from_lines(lines: &Vec<Vec<char>>, from: usize, to: usize) -> (r: Result<Self, Error>)
        requires
            from <= to <= lines.len(),
        ensures
            match parse_frame_lines(
                EntityKind::Instance,
                lines_view(lines@).subrange(from as int, to as int),
            ) {
                Ok(f) => r matches Ok(found) && found@ == f && found.valid(),
                Err(e) => r matches Err(found) && found == e,
            },
    {
        match read_frame::<Line<InstanceClause>>(EntityKind::Instance, lines, from, to) {
            Ok((id, clauses)) => {
                let trailer = id.trailer;
                let id = Line::with_trailer(InstanceIdent::new(id.inner), trailer);
                Ok(InstanceFrame { id, clauses })
            },
            Err(e) => Err(e),
        }
    }

    /// Whether the frame can be written and read back: the identifiers in
    /// it can be written and read back, and no comment holds a line feed.
    pub closed spec fn valid(&self) -> bool {
        self.id@.inner.wf() && self.id@.trailer.wf() && typed_lines_valid(self.clauses@)
    }

    /// Tests whether the frame can be written and read back.
    pub fn is_valid(&self) -> (b: bool)
        ensures
            b == self.valid(),
    {
        self.id.inner.as_ident().is_valid() && self.id.trailer.is_valid() && check_lines(
            &self.clauses,
        )
    }

    /// What a frame that can be written and read back is, is what can.
    pub proof fn lemma_valid(&self)
        requires
            self.valid(),
        ensures
            self@.wf(EntityKind::Instance),
    {
        lemma_typed_lines(self.clauses@);
    }

    /// Reads the frame that `s` stands for.
    pub fn from_str(s: &str) -> (r: Result<Self, Error>)
        ensures
            match parse_frame_lines(EntityKind::Instance, lines_of(s@)) {
                Ok(f) => r matches Ok(found) && found@ == f && found.valid(),
                Err(e) => r matches Err(found) && found == e,
            },
    {
        let lines = split_lines(&chars_of(s));
        assert(lines_view(lines@).subrange(0, lines@.len() as int) == lines_view(lines@));
        Self::from_lines(&lines, 0, lines.len())
    }
}

} // verus!
