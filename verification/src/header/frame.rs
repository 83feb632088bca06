//! The header frame.

use crate::clause::LineKind;
use crate::error::Error;
use crate::frame::{
    check_lines, clause_lines_wf, lemma_typed_lines, parse_clause_lines, read_clause_lines,
    render_clause_lines, typed_lines_valid, typed_lines_view, write_clause_lines,
};
use crate::header::clause::HeaderClause;
use crate::line::{ClauseView, LineView};
use crate::lines::{join_lines, lines_of, lines_view, split_lines};
use crate::text::{chars_of, string_from};
use vstd::prelude::*;

verus! {

/// The header frame: the clauses at the top of a document, which tell of
/// the document as a whole. The clauses are kept in the order in which they
/// stand, and a clause may stand more than once.
#[derive(Debug, PartialEq, Eq, Hash)]
pub struct HeaderFrame {
    clauses: Vec<HeaderClause>,
}

impl View for HeaderFrame {
    type V = Seq<LineView<ClauseView>>;

    closed spec fn view(&self) -> Seq<LineView<ClauseView>> {
        typed_lines_view(self.clauses@)
    }
}

impl HeaderFrame {
    /// A header frame without clauses. It can be written and read back:
    /// its text is empty, and the empty text is read as it.
    pub fn new() -> (r: Self)
        ensures
            r@ == Seq::<LineView<ClauseView>>::empty(),
            r.valid(),
    {
        let r = HeaderFrame { clauses: Vec::new() };
        assert(r@ == Seq::<LineView<ClauseView>>::empty());
        r
    }

    /// A header frame with the given clauses.
    pub fn with_clauses(clauses: Vec<HeaderClause>) -> (r: Self)
        ensures
            r@ == typed_lines_view(clauses@),
    {
        HeaderFrame { clauses }
    }

    /// The clauses of the frame, in the order in which they stand.
    pub fn clauses(&self) -> (r: &Vec<HeaderClause>)
        ensures
            typed_lines_view(r@) == self@,
    {
        &self.clauses
    }

    /// The clauses of the frame, to be changed in place.
    pub fn clauses_mut(&mut self) -> (r: &mut Vec<HeaderClause>)
        ensures
            typed_lines_view(r@) == old(self)@,
            final(self)@ == typed_lines_view(final(r)@),
    {
        &mut self.clauses
    }

    /// The clauses of the frame, without the frame.
    pub fn into_clauses(self) -> (r: Vec<HeaderClause>)
        ensures
            typed_lines_view(r@) == self@,
    {
        self.clauses
    }

    /// The number of clauses of the frame.
    pub fn len(&self) -> (n: usize)
        ensures
            n == self@.len(),
    {
        self.clauses.len()
    }

    /// Appends a clause to the frame.
    pub fn push(&mut self, clause: HeaderClause)
        ensures
            final(self)@ == old(self)@.push(clause@),
    {
        let ghost before = typed_lines_view(self.clauses@);
        self.clauses.push(clause);
        assert(typed_lines_view(self.clauses@) == before.push(clause@));
    }

    /// Appends the text of the frame to `out`.
    pub fn write(&self, out: &mut Vec<char>)
        ensures
            final(out)@ == old(out)@ + join_lines(render_clause_lines(self@)),
    {
        write_clause_lines(out, &self.clauses, 0);
        assert(render_clause_lines(self@).skip(0) == render_clause_lines(self@));
    }

    /// The text of the frame: its clauses, each on a line of its own.
    pub fn to_string(&self) -> (s: String)
        ensures
            s@ == join_lines(render_clause_lines(self@)),
    {
        let mut out: Vec<char> = Vec::new();
        self.write(&mut out);
        string_from(&out)
    }

    /// Reads the header frame that the lines `lines[from..to]` stand for.
    pub fn from_lines(lines: &Vec<Vec<char>>, from: usize, to: usize) -> (r: Result<Self, Error>)
        requires
            from <= to <= lines.len(),
        ensures
            match parse_clause_lines(
                LineKind::Header,
                lines_view(lines@).subrange(from as int, to as int),
            ) {
                Ok(ls) => r matches Ok(found) && found@ == ls && found.valid(),
                Err(e) => r matches Err(found) && found == e,
            },
    {
        match read_clause_lines::<HeaderClause>(lines, from, to) {
            Ok(clauses) => Ok(HeaderFrame { clauses }),
            Err(e) => Err(e),
        }
    }

    /// Whether the frame can be written and read back: the text of every
    /// clause shows the clause in full, the identifiers in it can be
    /// written and read back, and its comment holds no line feed.
    pub closed spec fn valid(&self) -> bool {
        typed_lines_valid(self.clauses@)
    }

    /// Tests whether the frame can be written and read back.
    pub fn is_valid(&self) -> (b: bool)
        ensures
            b == self.valid(),
    {
        check_lines(&self.clauses)
    }

    /// The clauses of a frame that can be written and read back are clause
    /// lines of the header that can.
    pub proof fn lemma_valid(&self)
        requires
            self.valid(),
        ensures
            clause_lines_wf(LineKind::Header, self@),
    {
        lemma_typed_lines(self.clauses@);
    }

    /// Reads the header frame that `s` stands for.
    pub fn from_str(s: &str) -> (r: Result<Self, Error>)
        ensures
            match parse_clause_lines(LineKind::Header, lines_of(s@)) {
                Ok(ls) => r matches Ok(found) && found@ == ls && found.valid(),
                Err(e) => r matches Err(found) && found == e,
            },
    {
        let lines = split_lines(&chars_of(s));
        assert(lines_view(lines@).subrange(0, lines@.len() as int) == lines_view(lines@));
        Self::from_lines(&lines, 0, lines.len())
    }
}

} // verus!
