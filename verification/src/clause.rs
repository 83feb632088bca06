//! Typed clause lines: the four kinds of line, what each kind provides,
//! and what follows for all kinds alike.

use crate::error::{Error, Rule};
use crate::header::clause::{
    header_interpret, header_shape_of, header_supported, lemma_header_interpret,
};
use crate::instance::clause::{
    instance_interpret, instance_shape_of, instance_supported, lemma_instance_interpret,
};
use crate::line::{
    clause_line_wf, is_tag, lemma_parse_render_tag, lemma_tag_len_bounds, parse_tag,
    render_clause_line, ClauseView, LineView,
};
use crate::term::clause::{lemma_term_interpret, term_interpret, term_shape_of, term_supported};
use crate::trailer::render_trailer;
use crate::typedef::clause::{
    lemma_typedef_interpret, typedef_interpret, typedef_shape_of, typedef_supported,
};
use crate::value::{
    lemma_parse_render_value, lemma_parsed_value_wf, parse_value, render_value, Shape,
};
use vstd::prelude::*;

verus! {

/// The kinds of clause line: the lines of the header, and those of the
/// three kinds of entity frame.
#[derive(Clone, Copy, Debug, PartialEq, Eq, Hash, Structural)]
pub enum LineKind {
    Header,
    Term,
    Typedef,
    Instance,
}

impl LineKind {
    /// The rule that errors in a line of the kind name.
    pub open spec fn rule(self) -> Rule {
        match self {
            LineKind::Header => Rule::HeaderClause,
            LineKind::Term => Rule::TermClause,
            LineKind::Typedef => Rule::TypedefClause,
            LineKind::Instance => Rule::InstanceClause,
        }
    }

    /// The shape of the value behind a tag; `None` where the kind has no
    /// such tag.
    pub open spec fn shape_of(self, tag: Seq<char>) -> Option<Shape> {
        match self {
            LineKind::Header => header_shape_of(tag),
            LineKind::Term => term_shape_of(tag),
            LineKind::Typedef => typedef_shape_of(tag),
            LineKind::Instance => instance_shape_of(tag),
        }
    }

    /// Whether the kind supports the clauses of a tag that it has.
    pub open spec fn supported(self, tag: Seq<char>) -> bool {
        match self {
            LineKind::Header => header_supported(tag),
            LineKind::Term => term_supported(tag),
            LineKind::Typedef => typedef_supported(tag),
            LineKind::Instance => instance_supported(tag),
        }
    }

    /// The line as the kind takes it; `None` where the value is not what
    /// the tag asks for.
    pub open spec fn interpret(self, l: LineView<ClauseView>) -> Option<LineView<ClauseView>> {
        match self {
            LineKind::Header => header_interpret(l),
            LineKind::Term => term_interpret(l),
            LineKind::Typedef => typedef_interpret(l),
            LineKind::Instance => instance_interpret(l),
        }
    }

    /// Whether the kind takes a line as it is: the tag is one of its
    /// supported tags, and the value is what the tag asks for.
    pub open spec fn is_typed(self, l: LineView<ClauseView>) -> bool {
        &&& self.shape_of(l.inner.tag) == Some(l.inner.value.shape())
        &&& self.supported(l.inner.tag)
        &&& self.interpret(l) == Some(l)
    }

    /// The line of the kind that a text stands for. A text without a tag,
    /// with a tag that the kind does not have, or with a value that is not
    /// what the tag asks for is a syntax error; a tag that the kind has and
    /// does not support is reported as such.
    pub open spec fn parse(self, s: Seq<char>) -> Result<LineView<ClauseView>, Error> {
        match parse_tag(s) {
            Some((tag, n)) => match self.shape_of(tag) {
                Some(shape) => {
                    if !self.supported(tag) {
                        Err(Error::NotImplemented { rule: self.rule() })
                    } else {
                        match parse_value(shape, s.skip(n)) {
                            Some((value, trailer)) => match self.interpret(
                                LineView { inner: ClauseView { tag, value }, trailer },
                            ) {
                                Some(l) => Ok(l),
                                None => Err(Error::SyntaxError { rule: self.rule() }),
                            },
                            None => Err(Error::SyntaxError { rule: self.rule() }),
                        }
                    }
                },
                None => Err(Error::SyntaxError { rule: self.rule() }),
            },
            None => Err(Error::SyntaxError { rule: self.rule() }),
        }
    }

    /// Writing a line of the kind and reading the text back gives the line.
    pub proof fn lemma_parse_render(self, l: LineView<ClauseView>)
        requires
            clause_line_wf(l),
            self.is_typed(l),
        ensures
            self.parse(render_clause_line(l)) == Ok::<LineView<ClauseView>, Error>(l),
    {
        let rest = render_value(l.inner.value) + render_trailer(l.trailer);
        let s = render_clause_line(l);
        assert(s == l.inner.tag + seq![':', ' '] + rest);
        lemma_parse_render_tag(l.inner.tag, rest);
        assert(s.skip(l.inner.tag.len() as int + 2) == rest);
        lemma_parse_render_value(l.inner.value, l.trailer);
    }

    /// A line that is read from a text can be written and read back, and
    /// is one that the kind takes as it is.
    pub proof fn lemma_parsed(self, s: Seq<char>)
        ensures
            self.parse(s) matches Ok(l) ==> clause_line_wf(l) && self.is_typed(l),
    {
        lemma_tag_len_bounds(s);
        if let Some((tag, n)) = parse_tag(s) {
            if let Some(shape) = self.shape_of(tag) {
                lemma_parsed_value_wf(shape, s.skip(n));
                if let Some((value, trailer)) = parse_value(shape, s.skip(n)) {
                    let l = LineView { inner: ClauseView { tag, value }, trailer };
                    match self {
                        LineKind::Header => lemma_header_interpret(l),
                        LineKind::Term => lemma_term_interpret(l),
                        LineKind::Typedef => lemma_typedef_interpret(l),
                        LineKind::Instance => lemma_instance_interpret(l),
                    }
                }
            }
        }
    }
}

/// A type of clause lines of one kind.
pub trait LineSyntax: Sized + View<V = LineView<ClauseView>> {
    /// The kind of line.
    spec fn kind() -> LineKind;

    /// Reads the line that the whole of `v` stands for.
    fn read(v: &Vec<char>) -> (r: Result<Self, Error>)
        ensures
            match Self::kind().parse(v@) {
                Ok(l) => r matches Ok(found) && found@ == l && found.faithful()
                    && l.inner.value.wf() && l.trailer.wf(),
                Err(e) => r == Err::<Self, Error>(e),
            },
    ;

    /// Appends the text of the line to `out`.
    fn write(&self, out: &mut Vec<char>)
        ensures
            final(out)@ == old(out)@ + render_clause_line(self@),
    ;

    /// Whether the text of the line shows the line in full. It does, but
    /// where a clause gives as unreserved a text that is no tag or a tag
    /// that is reserved, or where a part of a date does not fit the digits
    /// that it is written with.
    spec fn faithful(&self) -> bool;

    /// Tests whether the line can be written and read back: its text shows
    /// it in full, the identifiers in it can be written and read back, and
    /// its comment holds no line feed.
    fn is_valid(&self) -> (b: bool)
        ensures
            b == (self.faithful() && self@.inner.value.wf() && self@.trailer.wf()),
    ;

    /// A line whose text shows it in full is one that its kind takes as it
    /// is.
    proof fn lemma_typed(&self)
        requires
            self.faithful(),
        ensures
            is_tag(self@.inner.tag),
            Self::kind().is_typed(self@),
    ;
}

/// Whether a typed line can be written and read back: its text shows it in
/// full, the identifiers in it can be written and read back, and its
/// comment holds no line feed.
pub open spec fn line_valid<L: LineSyntax>(l: L) -> bool {
    l.faithful() && l@.inner.value.wf() && l@.trailer.wf()
}

} // verus!
