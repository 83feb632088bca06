//! The clauses of a `[Term]` frame.

use crate::clause::{LineKind, LineSyntax};
use crate::error::{Error, Rule};
use crate::id::{ClassIdent, Ident, NamespaceIdent, RelationIdent, SubsetIdent, SynonymTypeIdent};
use crate::line::{is_tag, parse_tag, read_tag, render_clause_line, ClauseView, Line, LineView};
use crate::pv::{lemma_pv_of_tokens, lemma_pv_tokens_wf, pv_of_tokens, PropertyValue};
use crate::strings::{QuotedString, UnquotedString};
use crate::synonym::{bool_text, lemma_bool_of_text, SynonymScope};
use crate::text::{chars_eq, push_chars};
use crate::token::{
    is_bool_token, is_scope_token, take_four, take_one, take_one_or_two, take_three, take_two,
    tokens_view, tokens_wf, word, Token, TokenView,
};
use crate::trailer::TrailerView;
use crate::value::{parse_value, Shape, Value, ValueView};
use crate::xref::{clone_xrefs, xrefs_view, Xref};
use vstd::prelude::*;

verus! {

/// The tags of the clauses of a `[Term]` frame.
#[derive(Clone, Copy, Debug, PartialEq, Eq, Hash, Structural)]
pub enum TermTag {
    /// `is_anonymous`
    IsAnonymous,
    /// `name`
    Name,
    /// `namespace`
    Namespace,
    /// `alt_id`
    AltId,
    /// `comment`
    Comment,
    /// `subset`
    Subset,
    /// `def`
    Def,
    /// `synonym`
    Synonym,
    /// `xref`
    Xref,
    /// `property_value`
    PropertyValue,
    /// `builtin`
    Builtin,
    /// `is_a`
    IsA,
    /// `equivalent_to`
    EquivalentTo,
    /// `disjoint_from`
    DisjointFrom,
    /// `relationship`
    Relationship,
    /// `created_by`
    CreatedBy,
    /// `is_obsolete`
    IsObsolete,
    /// `replaced_by`
    ReplacedBy,
    /// `consider`
    Consider,
    /// `intersection_of`
    IntersectionOf,
    /// `union_of`
    UnionOf,
    /// `creation_date`
    CreationDate,
}

impl TermTag {
    /// The tag as it is written.
    pub open spec fn text(self) -> Seq<char> {
        match self {
            TermTag::IsAnonymous => "is_anonymous"@,
            TermTag::Name => "name"@,
            TermTag::Namespace => "namespace"@,
            TermTag::AltId => "alt_id"@,
            TermTag::Comment => "comment"@,
            TermTag::Subset => "subset"@,
            TermTag::Def => "def"@,
            TermTag::Synonym => "synonym"@,
            TermTag::Xref => "xref"@,
            TermTag::PropertyValue => "property_value"@,
            TermTag::Builtin => "builtin"@,
            TermTag::IsA => "is_a"@,
            TermTag::EquivalentTo => "equivalent_to"@,
            TermTag::DisjointFrom => "disjoint_from"@,
            TermTag::Relationship => "relationship"@,
            TermTag::CreatedBy => "created_by"@,
            TermTag::IsObsolete => "is_obsolete"@,
            TermTag::ReplacedBy => "replaced_by"@,
            TermTag::Consider => "consider"@,
            TermTag::IntersectionOf => "intersection_of"@,
            TermTag::UnionOf => "union_of"@,
            TermTag::CreationDate => "creation_date"@,
        }
    }

    /// The tag that a text is.
    #[verifier::opaque]
    pub open spec fn of(text: Seq<char>) -> Option<TermTag> {
        if text == "is_anonymous"@ {
            Some(TermTag::IsAnonymous)
        } else if text == "name"@ {
            Some(TermTag::Name)
        } else if text == "namespace"@ {
            Some(TermTag::Namespace)
        } else if text == "alt_id"@ {
            Some(TermTag::AltId)
        } else if text == "comment"@ {
            Some(TermTag::Comment)
        } else if text == "subset"@ {
            Some(TermTag::Subset)
        } else if text == "def"@ {
            Some(TermTag::Def)
        } else if text == "synonym"@ {
            Some(TermTag::Synonym)
        } else if text == "xref"@ {
            Some(TermTag::Xref)
        } else if text == "property_value"@ {
            Some(TermTag::PropertyValue)
        } else if text == "builtin"@ {
            Some(TermTag::Builtin)
        } else if text == "is_a"@ {
            Some(TermTag::IsA)
        } else if text == "equivalent_to"@ {
            Some(TermTag::EquivalentTo)
        } else if text == "disjoint_from"@ {
            Some(TermTag::DisjointFrom)
        } else if text == "relationship"@ {
            Some(TermTag::Relationship)
        } else if text == "created_by"@ {
            Some(TermTag::CreatedBy)
        } else if text == "is_obsolete"@ {
            Some(TermTag::IsObsolete)
        } else if text == "replaced_by"@ {
            Some(TermTag::ReplacedBy)
        } else if text == "consider"@ {
            Some(TermTag::Consider)
        } else if text == "intersection_of"@ {
            Some(TermTag::IntersectionOf)
        } else if text == "union_of"@ {
            Some(TermTag::UnionOf)
        } else if text == "creation_date"@ {
            Some(TermTag::CreationDate)
        } else {
            None
        }
    }

    /// The shape of the value behind the tag.
    pub open spec fn spec_shape(self) -> Shape {
        match self {
            TermTag::Name | TermTag::Comment | TermTag::CreatedBy => Shape::Text,
            _ => Shape::Tokens,
        }
    }

    /// Whether clauses with the tag are supported.
    pub open spec fn spec_supported(self) -> bool {
        match self {
            TermTag::IntersectionOf | TermTag::UnionOf | TermTag::CreationDate => false,
            _ => true,
        }
    }

    /// Every tag is written as a tag is, and its text is the text of no
    /// other tag.
    pub proof fn lemma_of_text(tag: TermTag)
        ensures
            Self::of(tag.text()) == Some(tag),
            is_tag(tag.text()),
    {
        reveal(TermTag::of);
        reveal_strlit("is_anonymous");
        reveal_strlit("name");
        reveal_strlit("namespace");
        reveal_strlit("alt_id");
        reveal_strlit("comment");
        reveal_strlit("subset");
        reveal_strlit("def");
        reveal_strlit("synonym");
        reveal_strlit("xref");
        reveal_strlit("property_value");
        reveal_strlit("builtin");
        reveal_strlit("is_a");
        reveal_strlit("equivalent_to");
        reveal_strlit("disjoint_from");
        reveal_strlit("relationship");
        reveal_strlit("created_by");
        reveal_strlit("is_obsolete");
        reveal_strlit("replaced_by");
        reveal_strlit("consider");
        reveal_strlit("intersection_of");
        reveal_strlit("union_of");
        reveal_strlit("creation_date");
        assert("is_anonymous"@.len() == 12 && "is_anonymous"@[0] == 'i');
        assert("name"@.len() == 4 && "name"@[0] == 'n');
        assert("namespace"@.len() == 9);
        assert("alt_id"@.len() == 6 && "alt_id"@[0] == 'a');
        assert("comment"@.len() == 7 && "comment"@[0] == 'c');
        assert("subset"@.len() == 6 && "subset"@[0] == 's');
        assert("def"@.len() == 3);
        assert("synonym"@.len() == 7 && "synonym"@[0] == 's');
        assert("xref"@.len() == 4 && "xref"@[0] == 'x');
        assert("property_value"@.len() == 14);
        assert("builtin"@.len() == 7 && "builtin"@[0] == 'b');
        assert("is_a"@.len() == 4 && "is_a"@[0] == 'i');
        assert("equivalent_to"@.len() == 13 && "equivalent_to"@[0] == 'e');
        assert("disjoint_from"@.len() == 13 && "disjoint_from"@[0] == 'd');
        assert("relationship"@.len() == 12 && "relationship"@[0] == 'r');
        assert("created_by"@.len() == 10);
        assert("is_obsolete"@.len() == 11 && "is_obsolete"@[0] == 'i');
        assert("replaced_by"@.len() == 11 && "replaced_by"@[0] == 'r');
        assert("consider"@.len() == 8 && "consider"@[0] == 'c');
        assert("intersection_of"@.len() == 15);
        assert("union_of"@.len() == 8 && "union_of"@[0] == 'u');
        assert("creation_date"@.len() == 13 && "creation_date"@[0] == 'c');
    }

    /// The tag as it is written.
    pub fn as_str(self) -> (s: &'static str)
        ensures
            s@ == self.text(),
    {
        match self {
            TermTag::IsAnonymous => "is_anonymous",
            TermTag::Name => "name",
            TermTag::Namespace => "namespace",
            TermTag::AltId => "alt_id",
            TermTag::Comment => "comment",
            TermTag::Subset => "subset",
            TermTag::Def => "def",
            TermTag::Synonym => "synonym",
            TermTag::Xref => "xref",
            TermTag::PropertyValue => "property_value",
            TermTag::Builtin => "builtin",
            TermTag::IsA => "is_a",
            TermTag::EquivalentTo => "equivalent_to",
            TermTag::DisjointFrom => "disjoint_from",
            TermTag::Relationship => "relationship",
            TermTag::CreatedBy => "created_by",
            TermTag::IsObsolete => "is_obsolete",
            TermTag::ReplacedBy => "replaced_by",
            TermTag::Consider => "consider",
            TermTag::IntersectionOf => "intersection_of",
            TermTag::UnionOf => "union_of",
            TermTag::CreationDate => "creation_date",
        }
    }

    /// The shape of the value behind the tag.
    #[verifier::when_used_as_spec(spec_shape)]
    pub fn shape(self) -> (r: Shape)
        ensures
            r == self.spec_shape(),
    {
        match self {
            TermTag::Name | TermTag::Comment | TermTag::CreatedBy => Shape::Text,
            _ => Shape::Tokens,
        }
    }

    /// Whether clauses with the tag are supported.
    #[verifier::when_used_as_spec(spec_supported)]
    pub fn supported(self) -> (r: bool)
        ensures
            r == self.spec_supported(),
    {
        match self {
            TermTag::IntersectionOf | TermTag::UnionOf | TermTag::CreationDate => false,
            _ => true,
        }
    }

    /// The tag that `v[from..to]` is.
    pub fn lookup(v: &Vec<char>, from: usize, to: usize) -> (r: Option<TermTag>)
        requires
            from <= to <= v.len(),
        ensures
            r == Self::of(v@.subrange(from as int, to as int)),
            r matches Some(tag) ==> tag.text() == v@.subrange(from as int, to as int),
    {
        proof {
            reveal(TermTag::of);
        }
        if chars_eq(v, from, to, "is_anonymous") {
            Some(TermTag::IsAnonymous)
        } else if chars_eq(v, from, to, "name") {
            Some(TermTag::Name)
        } else if chars_eq(v, from, to, "namespace") {
            Some(TermTag::Namespace)
        } else if chars_eq(v, from, to, "alt_id") {
            Some(TermTag::AltId)
        } else if chars_eq(v, from, to, "comment") {
            Some(TermTag::Comment)
        } else if chars_eq(v, from, to, "subset") {
            Some(TermTag::Subset)
        } else if chars_eq(v, from, to, "def") {
            Some(TermTag::Def)
        } else if chars_eq(v, from, to, "synonym") {
            Some(TermTag::Synonym)
        } else if chars_eq(v, from, to, "xref") {
            Some(TermTag::Xref)
        } else if chars_eq(v, from, to, "property_value") {
            Some(TermTag::PropertyValue)
        } else if chars_eq(v, from, to, "builtin") {
            Some(TermTag::Builtin)
        } else if chars_eq(v, from, to, "is_a") {
            Some(TermTag::IsA)
        } else if chars_eq(v, from, to, "equivalent_to") {
            Some(TermTag::EquivalentTo)
        } else if chars_eq(v, from, to, "disjoint_from") {
            Some(TermTag::DisjointFrom)
        } else if chars_eq(v, from, to, "relationship") {
            Some(TermTag::Relationship)
        } else if chars_eq(v, from, to, "created_by") {
            Some(TermTag::CreatedBy)
        } else if chars_eq(v, from, to, "is_obsolete") {
            Some(TermTag::IsObsolete)
        } else if chars_eq(v, from, to, "replaced_by") {
            Some(TermTag::ReplacedBy)
        } else if chars_eq(v, from, to, "consider") {
            Some(TermTag::Consider)
        } else if chars_eq(v, from, to, "intersection_of") {
            Some(TermTag::IntersectionOf)
        } else if chars_eq(v, from, to, "union_of") {
            Some(TermTag::UnionOf)
        } else if chars_eq(v, from, to, "creation_date") {
            Some(TermTag::CreationDate)
        } else {
            None
        }
    }
}

/// A clause of a `[Term]` frame.
#[derive(Debug, PartialEq, Eq, Hash)]
pub enum TermClause {
    /// Whether the entity has no identifier of its own.
    IsAnonymous(bool),
    /// The name of the entity.
    Name(UnquotedString),
    /// The namespace that the entity belongs to.
    Namespace(NamespaceIdent),
    /// Another identifier of the entity.
    AltId(Ident),
    /// A comment on the entity.
    Comment(UnquotedString),
    /// A subset that the entity belongs to.
    Subset(SubsetIdent),
    /// The definition of the entity, and where it comes from.
    Def(QuotedString, Vec<Xref>),
    /// A synonym of the name: its text, its scope, an optional type, and
    /// where it comes from.
    Synonym(QuotedString, SynonymScope, Option<SynonymTypeIdent>, Vec<Xref>),
    /// A reference to the same entity elsewhere, with an optional
    /// description.
    Xref(Ident, Option<QuotedString>),
    /// A property of the entity.
    PropertyValue(PropertyValue),
    /// Whether the term is built into the format.
    Builtin(bool),
    /// A class that the term is a subclass of.
    IsA(ClassIdent),
    /// A class that the term is equivalent to.
    EquivalentTo(ClassIdent),
    /// A class that the term is disjoint from.
    DisjointFrom(ClassIdent),
    /// A relation of the term to another class.
    Relationship(RelationIdent, ClassIdent),
    /// Who created the entity.
    CreatedBy(UnquotedString),
    /// Whether the entity is obsolete.
    IsObsolete(bool),
    /// The class that replaces this obsolete one.
    ReplacedBy(ClassIdent),
    /// A class to consider in place of this obsolete one.
    Consider(ClassIdent),
}

impl View for TermClause {
    type V = ClauseView;

    open spec fn view(&self) -> ClauseView {
        match self {
            TermClause::IsAnonymous(a) => ClauseView {
                tag: TermTag::IsAnonymous.text(),
                value: ValueView::Tokens(seq![word(bool_text(*a))]),
            },
            TermClause::Name(a) => ClauseView {
                tag: TermTag::Name.text(),
                value: ValueView::Text(a@),
            },
            TermClause::Namespace(a) => ClauseView {
                tag: TermTag::Namespace.text(),
                value: ValueView::Tokens(seq![TokenView::Ident(a@)]),
            },
            TermClause::AltId(a) => ClauseView {
                tag: TermTag::AltId.text(),
                value: ValueView::Tokens(seq![TokenView::Ident(a@)]),
            },
            TermClause::Comment(a) => ClauseView {
                tag: TermTag::Comment.text(),
                value: ValueView::Text(a@),
            },
            TermClause::Subset(a) => ClauseView {
                tag: TermTag::Subset.text(),
                value: ValueView::Tokens(seq![TokenView::Ident(a@)]),
            },
            TermClause::Def(a, b) => ClauseView {
                tag: TermTag::Def.text(),
                value: ValueView::Tokens(seq![
                    TokenView::Quoted(a@),
                    TokenView::Xrefs(xrefs_view(b@)),
                ]),
            },
            TermClause::Synonym(a, b, c, d) => ClauseView {
                tag: TermTag::Synonym.text(),
                value: ValueView::Tokens(
                    match c {
                        Some(x) => seq![
                            TokenView::Quoted(a@),
                            word(b.text()),
                            TokenView::Ident(x@),
                            TokenView::Xrefs(xrefs_view(d@)),
                        ],
                        None => seq![
                            TokenView::Quoted(a@),
                            word(b.text()),
                            TokenView::Xrefs(xrefs_view(d@)),
                        ],
                    },
                ),
            },
            TermClause::Xref(a, b) => ClauseView {
                tag: TermTag::Xref.text(),
                value: ValueView::Tokens(
                    match b {
                        Some(x) => seq![
                            TokenView::Ident(a@),
                            TokenView::Quoted(x@),
                        ],
                        None => seq![
                            TokenView::Ident(a@),
                        ],
                    },
                ),
            },
            TermClause::PropertyValue(a) => ClauseView {
                tag: TermTag::PropertyValue.text(),
                value: ValueView::Tokens(a@.tokens()),
            },
            TermClause::Builtin(a) => ClauseView {
                tag: TermTag::Builtin.text(),
                value: ValueView::Tokens(seq![word(bool_text(*a))]),
            },
            TermClause::IsA(a) => ClauseView {
                tag: TermTag::IsA.text(),
                value: ValueView::Tokens(seq![TokenView::Ident(a@)]),
            },
            TermClause::EquivalentTo(a) => ClauseView {
                tag: TermTag::EquivalentTo.text(),
                value: ValueView::Tokens(seq![TokenView::Ident(a@)]),
            },
            TermClause::DisjointFrom(a) => ClauseView {
                tag: TermTag::DisjointFrom.text(),
                value: ValueView::Tokens(seq![TokenView::Ident(a@)]),
            },
            TermClause::Relationship(a, b) => ClauseView {
                tag: TermTag::Relationship.text(),
                value: ValueView::Tokens(seq![
                    TokenView::Ident(a@),
                    TokenView::Ident(b@),
                ]),
            },
            TermClause::CreatedBy(a) => ClauseView {
                tag: TermTag::CreatedBy.text(),
                value: ValueView::Text(a@),
            },
            TermClause::IsObsolete(a) => ClauseView {
                tag: TermTag::IsObsolete.text(),
                value: ValueView::Tokens(seq![word(bool_text(*a))]),
            },
            TermClause::ReplacedBy(a) => ClauseView {
                tag: TermTag::ReplacedBy.text(),
                value: ValueView::Tokens(seq![TokenView::Ident(a@)]),
            },
            TermClause::Consider(a) => ClauseView {
                tag: TermTag::Consider.text(),
                value: ValueView::Tokens(seq![TokenView::Ident(a@)]),
            },
        }
    }
}

impl Clone for TermClause {
    fn clone(&self) -> (r: Self)
        ensures
            r@ == self@,
    {
        match self {
            TermClause::IsAnonymous(a) => TermClause::IsAnonymous(*a),
            TermClause::Name(a) => TermClause::Name(a.clone()),
            TermClause::Namespace(a) => TermClause::Namespace(a.clone()),
            TermClause::AltId(a) => TermClause::AltId(a.clone()),
            TermClause::Comment(a) => TermClause::Comment(a.clone()),
            TermClause::Subset(a) => TermClause::Subset(a.clone()),
            TermClause::Def(a, b) => TermClause::Def(a.clone(), clone_xrefs(b)),
            TermClause::Synonym(a, b, c, d) => TermClause::Synonym(
                a.clone(),
                *b,
                match c {
                    Some(x) => Some(x.clone()),
                    None => None,
                },
                clone_xrefs(d),
            ),
            TermClause::Xref(a, b) => TermClause::Xref(
                a.clone(),
                match b {
                    Some(x) => Some(x.clone()),
                    None => None,
                },
            ),
            TermClause::PropertyValue(a) => TermClause::PropertyValue(a.clone()),
            TermClause::Builtin(a) => TermClause::Builtin(*a),
            TermClause::IsA(a) => TermClause::IsA(a.clone()),
            TermClause::EquivalentTo(a) => TermClause::EquivalentTo(a.clone()),
            TermClause::DisjointFrom(a) => TermClause::DisjointFrom(a.clone()),
            TermClause::Relationship(a, b) => TermClause::Relationship(a.clone(), b.clone()),
            TermClause::CreatedBy(a) => TermClause::CreatedBy(a.clone()),
            TermClause::IsObsolete(a) => TermClause::IsObsolete(*a),
            TermClause::ReplacedBy(a) => TermClause::ReplacedBy(a.clone()),
            TermClause::Consider(a) => TermClause::Consider(a.clone()),
        }
    }
}

/// The value as a clause with the given tag takes it; `None` where the
/// value is not what the tag asks for.
#[verifier::opaque]
pub open spec fn term_value(tag: TermTag, value: ValueView) -> Option<ValueView> {
    match tag {
        TermTag::IsAnonymous => match value {
            ValueView::Tokens(ts) => if ts.len() == 1 && is_bool_token(ts[0]) {
                Some(value)
            } else {
                None
            },
            _ => None,
        },
        TermTag::Name => if value is Text {
            Some(value)
        } else {
            None
        },
        TermTag::Namespace => match value {
            ValueView::Tokens(ts) => if ts.len() == 1 && ts[0] is Ident {
                Some(value)
            } else {
                None
            },
            _ => None,
        },
        TermTag::AltId => match value {
            ValueView::Tokens(ts) => if ts.len() == 1 && ts[0] is Ident {
                Some(value)
            } else {
                None
            },
            _ => None,
        },
        TermTag::Comment => if value is Text {
            Some(value)
        } else {
            None
        },
        TermTag::Subset => match value {
            ValueView::Tokens(ts) => if ts.len() == 1 && ts[0] is Ident {
                Some(value)
            } else {
                None
            },
            _ => None,
        },
        TermTag::Def => match value {
            ValueView::Tokens(ts) => if ts.len() == 2 && ts[0] is Quoted && ts[1] is Xrefs {
                Some(value)
            } else {
                None
            },
            _ => None,
        },
        TermTag::Synonym => match value {
            ValueView::Tokens(ts) => {
                let fits = if ts.len() == 3 {
                    ts[0] is Quoted && is_scope_token(ts[1]) && ts[2] is Xrefs
                } else {
                    ts.len() == 4
                        && ts[0] is Quoted
                        && is_scope_token(ts[1])
                        && ts[2] is Ident
                        && ts[3] is Xrefs
                };
                if fits {
                    Some(value)
                } else {
                    None
                }
            },
            _ => None,
        },
        TermTag::Xref => match value {
            ValueView::Tokens(ts) => {
                let fits = if ts.len() == 1 {
                    ts[0] is Ident
                } else {
                    ts.len() == 2 && ts[0] is Ident && ts[1] is Quoted
                };
                if fits {
                    Some(value)
                } else {
                    None
                }
            },
            _ => None,
        },
        TermTag::PropertyValue => match value {
            ValueView::Tokens(ts) => match pv_of_tokens(ts) {
                Some(pv) => Some(ValueView::Tokens(pv.tokens())),
                None => None,
            },
            _ => None,
        },
        TermTag::Builtin => match value {
            ValueView::Tokens(ts) => if ts.len() == 1 && is_bool_token(ts[0]) {
                Some(value)
            } else {
                None
            },
            _ => None,
        },
        TermTag::IsA => match value {
            ValueView::Tokens(ts) => if ts.len() == 1 && ts[0] is Ident {
                Some(value)
            } else {
                None
            },
            _ => None,
        },
        TermTag::EquivalentTo => match value {
            ValueView::Tokens(ts) => if ts.len() == 1 && ts[0] is Ident {
                Some(value)
            } else {
                None
            },
            _ => None,
        },
        TermTag::DisjointFrom => match value {
            ValueView::Tokens(ts) => if ts.len() == 1 && ts[0] is Ident {
                Some(value)
            } else {
                None
            },
            _ => None,
        },
        TermTag::Relationship => match value {
            ValueView::Tokens(ts) => if ts.len() == 2 && ts[0] is Ident && ts[1] is Ident {
                Some(value)
            } else {
                None
            },
            _ => None,
        },
        TermTag::CreatedBy => if value is Text {
            Some(value)
        } else {
            None
        },
        TermTag::IsObsolete => match value {
            ValueView::Tokens(ts) => if ts.len() == 1 && is_bool_token(ts[0]) {
                Some(value)
            } else {
                None
            },
            _ => None,
        },
        TermTag::ReplacedBy => match value {
            ValueView::Tokens(ts) => if ts.len() == 1 && ts[0] is Ident {
                Some(value)
            } else {
                None
            },
            _ => None,
        },
        TermTag::Consider => match value {
            ValueView::Tokens(ts) => if ts.len() == 1 && ts[0] is Ident {
                Some(value)
            } else {
                None
            },
            _ => None,
        },
        _ => None,
    }
}

/// The shape of the value behind a tag of a `[Term]` frame; `None` where there is
/// no such tag.
pub open spec fn term_shape_of(tag: Seq<char>) -> Option<Shape> {
    match TermTag::of(tag) {
        Some(t) => Some(t.spec_shape()),
        None => None,
    }
}

/// Whether the clauses of a tag are supported.
pub open spec fn term_supported(tag: Seq<char>) -> bool {
    match TermTag::of(tag) {
        Some(t) => t.spec_supported(),
        None => false,
    }
}

/// The line as its tag takes it; `None` where the value is not what the
/// tag asks for.
pub open spec fn term_interpret(l: LineView<ClauseView>) -> Option<LineView<ClauseView>> {
    match TermTag::of(l.inner.tag) {
        Some(t) => match term_value(t, l.inner.value) {
            Some(value) => Some(
                LineView { inner: ClauseView { tag: l.inner.tag, value }, trailer: l.trailer },
            ),
            None => None,
        },
        None => None,
    }
}

/// What a clause takes a value for is a value that it takes as it is, of
/// the shape that goes with the tag; and it can be written and read back
/// if the value can.
pub proof fn lemma_term_value(tag: TermTag, value: ValueView)
    ensures
        term_value(tag, value) matches Some(taken) ==> term_value(tag, taken) == Some(taken)
            && taken.shape() == tag.spec_shape() && (value.wf() ==> taken.wf()),
{
    reveal(term_value);
    match value {
        ValueView::Tokens(ts) => {
            if let Some(pv) = pv_of_tokens(ts) {
                lemma_pv_of_tokens(pv);
                if tokens_wf(ts) {
                    lemma_pv_tokens_wf(ts);
                }
            }
        },
        ValueView::Text(_) => {},
    }
}

/// What a line is taken for is a line that is taken as it is: it has the
/// tag and the trailer of the line, and a value of the same shape, which
/// can be written and read back if the value of the line can.
pub proof fn lemma_term_interpret(l: LineView<ClauseView>)
    requires
        term_shape_of(l.inner.tag) == Some(l.inner.value.shape()),
    ensures
        term_interpret(l) matches Some(r) ==> r.inner.tag == l.inner.tag && r.trailer == l.trailer
            && r.inner.value.shape() == l.inner.value.shape() && term_interpret(r) == Some(r)
            && (l.inner.value.wf() ==> r.inner.value.wf()),
{
    if let Some(tag) = TermTag::of(l.inner.tag) {
        lemma_term_value(tag, l.inner.value);
    }
}

impl TermClause {
    /// The tag of the clause.
    pub fn tag(&self) -> (r: TermTag)
        ensures
            r.text() == self@.tag,
            r.spec_supported(),
            r.spec_shape() == self@.value.shape(),
    {
        match self {
            TermClause::IsAnonymous(..) => TermTag::IsAnonymous,
            TermClause::Name(..) => TermTag::Name,
            TermClause::Namespace(..) => TermTag::Namespace,
            TermClause::AltId(..) => TermTag::AltId,
            TermClause::Comment(..) => TermTag::Comment,
            TermClause::Subset(..) => TermTag::Subset,
            TermClause::Def(..) => TermTag::Def,
            TermClause::Synonym(..) => TermTag::Synonym,
            TermClause::Xref(..) => TermTag::Xref,
            TermClause::PropertyValue(..) => TermTag::PropertyValue,
            TermClause::Builtin(..) => TermTag::Builtin,
            TermClause::IsA(..) => TermTag::IsA,
            TermClause::EquivalentTo(..) => TermTag::EquivalentTo,
            TermClause::DisjointFrom(..) => TermTag::DisjointFrom,
            TermClause::Relationship(..) => TermTag::Relationship,
            TermClause::CreatedBy(..) => TermTag::CreatedBy,
            TermClause::IsObsolete(..) => TermTag::IsObsolete,
            TermClause::ReplacedBy(..) => TermTag::ReplacedBy,
            TermClause::Consider(..) => TermTag::Consider,
        }
    }

    /// The value of the clause, as free text or as tokens.
    pub fn to_value(&self) -> (r: Value)
        ensures
            r@ == self@.value,
    {
        match self {
            TermClause::IsAnonymous(a) => {
                let ts = vec![Token::from_bool(*a)];
                assert(tokens_view(ts@) == seq![word(bool_text(*a))]);
                Value::Tokens(ts)
            },
            TermClause::Name(a) => Value::Text(a.clone()),
            TermClause::Namespace(a) => {
                let ts = vec![Token::Ident(a.as_ident().clone())];
                assert(tokens_view(ts@) == seq![TokenView::Ident(a@)]);
                Value::Tokens(ts)
            },
            TermClause::AltId(a) => {
                let ts = vec![Token::Ident(a.clone())];
                assert(tokens_view(ts@) == seq![TokenView::Ident(a@)]);
                Value::Tokens(ts)
            },
            TermClause::Comment(a) => Value::Text(a.clone()),
            TermClause::Subset(a) => {
                let ts = vec![Token::Ident(a.as_ident().clone())];
                assert(tokens_view(ts@) == seq![TokenView::Ident(a@)]);
                Value::Tokens(ts)
            },
            TermClause::Def(a, b) => {
                let ts = vec![Token::Quoted(a.clone()), Token::Xrefs(clone_xrefs(b))];
                assert(tokens_view(ts@) == seq![
                    TokenView::Quoted(a@),
                    TokenView::Xrefs(xrefs_view(b@)),
                ]);
                Value::Tokens(ts)
            },
            TermClause::Synonym(a, b, c, d) => match c {
                Some(x) => {
                    let ts = vec![
                        Token::Quoted(a.clone()),
                        Token::from_scope(*b),
                        Token::Ident(x.as_ident().clone()),
                        Token::Xrefs(clone_xrefs(d)),
                    ];
                    assert(tokens_view(ts@) == seq![
                        TokenView::Quoted(a@),
                        word(b.text()),
                        TokenView::Ident(x@),
                        TokenView::Xrefs(xrefs_view(d@)),
                    ]);
                    Value::Tokens(ts)
                },
                None => {
                    let ts = vec![
                        Token::Quoted(a.clone()),
                        Token::from_scope(*b),
                        Token::Xrefs(clone_xrefs(d)),
                    ];
                    assert(tokens_view(ts@) == seq![
                        TokenView::Quoted(a@),
                        word(b.text()),
                        TokenView::Xrefs(xrefs_view(d@)),
                    ]);
                    Value::Tokens(ts)
                },
            },
            TermClause::Xref(a, b) => match b {
                Some(x) => {
                    let ts = vec![Token::Ident(a.clone()), Token::Quoted(x.clone())];
                    assert(tokens_view(ts@) == seq![TokenView::Ident(a@), TokenView::Quoted(x@)]);
                    Value::Tokens(ts)
                },
                None => {
                    let ts = vec![Token::Ident(a.clone())];
                    assert(tokens_view(ts@) == seq![TokenView::Ident(a@)]);
                    Value::Tokens(ts)
                },
            },
            TermClause::PropertyValue(a) => Value::Tokens(a.to_tokens()),
            TermClause::Builtin(a) => {
                let ts = vec![Token::from_bool(*a)];
                assert(tokens_view(ts@) == seq![word(bool_text(*a))]);
                Value::Tokens(ts)
            },
            TermClause::IsA(a) => {
                let ts = vec![Token::Ident(a.as_ident().clone())];
                assert(tokens_view(ts@) == seq![TokenView::Ident(a@)]);
                Value::Tokens(ts)
            },
            TermClause::EquivalentTo(a) => {
                let ts = vec![Token::Ident(a.as_ident().clone())];
                assert(tokens_view(ts@) == seq![TokenView::Ident(a@)]);
                Value::Tokens(ts)
            },
            TermClause::DisjointFrom(a) => {
                let ts = vec![Token::Ident(a.as_ident().clone())];
                assert(tokens_view(ts@) == seq![TokenView::Ident(a@)]);
                Value::Tokens(ts)
            },
            TermClause::Relationship(a, b) => {
                let ts = vec![
                    Token::Ident(a.as_ident().clone()),
                    Token::Ident(b.as_ident().clone()),
                ];
                assert(tokens_view(ts@) == seq![TokenView::Ident(a@), TokenView::Ident(b@)]);
                Value::Tokens(ts)
            },
            TermClause::CreatedBy(a) => Value::Text(a.clone()),
            TermClause::IsObsolete(a) => {
                let ts = vec![Token::from_bool(*a)];
                assert(tokens_view(ts@) == seq![word(bool_text(*a))]);
                Value::Tokens(ts)
            },
            TermClause::ReplacedBy(a) => {
                let ts = vec![Token::Ident(a.as_ident().clone())];
                assert(tokens_view(ts@) == seq![TokenView::Ident(a@)]);
                Value::Tokens(ts)
            },
            TermClause::Consider(a) => {
                let ts = vec![Token::Ident(a.as_ident().clone())];
                assert(tokens_view(ts@) == seq![TokenView::Ident(a@)]);
                Value::Tokens(ts)
            },
        }
    }

    /// The clause with the given tag and value; nothing where the value
    /// is not what the tag asks for.
    pub fn from_value(tag: TermTag, value: Value) -> (r: Option<Self>)
        ensures
            match term_value(tag, value@) {
                Some(taken) => r matches Some(c) && c@ == (ClauseView {
                    tag: tag.text(),
                    value: taken,
                }) && (value@.wf() ==> taken.wf()),
                None => r is None,
            },
    {
        proof {
            reveal(term_value);
            if let ValueView::Tokens(ts) = value@ {
                if value@.wf() {
                    lemma_pv_tokens_wf(ts);
                }
            }
        }
        match tag {
            TermTag::IsAnonymous => match value {
                Value::Tokens(ts) => match take_one(ts) {
                    Some(a) => match a.into_bool() {
                        Some(a) => Some(TermClause::IsAnonymous(a)),
                        None => None,
                    },
                    None => None,
                },
                Value::Text(_) => None,
            },
            TermTag::Name => match value {
                Value::Text(a) => Some(TermClause::Name(a)),
                Value::Tokens(_) => None,
            },
            TermTag::Namespace => match value {
                Value::Tokens(ts) => match take_one(ts) {
                    Some(a) => match a.into_ident() {
                        Some(a) => Some(TermClause::Namespace(NamespaceIdent::new(a))),
                        None => None,
                    },
                    None => None,
                },
                Value::Text(_) => None,
            },
            TermTag::AltId => match value {
                Value::Tokens(ts) => match take_one(ts) {
                    Some(a) => match a.into_ident() {
                        Some(a) => Some(TermClause::AltId(a)),
                        None => None,
                    },
                    None => None,
                },
                Value::Text(_) => None,
            },
            TermTag::Comment => match value {
                Value::Text(a) => Some(TermClause::Comment(a)),
                Value::Tokens(_) => None,
            },
            TermTag::Subset => match value {
                Value::Tokens(ts) => match take_one(ts) {
                    Some(a) => match a.into_ident() {
                        Some(a) => Some(TermClause::Subset(SubsetIdent::new(a))),
                        None => None,
                    },
                    None => None,
                },
                Value::Text(_) => None,
            },
            TermTag::Def => match value {
                Value::Tokens(ts) => match take_two(ts) {
                    Some((a, b)) => match (a.into_quoted(), b.into_xrefs()) {
                        (Some(a), Some(b)) => Some(TermClause::Def(a, b)),
                        _ => None,
                    },
                    None => None,
                },
                Value::Text(_) => None,
            },
            TermTag::Synonym => match value {
                Value::Tokens(ts) => if ts.len() == 3 {
                    match take_three(ts) {
                        Some((a, b, d)) => match (a.into_quoted(), b.into_scope(), d.into_xrefs()) {
                            (Some(a), Some(b), Some(d)) => Some(TermClause::Synonym(a, b, None, d)),
                            _ => None,
                        },
                        None => None,
                    }
                } else {
                    match take_four(ts) {
                        Some((a, b, c, d)) => match (
                            a.into_quoted(),
                            b.into_scope(),
                            c.into_ident(),
                            d.into_xrefs(),
                        ) {
                            (Some(a), Some(b), Some(c), Some(d)) => Some(
                                TermClause::Synonym(a, b, Some(SynonymTypeIdent::new(c)), d),
                            ),
                            _ => None,
                        },
                        None => None,
                    }
                },
                Value::Text(_) => None,
            },
            TermTag::Xref => match value {
                Value::Tokens(ts) => match take_one_or_two(ts) {
                    Some((a, x)) => match a.into_ident() {
                        Some(a) => match x {
                            Some(x) => match x.into_quoted() {
                                Some(x) => Some(TermClause::Xref(a, Some(x))),
                                None => None,
                            },
                            None => Some(TermClause::Xref(a, None)),
                        },
                        None => None,
                    },
                    None => None,
                },
                Value::Text(_) => None,
            },
            TermTag::PropertyValue => match value {
                Value::Tokens(ts) => match PropertyValue::from_tokens(ts) {
                    Ok(a) => Some(TermClause::PropertyValue(a)),
                    Err(_) => None,
                },
                Value::Text(_) => None,
            },
            TermTag::Builtin => match value {
                Value::Tokens(ts) => match take_one(ts) {
                    Some(a) => match a.into_bool() {
                        Some(a) => Some(TermClause::Builtin(a)),
                        None => None,
                    },
                    None => None,
                },
                Value::Text(_) => None,
            },
            TermTag::IsA => match value {
                Value::Tokens(ts) => match take_one(ts) {
                    Some(a) => match a.into_ident() {
                        Some(a) => Some(TermClause::IsA(ClassIdent::new(a))),
                        None => None,
                    },
                    None => None,
                },
                Value::Text(_) => None,
            },
            TermTag::EquivalentTo => match value {
                Value::Tokens(ts) => match take_one(ts) {
                    Some(a) => match a.into_ident() {
                        Some(a) => Some(TermClause::EquivalentTo(ClassIdent::new(a))),
                        None => None,
                    },
                    None => None,
                },
                Value::Text(_) => None,
            },
            TermTag::DisjointFrom => match value {
                Value::Tokens(ts) => match take_one(ts) {
                    Some(a) => match a.into_ident() {
                        Some(a) => Some(TermClause::DisjointFrom(ClassIdent::new(a))),
                        None => None,
                    },
                    None => None,
                },
                Value::Text(_) => None,
            },
            TermTag::Relationship => match value {
                Value::Tokens(ts) => match take_two(ts) {
                    Some((a, b)) => match (a.into_ident(), b.into_ident()) {
                        (Some(a), Some(b)) => Some(
                            TermClause::Relationship(RelationIdent::new(a), ClassIdent::new(b)),
                        ),
                        _ => None,
                    },
                    None => None,
                },
                Value::Text(_) => None,
            },
            TermTag::CreatedBy => match value {
                Value::Text(a) => Some(TermClause::CreatedBy(a)),
                Value::Tokens(_) => None,
            },
            TermTag::IsObsolete => match value {
                Value::Tokens(ts) => match take_one(ts) {
                    Some(a) => match a.into_bool() {
                        Some(a) => Some(TermClause::IsObsolete(a)),
                        None => None,
                    },
                    None => None,
                },
                Value::Text(_) => None,
            },
            TermTag::ReplacedBy => match value {
                Value::Tokens(ts) => match take_one(ts) {
                    Some(a) => match a.into_ident() {
                        Some(a) => Some(TermClause::ReplacedBy(ClassIdent::new(a))),
                        None => None,
                    },
                    None => None,
                },
                Value::Text(_) => None,
            },
            TermTag::Consider => match value {
                Value::Tokens(ts) => match take_one(ts) {
                    Some(a) => match a.into_ident() {
                        Some(a) => Some(TermClause::Consider(ClassIdent::new(a))),
                        None => None,
                    },
                    None => None,
                },
                Value::Text(_) => None,
            },
            _ => None,
        }
    }

    /// Every clause is one that its frame takes as it is, whatever stands
    /// behind it on its line.
    pub proof fn lemma_typed(&self, trailer: TrailerView)
        ensures
            is_tag(self@.tag),
            LineKind::Term.is_typed(LineView { inner: self@, trailer }),
    {
        reveal(term_value);
        lemma_bool_of_text(true);
        lemma_bool_of_text(false);
        SynonymScope::lemma_of_text(SynonymScope::Exact);
        SynonymScope::lemma_of_text(SynonymScope::Broad);
        SynonymScope::lemma_of_text(SynonymScope::Narrow);
        SynonymScope::lemma_of_text(SynonymScope::Related);
        match self {
            TermClause::IsAnonymous(..) => {
                let tag = TermTag::IsAnonymous;
                TermTag::lemma_of_text(tag);
                assert(term_value(tag, self@.value) == Some(self@.value));
            },
            TermClause::Name(..) => {
                let tag = TermTag::Name;
                TermTag::lemma_of_text(tag);
                assert(term_value(tag, self@.value) == Some(self@.value));
            },
            TermClause::Namespace(..) => {
                let tag = TermTag::Namespace;
                TermTag::lemma_of_text(tag);
                assert(term_value(tag, self@.value) == Some(self@.value));
            },
            TermClause::AltId(..) => {
                let tag = TermTag::AltId;
                TermTag::lemma_of_text(tag);
                assert(term_value(tag, self@.value) == Some(self@.value));
            },
            TermClause::Comment(..) => {
                let tag = TermTag::Comment;
                TermTag::lemma_of_text(tag);
                assert(term_value(tag, self@.value) == Some(self@.value));
            },
            TermClause::Subset(..) => {
                let tag = TermTag::Subset;
                TermTag::lemma_of_text(tag);
                assert(term_value(tag, self@.value) == Some(self@.value));
            },
            TermClause::Def(..) => {
                let tag = TermTag::Def;
                TermTag::lemma_of_text(tag);
                assert(term_value(tag, self@.value) == Some(self@.value));
            },
            TermClause::Synonym(..) => {
                let tag = TermTag::Synonym;
                TermTag::lemma_of_text(tag);
                assert(term_value(tag, self@.value) == Some(self@.value));
            },
            TermClause::Xref(..) => {
                let tag = TermTag::Xref;
                TermTag::lemma_of_text(tag);
                assert(term_value(tag, self@.value) == Some(self@.value));
            },
            TermClause::PropertyValue(a) => {
                let tag = TermTag::PropertyValue;
                TermTag::lemma_of_text(tag);
                lemma_pv_of_tokens(a@);
                assert(term_value(tag, self@.value) == Some(self@.value));
            },
            TermClause::Builtin(..) => {
                let tag = TermTag::Builtin;
                TermTag::lemma_of_text(tag);
                assert(term_value(tag, self@.value) == Some(self@.value));
            },
            TermClause::IsA(..) => {
                let tag = TermTag::IsA;
                TermTag::lemma_of_text(tag);
                assert(term_value(tag, self@.value) == Some(self@.value));
            },
            TermClause::EquivalentTo(..) => {
                let tag = TermTag::EquivalentTo;
                TermTag::lemma_of_text(tag);
                assert(term_value(tag, self@.value) == Some(self@.value));
            },
            TermClause::DisjointFrom(..) => {
                let tag = TermTag::DisjointFrom;
                TermTag::lemma_of_text(tag);
                assert(term_value(tag, self@.value) == Some(self@.value));
            },
            TermClause::Relationship(..) => {
                let tag = TermTag::Relationship;
                TermTag::lemma_of_text(tag);
                assert(term_value(tag, self@.value) == Some(self@.value));
            },
            TermClause::CreatedBy(..) => {
                let tag = TermTag::CreatedBy;
                TermTag::lemma_of_text(tag);
                assert(term_value(tag, self@.value) == Some(self@.value));
            },
            TermClause::IsObsolete(..) => {
                let tag = TermTag::IsObsolete;
                TermTag::lemma_of_text(tag);
                assert(term_value(tag, self@.value) == Some(self@.value));
            },
            TermClause::ReplacedBy(..) => {
                let tag = TermTag::ReplacedBy;
                TermTag::lemma_of_text(tag);
                assert(term_value(tag, self@.value) == Some(self@.value));
            },
            TermClause::Consider(..) => {
                let tag = TermTag::Consider;
                TermTag::lemma_of_text(tag);
                assert(term_value(tag, self@.value) == Some(self@.value));
            },
        }
    }
}

impl LineSyntax for Line<TermClause> {
    open spec fn kind() -> LineKind {
        LineKind::Term
    }

    fn read(v: &Vec<char>) -> (r: Result<Self, Error>) {
        let fail = Err(Error::SyntaxError { rule: Rule::TermClause });
        assert(v@.subrange(0, v@.len() as int) == v@);
        let colon = match read_tag(v, 0, v.len()) {
            Some(colon) => colon,
            None => {
                return fail;
            },
        };
        let ghost text = v@.subrange(0, colon as int);
        let ghost rest = v@.skip(colon + 2);
        assert(parse_tag(v@) == Some((text, colon + 2)));
        let tag = match TermTag::lookup(v, 0, colon) {
            Some(tag) => tag,
            None => {
                return fail;
            },
        };
        assert(term_shape_of(text) == Some(tag.spec_shape()));
        if !tag.supported() {
            return Err(Error::NotImplemented { rule: Rule::TermClause });
        }
        assert(rest == v@.subrange(colon + 2, v@.len() as int));
        let (value, trailer) = match Value::read(tag.shape(), v, colon + 2, v.len()) {
            Some(found) => found,
            None => {
                return fail;
            },
        };
        assert(parse_value(tag.spec_shape(), rest) == Some((value@, trailer@)));
        match TermClause::from_value(tag, value) {
            Some(inner) => Ok(Line::with_trailer(inner, trailer)),
            None => fail,
        }
    }

    fn write(&self, out: &mut Vec<char>) {
        push_chars(out, self.inner.tag().as_str());
        out.push(':');
        out.push(' ');
        self.inner.to_value().write(out);
        self.trailer.write(out);
        assert(out@ == old(out)@ + render_clause_line(self@));
    }

    open spec fn faithful(&self) -> bool {
        true
    }

    fn is_valid(&self) -> (b: bool) {
        self.inner.to_value().is_valid() && self.trailer.is_valid()
    }

    proof fn lemma_typed(&self) {
        self.inner.lemma_typed(self.trailer@);
    }
}

} // verus!
