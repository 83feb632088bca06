//! The clauses of an `[Instance]` frame.

use crate::clause::{LineKind, LineSyntax};
use crate::error::{Error, Rule};
use crate::id::{
    ClassIdent, Ident, InstanceIdent, NamespaceIdent, RelationIdent, SubsetIdent, SynonymTypeIdent,
};
use crate::line::{is_tag, parse_tag, read_tag, render_clause_line, ClauseView, Line, LineView};
use crate::pv::{lemma_pv_of_tokens, lemma_pv_tokens_wf, pv_of_tokens, PropertyValue};
use crate::strings::{QuotedString, UnquotedString};
use crate::synonym::{bool_text, lemma_bool_of_text, SynonymScope};
use crate::text::{chars_eq, push_chars};
use crate::token::{
    is_bool_token, is_scope_token, take_four, take_one, take_one_or_two, take_three, take_two,
    tokens_view, tokens_wf, word, Token, TokenView,
};
use crate::trailer::TrailerView;
use crate::value::{parse_value, Shape, Value, ValueView};
use crate::xref::{clone_xrefs, xrefs_view, Xref};
use vstd::prelude::*;

verus! {

/// The tags of the clauses of an `[Instance]` frame.
#[derive(Clone, Copy, Debug, PartialEq, Eq, Hash, Structural)]
pub enum InstanceTag {
    /// `is_anonymous`
    IsAnonymous,
    /// `name`
    Name,
    /// `namespace`
    Namespace,
    /// `alt_id`
    AltId,
    /// `comment`
    Comment,
    /// `subset`
    Subset,
    /// `def`
    Def,
    /// `synonym`
    Synonym,
    /// `xref`
    Xref,
    /// `property_value`
    PropertyValue,
    /// `instance_of`
    InstanceOf,
    /// `relationship`
    Relationship,
    /// `created_by`
    CreatedBy,
    /// `is_obsolete`
    IsObsolete,
    /// `replaced_by`
    ReplacedBy,
    /// `consider`
    Consider,
    /// `creation_date`
    CreationDate,
}

impl InstanceTag {
    /// The tag as it is written.
    pub open spec fn text(self) -> Seq<char> {
        match self {
            InstanceTag::IsAnonymous => "is_anonymous"@,
            InstanceTag::Name => "name"@,
            InstanceTag::Namespace => "namespace"@,
            InstanceTag::AltId => "alt_id"@,
            InstanceTag::Comment => "comment"@,
            InstanceTag::Subset => "subset"@,
            InstanceTag::Def => "def"@,
            InstanceTag::Synonym => "synonym"@,
            InstanceTag::Xref => "xref"@,
            InstanceTag::PropertyValue => "property_value"@,
            InstanceTag::InstanceOf => "instance_of"@,
            InstanceTag::Relationship => "relationship"@,
            InstanceTag::CreatedBy => "created_by"@,
            InstanceTag::IsObsolete => "is_obsolete"@,
            InstanceTag::ReplacedBy => "replaced_by"@,
            InstanceTag::Consider => "consider"@,
            InstanceTag::CreationDate => "creation_date"@,
        }
    }

    /// The tag that a text is.
    #[verifier::opaque]
    pub open spec fn of(text: Seq<char>) -> Option<InstanceTag> {
        if text == "is_anonymous"@ {
            Some(InstanceTag::IsAnonymous)
        } else if text == "name"@ {
            Some(InstanceTag::Name)
        } else if text == "namespace"@ {
            Some(InstanceTag::Namespace)
        } else if text == "alt_id"@ {
            Some(InstanceTag::AltId)
        } else if text == "comment"@ {
            Some(InstanceTag::Comment)
        } else if text == "subset"@ {
            Some(InstanceTag::Subset)
        } else if text == "def"@ {
            Some(InstanceTag::Def)
        } else if text == "synonym"@ {
            Some(InstanceTag::Synonym)
        } else if text == "xref"@ {
            Some(InstanceTag::Xref)
        } else if text == "property_value"@ {
            Some(InstanceTag::PropertyValue)
        } else if text == "instance_of"@ {
            Some(InstanceTag::InstanceOf)
        } else if text == "relationship"@ {
            Some(InstanceTag::Relationship)
        } else if text == "created_by"@ {
            Some(InstanceTag::CreatedBy)
        } else if text == "is_obsolete"@ {
            Some(InstanceTag::IsObsolete)
        } else if text == "replaced_by"@ {
            Some(InstanceTag::ReplacedBy)
        } else if text == "consider"@ {
            Some(InstanceTag::Consider)
        } else if text == "creation_date"@ {
            Some(InstanceTag::CreationDate)
        } else {
            None
        }
    }

    /// The shape of the value behind the tag.
    pub open spec fn spec_shape(self) -> Shape {
        match self {
            InstanceTag::Name | InstanceTag::Comment | InstanceTag::CreatedBy => Shape::Text,
            _ => Shape::Tokens,
        }
    }

    /// Whether clauses with the tag are supported.
    pub open spec fn spec_supported(self) -> bool {
        match self {
            InstanceTag::CreationDate => false,
            _ => true,
        }
    }

    /// Every tag is written as a tag is, and its text is the text of no
    /// other tag.
    pub proof fn lemma_of_text(tag: InstanceTag)
        ensures
            Self::of(tag.text()) == Some(tag),
            is_tag(tag.text()),
    {
        reveal(InstanceTag::of);
        reveal_strlit("is_anonymous");
        reveal_strlit("name");
        reveal_strlit("namespace");
        reveal_strlit("alt_id");
        reveal_strlit("comment");
        reveal_strlit("subset");
        reveal_strlit("def");
        reveal_strlit("synonym");
        reveal_strlit("xref");
        reveal_strlit("property_value");
        reveal_strlit("instance_of");
        reveal_strlit("relationship");
        reveal_strlit("created_by");
        reveal_strlit("is_obsolete");
        reveal_strlit("replaced_by");
        reveal_strlit("consider");
        reveal_strlit("creation_date");
        assert("is_anonymous"@.len() == 12 && "is_anonymous"@[0] == 'i');
        assert("name"@.len() == 4 && "name"@[0] == 'n');
        assert("namespace"@.len() == 9);
        assert("alt_id"@.len() == 6 && "alt_id"@[0] == 'a');
        assert("comment"@.len() == 7 && "comment"@[0] == 'c');
        assert("subset"@.len() == 6 && "subset"@[0] == 's');
        assert("def"@.len() == 3);
        assert("synonym"@.len() == 7 && "synonym"@[0] == 's');
        assert("xref"@.len() == 4 && "xref"@[0] == 'x');
        assert("property_value"@.len() == 14);
        assert("instance_of"@.len() == 11 && "instance_of"@[0] == 'i' && "instance_of"@[1] == 'n');
        assert("relationship"@.len() == 12 && "relationship"@[0] == 'r');
        assert("created_by"@.len() == 10);
        assert("is_obsolete"@.len() == 11 && "is_obsolete"@[0] == 'i' && "is_obsolete"@[1] == 's');
        assert("replaced_by"@.len() == 11 && "replaced_by"@[0] == 'r');
        assert("consider"@.len() == 8);
        assert("creation_date"@.len() == 13);
    }

    /// The tag as it is written.
    pub fn as_str(self) -> (s: &'static str)
        ensures
            s@ == self.text(),
    {
        match self {
            InstanceTag::IsAnonymous => "is_anonymous",
            InstanceTag::Name => "name",
            InstanceTag::Namespace => "namespace",
            InstanceTag::AltId => "alt_id",
            InstanceTag::Comment => "comment",
            InstanceTag::Subset => "subset",
            InstanceTag::Def => "def",
            InstanceTag::Synonym => "synonym",
            InstanceTag::Xref => "xref",
            InstanceTag::PropertyValue => "property_value",
            InstanceTag::InstanceOf => "instance_of",
            InstanceTag::Relationship => "relationship",
            InstanceTag::CreatedBy => "created_by",
            InstanceTag::IsObsolete => "is_obsolete",
            InstanceTag::ReplacedBy => "replaced_by",
            InstanceTag::Consider => "consider",
            InstanceTag::CreationDate => "creation_date",
        }
    }

    /// The shape of the value behind the tag.
    #[verifier::when_used_as_spec(spec_shape)]
    pub fn shape(self) -> (r: Shape)
        ensures
            r == self.spec_shape(),
    {
        match self {
            InstanceTag::Name | InstanceTag::Comment | InstanceTag::CreatedBy => Shape::Text,
            _ => Shape::Tokens,
        }
    }

    /// Whether clauses with the tag are supported.
    #[verifier::when_used_as_spec(spec_supported)]
    pub fn supported(self) -> (r: bool)
        ensures
            r == self.spec_supported(),
    {
        match self {
            InstanceTag::CreationDate => false,
            _ => true,
        }
    }

    /// The tag that `v[from..to]` is.
    pub fn lookup(v: &Vec<char>, from: usize, to: usize) -> (r: Option<InstanceTag>)
        requires
            from <= to <= v.len(),
        ensures
            r == Self::of(v@.subrange(from as int, to as int)),
            r matches Some(tag) ==> tag.text() == v@.subrange(from as int, to as int),
    {
        proof {
            reveal(InstanceTag::of);
        }
        if chars_eq(v, from, to, "is_anonymous") {
            Some(InstanceTag::IsAnonymous)
        } else if chars_eq(v, from, to, "name") {
            Some(InstanceTag::Name)
        } else if chars_eq(v, from, to, "namespace") {
            Some(InstanceTag::Namespace)
        } else if chars_eq(v, from, to, "alt_id") {
            Some(InstanceTag::AltId)
        } else if chars_eq(v, from, to, "comment") {
            Some(InstanceTag::Comment)
        } else if chars_eq(v, from, to, "subset") {
            Some(InstanceTag::Subset)
        } else if chars_eq(v, from, to, "def") {
            Some(InstanceTag::Def)
        } else if chars_eq(v, from, to, "synonym") {
            Some(InstanceTag::Synonym)
        } else if chars_eq(v, from, to, "xref") {
            Some(InstanceTag::Xref)
        } else if chars_eq(v, from, to, "property_value") {
            Some(InstanceTag::PropertyValue)
        } else if chars_eq(v, from, to, "instance_of") {
            Some(InstanceTag::InstanceOf)
        } else if chars_eq(v, from, to, "relationship") {
            Some(InstanceTag::Relationship)
        } else if chars_eq(v, from, to, "created_by") {
            Some(InstanceTag::CreatedBy)
        } else if chars_eq(v, from, to, "is_obsolete") {
            Some(InstanceTag::IsObsolete)
        } else if chars_eq(v, from, to, "replaced_by") {
            Some(InstanceTag::ReplacedBy)
        } else if chars_eq(v, from, to, "consider") {
            Some(InstanceTag::Consider)
        } else if chars_eq(v, from, to, "creation_date") {
            Some(InstanceTag::CreationDate)
        } else {
            None
        }
    }
}

/// A clause of an `[Instance]` frame.
#[derive(Debug, PartialEq, Eq, Hash)]
pub enum InstanceClause {
    /// Whether the entity has no identifier of its own.
    IsAnonymous(bool),
    /// The name of the entity.
    Name(UnquotedString),
    /// The namespace that the entity belongs to.
    Namespace(NamespaceIdent),
    /// Another identifier of the entity.
    AltId(Ident),
    /// A comment on the entity.
    Comment(UnquotedString),
    /// A subset that the entity belongs to.
    Subset(SubsetIdent),
    /// The definition of the entity, and where it comes from.
    Def(QuotedString, Vec<Xref>),
    /// A synonym of the name: its text, its scope, an optional type, and
    /// where it comes from.
    Synonym(QuotedString, SynonymScope, Option<SynonymTypeIdent>, Vec<Xref>),
    /// A reference to the same entity elsewhere, with an optional
    /// description.
    Xref(Ident, Option<QuotedString>),
    /// A property of the entity.
    PropertyValue(PropertyValue),
    /// The class that the instance belongs to.
    InstanceOf(ClassIdent),
    /// A relation of the instance to another entity.
    Relationship(RelationIdent, Ident),
    /// Who created the entity.
    CreatedBy(UnquotedString),
    /// Whether the entity is obsolete.
    IsObsolete(bool),
    /// The instance that replaces this obsolete one.
    ReplacedBy(InstanceIdent),
    /// An entity to consider in place of this obsolete one.
    Consider(Ident),
}

impl View for InstanceClause {
    type V = ClauseView;

    open spec fn view(&self) -> ClauseView {
        match self {
            InstanceClause::IsAnonymous(a) => ClauseView {
                tag: InstanceTag::IsAnonymous.text(),
                value: ValueView::Tokens(seq![word(bool_text(*a))]),
            },
            InstanceClause::Name(a) => ClauseView {
                tag: InstanceTag::Name.text(),
                value: ValueView::Text(a@),
            },
            InstanceClause::Namespace(a) => ClauseView {
                tag: InstanceTag::Namespace.text(),
                value: ValueView::Tokens(seq![TokenView::Ident(a@)]),
            },
            InstanceClause::AltId(a) => ClauseView {
                tag: InstanceTag::AltId.text(),
                value: ValueView::Tokens(seq![TokenView::Ident(a@)]),
            },
            InstanceClause::Comment(a) => ClauseView {
                tag: InstanceTag::Comment.text(),
                value: ValueView::Text(a@),
            },
            InstanceClause::Subset(a) => ClauseView {
                tag: InstanceTag::Subset.text(),
                value: ValueView::Tokens(seq![TokenView::Ident(a@)]),
            },
            InstanceClause::Def(a, b) => ClauseView {
                tag: InstanceTag::Def.text(),
                value: ValueView::Tokens(seq![
                    TokenView::Quoted(a@),
                    TokenView::Xrefs(xrefs_view(b@)),
                ]),
            },
            InstanceClause::Synonym(a, b, c, d) => ClauseView {
                tag: InstanceTag::Synonym.text(),
                value: ValueView::Tokens(
                    match c {
                        Some(x) => seq![
                            TokenView::Quoted(a@),
                            word(b.text()),
                            TokenView::Ident(x@),
                            TokenView::Xrefs(xrefs_view(d@)),
                        ],
                        None => seq![
                            TokenView::Quoted(a@),
                            word(b.text()),
                            TokenView::Xrefs(xrefs_view(d@)),
                        ],
                    },
                ),
            },
            InstanceClause::Xref(a, b) => ClauseView {
                tag: InstanceTag::Xref.text(),
                value: ValueView::Tokens(
                    match b {
                        Some(x) => seq![
                            TokenView::Ident(a@),
                            TokenView::Quoted(x@),
                        ],
                        None => seq![
                            TokenView::Ident(a@),
                        ],
                    },
                ),
            },
            InstanceClause::PropertyValue(a) => ClauseView {
                tag: InstanceTag::PropertyValue.text(),
                value: ValueView::Tokens(a@.tokens()),
            },
            InstanceClause::InstanceOf(a) => ClauseView {
                tag: InstanceTag::InstanceOf.text(),
                value: ValueView::Tokens(seq![TokenView::Ident(a@)]),
            },
            InstanceClause::Relationship(a, b) => ClauseView {
                tag: InstanceTag::Relationship.text(),
                value: ValueView::Tokens(seq![
                    TokenView::Ident(a@),
                    TokenView::Ident(b@),
                ]),
            },
            InstanceClause::CreatedBy(a) => ClauseView {
                tag: InstanceTag::CreatedBy.text(),
                value: ValueView::Text(a@),
            },
            InstanceClause::IsObsolete(a) => ClauseView {
                tag: InstanceTag::IsObsolete.text(),
                value: ValueView::Tokens(seq![word(bool_text(*a))]),
            },
            InstanceClause::ReplacedBy(a) => ClauseView {
                tag: InstanceTag::ReplacedBy.text(),
                value: ValueView::Tokens(seq![TokenView::Ident(a@)]),
            },
            InstanceClause::Consider(a) => ClauseView {
                tag: InstanceTag::Consider.text(),
                value: ValueView::Tokens(seq![TokenView::Ident(a@)]),
            },
        }
    }
}

impl Clone for InstanceClause {
    fn clone(&self) -> (r: Self)
        ensures
            r@ == self@,
    {
        match self {
            InstanceClause::IsAnonymous(a) => InstanceClause::IsAnonymous(*a),
            InstanceClause::Name(a) => InstanceClause::Name(a.clone()),
            InstanceClause::Namespace(a) => InstanceClause::Namespace(a.clone()),
            InstanceClause::AltId(a) => InstanceClause::AltId(a.clone()),
            InstanceClause::Comment(a) => InstanceClause::Comment(a.clone()),
            InstanceClause::Subset(a) => InstanceClause::Subset(a.clone()),
            InstanceClause::Def(a, b) => InstanceClause::Def(a.clone(), clone_xrefs(b)),
            InstanceClause::Synonym(a, b, c, d) => InstanceClause::Synonym(
                a.clone(),
                *b,
                match c {
                    Some(x) => Some(x.clone()),
                    None => None,
                },
                clone_xrefs(d),
            ),
            InstanceClause::Xref(a, b) => InstanceClause::Xref(
                a.clone(),
                match b {
                    Some(x) => Some(x.clone()),
                    None => None,
                },
            ),
            InstanceClause::PropertyValue(a) => InstanceClause::PropertyValue(a.clone()),
            InstanceClause::InstanceOf(a) => InstanceClause::InstanceOf(a.clone()),
            InstanceClause::Relationship(a, b) => InstanceClause::Relationship(
                a.clone(),
                b.clone(),
            ),
            InstanceClause::CreatedBy(a) => InstanceClause::CreatedBy(a.clone()),
            InstanceClause::IsObsolete(a) => InstanceClause::IsObsolete(*a),
            InstanceClause::ReplacedBy(a) => InstanceClause::ReplacedBy(a.clone()),
            InstanceClause::Consider(a) => InstanceClause::Consider(a.clone()),
        }
    }
}

/// The value as a clause with the given tag takes it; `None` where the
/// value is not what the tag asks for.
#[verifier::opaque]
pub open spec fn instance_value(tag: InstanceTag, value: ValueView) -> Option<ValueView> {
    match tag {
        InstanceTag::IsAnonymous => match value {
            ValueView::Tokens(ts) => if ts.len() == 1 && is_bool_token(ts[0]) {
                Some(value)
            } else {
                None
            },
            _ => None,
        },
        InstanceTag::Name => if value is Text {
            Some(value)
        } else {
            None
        },
        InstanceTag::Namespace => match value {
            ValueView::Tokens(ts) => if ts.len() == 1 && ts[0] is Ident {
                Some(value)
            } else {
                None
            },
            _ => None,
        },
        InstanceTag::AltId => match value {
            ValueView::Tokens(ts) => if ts.len() == 1 && ts[0] is Ident {
                Some(value)
            } else {
                None
            },
            _ => None,
        },
        InstanceTag::Comment => if value is Text {
            Some(value)
        } else {
            None
        },
        InstanceTag::Subset => match value {
            ValueView::Tokens(ts) => if ts.len() == 1 && ts[0] is Ident {
                Some(value)
            } else {
                None
            },
            _ => None,
        },
        InstanceTag::Def => match value {
            ValueView::Tokens(ts) => if ts.len() == 2 && ts[0] is Quoted && ts[1] is Xrefs {
                Some(value)
            } else {
                None
            },
            _ => None,
        },
        InstanceTag::Synonym => match value {
            ValueView::Tokens(ts) => {
                let fits = if ts.len() == 3 {
                    ts[0] is Quoted && is_scope_token(ts[1]) && ts[2] is Xrefs
                } else {
                    ts.len() == 4
                        && ts[0] is Quoted
                        && is_scope_token(ts[1])
                        && ts[2] is Ident
                        && ts[3] is Xrefs
                };
                if fits {
                    Some(value)
                } else {
                    None
                }
            },
            _ => None,
        },
        InstanceTag::Xref => match value {
            ValueView::Tokens(ts) => {
                let fits = if ts.len() == 1 {
                    ts[0] is Ident
                } else {
                    ts.len() == 2 && ts[0] is Ident && ts[1] is Quoted
                };
                if fits {
                    Some(value)
                } else {
                    None
                }
            },
            _ => None,
        },
        InstanceTag::PropertyValue => match value {
            ValueView::Tokens(ts) => match pv_of_tokens(ts) {
                Some(pv) => Some(ValueView::Tokens(pv.tokens())),
                None => None,
            },
            _ => None,
        },
        InstanceTag::InstanceOf => match value {
            ValueView::Tokens(ts) => if ts.len() == 1 && ts[0] is Ident {
                Some(value)
            } else {
                None
            },
            _ => None,
        },
        InstanceTag::Relationship => match value {
            ValueView::Tokens(ts) => if ts.len() == 2 && ts[0] is Ident && ts[1] is Ident {
                Some(value)
            } else {
                None
            },
            _ => None,
        },
        InstanceTag::CreatedBy => if value is Text {
            Some(value)
        } else {
            None
        },
        InstanceTag::IsObsolete => match value {
            ValueView::Tokens(ts) => if ts.len() == 1 && is_bool_token(ts[0]) {
                Some(value)
            } else {
                None
            },
            _ => None,
        },
        InstanceTag::ReplacedBy => match value {
            ValueView::Tokens(ts) => if ts.len() == 1 && ts[0] is Ident {
                Some(value)
            } else {
                None
            },
            _ => None,
        },
        InstanceTag::Consider => match value {
            ValueView::Tokens(ts) => if ts.len() == 1 && ts[0] is Ident {
                Some(value)
            } else {
                None
            },
            _ => None,
        },
        _ => None,
    }
}

/// The shape of the value behind a tag of an `[Instance]` frame; `None` where there is
/// no such tag.
pub open spec fn instance_shape_of(tag: Seq<char>) -> Option<Shape> {
    match InstanceTag::of(tag) {
        Some(t) => Some(t.spec_shape()),
        None => None,
    }
}

/// Whether the clauses of a tag are supported.
pub open spec fn instance_supported(tag: Seq<char>) -> bool {
    match InstanceTag::of(tag) {
        Some(t) => t.spec_supported(),
        None => false,
    }
}

/// The line as its tag takes it; `None` where the value is not what the
/// tag asks for.
pub open spec fn instance_interpret(l: LineView<ClauseView>) -> Option<LineView<ClauseView>> {
    match InstanceTag::of(l.inner.tag) {
        Some(t) => match instance_value(t, l.inner.value) {
            Some(value) => Some(
                LineView { inner: ClauseView { tag: l.inner.tag, value }, trailer: l.trailer },
            ),
            None => None,
        },
        None => None,
    }
}

/// What a clause takes a value for is a value that it takes as it is, of
/// the shape that goes with the tag; and it can be written and read back
/// if the value can.
pub proof fn lemma_instance_value(tag: InstanceTag, value: ValueView)
    ensures
        instance_value(tag, value) matches Some(taken) ==> instance_value(tag, taken) == Some(taken)
            && taken.shape() == tag.spec_shape() && (value.wf() ==> taken.wf()),
{
    reveal(instance_value);
    match value {
        ValueView::Tokens(ts) => {
            if let Some(pv) = pv_of_tokens(ts) {
                lemma_pv_of_tokens(pv);
                if tokens_wf(ts) {
                    lemma_pv_tokens_wf(ts);
                }
            }
        },
        ValueView::Text(_) => {},
    }
}

/// What a line is taken for is a line that is taken as it is: it has the
/// tag and the trailer of the line, and a value of the same shape, which
/// can be written and read back if the value of the line can.
pub proof fn lemma_instance_interpret(l: LineView<ClauseView>)
    requires
        instance_shape_of(l.inner.tag) == Some(l.inner.value.shape()),
    ensures
        instance_interpret(l) matches Some(r) ==> r.inner.tag == l.inner.tag
            && r.trailer == l.trailer
            && r.inner.value.shape() == l.inner.value.shape() && instance_interpret(r) == Some(r)
            && (l.inner.value.wf() ==> r.inner.value.wf()),
{
    if let Some(tag) = InstanceTag::of(l.inner.tag) {
        lemma_instance_value(tag, l.inner.value);
    }
}

impl InstanceClause {
    /// The tag of the clause.
    pub fn tag(&self) -> (r: InstanceTag)
        ensures
            r.text() == self@.tag,
            r.spec_supported(),
            r.spec_shape() == self@.value.shape(),
    {
        match self {
            InstanceClause::IsAnonymous(..) => InstanceTag::IsAnonymous,
            InstanceClause::Name(..) => InstanceTag::Name,
            InstanceClause::Namespace(..) => InstanceTag::Namespace,
            InstanceClause::AltId(..) => InstanceTag::AltId,
            InstanceClause::Comment(..) => InstanceTag::Comment,
            InstanceClause::Subset(..) => InstanceTag::Subset,
            InstanceClause::Def(..) => InstanceTag::Def,
            InstanceClause::Synonym(..) => InstanceTag::Synonym,
            InstanceClause::Xref(..) => InstanceTag::Xref,
            InstanceClause::PropertyValue(..) => InstanceTag::PropertyValue,
            InstanceClause::InstanceOf(..) => InstanceTag::InstanceOf,
            InstanceClause::Relationship(..) => InstanceTag::Relationship,
            InstanceClause::CreatedBy(..) => InstanceTag::CreatedBy,
            InstanceClause::IsObsolete(..) => InstanceTag::IsObsolete,
            InstanceClause::ReplacedBy(..) => InstanceTag::ReplacedBy,
            InstanceClause::Consider(..) => InstanceTag::Consider,
        }
    }

    /// The value of the clause, as free text or as tokens.
    pub fn to_value(&self) -> (r: Value)
        ensures
            r@ == self@.value,
    {
        match self {
            InstanceClause::IsAnonymous(a) => {
                let ts = vec![Token::from_bool(*a)];
                assert(tokens_view(ts@) == seq![word(bool_text(*a))]);
                Value::Tokens(ts)
            },
            InstanceClause::Name(a) => Value::Text(a.clone()),
            InstanceClause::Namespace(a) => {
                let ts = vec![Token::Ident(a.as_ident().clone())];
                assert(tokens_view(ts@) == seq![TokenView::Ident(a@)]);
                Value::Tokens(ts)
            },
            InstanceClause::AltId(a) => {
                let ts = vec![Token::Ident(a.clone())];
                assert(tokens_view(ts@) == seq![TokenView::Ident(a@)]);
                Value::Tokens(ts)
            },
            InstanceClause::Comment(a) => Value::Text(a.clone()),
            InstanceClause::Subset(a) => {
                let ts = vec![Token::Ident(a.as_ident().clone())];
                assert(tokens_view(ts@) == seq![TokenView::Ident(a@)]);
                Value::Tokens(ts)
            },
            InstanceClause::Def(a, b) => {
                let ts = vec![Token::Quoted(a.clone()), Token::Xrefs(clone_xrefs(b))];
                assert(tokens_view(ts@) == seq![
                    TokenView::Quoted(a@),
                    TokenView::Xrefs(xrefs_view(b@)),
                ]);
                Value::Tokens(ts)
            },
            InstanceClause::Synonym(a, b, c, d) => match c {
                Some(x) => {
                    let ts = vec![
                        Token::Quoted(a.clone()),
                        Token::from_scope(*b),
                        Token::Ident(x.as_ident().clone()),
                        Token::Xrefs(clone_xrefs(d)),
                    ];
                    assert(tokens_view(ts@) == seq![
                        TokenView::Quoted(a@),
                        word(b.text()),
                        TokenView::Ident(x@),
                        TokenView::Xrefs(xrefs_view(d@)),
                    ]);
                    Value::Tokens(ts)
                },
                None => {
                    let ts = vec![
                        Token::Quoted(a.clone()),
                        Token::from_scope(*b),
                        Token::Xrefs(clone_xrefs(d)),
                    ];
                    assert(tokens_view(ts@) == seq![
                        TokenView::Quoted(a@),
                        word(b.text()),
                        TokenView::Xrefs(xrefs_view(d@)),
                    ]);
                    Value::Tokens(ts)
                },
            },
            InstanceClause::Xref(a, b) => match b {
                Some(x) => {
                    let ts = vec![Token::Ident(a.clone()), Token::Quoted(x.clone())];
                    assert(tokens_view(ts@) == seq![TokenView::Ident(a@), TokenView::Quoted(x@)]);
                    Value::Tokens(ts)
                },
                None => {
                    let ts = vec![Token::Ident(a.clone())];
                    assert(tokens_view(ts@) == seq![TokenView::Ident(a@)]);
                    Value::Tokens(ts)
                },
            },
            InstanceClause::PropertyValue(a) => Value::Tokens(a.to_tokens()),
            InstanceClause::InstanceOf(a) => {
                let ts = vec![Token::Ident(a.as_ident().clone())];
                assert(tokens_view(ts@) == seq![TokenView::Ident(a@)]);
                Value::Tokens(ts)
            },
            InstanceClause::Relationship(a, b) => {
                let ts = vec![Token::Ident(a.as_ident().clone()), Token::Ident(b.clone())];
                assert(tokens_view(ts@) == seq![TokenView::Ident(a@), TokenView::Ident(b@)]);
                Value::Tokens(ts)
            },
            InstanceClause::CreatedBy(a) => Value::Text(a.clone()),
            InstanceClause::IsObsolete(a) => {
                let ts = vec![Token::from_bool(*a)];
                assert(tokens_view(ts@) == seq![word(bool_text(*a))]);
                Value::Tokens(ts)
            },
            InstanceClause::ReplacedBy(a) => {
                let ts = vec![Token::Ident(a.as_ident().clone())];
                assert(tokens_view(ts@) == seq![TokenView::Ident(a@)]);
                Value::Tokens(ts)
            },
            InstanceClause::Consider(a) => {
                let ts = vec![Token::Ident(a.clone())];
                assert(tokens_view(ts@) == seq![TokenView::Ident(a@)]);
                Value::Tokens(ts)
            },
        }
    }

    /// The clause with the given tag and value; nothing where the value
    /// is not what the tag asks for.
    pub fn from_value(tag: InstanceTag, value: Value) -> (r: Option<Self>)
        ensures
            match instance_value(tag, value@) {
                Some(taken) => r matches Some(c) && c@ == (ClauseView {
                    tag: tag.text(),
                    value: taken,
                }) && (value@.wf() ==> taken.wf()),
                None => r is None,
            },
    {
        proof {
            reveal(instance_value);
            if let ValueView::Tokens(ts) = value@ {
                if value@.wf() {
                    lemma_pv_tokens_wf(ts);
                }
            }
        }
        match tag {
            InstanceTag::IsAnonymous => match value {
                Value::Tokens(ts) => match take_one(ts) {
                    Some(a) => match a.into_bool() {
                        Some(a) => Some(InstanceClause::IsAnonymous(a)),
                        None => None,
                    },
                    None => None,
                },
                Value::Text(_) => None,
            },
            InstanceTag::Name => match value {
                Value::Text(a) => Some(InstanceClause::Name(a)),
                Value::Tokens(_) => None,
            },
            InstanceTag::Namespace => match value {
                Value::Tokens(ts) => match take_one(ts) {
                    Some(a) => match a.into_ident() {
                        Some(a) => Some(InstanceClause::Namespace(NamespaceIdent::new(a))),
                        None => None,
                    },
                    None => None,
                },
                Value::Text(_) => None,
            },
            InstanceTag::AltId => match value {
                Value::Tokens(ts) => match take_one(ts) {
                    Some(a) => match a.into_ident() {
                        Some(a) => Some(InstanceClause::AltId(a)),
                        None => None,
                    },
                    None => None,
                },
                Value::Text(_) => None,
            },
            InstanceTag::Comment => match value {
                Value::Text(a) => Some(InstanceClause::Comment(a)),
                Value::Tokens(_) => None,
            },
            InstanceTag::Subset => match value {
                Value::Tokens(ts) => match take_one(ts) {
                    Some(a) => match a.into_ident() {
                        Some(a) => Some(InstanceClause::Subset(SubsetIdent::new(a))),
                        None => None,
                    },
                    None => None,
                },
                Value::Text(_) => None,
            },
            InstanceTag::Def => match value {
                Value::Tokens(ts) => match take_two(ts) {
                    Some((a, b)) => match (a.into_quoted(), b.into_xrefs()) {
                        (Some(a), Some(b)) => Some(InstanceClause::Def(a, b)),
                        _ => None,
                    },
                    None => None,
                },
                Value::Text(_) => None,
            },
            InstanceTag::Synonym => match value {
                Value::Tokens(ts) => if ts.len() == 3 {
                    match take_three(ts) {
                        Some((a, b, d)) => match (a.into_quoted(), b.into_scope(), d.into_xrefs()) {
                            (Some(a), Some(b), Some(d)) => Some(
                                InstanceClause::Synonym(a, b, None, d),
                            ),
                            _ => None,
                        },
                        None => None,
                    }
                } else {
                    match take_four(ts) {
                        Some((a, b, c, d)) => match (
                            a.into_quoted(),
                            b.into_scope(),
                            c.into_ident(),
                            d.into_xrefs(),
                        ) {
                            (Some(a), Some(b), Some(c), Some(d)) => Some(
                                InstanceClause::Synonym(a, b, Some(SynonymTypeIdent::new(c)), d),
                            ),
                            _ => None,
                        },
                        None => None,
                    }
                },
                Value::Text(_) => None,
            },
            InstanceTag::Xref => match value {
                Value::Tokens(ts) => match take_one_or_two(ts) {
                    Some((a, x)) => match a.into_ident() {
                        Some(a) => match x {
                            Some(x) => match x.into_quoted() {
                                Some(x) => Some(InstanceClause::Xref(a, Some(x))),
                                None => None,
                            },
                            None => Some(InstanceClause::Xref(a, None)),
                        },
                        None => None,
                    },
                    None => None,
                },
                Value::Text(_) => None,
            },
            InstanceTag::PropertyValue => match value {
                Value::Tokens(ts) => match PropertyValue::from_tokens(ts) {
                    Ok(a) => Some(InstanceClause::PropertyValue(a)),
                    Err(_) => None,
                },
                Value::Text(_) => None,
            },
            InstanceTag::InstanceOf => match value {
                Value::Tokens(ts) => match take_one(ts) {
                    Some(a) => match a.into_ident() {
                        Some(a) => Some(InstanceClause::InstanceOf(ClassIdent::new(a))),
                        None => None,
                    },
                    None => None,
                },
                Value::Text(_) => None,
            },
            InstanceTag::Relationship => match value {
                Value::Tokens(ts) => match take_two(ts) {
                    Some((a, b)) => match (a.into_ident(), b.into_ident()) {
                        (Some(a), Some(b)) => Some(
                            InstanceClause::Relationship(RelationIdent::new(a), b),
                        ),
                        _ => None,
                    },
                    None => None,
                },
                Value::Text(_) => None,
            },
            InstanceTag::CreatedBy => match value {
                Value::Text(a) => Some(InstanceClause::CreatedBy(a)),
                Value::Tokens(_) => None,
            },
            InstanceTag::IsObsolete => match value {
                Value::Tokens(ts) => match take_one(ts) {
                    Some(a) => match a.into_bool() {
                        Some(a) => Some(InstanceClause::IsObsolete(a)),
                        None => None,
                    },
                    None => None,
                },
                Value::Text(_) => None,
            },
            InstanceTag::ReplacedBy => match value {
                Value::Tokens(ts) => match take_one(ts) {
                    Some(a) => match a.into_ident() {
                        Some(a) => Some(InstanceClause::ReplacedBy(InstanceIdent::new(a))),
                        None => None,
                    },
                    None => None,
                },
                Value::Text(_) => None,
            },
            InstanceTag::Consider => match value {
                Value::Tokens(ts) => match take_one(ts) {
                    Some(a) => match a.into_ident() {
                        Some(a) => Some(InstanceClause::Consider(a)),
                        None => None,
                    },
                    None => None,
                },
                Value::Text(_) => None,
            },
            _ => None,
        }
    }

    /// Every clause is one that its frame takes as it is, whatever stands
    /// behind it on its line.
    pub proof fn lemma_typed(&self, trailer: TrailerView)
        ensures
            is_tag(self@.tag),
            LineKind::Instance.is_typed(LineView { inner: self@, trailer }),
    {
        reveal(instance_value);
        lemma_bool_of_text(true);
        lemma_bool_of_text(false);
        SynonymScope::lemma_of_text(SynonymScope::Exact);
        SynonymScope::lemma_of_text(SynonymScope::Broad);
        SynonymScope::lemma_of_text(SynonymScope::Narrow);
        SynonymScope::lemma_of_text(SynonymScope::Related);
        match self {
            InstanceClause::IsAnonymous(..) => {
                let tag = InstanceTag::IsAnonymous;
                InstanceTag::lemma_of_text(tag);
                assert(instance_value(tag, self@.value) == Some(self@.value));
            },
            InstanceClause::Name(..) => {
                let tag = InstanceTag::Name;
                InstanceTag::lemma_of_text(tag);
                assert(instance_value(tag, self@.value) == Some(self@.value));
            },
            InstanceClause::Namespace(..) => {
                let tag = InstanceTag::Namespace;
                InstanceTag::lemma_of_text(tag);
                assert(instance_value(tag, self@.value) == Some(self@.value));
            },
            InstanceClause::AltId(..) => {
                let tag = InstanceTag::AltId;
                InstanceTag::lemma_of_text(tag);
                assert(instance_value(tag, self@.value) == Some(self@.value));
            },
            InstanceClause::Comment(..) => {
                let tag = InstanceTag::Comment;
                InstanceTag::lemma_of_text(tag);
                assert(instance_value(tag, self@.value) == Some(self@.value));
            },
            InstanceClause::Subset(..) => {
                let tag = InstanceTag::Subset;
                InstanceTag::lemma_of_text(tag);
                assert(instance_value(tag, self@.value) == Some(self@.value));
            },
            InstanceClause::Def(..) => {
                let tag = InstanceTag::Def;
                InstanceTag::lemma_of_text(tag);
                assert(instance_value(tag, self@.value) == Some(self@.value));
            },
            InstanceClause::Synonym(..) => {
                let tag = InstanceTag::Synonym;
                InstanceTag::lemma_of_text(tag);
                assert(instance_value(tag, self@.value) == Some(self@.value));
            },
            InstanceClause::Xref(..) => {
                let tag = InstanceTag::Xref;
                InstanceTag::lemma_of_text(tag);
                assert(instance_value(tag, self@.value) == Some(self@.value));
            },
            InstanceClause::PropertyValue(a) => {
                let tag = InstanceTag::PropertyValue;
                InstanceTag::lemma_of_text(tag);
                lemma_pv_of_tokens(a@);
                assert(instance_value(tag, self@.value) == Some(self@.value));
            },
            InstanceClause::InstanceOf(..) => {
                let tag = InstanceTag::InstanceOf;
                InstanceTag::lemma_of_text(tag);
                assert(instance_value(tag, self@.value) == Some(self@.value));
            },
            InstanceClause::Relationship(..) => {
                let tag = InstanceTag::Relationship;
                InstanceTag::lemma_of_text(tag);
                assert(instance_value(tag, self@.value) == Some(self@.value));
            },
            InstanceClause::CreatedBy(..) => {
                let tag = InstanceTag::CreatedBy;
                InstanceTag::lemma_of_text(tag);
                assert(instance_value(tag, self@.value) == Some(self@.value));
            },
            InstanceClause::IsObsolete(..) => {
                let tag = InstanceTag::IsObsolete;
                InstanceTag::lemma_of_text(tag);
                assert(instance_value(tag, self@.value) == Some(self@.value));
            },
            InstanceClause::ReplacedBy(..) => {
                let tag = InstanceTag::ReplacedBy;
                InstanceTag::lemma_of_text(tag);
                assert(instance_value(tag, self@.value) == Some(self@.value));
            },
            InstanceClause::Consider(..) => {
                let tag = InstanceTag::Consider;
                InstanceTag::lemma_of_text(tag);
                assert(instance_value(tag, self@.value) == Some(self@.value));
            },
        }
    }
}

impl LineSyntax for Line<InstanceClause> {
    open spec fn kind() -> LineKind {
        LineKind::Instance
    }

    fn read(v: &Vec<char>) -> (r: Result<Self, Error>) {
        let fail = Err(Error::SyntaxError { rule: Rule::InstanceClause });
        assert(v@.subrange(0, v@.len() as int) == v@);
        let colon = match read_tag(v, 0, v.len()) {
            Some(colon) => colon,
            None => {
                return fail;
            },
        };
        let ghost text = v@.subrange(0, colon as int);
        let ghost rest = v@.skip(colon + 2);
        assert(parse_tag(v@) == Some((text, colon + 2)));
        let tag = match InstanceTag::lookup(v, 0, colon) {
            Some(tag) => tag,
            None => {
                return fail;
            },
        };
        assert(instance_shape_of(text) == Some(tag.spec_shape()));
        if !tag.supported() {
            return Err(Error::NotImplemented { rule: Rule::InstanceClause });
        }
        assert(rest == v@.subrange(colon + 2, v@.len() as int));
        let (value, trailer) = match Value::read(tag.shape(), v, colon + 2, v.len()) {
            Some(found) => found,
            None => {
                return fail;
            },
        };
        assert(parse_value(tag.spec_shape(), rest) == Some((value@, trailer@)));
        match InstanceClause::from_value(tag, value) {
            Some(inner) => Ok(Line::with_trailer(inner, trailer)),
            None => fail,
        }
    }

    fn write(&self, out: &mut Vec<char>) {
        push_chars(out, self.inner.tag().as_str());
        out.push(':');
        out.push(' ');
        self.inner.to_value().write(out);
        self.trailer.write(out);
        assert(out@ == old(out)@ + render_clause_line(self@));
    }

    open spec fn faithful(&self) -> bool {
        true
    }

    fn is_valid(&self) -> (b: bool) {
        self.inner.to_value().is_valid() && self.trailer.is_valid()
    }

    proof fn lemma_typed(&self) {
        self.inner.lemma_typed(self.trailer@);
    }
}

} // verus!
