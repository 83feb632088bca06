//! The clauses of a `[Typedef]` frame.

use crate::clause::{LineKind, LineSyntax};
use crate::error::{Error, Rule};
use crate::id::{ClassIdent, Ident, NamespaceIdent, RelationIdent, SubsetIdent, SynonymTypeIdent};
use crate::line::{is_tag, parse_tag, read_tag, render_clause_line, ClauseView, Line, LineView};
use crate::pv::{lemma_pv_of_tokens, lemma_pv_tokens_wf, pv_of_tokens, PropertyValue};
use crate::strings::{QuotedString, UnquotedString};
use crate::synonym::{bool_text, lemma_bool_of_text, SynonymScope};
use crate::text::{chars_eq, push_chars};
use crate::token::{
    is_bool_token, is_scope_token, take_four, take_one, take_one_or_two, take_three, take_two,
    tokens_view, tokens_wf, word, Token, TokenView,
};
use crate::trailer::TrailerView;
use crate::value::{parse_value, Shape, Value, ValueView};
use crate::xref::{clone_xrefs, xrefs_view, Xref};
use vstd::prelude::*;

verus! {

/// The tags of the clauses of a `[Typedef]` frame.
#[derive(Clone, Copy, Debug, PartialEq, Eq, Hash, Structural)]
pub enum TypedefTag {
    /// `is_anonymous`
    IsAnonymous,
    /// `name`
    Name,
    /// `namespace`
    Namespace,
    /// `alt_id`
    AltId,
    /// `comment`
    Comment,
    /// `subset`
    Subset,
    /// `def`
    Def,
    /// `synonym`
    Synonym,
    /// `xref`
    Xref,
    /// `property_value`
    PropertyValue,
    /// `domain`
    Domain,
    /// `range`
    Range,
    /// `builtin`
    Builtin,
    /// `is_anti_symmetric`
    IsAntiSymmetric,
    /// `is_cyclic`
    IsCyclic,
    /// `is_reflexive`
    IsReflexive,
    /// `is_symmetric`
    IsSymmetric,
    /// `is_transitive`
    IsTransitive,
    /// `is_functional`
    IsFunctional,
    /// `is_inverse_functional`
    IsInverseFunctional,
    /// `is_a`
    IsA,
    /// `inverse_of`
    InverseOf,
    /// `transitive_over`
    TransitiveOver,
    /// `disjoint_from`
    DisjointFrom,
    /// `relationship`
    Relationship,
    /// `created_by`
    CreatedBy,
    /// `is_obsolete`
    IsObsolete,
    /// `replaced_by`
    ReplacedBy,
    /// `consider`
    Consider,
    /// `is_metadata_tag`
    IsMetadataTag,
    /// `is_class_level`
    IsClassLevel,
    /// `intersection_of`
    IntersectionOf,
    /// `union_of`
    UnionOf,
    /// `holds_over_chain`
    HoldsOverChain,
    /// `equivalent_to_chain`
    EquivalentToChain,
    /// `creation_date`
    CreationDate,
}

impl TypedefTag {
    /// The tag as it is written.
    pub open spec fn text(self) -> Seq<char> {
        match self {
            TypedefTag::IsAnonymous => "is_anonymous"@,
            TypedefTag::Name => "name"@,
            TypedefTag::Namespace => "namespace"@,
            TypedefTag::AltId => "alt_id"@,
            TypedefTag::Comment => "comment"@,
            TypedefTag::Subset => "subset"@,
            TypedefTag::Def => "def"@,
            TypedefTag::Synonym => "synonym"@,
            TypedefTag::Xref => "xref"@,
            TypedefTag::PropertyValue => "property_value"@,
            TypedefTag::Domain => "domain"@,
            TypedefTag::Range => "range"@,
            TypedefTag::Builtin => "builtin"@,
            TypedefTag::IsAntiSymmetric => "is_anti_symmetric"@,
            TypedefTag::IsCyclic => "is_cyclic"@,
            TypedefTag::IsReflexive => "is_reflexive"@,
            TypedefTag::IsSymmetric => "is_symmetric"@,
            TypedefTag::IsTransitive => "is_transitive"@,
            TypedefTag::IsFunctional => "is_functional"@,
            TypedefTag::IsInverseFunctional => "is_inverse_functional"@,
            TypedefTag::IsA => "is_a"@,
            TypedefTag::InverseOf => "inverse_of"@,
            TypedefTag::TransitiveOver => "transitive_over"@,
            TypedefTag::DisjointFrom => "disjoint_from"@,
            TypedefTag::Relationship => "relationship"@,
            TypedefTag::CreatedBy => "created_by"@,
            TypedefTag::IsObsolete => "is_obsolete"@,
            TypedefTag::ReplacedBy => "replaced_by"@,
            TypedefTag::Consider => "consider"@,
            TypedefTag::IsMetadataTag => "is_metadata_tag"@,
            TypedefTag::IsClassLevel => "is_class_level"@,
            TypedefTag::IntersectionOf => "intersection_of"@,
            TypedefTag::UnionOf => "union_of"@,
            TypedefTag::HoldsOverChain => "holds_over_chain"@,
            TypedefTag::EquivalentToChain => "equivalent_to_chain"@,
            TypedefTag::CreationDate => "creation_date"@,
        }
    }

    /// The tag that a text is.
    #[verifier::opaque]
    pub open spec fn of(text: Seq<char>) -> Option<TypedefTag> {
        if text == "is_anonymous"@ {
            Some(TypedefTag::IsAnonymous)
        } else if text == "name"@ {
            Some(TypedefTag::Name)
        } else if text == "namespace"@ {
            Some(TypedefTag::Namespace)
        } else if text == "alt_id"@ {
            Some(TypedefTag::AltId)
        } else if text == "comment"@ {
            Some(TypedefTag::Comment)
        } else if text == "subset"@ {
            Some(TypedefTag::Subset)
        } else if text == "def"@ {
            Some(TypedefTag::Def)
        } else if text == "synonym"@ {
            Some(TypedefTag::Synonym)
        } else if text == "xref"@ {
            Some(TypedefTag::Xref)
        } else if text == "property_value"@ {
            Some(TypedefTag::PropertyValue)
        } else if text == "domain"@ {
            Some(TypedefTag::Domain)
        } else if text == "range"@ {
            Some(TypedefTag::Range)
        } else if text == "builtin"@ {
            Some(TypedefTag::Builtin)
        } else if text == "is_anti_symmetric"@ {
            Some(TypedefTag::IsAntiSymmetric)
        } else if text == "is_cyclic"@ {
            Some(TypedefTag::IsCyclic)
        } else if text == "is_reflexive"@ {
            Some(TypedefTag::IsReflexive)
        } else if text == "is_symmetric"@ {
            Some(TypedefTag::IsSymmetric)
        } else if text == "is_transitive"@ {
            Some(TypedefTag::IsTransitive)
        } else if text == "is_functional"@ {
            Some(TypedefTag::IsFunctional)
        } else if text == "is_inverse_functional"@ {
            Some(TypedefTag::IsInverseFunctional)
        } else if text == "is_a"@ {
            Some(TypedefTag::IsA)
        } else if text == "inverse_of"@ {
            Some(TypedefTag::InverseOf)
        } else if text == "transitive_over"@ {
            Some(TypedefTag::TransitiveOver)
        } else if text == "disjoint_from"@ {
            Some(TypedefTag::DisjointFrom)
        } else if text == "relationship"@ {
            Some(TypedefTag::Relationship)
        } else if text == "created_by"@ {
            Some(TypedefTag::CreatedBy)
        } else if text == "is_obsolete"@ {
            Some(TypedefTag::IsObsolete)
        } else if text == "replaced_by"@ {
            Some(TypedefTag::ReplacedBy)
        } else if text == "consider"@ {
            Some(TypedefTag::Consider)
        } else if text == "is_metadata_tag"@ {
            Some(TypedefTag::IsMetadataTag)
        } else if text == "is_class_level"@ {
            Some(TypedefTag::IsClassLevel)
        } else if text == "intersection_of"@ {
            Some(TypedefTag::IntersectionOf)
        } else if text == "union_of"@ {
            Some(TypedefTag::UnionOf)
        } else if text == "holds_over_chain"@ {
            Some(TypedefTag::HoldsOverChain)
        } else if text == "equivalent_to_chain"@ {
            Some(TypedefTag::EquivalentToChain)
        } else if text == "creation_date"@ {
            Some(TypedefTag::CreationDate)
        } else {
            None
        }
    }

    /// The shape of the value behind the tag.
    pub open spec fn spec_shape(self) -> Shape {
        match self {
            TypedefTag::Name | TypedefTag::Comment | TypedefTag::CreatedBy => Shape::Text,
            _ => Shape::Tokens,
        }
    }

    /// Whether clauses with the tag are supported.
    pub open spec fn spec_supported(self) -> bool {
        match self {
            TypedefTag::IntersectionOf
            | TypedefTag::UnionOf
            | TypedefTag::HoldsOverChain
            | TypedefTag::EquivalentToChain
            | TypedefTag::CreationDate => false,
            _ => true,
        }
    }

    /// Every tag is written as a tag is, and its text is the text of no
    /// other tag.
    pub proof fn lemma_of_text(tag: TypedefTag)
        ensures
            Self::of(tag.text()) == Some(tag),
            is_tag(tag.text()),
    {
        reveal(TypedefTag::of);
        reveal_strlit("is_anonymous");
        reveal_strlit("name");
        reveal_strlit("namespace");
        reveal_strlit("alt_id");
        reveal_strlit("comment");
        reveal_strlit("subset");
        reveal_strlit("def");
        reveal_strlit("synonym");
        reveal_strlit("xref");
        reveal_strlit("property_value");
        reveal_strlit("domain");
        reveal_strlit("range");
        reveal_strlit("builtin");
        reveal_strlit("is_anti_symmetric");
        reveal_strlit("is_cyclic");
        reveal_strlit("is_reflexive");
        reveal_strlit("is_symmetric");
        reveal_strlit("is_transitive");
        reveal_strlit("is_functional");
        reveal_strlit("is_inverse_functional");
        reveal_strlit("is_a");
        reveal_strlit("inverse_of");
        reveal_strlit("transitive_over");
        reveal_strlit("disjoint_from");
        reveal_strlit("relationship");
        reveal_strlit("created_by");
        reveal_strlit("is_obsolete");
        reveal_strlit("replaced_by");
        reveal_strlit("consider");
        reveal_strlit("is_metadata_tag");
        reveal_strlit("is_class_level");
        reveal_strlit("intersection_of");
        reveal_strlit("union_of");
        reveal_strlit("holds_over_chain");
        reveal_strlit("equivalent_to_chain");
        reveal_strlit("creation_date");
        assert("is_anonymous"@.len() == 12
            && "is_anonymous"@[0] == 'i'
            && "is_anonymous"@[3] == 'a'
        );
        assert("name"@.len() == 4 && "name"@[0] == 'n');
        assert("namespace"@.len() == 9 && "namespace"@[0] == 'n');
        assert("alt_id"@.len() == 6 && "alt_id"@[0] == 'a');
        assert("comment"@.len() == 7 && "comment"@[0] == 'c');
        assert("subset"@.len() == 6 && "subset"@[0] == 's');
        assert("def"@.len() == 3);
        assert("synonym"@.len() == 7 && "synonym"@[0] == 's');
        assert("xref"@.len() == 4 && "xref"@[0] == 'x');
        assert("property_value"@.len() == 14 && "property_value"@[0] == 'p');
        assert("domain"@.len() == 6 && "domain"@[0] == 'd');
        assert("range"@.len() == 5);
        assert("builtin"@.len() == 7 && "builtin"@[0] == 'b');
        assert("is_anti_symmetric"@.len() == 17);
        assert("is_cyclic"@.len() == 9 && "is_cyclic"@[0] == 'i');
        assert("is_reflexive"@.len() == 12
            && "is_reflexive"@[0] == 'i'
            && "is_reflexive"@[3] == 'r'
        );
        assert("is_symmetric"@.len() == 12
            && "is_symmetric"@[0] == 'i'
            && "is_symmetric"@[3] == 's'
        );
        assert("is_transitive"@.len() == 13
            && "is_transitive"@[0] == 'i'
            && "is_transitive"@[3] == 't'
        );
        assert("is_functional"@.len() == 13
            && "is_functional"@[0] == 'i'
            && "is_functional"@[3] == 'f'
        );
        assert("is_inverse_functional"@.len() == 21);
        assert("is_a"@.len() == 4 && "is_a"@[0] == 'i');
        assert("inverse_of"@.len() == 10 && "inverse_of"@[0] == 'i');
        assert("transitive_over"@.len() == 15 && "transitive_over"@[0] == 't');
        assert("disjoint_from"@.len() == 13 && "disjoint_from"@[0] == 'd');
        assert("relationship"@.len() == 12 && "relationship"@[0] == 'r');
        assert("created_by"@.len() == 10 && "created_by"@[0] == 'c');
        assert("is_obsolete"@.len() == 11 && "is_obsolete"@[0] == 'i');
        assert("replaced_by"@.len() == 11 && "replaced_by"@[0] == 'r');
        assert("consider"@.len() == 8 && "consider"@[0] == 'c');
        assert("is_metadata_tag"@.len() == 15
            && "is_metadata_tag"@[0] == 'i'
            && "is_metadata_tag"@[1] == 's'
        );
        assert("is_class_level"@.len() == 14 && "is_class_level"@[0] == 'i');
        assert("intersection_of"@.len() == 15
            && "intersection_of"@[0] == 'i'
            && "intersection_of"@[1] == 'n'
        );
        assert("union_of"@.len() == 8 && "union_of"@[0] == 'u');
        assert("holds_over_chain"@.len() == 16);
        assert("equivalent_to_chain"@.len() == 19);
        assert("creation_date"@.len() == 13 && "creation_date"@[0] == 'c');
    }

    /// The tag as it is written.
    pub fn as_str(self) -> (s: &'static str)
        ensures
            s@ == self.text(),
    {
        match self {
            TypedefTag::IsAnonymous => "is_anonymous",
            TypedefTag::Name => "name",
            TypedefTag::Namespace => "namespace",
            TypedefTag::AltId => "alt_id",
            TypedefTag::Comment => "comment",
            TypedefTag::Subset => "subset",
            TypedefTag::Def => "def",
            TypedefTag::Synonym => "synonym",
            TypedefTag::Xref => "xref",
            TypedefTag::PropertyValue => "property_value",
            TypedefTag::Domain => "domain",
            TypedefTag::Range => "range",
            TypedefTag::Builtin => "builtin",
            TypedefTag::IsAntiSymmetric => "is_anti_symmetric",
            TypedefTag::IsCyclic => "is_cyclic",
            TypedefTag::IsReflexive => "is_reflexive",
            TypedefTag::IsSymmetric => "is_symmetric",
            TypedefTag::IsTransitive => "is_transitive",
            TypedefTag::IsFunctional => "is_functional",
            TypedefTag::IsInverseFunctional => "is_inverse_functional",
            TypedefTag::IsA => "is_a",
            TypedefTag::InverseOf => "inverse_of",
            TypedefTag::TransitiveOver => "transitive_over",
            TypedefTag::DisjointFrom => "disjoint_from",
            TypedefTag::Relationship => "relationship",
            TypedefTag::CreatedBy => "created_by",
            TypedefTag::IsObsolete => "is_obsolete",
            TypedefTag::ReplacedBy => "replaced_by",
            TypedefTag::Consider => "consider",
            TypedefTag::IsMetadataTag => "is_metadata_tag",
            TypedefTag::IsClassLevel => "is_class_level",
            TypedefTag::IntersectionOf => "intersection_of",
            TypedefTag::UnionOf => "union_of",
            TypedefTag::HoldsOverChain => "holds_over_chain",
            TypedefTag::EquivalentToChain => "equivalent_to_chain",
            TypedefTag::CreationDate => "creation_date",
        }
    }

    /// The shape of the value behind the tag.
    #[verifier::when_used_as_spec(spec_shape)]
    pub fn shape(self) -> (r: Shape)
        ensures
            r == self.spec_shape(),
    {
        match self {
            TypedefTag::Name | TypedefTag::Comment | TypedefTag::CreatedBy => Shape::Text,
            _ => Shape::Tokens,
        }
    }

    /// Whether clauses with the tag are supported.
    #[verifier::when_used_as_spec(spec_supported)]
    pub fn supported(self) -> (r: bool)
        ensures
            r == self.spec_supported(),
    {
        match self {
            TypedefTag::IntersectionOf
            | TypedefTag::UnionOf
            | TypedefTag::HoldsOverChain
            | TypedefTag::EquivalentToChain
            | TypedefTag::CreationDate => false,
            _ => true,
        }
    }

    /// The tag that `v[from..to]` is.
    pub fn lookup(v: &Vec<char>, from: usize, to: usize) -> (r: Option<TypedefTag>)
        requires
            from <= to <= v.len(),
        ensures
            r == Self::of(v@.subrange(from as int, to as int)),
            r matches Some(tag) ==> tag.text() == v@.subrange(from as int, to as int),
    {
        proof {
            reveal(TypedefTag::of);
        }
        if chars_eq(v, from, to, "is_anonymous") {
            Some(TypedefTag::IsAnonymous)
        } else if chars_eq(v, from, to, "name") {
            Some(TypedefTag::Name)
        } else if chars_eq(v, from, to, "namespace") {
            Some(TypedefTag::Namespace)
        } else if chars_eq(v, from, to, "alt_id") {
            Some(TypedefTag::AltId)
        } else if chars_eq(v, from, to, "comment") {
            Some(TypedefTag::Comment)
        } else if chars_eq(v, from, to, "subset") {
            Some(TypedefTag::Subset)
        } else if chars_eq(v, from, to, "def") {
            Some(TypedefTag::Def)
        } else if chars_eq(v, from, to, "synonym") {
            Some(TypedefTag::Synonym)
        } else if chars_eq(v, from, to, "xref") {
            Some(TypedefTag::Xref)
        } else if chars_eq(v, from, to, "property_value") {
            Some(TypedefTag::PropertyValue)
        } else if chars_eq(v, from, to, "domain") {
            Some(TypedefTag::Domain)
        } else if chars_eq(v, from, to, "range") {
            Some(TypedefTag::Range)
        } else if chars_eq(v, from, to, "builtin") {
            Some(TypedefTag::Builtin)
        } else if chars_eq(v, from, to, "is_anti_symmetric") {
            Some(TypedefTag::IsAntiSymmetric)
        } else if chars_eq(v, from, to, "is_cyclic") {
            Some(TypedefTag::IsCyclic)
        } else if chars_eq(v, from, to, "is_reflexive") {
            Some(TypedefTag::IsReflexive)
        } else if chars_eq(v, from, to, "is_symmetric") {
            Some(TypedefTag::IsSymmetric)
        } else if chars_eq(v, from, to, "is_transitive") {
            Some(TypedefTag::IsTransitive)
        } else if chars_eq(v, from, to, "is_functional") {
            Some(TypedefTag::IsFunctional)
        } else if chars_eq(v, from, to, "is_inverse_functional") {
            Some(TypedefTag::IsInverseFunctional)
        } else if chars_eq(v, from, to, "is_a") {
            Some(TypedefTag::IsA)
        } else if chars_eq(v, from, to, "inverse_of") {
            Some(TypedefTag::InverseOf)
        } else if chars_eq(v, from, to, "transitive_over") {
            Some(TypedefTag::TransitiveOver)
        } else if chars_eq(v, from, to, "disjoint_from") {
            Some(TypedefTag::DisjointFrom)
        } else if chars_eq(v, from, to, "relationship") {
            Some(TypedefTag::Relationship)
        } else if chars_eq(v, from, to, "created_by") {
            Some(TypedefTag::CreatedBy)
        } else if chars_eq(v, from, to, "is_obsolete") {
            Some(TypedefTag::IsObsolete)
        } else if chars_eq(v, from, to, "replaced_by") {
            Some(TypedefTag::ReplacedBy)
        } else if chars_eq(v, from, to, "consider") {
            Some(TypedefTag::Consider)
        } else if chars_eq(v, from, to, "is_metadata_tag") {
            Some(TypedefTag::IsMetadataTag)
        } else if chars_eq(v, from, to, "is_class_level") {
            Some(TypedefTag::IsClassLevel)
        } else if chars_eq(v, from, to, "intersection_of") {
            Some(TypedefTag::IntersectionOf)
        } else if chars_eq(v, from, to, "union_of") {
            Some(TypedefTag::UnionOf)
        } else if chars_eq(v, from, to, "holds_over_chain") {
            Some(TypedefTag::HoldsOverChain)
        } else if chars_eq(v, from, to, "equivalent_to_chain") {
            Some(TypedefTag::EquivalentToChain)
        } else if chars_eq(v, from, to, "creation_date") {
            Some(TypedefTag::CreationDate)
        } else {
            None
        }
    }
}

/// A clause of a `[Typedef]` frame.
#[derive(Debug, PartialEq, Eq, Hash)]
pub enum TypedefClause {
    /// Whether the entity has no identifier of its own.
    IsAnonymous(bool),
    /// The name of the entity.
    Name(UnquotedString),
    /// The namespace that the entity belongs to.
    Namespace(NamespaceIdent),
    /// Another identifier of the entity.
    AltId(Ident),
    /// A comment on the entity.
    Comment(UnquotedString),
    /// A subset that the entity belongs to.
    Subset(SubsetIdent),
    /// The definition of the entity, and where it comes from.
    Def(QuotedString, Vec<Xref>),
    /// A synonym of the name: its text, its scope, an optional type, and
    /// where it comes from.
    Synonym(QuotedString, SynonymScope, Option<SynonymTypeIdent>, Vec<Xref>),
    /// A reference to the same entity elsewhere, with an optional
    /// description.
    Xref(Ident, Option<QuotedString>),
    /// A property of the entity.
    PropertyValue(PropertyValue),
    /// The class of what the relation starts from.
    Domain(ClassIdent),
    /// The class of what the relation leads to.
    Range(ClassIdent),
    /// Whether the relation is built into the format.
    Builtin(bool),
    /// Whether the relation is antisymmetric.
    IsAntiSymmetric(bool),
    /// Whether the relation is cyclic.
    IsCyclic(bool),
    /// Whether the relation is reflexive.
    IsReflexive(bool),
    /// Whether the relation is symmetric.
    IsSymmetric(bool),
    /// Whether the relation is transitive.
    IsTransitive(bool),
    /// Whether the relation is functional.
    IsFunctional(bool),
    /// Whether the inverse of the relation is functional.
    IsInverseFunctional(bool),
    /// A relation that this one is a subrelation of.
    IsA(RelationIdent),
    /// The relation that this one is the inverse of.
    InverseOf(RelationIdent),
    /// A relation that this one is transitive over.
    TransitiveOver(RelationIdent),
    /// A relation that this one is disjoint from.
    DisjointFrom(RelationIdent),
    /// A relation of this relation to another one.
    Relationship(RelationIdent, RelationIdent),
    /// Who created the entity.
    CreatedBy(UnquotedString),
    /// Whether the entity is obsolete.
    IsObsolete(bool),
    /// The relation that replaces this obsolete one.
    ReplacedBy(RelationIdent),
    /// An entity to consider in place of this obsolete one.
    Consider(Ident),
    /// Whether the relation is used for annotations only.
    IsMetadataTag(bool),
    /// Whether the relation holds between classes rather than between their
    /// instances.
    IsClassLevel(bool),
}

impl View for TypedefClause {
    type V = ClauseView;

    open spec fn view(&self) -> ClauseView {
        match self {
            TypedefClause::IsAnonymous(a) => ClauseView {
                tag: TypedefTag::IsAnonymous.text(),
                value: ValueView::Tokens(seq![word(bool_text(*a))]),
            },
            TypedefClause::Name(a) => ClauseView {
                tag: TypedefTag::Name.text(),
                value: ValueView::Text(a@),
            },
            TypedefClause::Namespace(a) => ClauseView {
                tag: TypedefTag::Namespace.text(),
                value: ValueView::Tokens(seq![TokenView::Ident(a@)]),
            },
            TypedefClause::AltId(a) => ClauseView {
                tag: TypedefTag::AltId.text(),
                value: ValueView::Tokens(seq![TokenView::Ident(a@)]),
            },
            TypedefClause::Comment(a) => ClauseView {
                tag: TypedefTag::Comment.text(),
                value: ValueView::Text(a@),
            },
            TypedefClause::Subset(a) => ClauseView {
                tag: TypedefTag::Subset.text(),
                value: ValueView::Tokens(seq![TokenView::Ident(a@)]),
            },
            TypedefClause::Def(a, b) => ClauseView {
                tag: TypedefTag::Def.text(),
                value: ValueView::Tokens(seq![
                    TokenView::Quoted(a@),
                    TokenView::Xrefs(xrefs_view(b@)),
                ]),
            },
            TypedefClause::Synonym(a, b, c, d) => ClauseView {
                tag: TypedefTag::Synonym.text(),
                value: ValueView::Tokens(
                    match c {
                        Some(x) => seq![
                            TokenView::Quoted(a@),
                            word(b.text()),
                            TokenView::Ident(x@),
                            TokenView::Xrefs(xrefs_view(d@)),
                        ],
                        None => seq![
                            TokenView::Quoted(a@),
                            word(b.text()),
                            TokenView::Xrefs(xrefs_view(d@)),
                        ],
                    },
                ),
            },
            TypedefClause::Xref(a, b) => ClauseView {
                tag: TypedefTag::Xref.text(),
                value: ValueView::Tokens(
                    match b {
                        Some(x) => seq![
                            TokenView::Ident(a@),
                            TokenView::Quoted(x@),
                        ],
                        None => seq![
                            TokenView::Ident(a@),
                        ],
                    },
                ),
            },
            TypedefClause::PropertyValue(a) => ClauseView {
                tag: TypedefTag::PropertyValue.text(),
                value: ValueView::Tokens(a@.tokens()),
            },
            TypedefClause::Domain(a) => ClauseView {
                tag: TypedefTag::Domain.text(),
                value: ValueView::Tokens(seq![TokenView::Ident(a@)]),
            },
            TypedefClause::Range(a) => ClauseView {
                tag: TypedefTag::Range.text(),
                value: ValueView::Tokens(seq![TokenView::Ident(a@)]),
            },
            TypedefClause::Builtin(a) => ClauseView {
                tag: TypedefTag::Builtin.text(),
                value: ValueView::Tokens(seq![word(bool_text(*a))]),
            },
            TypedefClause::IsAntiSymmetric(a) => ClauseView {
                tag: TypedefTag::IsAntiSymmetric.text(),
                value: ValueView::Tokens(seq![word(bool_text(*a))]),
            },
            TypedefClause::IsCyclic(a) => ClauseView {
                tag: TypedefTag::IsCyclic.text(),
                value: ValueView::Tokens(seq![word(bool_text(*a))]),
            },
            TypedefClause::IsReflexive(a) => ClauseView {
                tag: TypedefTag::IsReflexive.text(),
                value: ValueView::Tokens(seq![word(bool_text(*a))]),
            },
            TypedefClause::IsSymmetric(a) => ClauseView {
                tag: TypedefTag::IsSymmetric.text(),
                value: ValueView::Tokens(seq![word(bool_text(*a))]),
            },
            TypedefClause::IsTransitive(a) => ClauseView {
                tag: TypedefTag::IsTransitive.text(),
                value: ValueView::Tokens(seq![word(bool_text(*a))]),
            },
            TypedefClause::IsFunctional(a) => ClauseView {
                tag: TypedefTag::IsFunctional.text(),
                value: ValueView::Tokens(seq![word(bool_text(*a))]),
            },
            TypedefClause::IsInverseFunctional(a) => ClauseView {
                tag: TypedefTag::IsInverseFunctional.text(),
                value: ValueView::Tokens(seq![word(bool_text(*a))]),
            },
            TypedefClause::IsA(a) => ClauseView {
                tag: TypedefTag::IsA.text(),
                value: ValueView::Tokens(seq![TokenView::Ident(a@)]),
            },
            TypedefClause::InverseOf(a) => ClauseView {
                tag: TypedefTag::InverseOf.text(),
                value: ValueView::Tokens(seq![TokenView::Ident(a@)]),
            },
            TypedefClause::TransitiveOver(a) => ClauseView {
                tag: TypedefTag::TransitiveOver.text(),
                value: ValueView::Tokens(seq![TokenView::Ident(a@)]),
            },
            TypedefClause::DisjointFrom(a) => ClauseView {
                tag: TypedefTag::DisjointFrom.text(),
                value: ValueView::Tokens(seq![TokenView::Ident(a@)]),
            },
            TypedefClause::Relationship(a, b) => ClauseView {
                tag: TypedefTag::Relationship.text(),
                value: ValueView::Tokens(seq![
                    TokenView::Ident(a@),
                    TokenView::Ident(b@),
                ]),
            },
            TypedefClause::CreatedBy(a) => ClauseView {
                tag: TypedefTag::CreatedBy.text(),
                value: ValueView::Text(a@),
            },
            TypedefClause::IsObsolete(a) => ClauseView {
                tag: TypedefTag::IsObsolete.text(),
                value: ValueView::Tokens(seq![word(bool_text(*a))]),
            },
            TypedefClause::ReplacedBy(a) => ClauseView {
                tag: TypedefTag::ReplacedBy.text(),
                value: ValueView::Tokens(seq![TokenView::Ident(a@)]),
            },
            TypedefClause::Consider(a) => ClauseView {
                tag: TypedefTag::Consider.text(),
                value: ValueView::Tokens(seq![TokenView::Ident(a@)]),
            },
            TypedefClause::IsMetadataTag(a) => ClauseView {
                tag: TypedefTag::IsMetadataTag.text(),
                value: ValueView::Tokens(seq![word(bool_text(*a))]),
            },
            TypedefClause::IsClassLevel(a) => ClauseView {
                tag: TypedefTag::IsClassLevel.text(),
                value: ValueView::Tokens(seq![word(bool_text(*a))]),
            },
        }
    }
}

impl Clone for TypedefClause {
    fn clone(&self) -> (r: Self)
        ensures
            r@ == self@,
    {
        match self {
            TypedefClause::IsAnonymous(a) => TypedefClause::IsAnonymous(*a),
            TypedefClause::Name(a) => TypedefClause::Name(a.clone()),
            TypedefClause::Namespace(a) => TypedefClause::Namespace(a.clone()),
            TypedefClause::AltId(a) => TypedefClause::AltId(a.clone()),
            TypedefClause::Comment(a) => TypedefClause::Comment(a.clone()),
            TypedefClause::Subset(a) => TypedefClause::Subset(a.clone()),
            TypedefClause::Def(a, b) => TypedefClause::Def(a.clone(), clone_xrefs(b)),
            TypedefClause::Synonym(a, b, c, d) => TypedefClause::Synonym(
                a.clone(),
                *b,
                match c {
                    Some(x) => Some(x.clone()),
                    None => None,
                },
                clone_xrefs(d),
            ),
            TypedefClause::Xref(a, b) => TypedefClause::Xref(
                a.clone(),
                match b {
                    Some(x) => Some(x.clone()),
                    None => None,
                },
            ),
            TypedefClause::PropertyValue(a) => TypedefClause::PropertyValue(a.clone()),
            TypedefClause::Domain(a) => TypedefClause::Domain(a.clone()),
            TypedefClause::Range(a) => TypedefClause::Range(a.clone()),
            TypedefClause::Builtin(a) => TypedefClause::Builtin(*a),
            TypedefClause::IsAntiSymmetric(a) => TypedefClause::IsAntiSymmetric(*a),
            TypedefClause::IsCyclic(a) => TypedefClause::IsCyclic(*a),
            TypedefClause::IsReflexive(a) => TypedefClause::IsReflexive(*a),
            TypedefClause::IsSymmetric(a) => TypedefClause::IsSymmetric(*a),
            TypedefClause::IsTransitive(a) => TypedefClause::IsTransitive(*a),
            TypedefClause::IsFunctional(a) => TypedefClause::IsFunctional(*a),
            TypedefClause::IsInverseFunctional(a) => TypedefClause::IsInverseFunctional(*a),
            TypedefClause::IsA(a) => TypedefClause::IsA(a.clone()),
            TypedefClause::InverseOf(a) => TypedefClause::InverseOf(a.clone()),
            TypedefClause::TransitiveOver(a) => TypedefClause::TransitiveOver(a.clone()),
            TypedefClause::DisjointFrom(a) => TypedefClause::DisjointFrom(a.clone()),
            TypedefClause::Relationship(a, b) => TypedefClause::Relationship(a.clone(), b.clone()),
            TypedefClause::CreatedBy(a) => TypedefClause::CreatedBy(a.clone()),
            TypedefClause::IsObsolete(a) => TypedefClause::IsObsolete(*a),
            TypedefClause::ReplacedBy(a) => TypedefClause::ReplacedBy(a.clone()),
            TypedefClause::Consider(a) => TypedefClause::Consider(a.clone()),
            TypedefClause::IsMetadataTag(a) => TypedefClause::IsMetadataTag(*a),
            TypedefClause::IsClassLevel(a) => TypedefClause::IsClassLevel(*a),
        }
    }
}

/// The value as a clause with the given tag takes it; `None` where the
/// value is not what the tag asks for.
#[verifier::opaque]
pub open spec fn typedef_value(tag: TypedefTag, value: ValueView) -> Option<ValueView> {
    match tag {
        TypedefTag::IsAnonymous => match value {
            ValueView::Tokens(ts) => if ts.len() == 1 && is_bool_token(ts[0]) {
                Some(value)
            } else {
                None
            },
            _ => None,
        },
        TypedefTag::Name => if value is Text {
            Some(value)
        } else {
            None
        },
        TypedefTag::Namespace => match value {
            ValueView::Tokens(ts) => if ts.len() == 1 && ts[0] is Ident {
                Some(value)
            } else {
                None
            },
            _ => None,
        },
        TypedefTag::AltId => match value {
            ValueView::Tokens(ts) => if ts.len() == 1 && ts[0] is Ident {
                Some(value)
            } else {
                None
            },
            _ => None,
        },
        TypedefTag::Comment => if value is Text {
            Some(value)
        } else {
            None
        },
        TypedefTag::Subset => match value {
            ValueView::Tokens(ts) => if ts.len() == 1 && ts[0] is Ident {
                Some(value)
            } else {
                None
            },
            _ => None,
        },
        TypedefTag::Def => match value {
            ValueView::Tokens(ts) => if ts.len() == 2 && ts[0] is Quoted && ts[1] is Xrefs {
                Some(value)
            } else {
                None
            },
            _ => None,
        },
        TypedefTag::Synonym => match value {
            ValueView::Tokens(ts) => {
                let fits = if ts.len() == 3 {
                    ts[0] is Quoted && is_scope_token(ts[1]) && ts[2] is Xrefs
                } else {
                    ts.len() == 4
                        && ts[0] is Quoted
                        && is_scope_token(ts[1])
                        && ts[2] is Ident
                        && ts[3] is Xrefs
                };
                if fits {
                    Some(value)
                } else {
                    None
                }
            },
            _ => None,
        },
        TypedefTag::Xref => match value {
            ValueView::Tokens(ts) => {
                let fits = if ts.len() == 1 {
                    ts[0] is Ident
                } else {
                    ts.len() == 2 && ts[0] is Ident && ts[1] is Quoted
                };
                if fits {
                    Some(value)
                } else {
                    None
                }
            },
            _ => None,
        },
        TypedefTag::PropertyValue => match value {
            ValueView::Tokens(ts) => match pv_of_tokens(ts) {
                Some(pv) => Some(ValueView::Tokens(pv.tokens())),
                None => None,
            },
            _ => None,
        },
        TypedefTag::Domain => match value {
            ValueView::Tokens(ts) => if ts.len() == 1 && ts[0] is Ident {
                Some(value)
            } else {
                None
            },
            _ => None,
        },
        TypedefTag::Range => match value {
            ValueView::Tokens(ts) => if ts.len() == 1 && ts[0] is Ident {
                Some(value)
            } else {
                None
            },
            _ => None,
        },
        TypedefTag::Builtin => match value {
            ValueView::Tokens(ts) => if ts.len() == 1 && is_bool_token(ts[0]) {
                Some(value)
            } else {
                None
            },
            _ => None,
        },
        TypedefTag::IsAntiSymmetric => match value {
            ValueView::Tokens(ts) => if ts.len() == 1 && is_bool_token(ts[0]) {
                Some(value)
            } else {
                None
            },
            _ => None,
        },
        TypedefTag::IsCyclic => match value {
            ValueView::Tokens(ts) => if ts.len() == 1 && is_bool_token(ts[0]) {
                Some(value)
            } else {
                None
            },
            _ => None,
        },
        TypedefTag::IsReflexive => match value {
            ValueView::Tokens(ts) => if ts.len() == 1 && is_bool_token(ts[0]) {
                Some(value)
            } else {
                None
            },
            _ => None,
        },
        TypedefTag::IsSymmetric => match value {
            ValueView::Tokens(ts) => if ts.len() == 1 && is_bool_token(ts[0]) {
                Some(value)
            } else {
                None
            },
            _ => None,
        },
        TypedefTag::IsTransitive => match value {
            ValueView::Tokens(ts) => if ts.len() == 1 && is_bool_token(ts[0]) {
                Some(value)
            } else {
                None
            },
            _ => None,
        },
        TypedefTag::IsFunctional => match value {
            ValueView::Tokens(ts) => if ts.len() == 1 && is_bool_token(ts[0]) {
                Some(value)
            } else {
                None
            },
            _ => None,
        },
        TypedefTag::IsInverseFunctional => match value {
            ValueView::Tokens(ts) => if ts.len() == 1 && is_bool_token(ts[0]) {
                Some(value)
            } else {
                None
            },
            _ => None,
        },
        TypedefTag::IsA => match value {
            ValueView::Tokens(ts) => if ts.len() == 1 && ts[0] is Ident {
                Some(value)
            } else {
                None
            },
            _ => None,
        },
        TypedefTag::InverseOf => match value {
            ValueView::Tokens(ts) => if ts.len() == 1 && ts[0] is Ident {
                Some(value)
            } else {
                None
            },
            _ => None,
        },
        TypedefTag::TransitiveOver => match value {
            ValueView::Tokens(ts) => if ts.len() == 1 && ts[0] is Ident {
                Some(value)
            } else {
                None
            },
            _ => None,
        },
        TypedefTag::DisjointFrom => match value {
            ValueView::Tokens(ts) => if ts.len() == 1 && ts[0] is Ident {
                Some(value)
            } else {
                None
            },
            _ => None,
        },
        TypedefTag::Relationship => match value {
            ValueView::Tokens(ts) => if ts.len() == 2 && ts[0] is Ident && ts[1] is Ident {
                Some(value)
            } else {
                None
            },
            _ => None,
        },
        TypedefTag::CreatedBy => if value is Text {
            Some(value)
        } else {
            None
        },
        TypedefTag::IsObsolete => match value {
            ValueView::Tokens(ts) => if ts.len() == 1 && is_bool_token(ts[0]) {
                Some(value)
            } else {
                None
            },
            _ => None,
        },
        TypedefTag::ReplacedBy => match value {
            ValueView::Tokens(ts) => if ts.len() == 1 && ts[0] is Ident {
                Some(value)
            } else {
                None
            },
            _ => None,
        },
        TypedefTag::Consider => match value {
            ValueView::Tokens(ts) => if ts.len() == 1 && ts[0] is Ident {
                Some(value)
            } else {
                None
            },
            _ => None,
        },
        TypedefTag::IsMetadataTag => match value {
            ValueView::Tokens(ts) => if ts.len() == 1 && is_bool_token(ts[0]) {
                Some(value)
            } else {
                None
            },
            _ => None,
        },
        TypedefTag::IsClassLevel => match value {
            ValueView::Tokens(ts) => if ts.len() == 1 && is_bool_token(ts[0]) {
                Some(value)
            } else {
                None
            },
            _ => None,
        },
        _ => None,
    }
}

/// The shape of the value behind a tag of a `[Typedef]` frame; `None` where there is
/// no such tag.
pub open spec fn typedef_shape_of(tag: Seq<char>) -> Option<Shape> {
    match TypedefTag::of(tag) {
        Some(t) => Some(t.spec_shape()),
        None => None,
    }
}

/// Whether the clauses of a tag are supported.
pub open spec fn typedef_supported(tag: Seq<char>) -> bool {
    match TypedefTag::of(tag) {
        Some(t) => t.spec_supported(),
        None => false,
    }
}

/// The line as its tag takes it; `None` where the value is not what the
/// tag asks for.
pub open spec fn typedef_interpret(l: LineView<ClauseView>) -> Option<LineView<ClauseView>> {
    match TypedefTag::of(l.inner.tag) {
        Some(t) => match typedef_value(t, l.inner.value) {
            Some(value) => Some(
                LineView { inner: ClauseView { tag: l.inner.tag, value }, trailer: l.trailer },
            ),
            None => None,
        },
        None => None,
    }
}

/// What a clause takes a value for is a value that it takes as it is, of
/// the shape that goes with the tag; and it can be written and read back
/// if the value can.
pub proof fn lemma_typedef_value(tag: TypedefTag, value: ValueView)
    ensures
        typedef_value(tag, value) matches Some(taken) ==> typedef_value(tag, taken) == Some(taken)
            && taken.shape() == tag.spec_shape() && (value.wf() ==> taken.wf()),
{
    reveal(typedef_value);
    match value {
        ValueView::Tokens(ts) => {
            if let Some(pv) = pv_of_tokens(ts) {
                lemma_pv_of_tokens(pv);
                if tokens_wf(ts) {
                    lemma_pv_tokens_wf(ts);
                }
            }
        },
        ValueView::Text(_) => {},
    }
}

/// What a line is taken for is a line that is taken as it is: it has the
/// tag and the trailer of the line, and a value of the same shape, which
/// can be written and read back if the value of the line can.
pub proof fn lemma_typedef_interpret(l: LineView<ClauseView>)
    requires
        typedef_shape_of(l.inner.tag) == Some(l.inner.value.shape()),
    ensures
        typedef_interpret(l) matches Some(r) ==> r.inner.tag == l.inner.tag
            && r.trailer == l.trailer
            && r.inner.value.shape() == l.inner.value.shape() && typedef_interpret(r) == Some(r)
            && (l.inner.value.wf() ==> r.inner.value.wf()),
{
    if let Some(tag) = TypedefTag::of(l.inner.tag) {
        lemma_typedef_value(tag, l.inner.value);
    }
}

impl TypedefClause {
    /// The tag of the clause.
    pub fn tag(&self) -> (r: TypedefTag)
        ensures
            r.text() == self@.tag,
            r.spec_supported(),
            r.spec_shape() == self@.value.shape(),
    {
        match self {
            TypedefClause::IsAnonymous(..) => TypedefTag::IsAnonymous,
            TypedefClause::Name(..) => TypedefTag::Name,
            TypedefClause::Namespace(..) => TypedefTag::Namespace,
            TypedefClause::AltId(..) => TypedefTag::AltId,
            TypedefClause::Comment(..) => TypedefTag::Comment,
            TypedefClause::Subset(..) => TypedefTag::Subset,
            TypedefClause::Def(..) => TypedefTag::Def,
            TypedefClause::Synonym(..) => TypedefTag::Synonym,
            TypedefClause::Xref(..) => TypedefTag::Xref,
            TypedefClause::PropertyValue(..) => TypedefTag::PropertyValue,
            TypedefClause::Domain(..) => TypedefTag::Domain,
            TypedefClause::Range(..) => TypedefTag::Range,
            TypedefClause::Builtin(..) => TypedefTag::Builtin,
            TypedefClause::IsAntiSymmetric(..) => TypedefTag::IsAntiSymmetric,
            TypedefClause::IsCyclic(..) => TypedefTag::IsCyclic,
            TypedefClause::IsReflexive(..) => TypedefTag::IsReflexive,
            TypedefClause::IsSymmetric(..) => TypedefTag::IsSymmetric,
            TypedefClause::IsTransitive(..) => TypedefTag::IsTransitive,
            TypedefClause::IsFunctional(..) => TypedefTag::IsFunctional,
            TypedefClause::IsInverseFunctional(..) => TypedefTag::IsInverseFunctional,
            TypedefClause::IsA(..) => TypedefTag::IsA,
            TypedefClause::InverseOf(..) => TypedefTag::InverseOf,
            TypedefClause::TransitiveOver(..) => TypedefTag::TransitiveOver,
            TypedefClause::DisjointFrom(..) => TypedefTag::DisjointFrom,
            TypedefClause::Relationship(..) => TypedefTag::Relationship,
            TypedefClause::CreatedBy(..) => TypedefTag::CreatedBy,
            TypedefClause::IsObsolete(..) => TypedefTag::IsObsolete,
            TypedefClause::ReplacedBy(..) => TypedefTag::ReplacedBy,
            TypedefClause::Consider(..) => TypedefTag::Consider,
            TypedefClause::IsMetadataTag(..) => TypedefTag::IsMetadataTag,
            TypedefClause::IsClassLevel(..) => TypedefTag::IsClassLevel,
        }
    }

    /// The value of the clause, as free text or as tokens.
    pub fn to_value(&self) -> (r: Value)
        ensures
            r@ == self@.value,
    {
        match self {
            TypedefClause::IsAnonymous(a) => {
                let ts = vec![Token::from_bool(*a)];
                assert(tokens_view(ts@) == seq![word(bool_text(*a))]);
                Value::Tokens(ts)
            },
            TypedefClause::Name(a) => Value::Text(a.clone()),
            TypedefClause::Namespace(a) => {
                let ts = vec![Token::Ident(a.as_ident().clone())];
                assert(tokens_view(ts@) == seq![TokenView::Ident(a@)]);
                Value::Tokens(ts)
            },
            TypedefClause::AltId(a) => {
                let ts = vec![Token::Ident(a.clone())];
                assert(tokens_view(ts@) == seq![TokenView::Ident(a@)]);
                Value::Tokens(ts)
            },
            TypedefClause::Comment(a) => Value::Text(a.clone()),
            TypedefClause::Subset(a) => {
                let ts = vec![Token::Ident(a.as_ident().clone())];
                assert(tokens_view(ts@) == seq![TokenView::Ident(a@)]);
                Value::Tokens(ts)
            },
            TypedefClause::Def(a, b) => {
                let ts = vec![Token::Quoted(a.clone()), Token::Xrefs(clone_xrefs(b))];
                assert(tokens_view(ts@) == seq![
                    TokenView::Quoted(a@),
                    TokenView::Xrefs(xrefs_view(b@)),
                ]);
                Value::Tokens(ts)
            },
            TypedefClause::Synonym(a, b, c, d) => match c {
                Some(x) => {
                    let ts = vec![
                        Token::Quoted(a.clone()),
                        Token::from_scope(*b),
                        Token::Ident(x.as_ident().clone()),
                        Token::Xrefs(clone_xrefs(d)),
                    ];
                    assert(tokens_view(ts@) == seq![
                        TokenView::Quoted(a@),
                        word(b.text()),
                        TokenView::Ident(x@),
                        TokenView::Xrefs(xrefs_view(d@)),
                    ]);
                    Value::Tokens(ts)
                },
                None => {
                    let ts = vec![
                        Token::Quoted(a.clone()),
                        Token::from_scope(*b),
                        Token::Xrefs(clone_xrefs(d)),
                    ];
                    assert(tokens_view(ts@) == seq![
                        TokenView::Quoted(a@),
                        word(b.text()),
                        TokenView::Xrefs(xrefs_view(d@)),
                    ]);
                    Value::Tokens(ts)
                },
            },
            TypedefClause::Xref(a, b) => match b {
                Some(x) => {
                    let ts = vec![Token::Ident(a.clone()), Token::Quoted(x.clone())];
                    assert(tokens_view(ts@) == seq![TokenView::Ident(a@), TokenView::Quoted(x@)]);
                    Value::Tokens(ts)
                },
                None => {
                    let ts = vec![Token::Ident(a.clone())];
                    assert(tokens_view(ts@) == seq![TokenView::Ident(a@)]);
                    Value::Tokens(ts)
                },
            },
            TypedefClause::PropertyValue(a) => Value::Tokens(a.to_tokens()),
            TypedefClause::Domain(a) => {
                let ts = vec![Token::Ident(a.as_ident().clone())];
                assert(tokens_view(ts@) == seq![TokenView::Ident(a@)]);
                Value::Tokens(ts)
            },
            TypedefClause::Range(a) => {
                let ts = vec![Token::Ident(a.as_ident().clone())];
                assert(tokens_view(ts@) == seq![TokenView::Ident(a@)]);
                Value::Tokens(ts)
            },
            TypedefClause::Builtin(a) => {
                let ts = vec![Token::from_bool(*a)];
                assert(tokens_view(ts@) == seq![word(bool_text(*a))]);
                Value::Tokens(ts)
            },
            TypedefClause::IsAntiSymmetric(a) => {
                let ts = vec![Token::from_bool(*a)];
                assert(tokens_view(ts@) == seq![word(bool_text(*a))]);
                Value::Tokens(ts)
            },
            TypedefClause::IsCyclic(a) => {
                let ts = vec![Token::from_bool(*a)];
                assert(tokens_view(ts@) == seq![word(bool_text(*a))]);
                Value::Tokens(ts)
            },
            TypedefClause::IsReflexive(a) => {
                let ts = vec![Token::from_bool(*a)];
                assert(tokens_view(ts@) == seq![word(bool_text(*a))]);
                Value::Tokens(ts)
            },
            TypedefClause::IsSymmetric(a) => {
                let ts = vec![Token::from_bool(*a)];
                assert(tokens_view(ts@) == seq![word(bool_text(*a))]);
                Value::Tokens(ts)
            },
            TypedefClause::IsTransitive(a) => {
                let ts = vec![Token::from_bool(*a)];
                assert(tokens_view(ts@) == seq![word(bool_text(*a))]);
                Value::Tokens(ts)
            },
            TypedefClause::IsFunctional(a) => {
                let ts = vec![Token::from_bool(*a)];
                assert(tokens_view(ts@) == seq![word(bool_text(*a))]);
                Value::Tokens(ts)
            },
            TypedefClause::IsInverseFunctional(a) => {
                let ts = vec![Token::from_bool(*a)];
                assert(tokens_view(ts@) == seq![word(bool_text(*a))]);
                Value::Tokens(ts)
            },
            TypedefClause::IsA(a) => {
                let ts = vec![Token::Ident(a.as_ident().clone())];
                assert(tokens_view(ts@) == seq![TokenView::Ident(a@)]);
                Value::Tokens(ts)
            },
            TypedefClause::InverseOf(a) => {
                let ts = vec![Token::Ident(a.as_ident().clone())];
                assert(tokens_view(ts@) == seq![TokenView::Ident(a@)]);
                Value::Tokens(ts)
            },
            TypedefClause::TransitiveOver(a) => {
                let ts = vec![Token::Ident(a.as_ident().clone())];
                assert(tokens_view(ts@) == seq![TokenView::Ident(a@)]);
                Value::Tokens(ts)
            },
            TypedefClause::DisjointFrom(a) => {
                let ts = vec![Token::Ident(a.as_ident().clone())];
                assert(tokens_view(ts@) == seq![TokenView::Ident(a@)]);
                Value::Tokens(ts)
            },
            TypedefClause::Relationship(a, b) => {
                let ts = vec![
                    Token::Ident(a.as_ident().clone()),
                    Token::Ident(b.as_ident().clone()),
                ];
                assert(tokens_view(ts@) == seq![TokenView::Ident(a@), TokenView::Ident(b@)]);
                Value::Tokens(ts)
            },
            TypedefClause::CreatedBy(a) => Value::Text(a.clone()),
            TypedefClause::IsObsolete(a) => {
                let ts = vec![Token::from_bool(*a)];
                assert(tokens_view(ts@) == seq![word(bool_text(*a))]);
                Value::Tokens(ts)
            },
            TypedefClause::ReplacedBy(a) => {
                let ts = vec![Token::Ident(a.as_ident().clone())];
                assert(tokens_view(ts@) == seq![TokenView::Ident(a@)]);
                Value::Tokens(ts)
            },
            TypedefClause::Consider(a) => {
                let ts = vec![Token::Ident(a.clone())];
                assert(tokens_view(ts@) == seq![TokenView::Ident(a@)]);
                Value::Tokens(ts)
            },
            TypedefClause::IsMetadataTag(a) => {
                let ts = vec![Token::from_bool(*a)];
                assert(tokens_view(ts@) == seq![word(bool_text(*a))]);
                Value::Tokens(ts)
            },
            TypedefClause::IsClassLevel(a) => {
                let ts = vec![Token::from_bool(*a)];
                assert(tokens_view(ts@) == seq![word(bool_text(*a))]);
                Value::Tokens(ts)
            },
        }
    }

    /// The clause with the given tag and value; nothing where the value
    /// is not what the tag asks for.
    pub fn from_value(tag: TypedefTag, value: Value) -> (r: Option<Self>)
        ensures
            match typedef_value(tag, value@) {
                Some(taken) => r matches Some(c) && c@ == (ClauseView {
                    tag: tag.text(),
                    value: taken,
                }) && (value@.wf() ==> taken.wf()),
                None => r is None,
            },
    {
        proof {
            reveal(typedef_value);
            if let ValueView::Tokens(ts) = value@ {
                if value@.wf() {
                    lemma_pv_tokens_wf(ts);
                }
            }
        }
        match tag {
            TypedefTag::IsAnonymous => match value {
                Value::Tokens(ts) => match take_one(ts) {
                    Some(a) => match a.into_bool() {
                        Some(a) => Some(TypedefClause::IsAnonymous(a)),
                        None => None,
                    },
                    None => None,
                },
                Value::Text(_) => None,
            },
            TypedefTag::Name => match value {
                Value::Text(a) => Some(TypedefClause::Name(a)),
                Value::Tokens(_) => None,
            },
            TypedefTag::Namespace => match value {
                Value::Tokens(ts) => match take_one(ts) {
                    Some(a) => match a.into_ident() {
                        Some(a) => Some(TypedefClause::Namespace(NamespaceIdent::new(a))),
                        None => None,
                    },
                    None => None,
                },
                Value::Text(_) => None,
            },
            TypedefTag::AltId => match value {
                Value::Tokens(ts) => match take_one(ts) {
                    Some(a) => match a.into_ident() {
                        Some(a) => Some(TypedefClause::AltId(a)),
                        None => None,
                    },
                    None => None,
                },
                Value::Text(_) => None,
            },
            TypedefTag::Comment => match value {
                Value::Text(a) => Some(TypedefClause::Comment(a)),
                Value::Tokens(_) => None,
            },
            TypedefTag::Subset => match value {
                Value::Tokens(ts) => match take_one(ts) {
                    Some(a) => match a.into_ident() {
                        Some(a) => Some(TypedefClause::Subset(SubsetIdent::new(a))),
                        None => None,
                    },
                    None => None,
                },
                Value::Text(_) => None,
            },
            TypedefTag::Def => match value {
                Value::Tokens(ts) => match take_two(ts) {
                    Some((a, b)) => match (a.into_quoted(), b.into_xrefs()) {
                        (Some(a), Some(b)) => Some(TypedefClause::Def(a, b)),
                        _ => None,
                    },
                    None => None,
                },
                Value::Text(_) => None,
            },
            TypedefTag::Synonym => match value {
                Value::Tokens(ts) => if ts.len() == 3 {
                    match take_three(ts) {
                        Some((a, b, d)) => match (a.into_quoted(), b.into_scope(), d.into_xrefs()) {
                            (Some(a), Some(b), Some(d)) => Some(
                                TypedefClause::Synonym(a, b, None, d),
                            ),
                            _ => None,
                        },
                        None => None,
                    }
                } else {
                    match take_four(ts) {
                        Some((a, b, c, d)) => match (
                            a.into_quoted(),
                            b.into_scope(),
                            c.into_ident(),
                            d.into_xrefs(),
                        ) {
                            (Some(a), Some(b), Some(c), Some(d)) => Some(
                                TypedefClause::Synonym(a, b, Some(SynonymTypeIdent::new(c)), d),
                            ),
                            _ => None,
                        },
                        None => None,
                    }
                },
                Value::Text(_) => None,
            },
            TypedefTag::Xref => match value {
                Value::Tokens(ts) => match take_one_or_two(ts) {
                    Some((a, x)) => match a.into_ident() {
                        Some(a) => match x {
                            Some(x) => match x.into_quoted() {
                                Some(x) => Some(TypedefClause::Xref(a, Some(x))),
                                None => None,
                            },
                            None => Some(TypedefClause::Xref(a, None)),
                        },
                        None => None,
                    },
                    None => None,
                },
                Value::Text(_) => None,
            },
            TypedefTag::PropertyValue => match value {
                Value::Tokens(ts) => match PropertyValue::from_tokens(ts) {
                    Ok(a) => Some(TypedefClause::PropertyValue(a)),
                    Err(_) => None,
                },
                Value::Text(_) => None,
            },
            TypedefTag::Domain => match value {
                Value::Tokens(ts) => match take_one(ts) {
                    Some(a) => match a.into_ident() {
                        Some(a) => Some(TypedefClause::Domain(ClassIdent::new(a))),
                        None => None,
                    },
                    None => None,
                },
                Value::Text(_) => None,
            },
            TypedefTag::Range => match value {
                Value::Tokens(ts) => match take_one(ts) {
                    Some(a) => match a.into_ident() {
                        Some(a) => Some(TypedefClause::Range(ClassIdent::new(a))),
                        None => None,
                    },
                    None => None,
                },
                Value::Text(_) => None,
            },
            TypedefTag::Builtin => match value {
                Value::Tokens(ts) => match take_one(ts) {
                    Some(a) => match a.into_bool() {
                        Some(a) => Some(TypedefClause::Builtin(a)),
                        None => None,
                    },
                    None => None,
                },
                Value::Text(_) => None,
            },
            TypedefTag::IsAntiSymmetric => match value {
                Value::Tokens(ts) => match take_one(ts) {
                    Some(a) => match a.into_bool() {
                        Some(a) => Some(TypedefClause::IsAntiSymmetric(a)),
                        None => None,
                    },
                    None => None,
                },
                Value::Text(_) => None,
            },
            TypedefTag::IsCyclic => match value {
                Value::Tokens(ts) => match take_one(ts) {
                    Some(a) => match a.into_bool() {
                        Some(a) => Some(TypedefClause::IsCyclic(a)),
                        None => None,
                    },
                    None => None,
                },
                Value::Text(_) => None,
            },
            TypedefTag::IsReflexive => match value {
                Value::Tokens(ts) => match take_one(ts) {
                    Some(a) => match a.into_bool() {
                        Some(a) => Some(TypedefClause::IsReflexive(a)),
                        None => None,
                    },
                    None => None,
                },
                Value::Text(_) => None,
            },
            TypedefTag::IsSymmetric => match value {
                Value::Tokens(ts) => match take_one(ts) {
                    Some(a) => match a.into_bool() {
                        Some(a) => Some(TypedefClause::IsSymmetric(a)),
                        None => None,
                    },
                    None => None,
                },
                Value::Text(_) => None,
            },
            TypedefTag::IsTransitive => match value {
                Value::Tokens(ts) => match take_one(ts) {
                    Some(a) => match a.into_bool() {
                        Some(a) => Some(TypedefClause::IsTransitive(a)),
                        None => None,
                    },
                    None => None,
                },
                Value::Text(_) => None,
            },
            TypedefTag::IsFunctional => match value {
                Value::Tokens(ts) => match take_one(ts) {
                    Some(a) => match a.into_bool() {
                        Some(a) => Some(TypedefClause::IsFunctional(a)),
                        None => None,
                    },
                    None => None,
                },
                Value::Text(_) => None,
            },
            TypedefTag::IsInverseFunctional => match value {
                Value::Tokens(ts) => match take_one(ts) {
                    Some(a) => match a.into_bool() {
                        Some(a) => Some(TypedefClause::IsInverseFunctional(a)),
                        None => None,
                    },
                    None => None,
                },
                Value::Text(_) => None,
            },
            TypedefTag::IsA => match value {
                Value::Tokens(ts) => match take_one(ts) {
                    Some(a) => match a.into_ident() {
                        Some(a) => Some(TypedefClause::IsA(RelationIdent::new(a))),
                        None => None,
                    },
                    None => None,
                },
                Value::Text(_) => None,
            },
            TypedefTag::InverseOf => match value {
                Value::Tokens(ts) => match take_one(ts) {
                    Some(a) => match a.into_ident() {
                        Some(a) => Some(TypedefClause::InverseOf(RelationIdent::new(a))),
                        None => None,
                    },
                    None => None,
                },
                Value::Text(_) => None,
            },
            TypedefTag::TransitiveOver => match value {
                Value::Tokens(ts) => match take_one(ts) {
                    Some(a) => match a.into_ident() {
                        Some(a) => Some(TypedefClause::TransitiveOver(RelationIdent::new(a))),
                        None => None,
                    },
                    None => None,
                },
                Value::Text(_) => None,
            },
            TypedefTag::DisjointFrom => match value {
                Value::Tokens(ts) => match take_one(ts) {
                    Some(a) => match a.into_ident() {
                        Some(a) => Some(TypedefClause::DisjointFrom(RelationIdent::new(a))),
                        None => None,
                    },
                    None => None,
                },
                Value::Text(_) => None,
            },
            TypedefTag::Relationship => match value {
                Value::Tokens(ts) => match take_two(ts) {
                    Some((a, b)) => match (a.into_ident(), b.into_ident()) {
                        (Some(a), Some(b)) => Some(
                            TypedefClause::Relationship(
                                RelationIdent::new(a),
                                RelationIdent::new(b),
                            ),
                        ),
                        _ => None,
                    },
                    None => None,
                },
                Value::Text(_) => None,
            },
            TypedefTag::CreatedBy => match value {
                Value::Text(a) => Some(TypedefClause::CreatedBy(a)),
                Value::Tokens(_) => None,
            },
            TypedefTag::IsObsolete => match value {
                Value::Tokens(ts) => match take_one(ts) {
                    Some(a) => match a.into_bool() {
                        Some(a) => Some(TypedefClause::IsObsolete(a)),
                        None => None,
                    },
                    None => None,
                },
                Value::Text(_) => None,
            },
            TypedefTag::ReplacedBy => match value {
                Value::Tokens(ts) => match take_one(ts) {
                    Some(a) => match a.into_ident() {
                        Some(a) => Some(TypedefClause::ReplacedBy(RelationIdent::new(a))),
                        None => None,
                    },
                    None => None,
                },
                Value::Text(_) => None,
            },
            TypedefTag::Consider => match value {
                Value::Tokens(ts) => match take_one(ts) {
                    Some(a) => match a.into_ident() {
                        Some(a) => Some(TypedefClause::Consider(a)),
                        None => None,
                    },
                    None => None,
                },
                Value::Text(_) => None,
            },
            TypedefTag::IsMetadataTag => match value {
                Value::Tokens(ts) => match take_one(ts) {
                    Some(a) => match a.into_bool() {
                        Some(a) => Some(TypedefClause::IsMetadataTag(a)),
                        None => None,
                    },
                    None => None,
                },
                Value::Text(_) => None,
            },
            TypedefTag::IsClassLevel => match value {
                Value::Tokens(ts) => match take_one(ts) {
                    Some(a) => match a.into_bool() {
                        Some(a) => Some(TypedefClause::IsClassLevel(a)),
                        None => None,
                    },
                    None => None,
                },
                Value::Text(_) => None,
            },
            _ => None,
        }
    }

    /// Every clause is one that its frame takes as it is, whatever stands
    /// behind it on its line.
    pub proof fn lemma_typed(&self, trailer: TrailerView)
        ensures
            is_tag(self@.tag),
            LineKind::Typedef.is_typed(LineView { inner: self@, trailer }),
    {
        reveal(typedef_value);
        lemma_bool_of_text(true);
        lemma_bool_of_text(false);
        SynonymScope::lemma_of_text(SynonymScope::Exact);
        SynonymScope::lemma_of_text(SynonymScope::Broad);
        SynonymScope::lemma_of_text(SynonymScope::Narrow);
        SynonymScope::lemma_of_text(SynonymScope::Related);
        match self {
            TypedefClause::IsAnonymous(..) => {
                let tag = TypedefTag::IsAnonymous;
                TypedefTag::lemma_of_text(tag);
                assert(typedef_value(tag, self@.value) == Some(self@.value));
            },
            TypedefClause::Name(..) => {
                let tag = TypedefTag::Name;
                TypedefTag::lemma_of_text(tag);
                assert(typedef_value(tag, self@.value) == Some(self@.value));
            },
            TypedefClause::Namespace(..) => {
                let tag = TypedefTag::Namespace;
                TypedefTag::lemma_of_text(tag);
                assert(typedef_value(tag, self@.value) == Some(self@.value));
            },
            TypedefClause::AltId(..) => {
                let tag = TypedefTag::AltId;
                TypedefTag::lemma_of_text(tag);
                assert(typedef_value(tag, self@.value) == Some(self@.value));
            },
            TypedefClause::Comment(..) => {
                let tag = TypedefTag::Comment;
                TypedefTag::lemma_of_text(tag);
                assert(typedef_value(tag, self@.value) == Some(self@.value));
            },
            TypedefClause::Subset(..) => {
                let tag = TypedefTag::Subset;
                TypedefTag::lemma_of_text(tag);
                assert(typedef_value(tag, self@.value) == Some(self@.value));
            },
            TypedefClause::Def(..) => {
                let tag = TypedefTag::Def;
                TypedefTag::lemma_of_text(tag);
                assert(typedef_value(tag, self@.value) == Some(self@.value));
            },
            TypedefClause::Synonym(..) => {
                let tag = TypedefTag::Synonym;
                TypedefTag::lemma_of_text(tag);
                assert(typedef_value(tag, self@.value) == Some(self@.value));
            },
            TypedefClause::Xref(..) => {
                let tag = TypedefTag::Xref;
                TypedefTag::lemma_of_text(tag);
                assert(typedef_value(tag, self@.value) == Some(self@.value));
            },
            TypedefClause::PropertyValue(a) => {
                let tag = TypedefTag::PropertyValue;
                TypedefTag::lemma_of_text(tag);
                lemma_pv_of_tokens(a@);
                assert(typedef_value(tag, self@.value) == Some(self@.value));
            },
            TypedefClause::Domain(..) => {
                let tag = TypedefTag::Domain;
                TypedefTag::lemma_of_text(tag);
                assert(typedef_value(tag, self@.value) == Some(self@.value));
            },
            TypedefClause::Range(..) => {
                let tag = TypedefTag::Range;
                TypedefTag::lemma_of_text(tag);
                assert(typedef_value(tag, self@.value) == Some(self@.value));
            },
            TypedefClause::Builtin(..) => {
                let tag = TypedefTag::Builtin;
                TypedefTag::lemma_of_text(tag);
                assert(typedef_value(tag, self@.value) == Some(self@.value));
            },
            TypedefClause::IsAntiSymmetric(..) => {
                let tag = TypedefTag::IsAntiSymmetric;
                TypedefTag::lemma_of_text(tag);
                assert(typedef_value(tag, self@.value) == Some(self@.value));
            },
            TypedefClause::IsCyclic(..) => {
                let tag = TypedefTag::IsCyclic;
                TypedefTag::lemma_of_text(tag);
                assert(typedef_value(tag, self@.value) == Some(self@.value));
            },
            TypedefClause::IsReflexive(..) => {
                let tag = TypedefTag::IsReflexive;
                TypedefTag::lemma_of_text(tag);
                assert(typedef_value(tag, self@.value) == Some(self@.value));
            },
            TypedefClause::IsSymmetric(..) => {
                let tag = TypedefTag::IsSymmetric;
                TypedefTag::lemma_of_text(tag);
                assert(typedef_value(tag, self@.value) == Some(self@.value));
            },
            TypedefClause::IsTransitive(..) => {
                let tag = TypedefTag::IsTransitive;
                TypedefTag::lemma_of_text(tag);
                assert(typedef_value(tag, self@.value) == Some(self@.value));
            },
            TypedefClause::IsFunctional(..) => {
                let tag = TypedefTag::IsFunctional;
                TypedefTag::lemma_of_text(tag);
                assert(typedef_value(tag, self@.value) == Some(self@.value));
            },
            TypedefClause::IsInverseFunctional(..) => {
                let tag = TypedefTag::IsInverseFunctional;
                TypedefTag::lemma_of_text(tag);
                assert(typedef_value(tag, self@.value) == Some(self@.value));
            },
            TypedefClause::IsA(..) => {
                let tag = TypedefTag::IsA;
                TypedefTag::lemma_of_text(tag);
                assert(typedef_value(tag, self@.value) == Some(self@.value));
            },
            TypedefClause::InverseOf(..) => {
                let tag = TypedefTag::InverseOf;
                TypedefTag::lemma_of_text(tag);
                assert(typedef_value(tag, self@.value) == Some(self@.value));
            },
            TypedefClause::TransitiveOver(..) => {
                let tag = TypedefTag::TransitiveOver;
                TypedefTag::lemma_of_text(tag);
                assert(typedef_value(tag, self@.value) == Some(self@.value));
            },
            TypedefClause::DisjointFrom(..) => {
                let tag = TypedefTag::DisjointFrom;
                TypedefTag::lemma_of_text(tag);
                assert(typedef_value(tag, self@.value) == Some(self@.value));
            },
            TypedefClause::Relationship(..) => {
                let tag = TypedefTag::Relationship;
                TypedefTag::lemma_of_text(tag);
                assert(typedef_value(tag, self@.value) == Some(self@.value));
            },
            TypedefClause::CreatedBy(..) => {
                let tag = TypedefTag::CreatedBy;
                TypedefTag::lemma_of_text(tag);
                assert(typedef_value(tag, self@.value) == Some(self@.value));
            },
            TypedefClause::IsObsolete(..) => {
                let tag = TypedefTag::IsObsolete;
                TypedefTag::lemma_of_text(tag);
                assert(typedef_value(tag, self@.value) == Some(self@.value));
            },
            TypedefClause::ReplacedBy(..) => {
                let tag = TypedefTag::ReplacedBy;
                TypedefTag::lemma_of_text(tag);
                assert(typedef_value(tag, self@.value) == Some(self@.value));
            },
            TypedefClause::Consider(..) => {
                let tag = TypedefTag::Consider;
                TypedefTag::lemma_of_text(tag);
                assert(typedef_value(tag, self@.value) == Some(self@.value));
            },
            TypedefClause::IsMetadataTag(..) => {
                let tag = TypedefTag::IsMetadataTag;
                TypedefTag::lemma_of_text(tag);
                assert(typedef_value(tag, self@.value) == Some(self@.value));
            },
            TypedefClause::IsClassLevel(..) => {
                let tag = TypedefTag::IsClassLevel;
                TypedefTag::lemma_of_text(tag);
                assert(typedef_value(tag, self@.value) == Some(self@.value));
            },
        }
    }
}

impl LineSyntax for Line<TypedefClause> {
    open spec fn kind() -> LineKind {
        LineKind::Typedef
    }

    fn read(v: &Vec<char>) -> (r: Result<Self, Error>) {
        let fail = Err(Error::SyntaxError { rule: Rule::TypedefClause });
        assert(v@.subrange(0, v@.len() as int) == v@);
        let colon = match read_tag(v, 0, v.len()) {
            Some(colon) => colon,
            None => {
                return fail;
            },
        };
        let ghost text = v@.subrange(0, colon as int);
        let ghost rest = v@.skip(colon + 2);
        assert(parse_tag(v@) == Some((text, colon + 2)));
        let tag = match TypedefTag::lookup(v, 0, colon) {
            Some(tag) => tag,
            None => {
                return fail;
            },
        };
        assert(typedef_shape_of(text) == Some(tag.spec_shape()));
        if !tag.supported() {
            return Err(Error::NotImplemented { rule: Rule::TypedefClause });
        }
        assert(rest == v@.subrange(colon + 2, v@.len() as int));
        let (value, trailer) = match Value::read(tag.shape(), v, colon + 2, v.len()) {
            Some(found) => found,
            None => {
                return fail;
            },
        };
        assert(parse_value(tag.spec_shape(), rest) == Some((value@, trailer@)));
        match TypedefClause::from_value(tag, value) {
            Some(inner) => Ok(Line::with_trailer(inner, trailer)),
            None => fail,
        }
    }

    fn write(&self, out: &mut Vec<char>) {
        push_chars(out, self.inner.tag().as_str());
        out.push(':');
        out.push(' ');
        self.inner.to_value().write(out);
        self.trailer.write(out);
        assert(out@ == old(out)@ + render_clause_line(self@));
    }

    open spec fn faithful(&self) -> bool {
        true
    }

    fn is_valid(&self) -> (b: bool) {
        self.inner.to_value().is_valid() && self.trailer.is_valid()
    }

    proof fn lemma_typed(&self) {
        self.inner.lemma_typed(self.trailer@);
    }
}

} // verus!
