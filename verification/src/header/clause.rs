//! The clauses of the header frame.

use crate::clause::{LineKind, LineSyntax};
use crate::date::{lemma_render_date_stable, parse_date, render_date, NaiveDate};
use crate::error::{Error, Rule};
use crate::header::import::Import;
use crate::id::{
    ClassIdent, IdentPrefix, NamespaceIdent, RelationIdent, SubsetIdent, SynonymTypeIdent, Url,
};
use crate::line::{
    check_tag, is_tag, parse_tag, read_tag, render_clause_line, ClauseView, Line, LineView,
};
use crate::pv::{lemma_pv_of_tokens, lemma_pv_tokens_wf, pv_of_tokens, PropertyValue};
use crate::strings::{QuotedString, UnquotedString};
use crate::synonym::{lemma_bool_of_text, SynonymScope};
use crate::text::{chars_eq, chars_of, push_chars, string_of};
use crate::token::{
    is_scope_token, is_url_token, take_one, take_three, take_two, take_two_or_three, tokens_view,
    tokens_wf, url_token, word, word_of, Token, TokenView,
};
use crate::trailer::{render_trailer, Trailer, TrailerView};
use crate::value::{parse_value, Shape, Value, ValueView};
use vstd::prelude::*;

verus! {

/// The tags of the clauses of the header frame.
#[derive(Clone, Copy, Debug, PartialEq, Eq, Hash, Structural)]
pub enum HeaderTag {
    /// `format-version`
    FormatVersion,
    /// `data-version`
    DataVersion,
    /// `date`
    DateTag,
    /// `saved-by`
    SavedBy,
    /// `auto-generated-by`
    AutoGeneratedBy,
    /// `import`
    ImportTag,
    /// `subsetdef`
    Subsetdef,
    /// `synonymtypedef`
    SynonymTypeDef,
    /// `default-namespace`
    DefaultNamespaceTag,
    /// `idspace`
    Idspace,
    /// `treat-xrefs-as-equivalent`
    TreatXrefsAsEquivalent,
    /// `treat-xrefs-as-genus-differentia`
    TreatXrefsAsGenusDifferentia,
    /// `treat-xrefs-as-reverse-genus-differentia`
    TreatXrefsAsReverseGenusDifferentia,
    /// `treat-xrefs-as-relationship`
    TreatXrefsAsRelationship,
    /// `treat-xrefs-as-is_a`
    TreatXrefsAsIsA,
    /// `treat-xrefs-as-has-subclass`
    TreatXrefsAsHasSubclass,
    /// `property_value`
    PropertyValue,
    /// `remark`
    Remark,
    /// `ontology`
    Ontology,
    /// `owl-axioms`
    OwlAxioms,
}

impl HeaderTag {
    /// The tag as it is written.
    pub open spec fn text(self) -> Seq<char> {
        match self {
            HeaderTag::FormatVersion => "format-version"@,
            HeaderTag::DataVersion => "data-version"@,
            HeaderTag::DateTag => "date"@,
            HeaderTag::SavedBy => "saved-by"@,
            HeaderTag::AutoGeneratedBy => "auto-generated-by"@,
            HeaderTag::ImportTag => "import"@,
            HeaderTag::Subsetdef => "subsetdef"@,
            HeaderTag::SynonymTypeDef => "synonymtypedef"@,
            HeaderTag::DefaultNamespaceTag => "default-namespace"@,
            HeaderTag::Idspace => "idspace"@,
            HeaderTag::TreatXrefsAsEquivalent => "treat-xrefs-as-equivalent"@,
            HeaderTag::TreatXrefsAsGenusDifferentia => "treat-xrefs-as-genus-differentia"@,
            HeaderTag::TreatXrefsAsReverseGenusDifferentia => {
                "treat-xrefs-as-reverse-genus-differentia"@
            },
            HeaderTag::TreatXrefsAsRelationship => "treat-xrefs-as-relationship"@,
            HeaderTag::TreatXrefsAsIsA => "treat-xrefs-as-is_a"@,
            HeaderTag::TreatXrefsAsHasSubclass => "treat-xrefs-as-has-subclass"@,
            HeaderTag::PropertyValue => "property_value"@,
            HeaderTag::Remark => "remark"@,
            HeaderTag::Ontology => "ontology"@,
            HeaderTag::OwlAxioms => "owl-axioms"@,
        }
    }

    /// The tag that a text is.
    #[verifier::opaque]
    pub open spec fn of(text: Seq<char>) -> Option<HeaderTag> {
        if text == "format-version"@ {
            Some(HeaderTag::FormatVersion)
        } else if text == "data-version"@ {
            Some(HeaderTag::DataVersion)
        } else if text == "date"@ {
            Some(HeaderTag::DateTag)
        } else if text == "saved-by"@ {
            Some(HeaderTag::SavedBy)
        } else if text == "auto-generated-by"@ {
            Some(HeaderTag::AutoGeneratedBy)
        } else if text == "import"@ {
            Some(HeaderTag::ImportTag)
        } else if text == "subsetdef"@ {
            Some(HeaderTag::Subsetdef)
        } else if text == "synonymtypedef"@ {
            Some(HeaderTag::SynonymTypeDef)
        } else if text == "default-namespace"@ {
            Some(HeaderTag::DefaultNamespaceTag)
        } else if text == "idspace"@ {
            Some(HeaderTag::Idspace)
        } else if text == "treat-xrefs-as-equivalent"@ {
            Some(HeaderTag::TreatXrefsAsEquivalent)
        } else if text == "treat-xrefs-as-genus-differentia"@ {
            Some(HeaderTag::TreatXrefsAsGenusDifferentia)
        } else if text == "treat-xrefs-as-reverse-genus-differentia"@ {
            Some(HeaderTag::TreatXrefsAsReverseGenusDifferentia)
        } else if text == "treat-xrefs-as-relationship"@ {
            Some(HeaderTag::TreatXrefsAsRelationship)
        } else if text == "treat-xrefs-as-is_a"@ {
            Some(HeaderTag::TreatXrefsAsIsA)
        } else if text == "treat-xrefs-as-has-subclass"@ {
            Some(HeaderTag::TreatXrefsAsHasSubclass)
        } else if text == "property_value"@ {
            Some(HeaderTag::PropertyValue)
        } else if text == "remark"@ {
            Some(HeaderTag::Remark)
        } else if text == "ontology"@ {
            Some(HeaderTag::Ontology)
        } else if text == "owl-axioms"@ {
            Some(HeaderTag::OwlAxioms)
        } else {
            None
        }
    }

    /// The shape of the value behind the tag.
    pub open spec fn spec_shape(self) -> Shape {
        match self {
            HeaderTag::FormatVersion
            | HeaderTag::DataVersion
            | HeaderTag::DateTag
            | HeaderTag::SavedBy
            | HeaderTag::AutoGeneratedBy
            | HeaderTag::Remark
            | HeaderTag::Ontology
            | HeaderTag::OwlAxioms => Shape::Text,
            _ => Shape::Tokens,
        }
    }

    /// Whether clauses with the tag are supported.
    pub open spec fn spec_supported(self) -> bool {
        true
    }

    /// Every tag is written as a tag is, and its text is the text of no
    /// other tag.
    pub proof fn lemma_of_text(tag: HeaderTag)
        ensures
            Self::of(tag.text()) == Some(tag),
            is_tag(tag.text()),
    {
        reveal(HeaderTag::of);
        reveal_strlit("format-version");
        reveal_strlit("data-version");
        reveal_strlit("date");
        reveal_strlit("saved-by");
        reveal_strlit("auto-generated-by");
        reveal_strlit("import");
        reveal_strlit("subsetdef");
        reveal_strlit("synonymtypedef");
        reveal_strlit("default-namespace");
        reveal_strlit("idspace");
        reveal_strlit("treat-xrefs-as-equivalent");
        reveal_strlit("treat-xrefs-as-genus-differentia");
        reveal_strlit("treat-xrefs-as-reverse-genus-differentia");
        reveal_strlit("treat-xrefs-as-relationship");
        reveal_strlit("treat-xrefs-as-is_a");
        reveal_strlit("treat-xrefs-as-has-subclass");
        reveal_strlit("property_value");
        reveal_strlit("remark");
        reveal_strlit("ontology");
        reveal_strlit("owl-axioms");
        assert("format-version"@.len() == 14 && "format-version"@[0] == 'f');
        assert("data-version"@.len() == 12);
        assert("date"@.len() == 4);
        assert("saved-by"@.len() == 8 && "saved-by"@[0] == 's');
        assert("auto-generated-by"@.len() == 17 && "auto-generated-by"@[0] == 'a');
        assert("import"@.len() == 6 && "import"@[0] == 'i');
        assert("subsetdef"@.len() == 9);
        assert("synonymtypedef"@.len() == 14 && "synonymtypedef"@[0] == 's');
        assert("default-namespace"@.len() == 17 && "default-namespace"@[0] == 'd');
        assert("idspace"@.len() == 7);
        assert("treat-xrefs-as-equivalent"@.len() == 25);
        assert("treat-xrefs-as-genus-differentia"@.len() == 32);
        assert("treat-xrefs-as-reverse-genus-differentia"@.len() == 40);
        assert("treat-xrefs-as-relationship"@.len() == 27
            && "treat-xrefs-as-relationship"@[15] == 'r'
        );
        assert("treat-xrefs-as-is_a"@.len() == 19);
        assert("treat-xrefs-as-has-subclass"@.len() == 27
            && "treat-xrefs-as-has-subclass"@[15] == 'h'
        );
        assert("property_value"@.len() == 14 && "property_value"@[0] == 'p');
        assert("remark"@.len() == 6 && "remark"@[0] == 'r');
        assert("ontology"@.len() == 8 && "ontology"@[0] == 'o');
        assert("owl-axioms"@.len() == 10);
    }

    /// The tag as it is written.
    pub fn as_str(self) -> (s: &'static str)
        ensures
            s@ == self.text(),
    {
        match self {
            HeaderTag::FormatVersion => "format-version",
            HeaderTag::DataVersion => "data-version",
            HeaderTag::DateTag => "date",
            HeaderTag::SavedBy => "saved-by",
            HeaderTag::AutoGeneratedBy => "auto-generated-by",
            HeaderTag::ImportTag => "import",
            HeaderTag::Subsetdef => "subsetdef",
            HeaderTag::SynonymTypeDef => "synonymtypedef",
            HeaderTag::DefaultNamespaceTag => "default-namespace",
            HeaderTag::Idspace => "idspace",
            HeaderTag::TreatXrefsAsEquivalent => "treat-xrefs-as-equivalent",
            HeaderTag::TreatXrefsAsGenusDifferentia => "treat-xrefs-as-genus-differentia",
            HeaderTag::TreatXrefsAsReverseGenusDifferentia => {
                "treat-xrefs-as-reverse-genus-differentia"
            },
            HeaderTag::TreatXrefsAsRelationship => "treat-xrefs-as-relationship",
            HeaderTag::TreatXrefsAsIsA => "treat-xrefs-as-is_a",
            HeaderTag::TreatXrefsAsHasSubclass => "treat-xrefs-as-has-subclass",
            HeaderTag::PropertyValue => "property_value",
            HeaderTag::Remark => "remark",
            HeaderTag::Ontology => "ontology",
            HeaderTag::OwlAxioms => "owl-axioms",
        }
    }

    /// The shape of the value behind the tag.
    #[verifier::when_used_as_spec(spec_shape)]
    pub fn shape(self) -> (r: Shape)
        ensures
            r == self.spec_shape(),
    {
        match self {
            HeaderTag::FormatVersion
            | HeaderTag::DataVersion
            | HeaderTag::DateTag
            | HeaderTag::SavedBy
            | HeaderTag::AutoGeneratedBy
            | HeaderTag::Remark
            | HeaderTag::Ontology
            | HeaderTag::OwlAxioms => Shape::Text,
            _ => Shape::Tokens,
        }
    }

    /// Whether clauses with the tag are supported.
    #[verifier::when_used_as_spec(spec_supported)]
    pub fn supported(self) -> (r: bool)
        ensures
            r == self.spec_supported(),
    {
        true
    }

    /// The tag that `v[from..to]` is.
    pub fn lookup(v: &Vec<char>, from: usize, to: usize) -> (r: Option<HeaderTag>)
        requires
            from <= to <= v.len(),
        ensures
            r == Self::of(v@.subrange(from as int, to as int)),
            r matches Some(tag) ==> tag.text() == v@.subrange(from as int, to as int),
    {
        proof {
            reveal(HeaderTag::of);
        }
        if chars_eq(v, from, to, "format-version") {
            Some(HeaderTag::FormatVersion)
        } else if chars_eq(v, from, to, "data-version") {
            Some(HeaderTag::DataVersion)
        } else if chars_eq(v, from, to, "date") {
            Some(HeaderTag::DateTag)
        } else if chars_eq(v, from, to, "saved-by") {
            Some(HeaderTag::SavedBy)
        } else if chars_eq(v, from, to, "auto-generated-by") {
            Some(HeaderTag::AutoGeneratedBy)
        } else if chars_eq(v, from, to, "import") {
            Some(HeaderTag::ImportTag)
        } else if chars_eq(v, from, to, "subsetdef") {
            Some(HeaderTag::Subsetdef)
        } else if chars_eq(v, from, to, "synonymtypedef") {
            Some(HeaderTag::SynonymTypeDef)
        } else if chars_eq(v, from, to, "default-namespace") {
            Some(HeaderTag::DefaultNamespaceTag)
        } else if chars_eq(v, from, to, "idspace") {
            Some(HeaderTag::Idspace)
        } else if chars_eq(v, from, to, "treat-xrefs-as-equivalent") {
            Some(HeaderTag::TreatXrefsAsEquivalent)
        } else if chars_eq(v, from, to, "treat-xrefs-as-genus-differentia") {
            Some(HeaderTag::TreatXrefsAsGenusDifferentia)
        } else if chars_eq(v, from, to, "treat-xrefs-as-reverse-genus-differentia") {
            Some(HeaderTag::TreatXrefsAsReverseGenusDifferentia)
        } else if chars_eq(v, from, to, "treat-xrefs-as-relationship") {
            Some(HeaderTag::TreatXrefsAsRelationship)
        } else if chars_eq(v, from, to, "treat-xrefs-as-is_a") {
            Some(HeaderTag::TreatXrefsAsIsA)
        } else if chars_eq(v, from, to, "treat-xrefs-as-has-subclass") {
            Some(HeaderTag::TreatXrefsAsHasSubclass)
        } else if chars_eq(v, from, to, "property_value") {
            Some(HeaderTag::PropertyValue)
        } else if chars_eq(v, from, to, "remark") {
            Some(HeaderTag::Remark)
        } else if chars_eq(v, from, to, "ontology") {
            Some(HeaderTag::Ontology)
        } else if chars_eq(v, from, to, "owl-axioms") {
            Some(HeaderTag::OwlAxioms)
        } else {
            None
        }
    }
}

/// A clause of the header frame.
#[derive(Debug, PartialEq, Eq, Hash)]
pub enum HeaderClause {
    /// The version of the format that the document is written in.
    FormatVersion(UnquotedString),
    /// The version of the ontology.
    DataVersion(UnquotedString),
    /// When the document was written.
    DateTag(NaiveDate),
    /// Who saved the document.
    SavedBy(UnquotedString),
    /// The program that wrote the document.
    AutoGeneratedBy(UnquotedString),
    /// Another document to be read with this one.
    ImportTag(Import),
    /// A subset and its description.
    Subsetdef(SubsetIdent, QuotedString),
    /// A type of synonym, its description and its scope.
    SynonymTypeDef(SynonymTypeIdent, QuotedString, Option<SynonymScope>),
    /// The namespace of the entities that name none.
    DefaultNamespaceTag(NamespaceIdent),
    /// A prefix, the URL that it stands for and a description.
    Idspace(IdentPrefix, Url, Option<QuotedString>),
    /// References with the prefix name equivalent classes.
    TreatXrefsAsEquivalent(IdentPrefix),
    /// References with the prefix name the genus of a definition by genus and
    /// differentia.
    TreatXrefsAsGenusDifferentia(IdentPrefix, RelationIdent, ClassIdent),
    /// References with the prefix name the class that a definition by genus
    /// and differentia defines.
    TreatXrefsAsReverseGenusDifferentia(IdentPrefix, RelationIdent, ClassIdent),
    /// References with the prefix state the relation.
    TreatXrefsAsRelationship(IdentPrefix, RelationIdent),
    /// References with the prefix name superclasses.
    TreatXrefsAsIsA(IdentPrefix),
    /// References with the prefix name subclasses.
    TreatXrefsAsHasSubclass(IdentPrefix),
    /// A property of the ontology, with what stands behind it on its line.
    PropertyValue(Line<PropertyValue>),
    /// A remark on the document.
    Remark(UnquotedString),
    /// The identifier of the ontology.
    Ontology(UnquotedString),
    /// Axioms in another syntax.
    OwlAxioms(UnquotedString),
    /// A clause with a tag that the format does not reserve: the tag and the
    /// value.
    Unreserved(UnquotedString, UnquotedString),
}

impl View for HeaderClause {
    type V = LineView<ClauseView>;

    open spec fn view(&self) -> LineView<ClauseView> {
        match self {
            HeaderClause::FormatVersion(a) => LineView {
                inner: ClauseView {
                    tag: HeaderTag::FormatVersion.text(),
                    value: ValueView::Text(a@),
                },
                trailer: TrailerView::none(),
            },
            HeaderClause::DataVersion(a) => LineView {
                inner: ClauseView {
                    tag: HeaderTag::DataVersion.text(),
                    value: ValueView::Text(a@),
                },
                trailer: TrailerView::none(),
            },
            HeaderClause::DateTag(a) => LineView {
                inner: ClauseView {
                    tag: HeaderTag::DateTag.text(),
                    value: ValueView::Text(render_date(*a)),
                },
                trailer: TrailerView::none(),
            },
            HeaderClause::SavedBy(a) => LineView {
                inner: ClauseView {
                    tag: HeaderTag::SavedBy.text(),
                    value: ValueView::Text(a@),
                },
                trailer: TrailerView::none(),
            },
            HeaderClause::AutoGeneratedBy(a) => LineView {
                inner: ClauseView {
                    tag: HeaderTag::AutoGeneratedBy.text(),
                    value: ValueView::Text(a@),
                },
                trailer: TrailerView::none(),
            },
            HeaderClause::ImportTag(a) => LineView {
                inner: ClauseView {
                    tag: HeaderTag::ImportTag.text(),
                    value: ValueView::Tokens(seq![TokenView::Ident(a@)]),
                },
                trailer: TrailerView::none(),
            },
            HeaderClause::Subsetdef(a, b) => LineView {
                inner: ClauseView {
                    tag: HeaderTag::Subsetdef.text(),
                    value: ValueView::Tokens(seq![
                        TokenView::Ident(a@),
                        TokenView::Quoted(b@),
                    ]),
                },
                trailer: TrailerView::none(),
            },
            HeaderClause::SynonymTypeDef(a, b, c) => LineView {
                inner: ClauseView {
                    tag: HeaderTag::SynonymTypeDef.text(),
                    value: ValueView::Tokens(
                        match c {
                            Some(x) => seq![
                                TokenView::Ident(a@),
                                TokenView::Quoted(b@),
                                word(x.text()),
                            ],
                            None => seq![
                                TokenView::Ident(a@),
                                TokenView::Quoted(b@),
                            ],
                        },
                    ),
                },
                trailer: TrailerView::none(),
            },
            HeaderClause::DefaultNamespaceTag(a) => LineView {
                inner: ClauseView {
                    tag: HeaderTag::DefaultNamespaceTag.text(),
                    value: ValueView::Tokens(seq![TokenView::Ident(a@)]),
                },
                trailer: TrailerView::none(),
            },
            HeaderClause::Idspace(a, b, c) => LineView {
                inner: ClauseView {
                    tag: HeaderTag::Idspace.text(),
                    value: ValueView::Tokens(
                        match c {
                            Some(x) => seq![
                                word(a@),
                                url_token(b@),
                                TokenView::Quoted(x@),
                            ],
                            None => seq![
                                word(a@),
                                url_token(b@),
                            ],
                        },
                    ),
                },
                trailer: TrailerView::none(),
            },
            HeaderClause::TreatXrefsAsEquivalent(a) => LineView {
                inner: ClauseView {
                    tag: HeaderTag::TreatXrefsAsEquivalent.text(),
                    value: ValueView::Tokens(seq![word(a@)]),
                },
                trailer: TrailerView::none(),
            },
            HeaderClause::TreatXrefsAsGenusDifferentia(a, b, c) => LineView {
                inner: ClauseView {
                    tag: HeaderTag::TreatXrefsAsGenusDifferentia.text(),
                    value: ValueView::Tokens(seq![
                        word(a@),
                        TokenView::Ident(b@),
                        TokenView::Ident(c@),
                    ]),
                },
                trailer: TrailerView::none(),
            },
            HeaderClause::TreatXrefsAsReverseGenusDifferentia(a, b, c) => LineView {
                inner: ClauseView {
                    tag: HeaderTag::TreatXrefsAsReverseGenusDifferentia.text(),
                    value: ValueView::Tokens(seq![
                        word(a@),
                        TokenView::Ident(b@),
                        TokenView::Ident(c@),
                    ]),
                },
                trailer: TrailerView::none(),
            },
            HeaderClause::TreatXrefsAsRelationship(a, b) => LineView {
                inner: ClauseView {
                    tag: HeaderTag::TreatXrefsAsRelationship.text(),
                    value: ValueView::Tokens(seq![word(a@), TokenView::Ident(b@)]),
                },
                trailer: TrailerView::none(),
            },
            HeaderClause::TreatXrefsAsIsA(a) => LineView {
                inner: ClauseView {
                    tag: HeaderTag::TreatXrefsAsIsA.text(),
                    value: ValueView::Tokens(seq![word(a@)]),
                },
                trailer: TrailerView::none(),
            },
            HeaderClause::TreatXrefsAsHasSubclass(a) => LineView {
                inner: ClauseView {
                    tag: HeaderTag::TreatXrefsAsHasSubclass.text(),
                    value: ValueView::Tokens(seq![word(a@)]),
                },
                trailer: TrailerView::none(),
            },
            HeaderClause::PropertyValue(a) => LineView {
                inner: ClauseView {
                    tag: HeaderTag::PropertyValue.text(),
                    value: ValueView::Tokens(a.inner@.tokens()),
                },
                trailer: a.trailer@,
            },
            HeaderClause::Remark(a) => LineView {
                inner: ClauseView {
                    tag: HeaderTag::Remark.text(),
                    value: ValueView::Text(a@),
                },
                trailer: TrailerView::none(),
            },
            HeaderClause::Ontology(a) => LineView {
                inner: ClauseView {
                    tag: HeaderTag::Ontology.text(),
                    value: ValueView::Text(a@),
                },
                trailer: TrailerView::none(),
            },
            HeaderClause::OwlAxioms(a) => LineView {
                inner: ClauseView {
                    tag: HeaderTag::OwlAxioms.text(),
                    value: ValueView::Text(a@),
                },
                trailer: TrailerView::none(),
            },
            HeaderClause::Unreserved(a, b) => LineView {
                inner: ClauseView {
                    tag: a@,
                    value: ValueView::Text(b@),
                },
                trailer: TrailerView::none(),
            },
        }
    }
}

impl Clone for HeaderClause {
    fn clone(&self) -> (r: Self)
        ensures
            r@ == self@,
    {
        match self {
            HeaderClause::FormatVersion(a) => HeaderClause::FormatVersion(a.clone()),
            HeaderClause::DataVersion(a) => HeaderClause::DataVersion(a.clone()),
            HeaderClause::DateTag(a) => HeaderClause::DateTag(*a),
            HeaderClause::SavedBy(a) => HeaderClause::SavedBy(a.clone()),
            HeaderClause::AutoGeneratedBy(a) => HeaderClause::AutoGeneratedBy(a.clone()),
            HeaderClause::ImportTag(a) => HeaderClause::ImportTag(a.clone()),
            HeaderClause::Subsetdef(a, b) => HeaderClause::Subsetdef(a.clone(), b.clone()),
            HeaderClause::SynonymTypeDef(a, b, c) => HeaderClause::SynonymTypeDef(
                a.clone(),
                b.clone(),
                match c {
                    Some(x) => Some(*x),
                    None => None,
                },
            ),
            HeaderClause::DefaultNamespaceTag(a) => HeaderClause::DefaultNamespaceTag(a.clone()),
            HeaderClause::Idspace(a, b, c) => HeaderClause::Idspace(
                a.clone(),
                b.clone(),
                match c {
                    Some(x) => Some(x.clone()),
                    None => None,
                },
            ),
            HeaderClause::TreatXrefsAsEquivalent(a) => HeaderClause::TreatXrefsAsEquivalent(
                a.clone(),
            ),
            HeaderClause::TreatXrefsAsGenusDifferentia(a, b, c) => {
                HeaderClause::TreatXrefsAsGenusDifferentia(a.clone(), b.clone(), c.clone())
            },
            HeaderClause::TreatXrefsAsReverseGenusDifferentia(a, b, c) => {
                HeaderClause::TreatXrefsAsReverseGenusDifferentia(a.clone(), b.clone(), c.clone())
            },
            HeaderClause::TreatXrefsAsRelationship(a, b) => HeaderClause::TreatXrefsAsRelationship(
                a.clone(),
                b.clone(),
            ),
            HeaderClause::TreatXrefsAsIsA(a) => HeaderClause::TreatXrefsAsIsA(a.clone()),
            HeaderClause::TreatXrefsAsHasSubclass(a) => HeaderClause::TreatXrefsAsHasSubclass(
                a.clone(),
            ),
            HeaderClause::PropertyValue(a) => HeaderClause::PropertyValue(
                Line::with_trailer(a.inner.clone(), a.trailer.clone()),
            ),
            HeaderClause::Remark(a) => HeaderClause::Remark(a.clone()),
            HeaderClause::Ontology(a) => HeaderClause::Ontology(a.clone()),
            HeaderClause::OwlAxioms(a) => HeaderClause::OwlAxioms(a.clone()),
            HeaderClause::Unreserved(a, b) => HeaderClause::Unreserved(a.clone(), b.clone()),
        }
    }
}

/// The value as a clause with the given tag takes it; `None` where the
/// value is not what the tag asks for.
#[verifier::opaque]
pub open spec fn header_value(tag: HeaderTag, value: ValueView) -> Option<ValueView> {
    match tag {
        HeaderTag::FormatVersion => if value is Text {
            Some(value)
        } else {
            None
        },
        HeaderTag::DataVersion => if value is Text {
            Some(value)
        } else {
            None
        },
        HeaderTag::DateTag => match value {
            ValueView::Text(t) => match parse_date(t) {
                Some(d) => Some(ValueView::Text(render_date(d))),
                None => None,
            },
            _ => None,
        },
        HeaderTag::SavedBy => if value is Text {
            Some(value)
        } else {
            None
        },
        HeaderTag::AutoGeneratedBy => if value is Text {
            Some(value)
        } else {
            None
        },
        HeaderTag::ImportTag => match value {
            ValueView::Tokens(ts) => if ts.len() == 1 && ts[0] is Ident {
                Some(value)
            } else {
                None
            },
            _ => None,
        },
        HeaderTag::Subsetdef => match value {
            ValueView::Tokens(ts) => if ts.len() == 2 && ts[0] is Ident && ts[1] is Quoted {
                Some(value)
            } else {
                None
            },
            _ => None,
        },
        HeaderTag::SynonymTypeDef => match value {
            ValueView::Tokens(ts) => {
                let fits = if ts.len() == 2 {
                    ts[0] is Ident && ts[1] is Quoted
                } else {
                    ts.len() == 3 && ts[0] is Ident && ts[1] is Quoted && is_scope_token(ts[2])
                };
                if fits {
                    Some(value)
                } else {
                    None
                }
            },
            _ => None,
        },
        HeaderTag::DefaultNamespaceTag => match value {
            ValueView::Tokens(ts) => if ts.len() == 1 && ts[0] is Ident {
                Some(value)
            } else {
                None
            },
            _ => None,
        },
        HeaderTag::Idspace => match value {
            ValueView::Tokens(ts) => {
                let fits = if ts.len() == 2 {
                    word_of(ts[0]) is Some && is_url_token(ts[1])
                } else {
                    ts.len() == 3
                        && word_of(ts[0]) is Some
                        && is_url_token(ts[1])
                        && ts[2] is Quoted
                };
                if fits {
                    Some(value)
                } else {
                    None
                }
            },
            _ => None,
        },
        HeaderTag::TreatXrefsAsEquivalent => match value {
            ValueView::Tokens(ts) => if ts.len() == 1 && word_of(ts[0]) is Some {
                Some(value)
            } else {
                None
            },
            _ => None,
        },
        HeaderTag::TreatXrefsAsGenusDifferentia => match value {
            ValueView::Tokens(ts) => if ts.len() == 3
                && word_of(ts[0]) is Some
                && ts[1] is Ident
                && ts[2] is Ident {
                Some(value)
            } else {
                None
            },
            _ => None,
        },
        HeaderTag::TreatXrefsAsReverseGenusDifferentia => match value {
            ValueView::Tokens(ts) => if ts.len() == 3
                && word_of(ts[0]) is Some
                && ts[1] is Ident
                && ts[2] is Ident {
                Some(value)
            } else {
                None
            },
            _ => None,
        },
        HeaderTag::TreatXrefsAsRelationship => match value {
            ValueView::Tokens(ts) => if ts.len() == 2 && word_of(ts[0]) is Some && ts[1] is Ident {
                Some(value)
            } else {
                None
            },
            _ => None,
        },
        HeaderTag::TreatXrefsAsIsA => match value {
            ValueView::Tokens(ts) => if ts.len() == 1 && word_of(ts[0]) is Some {
                Some(value)
            } else {
                None
            },
            _ => None,
        },
        HeaderTag::TreatXrefsAsHasSubclass => match value {
            ValueView::Tokens(ts) => if ts.len() == 1 && word_of(ts[0]) is Some {
                Some(value)
            } else {
                None
            },
            _ => None,
        },
        HeaderTag::PropertyValue => match value {
            ValueView::Tokens(ts) => match pv_of_tokens(ts) {
                Some(pv) => Some(ValueView::Tokens(pv.tokens())),
                None => None,
            },
            _ => None,
        },
        HeaderTag::Remark => if value is Text {
            Some(value)
        } else {
            None
        },
        HeaderTag::Ontology => if value is Text {
            Some(value)
        } else {
            None
        },
        HeaderTag::OwlAxioms => if value is Text {
            Some(value)
        } else {
            None
        },
    }
}

/// The shape of the value behind a tag of the header; `None` where there is
/// no such tag.
pub open spec fn header_shape_of(tag: Seq<char>) -> Option<Shape> {
    match HeaderTag::of(tag) {
        Some(t) => Some(t.spec_shape()),
        None => Some(Shape::Text),
    }
}

/// Whether the clauses of a tag are supported.
pub open spec fn header_supported(tag: Seq<char>) -> bool {
    match HeaderTag::of(tag) {
        Some(t) => t.spec_supported(),
        None => true,
    }
}

/// The line as its tag takes it; `None` where the value is not what the
/// tag asks for.
pub open spec fn header_interpret(l: LineView<ClauseView>) -> Option<LineView<ClauseView>> {
    match HeaderTag::of(l.inner.tag) {
        Some(t) => match header_value(t, l.inner.value) {
            Some(value) => if t == HeaderTag::PropertyValue || l.trailer == TrailerView::none() {
                Some(LineView { inner: ClauseView { tag: l.inner.tag, value }, trailer: l.trailer })
            } else {
                None
            },
            None => None,
        },
        None => if l.inner.value is Text && l.trailer == TrailerView::none() {
            Some(l)
        } else {
            None
        },
    }
}

/// What a clause takes a value for is a value that it takes as it is, of
/// the shape that goes with the tag; and it can be written and read back
/// if the value can.
pub proof fn lemma_header_value(tag: HeaderTag, value: ValueView)
    ensures
        header_value(tag, value) matches Some(taken) ==> header_value(tag, taken) == Some(taken)
            && taken.shape() == tag.spec_shape() && (value.wf() ==> taken.wf()),
{
    reveal(header_value);
    match value {
        ValueView::Tokens(ts) => {
            if let Some(pv) = pv_of_tokens(ts) {
                lemma_pv_of_tokens(pv);
                if tokens_wf(ts) {
                    lemma_pv_tokens_wf(ts);
                }
            }
        },
        ValueView::Text(t) => {
            if let Some(d) = parse_date(t) {
                lemma_render_date_stable(d);
            }
        },
    }
}

/// What a line is taken for is a line that is taken as it is: it has the
/// tag and the trailer of the line, and a value of the same shape, which
/// can be written and read back if the value of the line can.
pub proof fn lemma_header_interpret(l: LineView<ClauseView>)
    requires
        header_shape_of(l.inner.tag) == Some(l.inner.value.shape()),
    ensures
        header_interpret(l) matches Some(r) ==> r.inner.tag == l.inner.tag && r.trailer == l.trailer
            && r.inner.value.shape() == l.inner.value.shape() && header_interpret(r) == Some(r)
            && (l.inner.value.wf() ==> r.inner.value.wf()),
{
    if let Some(tag) = HeaderTag::of(l.inner.tag) {
        lemma_header_value(tag, l.inner.value);
    }
}

impl HeaderClause {
    /// The tag of the clause; nothing for a clause whose tag is not reserved.
    pub fn tag(&self) -> (r: Option<HeaderTag>)
        ensures
            match r {
                Some(tag) => tag.text() == self@.inner.tag && tag.spec_shape()
                    == self@.inner.value.shape() && !(self is Unreserved),
                None => self is Unreserved,
            },
    {
        match self {
            HeaderClause::FormatVersion(..) => Some(HeaderTag::FormatVersion),
            HeaderClause::DataVersion(..) => Some(HeaderTag::DataVersion),
            HeaderClause::DateTag(..) => Some(HeaderTag::DateTag),
            HeaderClause::SavedBy(..) => Some(HeaderTag::SavedBy),
            HeaderClause::AutoGeneratedBy(..) => Some(HeaderTag::AutoGeneratedBy),
            HeaderClause::ImportTag(..) => Some(HeaderTag::ImportTag),
            HeaderClause::Subsetdef(..) => Some(HeaderTag::Subsetdef),
            HeaderClause::SynonymTypeDef(..) => Some(HeaderTag::SynonymTypeDef),
            HeaderClause::DefaultNamespaceTag(..) => Some(HeaderTag::DefaultNamespaceTag),
            HeaderClause::Idspace(..) => Some(HeaderTag::Idspace),
            HeaderClause::TreatXrefsAsEquivalent(..) => Some(HeaderTag::TreatXrefsAsEquivalent),
            HeaderClause::TreatXrefsAsGenusDifferentia(..) => {
                Some(HeaderTag::TreatXrefsAsGenusDifferentia)
            },
            HeaderClause::TreatXrefsAsReverseGenusDifferentia(..) => {
                Some(HeaderTag::TreatXrefsAsReverseGenusDifferentia)
            },
            HeaderClause::TreatXrefsAsRelationship(..) => Some(HeaderTag::TreatXrefsAsRelationship),
            HeaderClause::TreatXrefsAsIsA(..) => Some(HeaderTag::TreatXrefsAsIsA),
            HeaderClause::TreatXrefsAsHasSubclass(..) => Some(HeaderTag::TreatXrefsAsHasSubclass),
            HeaderClause::PropertyValue(..) => Some(HeaderTag::PropertyValue),
            HeaderClause::Remark(..) => Some(HeaderTag::Remark),
            HeaderClause::Ontology(..) => Some(HeaderTag::Ontology),
            HeaderClause::OwlAxioms(..) => Some(HeaderTag::OwlAxioms),
            HeaderClause::Unreserved(..) => None,
        }
    }

    /// The value of the clause, as free text or as tokens.
    pub fn to_value(&self) -> (r: Value)
        ensures
            r@ == self@.inner.value,
    {
        match self {
            HeaderClause::FormatVersion(a) => Value::Text(a.clone()),
            HeaderClause::DataVersion(a) => Value::Text(a.clone()),
            HeaderClause::DateTag(a) => Value::Text(UnquotedString::new(a.to_string())),
            HeaderClause::SavedBy(a) => Value::Text(a.clone()),
            HeaderClause::AutoGeneratedBy(a) => Value::Text(a.clone()),
            HeaderClause::ImportTag(a) => {
                let ts = vec![Token::Ident(a.to_ident())];
                assert(tokens_view(ts@) == seq![TokenView::Ident(a@)]);
                Value::Tokens(ts)
            },
            HeaderClause::Subsetdef(a, b) => {
                let ts = vec![Token::Ident(a.as_ident().clone()), Token::Quoted(b.clone())];
                assert(tokens_view(ts@) == seq![TokenView::Ident(a@), TokenView::Quoted(b@)]);
                Value::Tokens(ts)
            },
            HeaderClause::SynonymTypeDef(a, b, c) => match c {
                Some(x) => {
                    let ts = vec![
                        Token::Ident(a.as_ident().clone()),
                        Token::Quoted(b.clone()),
                        Token::from_scope(*x),
                    ];
                    assert(tokens_view(ts@) == seq![
                        TokenView::Ident(a@),
                        TokenView::Quoted(b@),
                        word(x.text()),
                    ]);
                    Value::Tokens(ts)
                },
                None => {
                    let ts = vec![Token::Ident(a.as_ident().clone()), Token::Quoted(b.clone())];
                    assert(tokens_view(ts@) == seq![TokenView::Ident(a@), TokenView::Quoted(b@)]);
                    Value::Tokens(ts)
                },
            },
            HeaderClause::DefaultNamespaceTag(a) => {
                let ts = vec![Token::Ident(a.as_ident().clone())];
                assert(tokens_view(ts@) == seq![TokenView::Ident(a@)]);
                Value::Tokens(ts)
            },
            HeaderClause::Idspace(a, b, c) => match c {
                Some(x) => {
                    let ts = vec![
                        Token::from_prefix(a),
                        Token::from_url(b),
                        Token::Quoted(x.clone()),
                    ];
                    assert(tokens_view(ts@) == seq![
                        word(a@),
                        url_token(b@),
                        TokenView::Quoted(x@),
                    ]);
                    Value::Tokens(ts)
                },
                None => {
                    let ts = vec![Token::from_prefix(a), Token::from_url(b)];
                    assert(tokens_view(ts@) == seq![word(a@), url_token(b@)]);
                    Value::Tokens(ts)
                },
            },
            HeaderClause::TreatXrefsAsEquivalent(a) => {
                let ts = vec![Token::from_prefix(a)];
                assert(tokens_view(ts@) == seq![word(a@)]);
                Value::Tokens(ts)
            },
            HeaderClause::TreatXrefsAsGenusDifferentia(a, b, c) => {
                let ts = vec![
                    Token::from_prefix(a),
                    Token::Ident(b.as_ident().clone()),
                    Token::Ident(c.as_ident().clone()),
                ];
                assert(tokens_view(ts@) == seq![
                    word(a@),
                    TokenView::Ident(b@),
                    TokenView::Ident(c@),
                ]);
                Value::Tokens(ts)
            },
            HeaderClause::TreatXrefsAsReverseGenusDifferentia(a, b, c) => {
                let ts = vec![
                    Token::from_prefix(a),
                    Token::Ident(b.as_ident().clone()),
                    Token::Ident(c.as_ident().clone()),
                ];
                assert(tokens_view(ts@) == seq![
                    word(a@),
                    TokenView::Ident(b@),
                    TokenView::Ident(c@),
                ]);
                Value::Tokens(ts)
            },
            HeaderClause::TreatXrefsAsRelationship(a, b) => {
                let ts = vec![Token::from_prefix(a), Token::Ident(b.as_ident().clone())];
                assert(tokens_view(ts@) == seq![word(a@), TokenView::Ident(b@)]);
                Value::Tokens(ts)
            },
            HeaderClause::TreatXrefsAsIsA(a) => {
                let ts = vec![Token::from_prefix(a)];
                assert(tokens_view(ts@) == seq![word(a@)]);
                Value::Tokens(ts)
            },
            HeaderClause::TreatXrefsAsHasSubclass(a) => {
                let ts = vec![Token::from_prefix(a)];
                assert(tokens_view(ts@) == seq![word(a@)]);
                Value::Tokens(ts)
            },
            HeaderClause::PropertyValue(a) => Value::Tokens(a.inner.to_tokens()),
            HeaderClause::Remark(a) => Value::Text(a.clone()),
            HeaderClause::Ontology(a) => Value::Text(a.clone()),
            HeaderClause::OwlAxioms(a) => Value::Text(a.clone()),
            HeaderClause::Unreserved(a, b) => Value::Text(b.clone()),
        }
    }

    /// The clause with the given tag and value, and with nothing behind the
    /// value; nothing for the tag of a property value, which goes with
    /// what stands behind the value, and nothing where the value is not
    /// what the tag asks for.
    pub fn from_value(tag: HeaderTag, value: Value) -> (r: Option<Self>)
        ensures
            match header_value(tag, value@) {
                Some(taken) if tag != HeaderTag::PropertyValue => r matches Some(c)
                    && c@.inner == (ClauseView { tag: tag.text(), value: taken })
                    && c@.trailer == TrailerView::none() && c.tag_ok(),
                _ => r is None,
            },
    {
        proof {
            reveal(header_value);
        }
        match tag {
            HeaderTag::FormatVersion => match value {
                Value::Text(a) => Some(HeaderClause::FormatVersion(a)),
                Value::Tokens(_) => None,
            },
            HeaderTag::DataVersion => match value {
                Value::Text(a) => Some(HeaderClause::DataVersion(a)),
                Value::Tokens(_) => None,
            },
            HeaderTag::DateTag => match value {
                Value::Text(a) => {
                    let text = chars_of(a.as_str());
                    match NaiveDate::from_chars(&text) {
                        Ok(d) => Some(HeaderClause::DateTag(d)),
                        Err(_) => None,
                    }
                },
                Value::Tokens(_) => None,
            },
            HeaderTag::SavedBy => match value {
                Value::Text(a) => Some(HeaderClause::SavedBy(a)),
                Value::Tokens(_) => None,
            },
            HeaderTag::AutoGeneratedBy => match value {
                Value::Text(a) => Some(HeaderClause::AutoGeneratedBy(a)),
                Value::Tokens(_) => None,
            },
            HeaderTag::ImportTag => match value {
                Value::Tokens(ts) => match take_one(ts) {
                    Some(a) => match a.into_ident() {
                        Some(a) => Some(HeaderClause::ImportTag(Import::from_ident(a))),
                        None => None,
                    },
                    None => None,
                },
                Value::Text(_) => None,
            },
            HeaderTag::Subsetdef => match value {
                Value::Tokens(ts) => match take_two(ts) {
                    Some((a, b)) => match (a.into_ident(), b.into_quoted()) {
                        (Some(a), Some(b)) => Some(HeaderClause::Subsetdef(SubsetIdent::new(a), b)),
                        _ => None,
                    },
                    None => None,
                },
                Value::Text(_) => None,
            },
            HeaderTag::SynonymTypeDef => match value {
                Value::Tokens(ts) => match take_two_or_three(ts) {
                    Some((a, b, x)) => match (a.into_ident(), b.into_quoted()) {
                        (Some(a), Some(b)) => match x {
                            Some(x) => match x.into_scope() {
                                Some(x) => Some(
                                    HeaderClause::SynonymTypeDef(
                                        SynonymTypeIdent::new(a),
                                        b,
                                        Some(x),
                                    ),
                                ),
                                None => None,
                            },
                            None => Some(
                                HeaderClause::SynonymTypeDef(SynonymTypeIdent::new(a), b, None),
                            ),
                        },
                        _ => None,
                    },
                    None => None,
                },
                Value::Text(_) => None,
            },
            HeaderTag::DefaultNamespaceTag => match value {
                Value::Tokens(ts) => match take_one(ts) {
                    Some(a) => match a.into_ident() {
                        Some(a) => Some(HeaderClause::DefaultNamespaceTag(NamespaceIdent::new(a))),
                        None => None,
                    },
                    None => None,
                },
                Value::Text(_) => None,
            },
            HeaderTag::Idspace => match value {
                Value::Tokens(ts) => match take_two_or_three(ts) {
                    Some((a, b, x)) => match (a.into_prefix(), b.into_url()) {
                        (Some(a), Some(b)) => match x {
                            Some(x) => match x.into_quoted() {
                                Some(x) => Some(HeaderClause::Idspace(a, b, Some(x))),
                                None => None,
                            },
                            None => Some(HeaderClause::Idspace(a, b, None)),
                        },
                        _ => None,
                    },
                    None => None,
                },
                Value::Text(_) => None,
            },
            HeaderTag::TreatXrefsAsEquivalent => match value {
                Value::Tokens(ts) => match take_one(ts) {
                    Some(a) => match a.into_prefix() {
                        Some(a) => Some(HeaderClause::TreatXrefsAsEquivalent(a)),
                        None => None,
                    },
                    None => None,
                },
                Value::Text(_) => None,
            },
            HeaderTag::TreatXrefsAsGenusDifferentia => match value {
                Value::Tokens(ts) => match take_three(ts) {
                    Some((a, b, c)) => match (a.into_prefix(), b.into_ident(), c.into_ident()) {
                        (Some(a), Some(b), Some(c)) => Some(
                            HeaderClause::TreatXrefsAsGenusDifferentia(
                                a,
                                RelationIdent::new(b),
                                ClassIdent::new(c),
                            ),
                        ),
                        _ => None,
                    },
                    None => None,
                },
                Value::Text(_) => None,
            },
            HeaderTag::TreatXrefsAsReverseGenusDifferentia => match value {
                Value::Tokens(ts) => match take_three(ts) {
                    Some((a, b, c)) => match (a.into_prefix(), b.into_ident(), c.into_ident()) {
                        (Some(a), Some(b), Some(c)) => Some(
                            HeaderClause::TreatXrefsAsReverseGenusDifferentia(
                                a,
                                RelationIdent::new(b),
                                ClassIdent::new(c),
                            ),
                        ),
                        _ => None,
                    },
                    None => None,
                },
                Value::Text(_) => None,
            },
            HeaderTag::TreatXrefsAsRelationship => match value {
                Value::Tokens(ts) => match take_two(ts) {
                    Some((a, b)) => match (a.into_prefix(), b.into_ident()) {
                        (Some(a), Some(b)) => Some(
                            HeaderClause::TreatXrefsAsRelationship(a, RelationIdent::new(b)),
                        ),
                        _ => None,
                    },
                    None => None,
                },
                Value::Text(_) => None,
            },
            HeaderTag::TreatXrefsAsIsA => match value {
                Value::Tokens(ts) => match take_one(ts) {
                    Some(a) => match a.into_prefix() {
                        Some(a) => Some(HeaderClause::TreatXrefsAsIsA(a)),
                        None => None,
                    },
                    None => None,
                },
                Value::Text(_) => None,
            },
            HeaderTag::TreatXrefsAsHasSubclass => match value {
                Value::Tokens(ts) => match take_one(ts) {
                    Some(a) => match a.into_prefix() {
                        Some(a) => Some(HeaderClause::TreatXrefsAsHasSubclass(a)),
                        None => None,
                    },
                    None => None,
                },
                Value::Text(_) => None,
            },
            HeaderTag::Remark => match value {
                Value::Text(a) => Some(HeaderClause::Remark(a)),
                Value::Tokens(_) => None,
            },
            HeaderTag::Ontology => match value {
                Value::Text(a) => Some(HeaderClause::Ontology(a)),
                Value::Tokens(_) => None,
            },
            HeaderTag::OwlAxioms => match value {
                Value::Text(a) => Some(HeaderClause::OwlAxioms(a)),
                Value::Tokens(_) => None,
            },
            HeaderTag::PropertyValue => None,
        }
    }

    /// The clause with the given tag and value, and with what stands
    /// behind the value; nothing where the value is not what the tag asks
    /// for, or where something stands behind a value that is no property
    /// value.
    pub fn from_parts(tag: HeaderTag, value: Value, trailer: Trailer) -> (r: Option<Self>)
        ensures
            match header_value(tag, value@) {
                Some(taken) if tag == HeaderTag::PropertyValue || trailer@
                    == TrailerView::none() => r matches Some(c) && c@ == (LineView {
                    inner: ClauseView { tag: tag.text(), value: taken },
                    trailer: trailer@,
                }) && c.tag_ok() && (value@.wf() ==> taken.wf()),
                _ => r is None,
            },
    {
        proof {
            lemma_header_value(tag, value@);
        }
        if let HeaderTag::PropertyValue = tag {
            proof {
                reveal(header_value);
            }
            match value {
                Value::Tokens(ts) => match PropertyValue::from_tokens(ts) {
                    Ok(a) => Some(HeaderClause::PropertyValue(Line::with_trailer(a, trailer))),
                    Err(_) => None,
                },
                Value::Text(_) => None,
            }
        } else if trailer.is_none() {
            HeaderClause::from_value(tag, value)
        } else {
            None
        }
    }

    /// Whether the text of the clause shows the clause in full: a clause
    /// with an unreserved tag has a tag that is none of the reserved ones,
    /// and the parts of a date fit the digits that they are written with.
    pub open spec fn tag_ok(&self) -> bool {
        match self {
            HeaderClause::Unreserved(a, _) => is_tag(a@) && HeaderTag::of(a@) is None,
            HeaderClause::DateTag(d) => d.wf(),
            _ => true,
        }
    }

    /// Every clause with a fitting tag is one that the header takes as it
    /// is.
    pub proof fn lemma_typed(&self)
        requires
            self.tag_ok(),
        ensures
            is_tag(self@.inner.tag),
            LineKind::Header.is_typed(self@),
    {
        reveal(header_value);
        lemma_bool_of_text(true);
        lemma_bool_of_text(false);
        SynonymScope::lemma_of_text(SynonymScope::Exact);
        SynonymScope::lemma_of_text(SynonymScope::Broad);
        SynonymScope::lemma_of_text(SynonymScope::Narrow);
        SynonymScope::lemma_of_text(SynonymScope::Related);
        match self {
            HeaderClause::FormatVersion(..) => {
                let tag = HeaderTag::FormatVersion;
                HeaderTag::lemma_of_text(tag);
                assert(header_value(tag, self@.inner.value) == Some(self@.inner.value));
            },
            HeaderClause::DataVersion(..) => {
                let tag = HeaderTag::DataVersion;
                HeaderTag::lemma_of_text(tag);
                assert(header_value(tag, self@.inner.value) == Some(self@.inner.value));
            },
            HeaderClause::DateTag(a) => {
                let tag = HeaderTag::DateTag;
                HeaderTag::lemma_of_text(tag);
                lemma_render_date_stable(*a);
                assert(header_value(tag, self@.inner.value) == Some(self@.inner.value));
            },
            HeaderClause::SavedBy(..) => {
                let tag = HeaderTag::SavedBy;
                HeaderTag::lemma_of_text(tag);
                assert(header_value(tag, self@.inner.value) == Some(self@.inner.value));
            },
            HeaderClause::AutoGeneratedBy(..) => {
                let tag = HeaderTag::AutoGeneratedBy;
                HeaderTag::lemma_of_text(tag);
                assert(header_value(tag, self@.inner.value) == Some(self@.inner.value));
            },
            HeaderClause::ImportTag(..) => {
                let tag = HeaderTag::ImportTag;
                HeaderTag::lemma_of_text(tag);
                assert(header_value(tag, self@.inner.value) == Some(self@.inner.value));
            },
            HeaderClause::Subsetdef(..) => {
                let tag = HeaderTag::Subsetdef;
                HeaderTag::lemma_of_text(tag);
                assert(header_value(tag, self@.inner.value) == Some(self@.inner.value));
            },
            HeaderClause::SynonymTypeDef(..) => {
                let tag = HeaderTag::SynonymTypeDef;
                HeaderTag::lemma_of_text(tag);
                assert(header_value(tag, self@.inner.value) == Some(self@.inner.value));
            },
            HeaderClause::DefaultNamespaceTag(..) => {
                let tag = HeaderTag::DefaultNamespaceTag;
                HeaderTag::lemma_of_text(tag);
                assert(header_value(tag, self@.inner.value) == Some(self@.inner.value));
            },
            HeaderClause::Idspace(..) => {
                let tag = HeaderTag::Idspace;
                HeaderTag::lemma_of_text(tag);
                assert(header_value(tag, self@.inner.value) == Some(self@.inner.value));
            },
            HeaderClause::TreatXrefsAsEquivalent(..) => {
                let tag = HeaderTag::TreatXrefsAsEquivalent;
                HeaderTag::lemma_of_text(tag);
                assert(header_value(tag, self@.inner.value) == Some(self@.inner.value));
            },
            HeaderClause::TreatXrefsAsGenusDifferentia(..) => {
                let tag = HeaderTag::TreatXrefsAsGenusDifferentia;
                HeaderTag::lemma_of_text(tag);
                assert(header_value(tag, self@.inner.value) == Some(self@.inner.value));
            },
            HeaderClause::TreatXrefsAsReverseGenusDifferentia(..) => {
                let tag = HeaderTag::TreatXrefsAsReverseGenusDifferentia;
                HeaderTag::lemma_of_text(tag);
                assert(header_value(tag, self@.inner.value) == Some(self@.inner.value));
            },
            HeaderClause::TreatXrefsAsRelationship(..) => {
                let tag = HeaderTag::TreatXrefsAsRelationship;
                HeaderTag::lemma_of_text(tag);
                assert(header_value(tag, self@.inner.value) == Some(self@.inner.value));
            },
            HeaderClause::TreatXrefsAsIsA(..) => {
                let tag = HeaderTag::TreatXrefsAsIsA;
                HeaderTag::lemma_of_text(tag);
                assert(header_value(tag, self@.inner.value) == Some(self@.inner.value));
            },
            HeaderClause::TreatXrefsAsHasSubclass(..) => {
                let tag = HeaderTag::TreatXrefsAsHasSubclass;
                HeaderTag::lemma_of_text(tag);
                assert(header_value(tag, self@.inner.value) == Some(self@.inner.value));
            },
            HeaderClause::PropertyValue(a) => {
                let tag = HeaderTag::PropertyValue;
                HeaderTag::lemma_of_text(tag);
                lemma_pv_of_tokens(a.inner@);
                assert(header_value(tag, self@.inner.value) == Some(self@.inner.value));
            },
            HeaderClause::Remark(..) => {
                let tag = HeaderTag::Remark;
                HeaderTag::lemma_of_text(tag);
                assert(header_value(tag, self@.inner.value) == Some(self@.inner.value));
            },
            HeaderClause::Ontology(..) => {
                let tag = HeaderTag::Ontology;
                HeaderTag::lemma_of_text(tag);
                assert(header_value(tag, self@.inner.value) == Some(self@.inner.value));
            },
            HeaderClause::OwlAxioms(..) => {
                let tag = HeaderTag::OwlAxioms;
                HeaderTag::lemma_of_text(tag);
                assert(header_value(tag, self@.inner.value) == Some(self@.inner.value));
            },
            HeaderClause::Unreserved(..) => {},
        }
    }
}

impl LineSyntax for HeaderClause {
    open spec fn kind() -> LineKind {
        LineKind::Header
    }

    fn read(v: &Vec<char>) -> (r: Result<Self, Error>) {
        let fail = Err(Error::SyntaxError { rule: Rule::HeaderClause });
        assert(v@.subrange(0, v@.len() as int) == v@);
        let colon = match read_tag(v, 0, v.len()) {
            Some(colon) => colon,
            None => {
                return fail;
            },
        };
        let ghost text = v@.subrange(0, colon as int);
        let ghost rest = v@.skip(colon + 2);
        assert(parse_tag(v@) == Some((text, colon + 2)));
        assert(rest == v@.subrange(colon + 2, v@.len() as int));
        match HeaderTag::lookup(v, 0, colon) {
            Some(tag) => {
                assert(header_shape_of(text) == Some(tag.spec_shape()));
                let (value, trailer) = match Value::read(tag.shape(), v, colon + 2, v.len()) {
                    Some(found) => found,
                    None => {
                        return fail;
                    },
                };
                assert(parse_value(tag.spec_shape(), rest) == Some((value@, trailer@)));
                match HeaderClause::from_parts(tag, value, trailer) {
                    Some(clause) => Ok(clause),
                    None => fail,
                }
            },
            None => {
                assert(header_shape_of(text) == Some(Shape::Text));
                match Value::read(Shape::Text, v, colon + 2, v.len()) {
                    Some((Value::Text(value), trailer)) => {
                        if trailer.is_none() {
                            let tag = UnquotedString::new(string_of(v, 0, colon));
                            Ok(HeaderClause::Unreserved(tag, value))
                        } else {
                            fail
                        }
                    },
                    _ => fail,
                }
            },
        }
    }

    fn write(&self, out: &mut Vec<char>) {
        match self {
            HeaderClause::Unreserved(a, b) => {
                push_chars(out, a.as_str());
                out.push(':');
                out.push(' ');
                b.write(out);
                assert(render_trailer(TrailerView::none()) == Seq::<char>::empty());
                assert(out@ == old(out)@ + render_clause_line(self@));
            },
            HeaderClause::PropertyValue(a) => {
                push_chars(out, HeaderTag::PropertyValue.as_str());
                out.push(':');
                out.push(' ');
                self.to_value().write(out);
                a.trailer.write(out);
                assert(out@ == old(out)@ + render_clause_line(self@));
            },
            _ => {
                let tag = self.tag().unwrap();
                push_chars(out, tag.as_str());
                out.push(':');
                out.push(' ');
                self.to_value().write(out);
                assert(render_trailer(TrailerView::none()) == Seq::<char>::empty());
                assert(out@ == old(out)@ + render_clause_line(self@));
            },
        }
    }

    open spec fn faithful(&self) -> bool {
        self.tag_ok()
    }

    fn is_valid(&self) -> (b: bool) {
        match self {
            HeaderClause::Unreserved(a, _) => {
                let tag = chars_of(a.as_str());
                assert(tag@.subrange(0, tag@.len() as int) == tag@);
                assert(render_trailer(TrailerView::none()) == Seq::<char>::empty());
                check_tag(&tag) && HeaderTag::lookup(&tag, 0, tag.len()).is_none()
            },
            HeaderClause::PropertyValue(a) => self.to_value().is_valid() && a.trailer.is_valid(),
            HeaderClause::DateTag(d) => d.is_valid(),
            _ => self.to_value().is_valid(),
        }
    }

    proof fn lemma_typed(&self) {
        HeaderClause::lemma_typed(self);
    }
}

} // verus!
