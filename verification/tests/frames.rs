use fastobo::error::{Error, Rule};
use fastobo::header::{HeaderClause, HeaderFrame, Import};
use fastobo::id::{
    ClassIdent, Ident, IdentLocal, IdentPrefix, InstanceIdent, NamespaceIdent, PrefixedIdent,
    RelationIdent, SubsetIdent, SynonymTypeIdent, UnprefixedIdent, Url,
};
use fastobo::instance::{InstanceClause, InstanceFrame};
use fastobo::line::Line;
use fastobo::trailer::{Qualifier, Trailer};
use fastobo::pv::PropertyValue;
use fastobo::strings::{QuotedString, UnquotedString};
use fastobo::synonym::SynonymScope;
use fastobo::term::{TermClause, TermFrame};
use fastobo::typedef::{TypedefClause, TypedefFrame};
use fastobo::xref::Xref;
use fastobo::EntityFrame;

fn prefixed(prefix: &str, local: &str) -> Ident {
    Ident::Prefixed(PrefixedIdent::new(
        IdentPrefix::new(String::from(prefix)),
        IdentLocal::new(String::from(local)),
    ))
}

fn unprefixed(value: &str) -> Ident {
    Ident::Unprefixed(UnprefixedIdent::new(String::from(value)))
}

fn text(value: &str) -> UnquotedString {
    UnquotedString::new(String::from(value))
}

fn quoted(value: &str) -> QuotedString {
    QuotedString::new(String::from(value))
}

#[test]
fn header_clauses_are_read_and_written() {
    let url = Url::parse("http://purl.obolibrary.org/obo/go.owl").unwrap();
    let cases: Vec<(&str, HeaderClause)> = vec![
        ("format-version: 1.4", HeaderClause::FormatVersion(text("1.4"))),
        ("data-version: releases/2019-03-14", HeaderClause::DataVersion(text("releases/2019-03-14"))),
        (
            "date: 14:03:2019 12:30",
            HeaderClause::DateTag(fastobo::date::NaiveDate::new(14, 3, 2019, 12, 30)),
        ),
        ("saved-by: Jane Doe", HeaderClause::SavedBy(text("Jane Doe"))),
        ("auto-generated-by: some tool 1.0", HeaderClause::AutoGeneratedBy(text("some tool 1.0"))),
        (
            "import: http://purl.obolibrary.org/obo/go.owl",
            HeaderClause::ImportTag(Import::Iri(url.clone())),
        ),
        ("import: chebi", HeaderClause::ImportTag(Import::Abbreviated(unprefixed("chebi")))),
        (
            "subsetdef: goslim_plant \"Plant GO slim\"",
            HeaderClause::Subsetdef(SubsetIdent::new(unprefixed("goslim_plant")), quoted("Plant GO slim")),
        ),
        (
            "synonymtypedef: systematic \"Systematic synonym\" EXACT",
            HeaderClause::SynonymTypeDef(
                SynonymTypeIdent::new(unprefixed("systematic")),
                quoted("Systematic synonym"),
                Some(SynonymScope::Exact),
            ),
        ),
        (
            "synonymtypedef: systematic \"Systematic synonym\"",
            HeaderClause::SynonymTypeDef(
                SynonymTypeIdent::new(unprefixed("systematic")),
                quoted("Systematic synonym"),
                None,
            ),
        ),
        (
            "default-namespace: gene_ontology",
            HeaderClause::DefaultNamespaceTag(NamespaceIdent::new(unprefixed("gene_ontology"))),
        ),
        (
            "idspace: GO http://purl.obolibrary.org/obo/go.owl \"Gene Ontology\"",
            HeaderClause::Idspace(
                IdentPrefix::new(String::from("GO")),
                url.clone(),
                Some(quoted("Gene Ontology")),
            ),
        ),
        (
            "idspace: GO http://purl.obolibrary.org/obo/go.owl",
            HeaderClause::Idspace(IdentPrefix::new(String::from("GO")), url.clone(), None),
        ),
        (
            "treat-xrefs-as-equivalent: CL",
            HeaderClause::TreatXrefsAsEquivalent(IdentPrefix::new(String::from("CL"))),
        ),
        (
            "treat-xrefs-as-genus-differentia: CL part_of NCBITaxon:7955",
            HeaderClause::TreatXrefsAsGenusDifferentia(
                IdentPrefix::new(String::from("CL")),
                RelationIdent::new(unprefixed("part_of")),
                ClassIdent::new(prefixed("NCBITaxon", "7955")),
            ),
        ),
        (
            "treat-xrefs-as-reverse-genus-differentia: CL part_of NCBITaxon:7955",
            HeaderClause::TreatXrefsAsReverseGenusDifferentia(
                IdentPrefix::new(String::from("CL")),
                RelationIdent::new(unprefixed("part_of")),
                ClassIdent::new(prefixed("NCBITaxon", "7955")),
            ),
        ),
        (
            "treat-xrefs-as-relationship: MA homologous_to",
            HeaderClause::TreatXrefsAsRelationship(
                IdentPrefix::new(String::from("MA")),
                RelationIdent::new(unprefixed("homologous_to")),
            ),
        ),
        (
            "treat-xrefs-as-is_a: CL",
            HeaderClause::TreatXrefsAsIsA(IdentPrefix::new(String::from("CL"))),
        ),
        (
            "treat-xrefs-as-has-subclass: CL",
            HeaderClause::TreatXrefsAsHasSubclass(IdentPrefix::new(String::from("CL"))),
        ),
        (
            "property_value: married_to heather {source=\"me\"} ! so they say",
            HeaderClause::PropertyValue(Line::with_trailer(
                PropertyValue::from_str("married_to heather").unwrap(),
                Trailer {
                    qualifiers: Some(vec![Qualifier::new(unprefixed("source"), quoted("me"))]),
                    comment: Some(String::from("so they say")),
                },
            )),
        ),
        ("remark: to be \\! or not", HeaderClause::Remark(text("to be ! or not"))),
        ("ontology: go", HeaderClause::Ontology(text("go"))),
        ("owl-axioms: Prefix(owl:=<x>)", HeaderClause::OwlAxioms(text("Prefix(owl:=<x>)"))),
        ("my-own-tag: anything at all", HeaderClause::Unreserved(text("my-own-tag"), text("anything at all"))),
    ];
    for (line, clause) in cases {
        let frame = HeaderFrame::from_str(line).unwrap();
        assert_eq!(frame.clauses().len(), 1, "{}", line);
        assert_eq!(frame.clauses()[0], clause, "{}", line);
        assert_eq!(frame.to_string(), format!("{}\n", line));
        assert_eq!(HeaderFrame::with_clauses(vec![clause]).to_string(), format!("{}\n", line));
    }
}

#[test]
fn header_frames_keep_order_and_duplicates() {
    let source = "format-version: 1.4\nremark: one\nremark: one\nontology: go\nremark: two\n";
    let frame = HeaderFrame::from_str(source).unwrap();
    assert_eq!(frame.len(), 5);
    assert_eq!(frame.clauses()[1], frame.clauses()[2]);
    assert_eq!(frame.to_string(), source);
    let mut built = HeaderFrame::new();
    assert_eq!(built.len(), 0);
    assert_eq!(built.to_string(), "");
    for clause in frame.into_clauses() {
        built.push(clause);
    }
    assert_eq!(built.to_string(), source);
}

#[test]
fn malformed_header_clauses_are_syntax_errors() {
    let expected = Error::SyntaxError { rule: Rule::HeaderClause };
    for line in [
        "format-version:1.4",
        "format-version",
        ": 1.4",
        "format version: 1.4",
        "format-version: 1.4 ! a comment",
        "remark: a {b=\"c\"}",
        "subsetdef: goslim_plant",
        "subsetdef: goslim_plant Plant",
        "subsetdef: \"goslim_plant\" \"Plant\"",
        "synonymtypedef: systematic \"Systematic synonym\" SOMETIMES",
        "idspace: GO go \"Gene Ontology\"",
        "idspace: GO:1 http://purl.obolibrary.org/obo/go.owl",
        "date: yesterday",
        "import: a b",
        "treat-xrefs-as-is_a: CL DL",
        "property_value: married_to",
        "property_value: married_to heather {source=me}",
        "property_value: married_to heather {source=\"me\"",
        "property_value: married_to heather !comment",
        "[Term]",
    ] {
        assert_eq!(HeaderFrame::from_str(line).err(), Some(expected), "{}", line);
    }
}

#[test]
fn lines_carry_qualifiers_and_comments() {
    let source = "[Term]\nid: GO:0000001 {a=\"1\", b:c=\"two words\"} ! the id\nis_a: GO:0048308 {} ! organelle inheritance\nname: alpha \\{beta} {x=\"y\"}\ncomment: no trailer\n";
    let frame = TermFrame::from_str(source).unwrap();
    assert_eq!(frame.id().as_inner(), &ClassIdent::new(prefixed("GO", "0000001")));
    assert_eq!(
        frame.id().qualifiers(),
        &Some(vec![
            Qualifier::new(unprefixed("a"), quoted("1")),
            Qualifier::new(prefixed("b", "c"), quoted("two words")),
        ])
    );
    assert_eq!(frame.id().comment(), &Some(String::from("the id")));
    assert_eq!(frame.len(), 3);
    assert_eq!(
        frame.clauses()[0],
        Line::new(TermClause::IsA(ClassIdent::new(prefixed("GO", "0048308"))))
            .and_qualifiers(vec![])
            .and_comment(String::from("organelle inheritance"))
    );
    assert_eq!(
        frame.clauses()[1],
        Line::new(TermClause::Name(text("alpha {beta}")))
            .and_qualifiers(vec![Qualifier::new(unprefixed("x"), quoted("y"))])
    );
    assert_eq!(frame.clauses()[2], Line::new(TermClause::Comment(text("no trailer"))));
    assert_eq!(frame.to_string(), source);
}

#[test]
fn term_frames_are_read_and_written() {
    let source = "[Term]\nid: GO:0000001\nis_anonymous: false\nname: mitochondrion inheritance\nnamespace: biological_process\nalt_id: GO:0000002\ncomment: a comment\nsubset: goslim_plant\nxref: Wikipedia:Mitochondrion \"the article\"\nxref: EC:1.1.1.1\nbuiltin: false\nproperty_value: shoe_size \"8\" xsd:positiveInteger\nis_a: GO:0048308\nequivalent_to: GO:0000003\ndisjoint_from: GO:0000004\nrelationship: part_of GO:0005739\ncreated_by: jane\nis_obsolete: true\nreplaced_by: GO:0000005\nconsider: GO:0000006\n";
    let frame = TermFrame::from_str(source).unwrap();
    assert_eq!(frame.len(), 18);
    assert_eq!(frame.clauses()[0].as_inner(), &TermClause::IsAnonymous(false));
    assert_eq!(
        frame.clauses()[6].as_inner(),
        &TermClause::Xref(prefixed("Wikipedia", "Mitochondrion"), Some(quoted("the article")))
    );
    assert_eq!(frame.clauses()[7].as_inner(), &TermClause::Xref(prefixed("EC", "1.1.1.1"), None));
    assert_eq!(
        frame.clauses()[13].as_inner(),
        &TermClause::Relationship(
            RelationIdent::new(unprefixed("part_of")),
            ClassIdent::new(prefixed("GO", "0005739"))
        )
    );
    assert_eq!(frame.clauses()[15].as_inner(), &TermClause::IsObsolete(true));
    assert_eq!(frame.to_string(), source);
}

#[test]
fn typedef_frames_are_read_and_written() {
    let source = "[Typedef]\nid: part_of\nname: part of\ndomain: GO:0000001\nrange: GO:0000002\nis_transitive: true\nis_symmetric: false\ninverse_of: has_part\ntransitive_over: part_of\nis_a: overlaps\nis_metadata_tag: false\nis_class_level: true\n";
    let frame = TypedefFrame::from_str(source).unwrap();
    assert_eq!(frame.id().as_inner(), &RelationIdent::new(unprefixed("part_of")));
    assert_eq!(frame.len(), 10);
    assert_eq!(frame.clauses()[3].as_inner(), &TypedefClause::IsTransitive(true));
    assert_eq!(
        frame.clauses()[5].as_inner(),
        &TypedefClause::InverseOf(RelationIdent::new(unprefixed("has_part")))
    );
    assert_eq!(frame.to_string(), source);
}

#[test]
fn instance_frames_are_read_and_written() {
    let source = "[Instance]\nid: people:jane\nname: Jane\ninstance_of: people:Person\nrelationship: married_to people:heather\nproperty_value: married_to heather\n";
    let frame = InstanceFrame::from_str(source).unwrap();
    assert_eq!(frame.id().as_inner(), &InstanceIdent::new(prefixed("people", "jane")));
    assert_eq!(frame.clauses().len(), 4);
    assert_eq!(
        frame.clauses()[1].as_inner(),
        &InstanceClause::InstanceOf(ClassIdent::new(prefixed("people", "Person")))
    );
    assert_eq!(frame.to_string(), source);

    let mut built = InstanceFrame::new(Line::new(InstanceIdent::new(prefixed("people", "jane"))));
    assert_eq!(built.clauses().len(), 0);
    assert_eq!(built.to_string(), "[Instance]\nid: people:jane\n");
    for clause in frame.into_clauses() {
        built.push(clause);
    }
    assert_eq!(built.to_string(), source);
    built.clauses_mut().swap(0, 1);
    assert_eq!(
        built.clauses()[0].as_inner(),
        &InstanceClause::InstanceOf(ClassIdent::new(prefixed("people", "Person")))
    );
    built.clauses_mut().swap(0, 1);
    assert_eq!(built.to_string(), source);
    let again = InstanceFrame::with_clauses(
        Line::new(InstanceIdent::new(prefixed("people", "jane"))),
        built.clauses().iter().map(|c| Line::with_trailer(c.inner.clone(), c.trailer.clone())).collect(),
    );
    assert_eq!(again, built);
}

#[test]
fn blank_lines_between_clauses_are_passed_over() {
    let frame = TermFrame::from_str("[Term]\nid: GO:0000001\n\nname: a\n \t\ncomment: b\n\n").unwrap();
    assert_eq!(frame.to_string(), "[Term]\nid: GO:0000001\nname: a\ncomment: b\n");
}

#[test]
fn unsupported_clauses_are_reported_as_such() {
    assert_eq!(
        TermFrame::from_str("[Term]\nid: GO:0000001\nintersection_of: part_of GO:2\n").err(),
        Some(Error::NotImplemented { rule: Rule::TermClause })
    );
    assert_eq!(
        TermFrame::from_str("[Term]\nid: GO:0000001\nunion_of: GO:0000002\n").err(),
        Some(Error::NotImplemented { rule: Rule::TermClause })
    );
    assert_eq!(
        TypedefFrame::from_str("[Typedef]\nid: part_of\nholds_over_chain: a b\n").err(),
        Some(Error::NotImplemented { rule: Rule::TypedefClause })
    );
    assert_eq!(
        InstanceFrame::from_str("[Instance]\nid: i\ncreation_date: 2019-03-14T12:30:00Z\n").err(),
        Some(Error::NotImplemented { rule: Rule::InstanceClause })
    );
}

#[test]
fn malformed_frames_are_syntax_errors() {
    assert_eq!(TermFrame::from_str("").err(), Some(Error::SyntaxError { rule: Rule::TermFrame }));
    assert_eq!(
        TermFrame::from_str("[Term]").err(),
        Some(Error::SyntaxError { rule: Rule::TermFrame })
    );
    assert_eq!(
        TermFrame::from_str("[Term]\nname: no id\n").err(),
        Some(Error::SyntaxError { rule: Rule::TermFrame })
    );
    assert_eq!(
        TermFrame::from_str("[Typedef]\nid: part_of\n").err(),
        Some(Error::SyntaxError { rule: Rule::TermFrame })
    );
    assert_eq!(
        TermFrame::from_str(" [Term]\nid: GO:0000001\n").err(),
        Some(Error::SyntaxError { rule: Rule::TermFrame })
    );
    assert_eq!(
        TermFrame::from_str("[Term]\nid: GO:0000001 GO:0000002\n").err(),
        Some(Error::SyntaxError { rule: Rule::TermFrame })
    );
    assert_eq!(
        TypedefFrame::from_str("[Typedef]\nid: \"part_of\"\n").err(),
        Some(Error::SyntaxError { rule: Rule::TypedefFrame })
    );
    assert_eq!(
        InstanceFrame::from_str("[Instance]\n\nid: i\n").err(),
        Some(Error::SyntaxError { rule: Rule::InstanceFrame })
    );
    assert_eq!(
        TermFrame::from_str("[Term]\nid: GO:0000001\nunknown_tag: x\n").err(),
        Some(Error::SyntaxError { rule: Rule::TermClause })
    );
    assert_eq!(
        TermFrame::from_str("[Term]\nid: GO:0000001\nis_obsolete: maybe\n").err(),
        Some(Error::SyntaxError { rule: Rule::TermClause })
    );
    assert_eq!(
        TermFrame::from_str("[Term]\nid: GO:0000001\ndomain: GO:0000002\n").err(),
        Some(Error::SyntaxError { rule: Rule::TermClause })
    );
    assert_eq!(
        TypedefFrame::from_str("[Typedef]\nid: part_of\nis_a: a b\n").err(),
        Some(Error::SyntaxError { rule: Rule::TypedefClause })
    );
    assert_eq!(
        InstanceFrame::from_str("[Instance]\nid: i\ninstance_of: \"x\"\n").err(),
        Some(Error::SyntaxError { rule: Rule::InstanceClause })
    );
    // The first line that cannot be read decides.
    assert_eq!(
        TermFrame::from_str("[Term]\nid: GO:0000001\nunion_of: GO:2\nunknown_tag: x\n").err(),
        Some(Error::NotImplemented { rule: Rule::TermClause })
    );
    assert_eq!(
        TermFrame::from_str("[Term]\nid: GO:0000001\nunknown_tag: x\nunion_of: GO:2\n").err(),
        Some(Error::SyntaxError { rule: Rule::TermClause })
    );
}

#[test]
fn entity_frames_go_by_their_title() {
    let term = EntityFrame::from_str("[Term]\nid: GO:0000001\n").unwrap();
    let typedef = EntityFrame::from_str("[Typedef]\nid: part_of\n").unwrap();
    let instance = EntityFrame::from_str("[Instance]\nid: i\n").unwrap();
    assert!(matches!(term, EntityFrame::Term(_)));
    assert!(matches!(typedef, EntityFrame::Typedef(_)));
    assert!(matches!(instance, EntityFrame::Instance(_)));
    assert_eq!(term.rule(), Rule::TermFrame);
    assert_eq!(typedef.rule(), Rule::TypedefFrame);
    assert_eq!(instance.rule(), Rule::InstanceFrame);
    assert_eq!(term.to_string(), "[Term]\nid: GO:0000001\n");
    assert_eq!(
        EntityFrame::from_str("[Other]\nid: x\n").err(),
        Some(Error::SyntaxError { rule: Rule::EntityFrame })
    );
    assert_eq!(
        EntityFrame::from_str("").err(),
        Some(Error::SyntaxError { rule: Rule::EntityFrame })
    );
    assert_eq!(EntityFrame::from(TermFrame::from_str("[Term]\nid: GO:0000001\n").unwrap()), term);
}

#[test]
fn a_frame_of_one_kind_is_not_taken_for_another() {
    let term = EntityFrame::from_str("[Term]\nid: GO:0000001\n").unwrap();
    assert_eq!(
        term.into_typedef().err(),
        Some(Error::GrammarMismatch { expected: Rule::TypedefFrame, found: Rule::TermFrame })
    );
    let typedef = EntityFrame::from_str("[Typedef]\nid: part_of\n").unwrap();
    assert_eq!(
        typedef.into_instance().err(),
        Some(Error::GrammarMismatch { expected: Rule::InstanceFrame, found: Rule::TypedefFrame })
    );
    let instance = EntityFrame::from_str("[Instance]\nid: i\n").unwrap();
    assert_eq!(
        instance.into_term().err(),
        Some(Error::GrammarMismatch { expected: Rule::TermFrame, found: Rule::InstanceFrame })
    );
    let term = EntityFrame::from_str("[Term]\nid: GO:0000001\n").unwrap();
    assert_eq!(term.into_term().unwrap().to_string(), "[Term]\nid: GO:0000001\n");
    let error = Error::GrammarMismatch { expected: Rule::TermFrame, found: Rule::InstanceFrame };
    assert_eq!(error.rule(), Rule::TermFrame);
    assert_eq!(Error::SyntaxError { rule: Rule::Id }.rule(), Rule::Id);
    assert_eq!(Error::NotImplemented { rule: Rule::TermClause }.rule(), Rule::TermClause);
}

#[test]
fn definitions_and_synonyms_carry_references() {
    let source = "[Term]\nid: GO:0000001\ndef: \"The distribution of mitochondria.\" [GOC:mcc, PMID:10873824 \"a paper\", http://example.org/x]\ndef: \"No source.\" []\nsynonym: \"mitochondrial inheritance\" EXACT []\nsynonym: \"alpha\" RELATED systematic [GOC:x] {since=\"2019\"} ! why not\n";
    let frame = TermFrame::from_str(source).unwrap();
    assert_eq!(frame.len(), 4);
    assert_eq!(
        frame.clauses()[0].as_inner(),
        &TermClause::Def(
            quoted("The distribution of mitochondria."),
            vec![
                Xref::new(prefixed("GOC", "mcc")),
                Xref::with_desc(prefixed("PMID", "10873824"), quoted("a paper")),
                Xref::new(Ident::Url(Url::parse("http://example.org/x").unwrap())),
            ]
        )
    );
    assert_eq!(frame.clauses()[1].as_inner(), &TermClause::Def(quoted("No source."), vec![]));
    assert_eq!(
        frame.clauses()[2].as_inner(),
        &TermClause::Synonym(quoted("mitochondrial inheritance"), SynonymScope::Exact, None, vec![])
    );
    assert_eq!(
        frame.clauses()[3].as_inner(),
        &TermClause::Synonym(
            quoted("alpha"),
            SynonymScope::Related,
            Some(SynonymTypeIdent::new(unprefixed("systematic"))),
            vec![Xref::new(prefixed("GOC", "x"))]
        )
    );
    assert_eq!(frame.clauses()[3].comment(), &Some(String::from("why not")));
    assert_eq!(frame.to_string(), source);
    assert!(frame.is_valid());

    // An identifier in a list is written with its commas and brackets escaped.
    let odd = Xref::new(unprefixed("a,b]c[d"));
    let mut built = TermFrame::new(Line::new(ClassIdent::new(prefixed("GO", "1"))));
    built.push(Line::new(TermClause::Def(quoted("d"), vec![odd, Xref::new(unprefixed("e"))])));
    let text = built.to_string();
    assert_eq!(text, "[Term]\nid: GO:1\ndef: \"d\" [a\\,b\\]c\\[d, e]\n");
    assert_eq!(TermFrame::from_str(&text).unwrap(), built);

    for line in [
        "def: \"d\"",
        "def: \"d\" [",
        "def: \"d\" [a,b]",
        "def: \"d\" [a, ]",
        "def: \"d\" [a b]",
        "def: d []",
        "def: \"d\" [] []",
        "synonym: \"s\" []",
        "synonym: \"s\" SOMETIMES []",
        "synonym: \"s\" EXACT",
        "synonym: \"s\" EXACT \"t\" []",
        "synonym: \"s\" EXACT a b []",
    ] {
        let text = format!("[Term]\nid: GO:1\n{}\n", line);
        assert_eq!(
            TermFrame::from_str(&text).err(),
            Some(Error::SyntaxError { rule: Rule::TermClause }),
            "{}",
            line
        );
    }
}

#[test]
fn validity_is_tested() {
    let good = TermFrame::from_str("[Term]\nid: GO:0000001\nname: a\nis_a: GO:2 ! c\n").unwrap();
    assert!(good.is_valid());
    let mut bad = TermFrame::new(Line::new(ClassIdent::new(prefixed("", "1"))));
    assert!(!bad.is_valid());
    assert!(TermFrame::from_str(&bad.to_string()).is_err());
    bad = TermFrame::new(Line::new(ClassIdent::new(prefixed("http", "//example.org/"))));
    assert!(!bad.is_valid());
    // Written, this one is read as another identifier: a URL.
    assert_eq!(bad.to_string(), "[Term]\nid: http://example.org/\n");
    assert_ne!(TermFrame::from_str(&bad.to_string()).unwrap(), bad);
    let mut odd = TermFrame::new(Line::new(ClassIdent::new(prefixed("GO", "1"))));
    odd.push(Line::new(TermClause::Name(text("a"))).and_comment(String::from("two\nlines")));
    assert!(!odd.is_valid());
    let mut header = HeaderFrame::new();
    header.push(HeaderClause::Unreserved(text("remark"), text("x")));
    assert!(!header.is_valid());
    let mut header = HeaderFrame::new();
    header.push(HeaderClause::Unreserved(text("two words"), text("x")));
    assert!(!header.is_valid());
    let mut header = HeaderFrame::new();
    header.push(HeaderClause::Unreserved(text("my-tag"), text("x")));
    header.push(HeaderClause::Remark(text("x")));
    assert!(header.is_valid());
    let mut header = HeaderFrame::new();
    header.push(HeaderClause::DateTag(fastobo::date::NaiveDate::new(114, 3, 2019, 12, 30)));
    assert!(!header.is_valid());
    assert_eq!(header.to_string(), "date: 14:03:2019 12:30\n");
    assert_ne!(HeaderFrame::from_str(&header.to_string()).unwrap(), header);
    assert!(prefixed("GO", "1").is_valid());
    assert!(prefixed("GO", "/1").is_valid());
    assert!(!prefixed("GO", "").is_valid());
    assert!(!unprefixed("").is_valid());
    assert!(Ident::Url(Url::parse("http://example.org/").unwrap()).is_valid());
    assert!(Url::parse("mailto:someone").unwrap().is_valid());
    assert!(!Ident::Url(Url::parse("mailto:someone").unwrap()).is_valid());
    assert!(Xref::new(prefixed("GO", "1")).is_valid());
    assert!(!Xref::new(Ident::Url(Url::parse("http://example.org/a,b").unwrap())).is_valid());
}
