use fastobo::error::{Error, Rule};
use fastobo::header::{HeaderClause, HeaderFrame};
use fastobo::id::{ClassIdent, Ident, IdentLocal, IdentPrefix, PrefixedIdent, UnprefixedIdent, Url};
use fastobo::line::Line;
use fastobo::stream::{FrameReader, ReaderState};
use fastobo::strings::UnquotedString;
use fastobo::term::{TermClause, TermFrame};
use fastobo::{EntityFrame, OboDoc};

const SOURCE: &str = "format-version: 1.4
date: 14:03:2019 12:30
ontology: test

[Term]
id: GO:0000001
name: mitochondrion inheritance
is_a: GO:0048308 ! organelle inheritance
relationship: part_of GO:0005739 {source=\"x\"} ! a comment

[Typedef]
id: part_of
name: part of
is_transitive: true

[Instance]
id: http://example.org/jane
instance_of: GO:0000001
";

fn raw_lines(text: &str) -> Vec<String> {
    text.split_inclusive('\n').map(String::from).collect()
}

fn stream(text: &str) -> Result<OboDoc, Error> {
    let mut reader = FrameReader::new();
    for line in text.split_inclusive('\n') {
        reader.feed(line)?;
    }
    reader.finish()
}

#[test]
fn documents_are_read_and_written() {
    let doc = OboDoc::from_str(SOURCE).unwrap();
    assert_eq!(doc.header().len(), 3);
    assert_eq!(doc.entities().len(), 3);
    assert!(matches!(doc.entities()[0], EntityFrame::Term(_)));
    assert!(matches!(doc.entities()[1], EntityFrame::Typedef(_)));
    assert!(matches!(doc.entities()[2], EntityFrame::Instance(_)));
    assert_eq!(doc.to_string(), SOURCE);
    assert_eq!(OboDoc::from_str(&doc.to_string()).unwrap(), doc);
}

#[test]
fn built_documents_are_read_back() {
    let mut header = HeaderFrame::new();
    header.push(HeaderClause::FormatVersion(UnquotedString::new(String::from("1.4"))));
    header.push(HeaderClause::Remark(UnquotedString::new(String::from("a {remark}! \\ \n two"))));
    let id = Ident::Prefixed(PrefixedIdent::new(
        IdentPrefix::new(String::from("my prefix")),
        IdentLocal::new(String::from("a:b \"c\"")),
    ));
    let mut term = TermFrame::new(
        Line::new(ClassIdent::new(id.clone())).and_comment(String::from("odd but fine")),
    );
    term.push(Line::new(TermClause::Name(UnquotedString::new(String::from("[not a frame]")))));
    term.push(Line::new(TermClause::AltId(Ident::Url(
        Url::parse("https://example.org/x?y=z#w").unwrap(),
    ))));
    term.push(Line::new(TermClause::AltId(Ident::Unprefixed(UnprefixedIdent::new(
        String::from("{braces}!"),
    )))));
    let doc = OboDoc::with_entities(
        header,
        vec![EntityFrame::Term(term), EntityFrame::from_str("[Instance]\nid: i\n").unwrap()],
    );
    let text = doc.to_string();
    assert_eq!(
        text,
        "format-version: 1.4\nremark: a \\{remark}\\! \\\\ \\n two\n\n[Term]\nid: my\\ prefix:a\\:b\\ \\\"c\\\" ! odd but fine\nname: [not a frame]\nalt_id: https://example.org/x?y=z#w\nalt_id: \\{braces\\}\\!\n\n[Instance]\nid: i\n"
    );
    assert!(doc.is_valid());
    assert_eq!(OboDoc::from_str(&text).unwrap(), doc);
    assert_eq!(stream(&text).unwrap(), doc);
}

#[test]
fn a_document_may_be_a_header_alone_or_nothing() {
    let doc = OboDoc::from_str("format-version: 1.4\n").unwrap();
    assert_eq!(doc.header().len(), 1);
    assert_eq!(doc.entities().len(), 0);
    assert_eq!(doc.to_string(), "format-version: 1.4\n");
    assert_eq!(stream("format-version: 1.4\n").unwrap(), doc);

    let empty = OboDoc::from_str("").unwrap();
    assert_eq!(empty.header().len(), 0);
    assert_eq!(empty.entities().len(), 0);
    assert_eq!(empty.to_string(), "");
    assert_eq!(stream("").unwrap(), empty);
    assert_eq!(empty, OboDoc::new(HeaderFrame::new()));

    let headless = OboDoc::from_str("[Term]\nid: GO:0000001\n").unwrap();
    assert_eq!(headless.header().len(), 0);
    assert_eq!(headless.entities().len(), 1);
    assert_eq!(headless.to_string(), "\n[Term]\nid: GO:0000001\n");
}

#[test]
fn the_header_can_be_replaced_and_changed() {
    let mut doc = OboDoc::from_str(SOURCE).unwrap();
    doc.set_header(HeaderFrame::from_str("format-version: 1.2\n").unwrap());
    assert_eq!(doc.header().len(), 1);
    doc.header_mut().push(HeaderClause::Ontology(UnquotedString::new(String::from("go"))));
    assert_eq!(doc.header().len(), 2);
    assert_eq!(doc.header().to_string(), "format-version: 1.2\nontology: go\n");
    assert_eq!(doc.entities().len(), 3);
    doc.push(EntityFrame::from_str("[Term]\nid: GO:0000009\n").unwrap());
    assert_eq!(doc.entities().len(), 4);
    doc.entities_mut().remove(0);
    assert_eq!(doc.entities().len(), 3);
    assert!(matches!(doc.entities()[0], EntityFrame::Typedef(_)));
}

#[test]
fn reading_line_by_line_gives_what_reading_the_whole_gives() {
    let whole = OboDoc::from_str(SOURCE).unwrap();
    assert_eq!(stream(SOURCE).unwrap(), whole);
    assert_eq!(OboDoc::from_raw_lines(&raw_lines(SOURCE)).unwrap(), whole);
    // Without the line feed at the very end.
    let cut = &SOURCE[..SOURCE.len() - 1];
    assert_eq!(OboDoc::from_str(cut).unwrap(), whole);
    assert_eq!(stream(cut).unwrap(), whole);
    // Frames that begin behind blanks are frames to both, and wrong to both.
    let indented = "format-version: 1.4\n  [Term]\nid: GO:0000001\n";
    assert_eq!(OboDoc::from_str(indented).err(), stream(indented).err());
    assert_eq!(stream(indented).err(), Some(Error::SyntaxError { rule: Rule::EntityFrame }));
    for text in [
        "format-version 1.4\n[Term]\nid: GO:0000001\n",
        "format-version: 1.4\n\n[Term]\nname: no id\n\n[Term]\nid: GO:0000002\n",
        "format-version: 1.4\n\n[Term]\nid: GO:0000001\nunion_of: GO:2\n\n[Nonsense]\n",
        "[Term]\nid: GO:0000001\n[Typedef]\nid: part_of\nfoo: bar\n",
        "a: b\nc\n",
    ] {
        let both = OboDoc::from_str(text);
        assert!(both.is_err(), "{}", text);
        assert_eq!(stream(text).err(), both.err(), "{}", text);
        assert_eq!(OboDoc::from_raw_lines(&raw_lines(text)).err(), OboDoc::from_str(text).err());
    }
}

#[test]
fn the_reader_has_two_states() {
    let mut reader = FrameReader::new();
    assert_eq!(reader.state(), ReaderState::Header);
    reader.feed("format-version: 1.4\n").unwrap();
    reader.feed("\n").unwrap();
    assert_eq!(reader.state(), ReaderState::Header);
    reader.feed("[Term]\n").unwrap();
    assert_eq!(reader.state(), ReaderState::Frames);
    reader.feed("id: GO:0000001\n").unwrap();
    reader.feed("name: one").unwrap();
    assert_eq!(reader.state(), ReaderState::Frames);
    reader.feed("[Term]\n").unwrap();
    reader.feed("id: GO:0000002\n").unwrap();
    let doc = reader.finish().unwrap();
    assert_eq!(
        doc.to_string(),
        "format-version: 1.4\n\n[Term]\nid: GO:0000001\nname: one\n\n[Term]\nid: GO:0000002\n"
    );
}

#[test]
fn an_error_leaves_the_reader_as_it_was() {
    let mut reader = FrameReader::new();
    reader.feed("not a clause\n").unwrap();
    assert_eq!(reader.feed("[Term]\n"), Err(Error::SyntaxError { rule: Rule::HeaderClause }));
    assert_eq!(reader.state(), ReaderState::Header);
    assert_eq!(reader.finish().err(), Some(Error::SyntaxError { rule: Rule::HeaderClause }));

    let mut reader = FrameReader::new();
    reader.feed("[Term]\n").unwrap();
    reader.feed("name: no id\n").unwrap();
    assert_eq!(reader.feed("[Term]\n"), Err(Error::SyntaxError { rule: Rule::TermFrame }));
    assert_eq!(reader.finish().err(), Some(Error::SyntaxError { rule: Rule::TermFrame }));
}

#[test]
fn errors_in_documents() {
    assert_eq!(
        OboDoc::from_str("format-version: 1.4\nnonsense\n").err(),
        Some(Error::SyntaxError { rule: Rule::HeaderClause })
    );
    assert_eq!(
        OboDoc::from_str("format-version: 1.4\n\n[Term]\nid: GO:0000001\nis_a: \n").err(),
        Some(Error::SyntaxError { rule: Rule::TermClause })
    );
    assert_eq!(
        OboDoc::from_str("[Instance]\nid: i\ncreation_date: 2019-03-14T12:30:00Z\n").err(),
        Some(Error::NotImplemented { rule: Rule::InstanceClause })
    );
    assert_eq!(
        OboDoc::from_str("[Term]\n").err(),
        Some(Error::SyntaxError { rule: Rule::TermFrame })
    );
    assert_eq!(
        OboDoc::from_str("[term]\nid: x\n").err(),
        Some(Error::SyntaxError { rule: Rule::EntityFrame })
    );
}
