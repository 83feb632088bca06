//! Reading a document line by line.
//!
//! The reader is a machine with two states. In the first it collects the
//! lines of the header; the first line that begins a frame makes it read
//! the header from what it has collected, and takes it to the second
//! state, for good. There it collects the lines of one entity frame at a
//! time: each further line that begins a frame makes it read the frame
//! that it has collected. At the end of the lines it reads what is left.
//! So it never holds more than the lines of one frame.

use crate::clause::LineKind;
use crate::doc::{
    chunk_len, entities_view, lemma_chunk_len_of, parse_doc, parse_doc_lines, parse_entities,
    parse_entity_lines, DocView, EntityFrame, EntityView, OboDoc,
};
use crate::error::Error;
use crate::frame::{check_frame_start, is_frame_start, parse_clause_lines};
use crate::header::frame::HeaderFrame;
use crate::line::{ClauseView, LineView};
use crate::lines::{chomp, lemma_chomp_raw_lines, lines_of, lines_view, raw_lines_of};
use crate::text::chars_of;
use vstd::prelude::*;

verus! {

/// The two states of the reader.
#[derive(Clone, Copy, Debug, PartialEq, Eq, Hash, Structural)]
pub enum ReaderState {
    /// No line that begins a frame has come yet.
    Header,
    /// The header has been read.
    Frames,
}

/// What the reader holds: the lines collected for the frame at hand, the
/// header once it has been read, and the entity frames read so far.
pub struct ReaderView {
    pub buffer: Seq<Seq<char>>,
    pub header: Option<Seq<LineView<ClauseView>>>,
    pub entities: Seq<EntityView>,
}

impl ReaderView {
    /// The reader before the first line.
    pub open spec fn initial() -> ReaderView {
        ReaderView {
            buffer: Seq::<Seq<char>>::empty(),
            header: None,
            entities: Seq::<EntityView>::empty(),
        }
    }

    /// The state of the reader.
    pub open spec fn state(self) -> ReaderState {
        if self.header is Some {
            ReaderState::Frames
        } else {
            ReaderState::Header
        }
    }

    /// The document once the collected lines have been read: as the header
    /// in the first state, as one more entity frame in the second.
    pub open spec fn flush(self) -> Result<DocView, Error> {
        match self.header {
            None => match parse_clause_lines(LineKind::Header, self.buffer) {
                Ok(header) => Ok(DocView { header, entities: self.entities }),
                Err(e) => Err(e),
            },
            Some(header) => match parse_entity_lines(self.buffer) {
                Ok(entity) => Ok(DocView { header, entities: self.entities.push(entity) }),
                Err(e) => Err(e),
            },
        }
    }

    /// The reader after one more line, given with or without the line feed
    /// that ends it. A line that begins a frame makes the reader read what
    /// it has collected and start anew with that line; any other line is
    /// collected.
    pub open spec fn step(self, raw: Seq<char>) -> Result<ReaderView, Error> {
        let line = chomp(raw);
        if is_frame_start(line) {
            match self.flush() {
                Ok(d) => Ok(
                    ReaderView {
                        buffer: seq![line],
                        header: Some(d.header),
                        entities: d.entities,
                    },
                ),
                Err(e) => Err(e),
            }
        } else {
            Ok(
                ReaderView {
                    buffer: self.buffer.push(line),
                    header: self.header,
                    entities: self.entities,
                },
            )
        }
    }

    /// The document that the reader gives after the lines `raws` and the
    /// end of the lines. The first error ends the reading.
    pub open spec fn run(self, raws: Seq<Seq<char>>) -> Result<DocView, Error>
        decreases raws.len(),
    {
        if raws.len() == 0 {
            self.flush()
        } else {
            match self.step(raws[0]) {
                Ok(next) => next.run(raws.drop_first()),
                Err(e) => Err(e),
            }
        }
    }

    /// What holds of the reader between two lines: in the first state no
    /// collected line begins a frame and no frame has been read; in the
    /// second the first collected line begins a frame and no other does.
    pub open spec fn inv(self) -> bool {
        match self.header {
            None => self.entities.len() == 0 && forall|i: int|
                0 <= i < self.buffer.len() ==> !is_frame_start(#[trigger] self.buffer[i]),
            Some(_) => self.buffer.len() > 0 && is_frame_start(self.buffer[0]) && forall|i: int|
                1 <= i < self.buffer.len() ==> !is_frame_start(#[trigger] self.buffer[i]),
        }
    }

    /// The document that the collected lines and the lines `rest` stand
    /// for, with the frames read so far in front of it.
    pub open spec fn whole(self, rest: Seq<Seq<char>>) -> Result<DocView, Error> {
        match self.header {
            None => parse_doc_lines(self.buffer + rest),
            Some(header) => match parse_entities(self.buffer + rest) {
                Ok(entities) => Ok(DocView { header, entities: self.entities + entities }),
                Err(e) => Err(e),
            },
        }
    }
}

/// The document that a reader gives for a sequence of lines, each given
/// with or without the line feed that ends it.
pub open spec fn stream_doc(raws: Seq<Seq<char>>) -> Result<DocView, Error> {
    ReaderView::initial().run(raws)
}

/// Lines without the line feeds that end them.
pub open spec fn chomp_all(raws: Seq<Seq<char>>) -> Seq<Seq<char>> {
    raws.map_values(|l: Seq<char>| chomp(l))
}

/// At the end of the lines the reader gives the document that its
/// collected lines stand for, behind what it has read.
proof fn lemma_flush(r: ReaderView)
    requires
        r.inv(),
    ensures
        r.flush() == r.whole(Seq::<Seq<char>>::empty()),
{
    let lines = r.buffer + Seq::<Seq<char>>::empty();
    assert(lines == r.buffer);
    match r.header {
        None => {
            lemma_chunk_len_of(r.buffer, Seq::<Seq<char>>::empty());
            assert(r.buffer.take(r.buffer.len() as int) == r.buffer);
            assert(r.buffer.skip(r.buffer.len() as int) == Seq::<Seq<char>>::empty());
            assert(r.entities == Seq::<EntityView>::empty());
            assert(lines.skip(chunk_len(lines)) == Seq::<Seq<char>>::empty());
            assert(parse_entities(Seq::<Seq<char>>::empty()) == Ok::<Seq<EntityView>, Error>(
                Seq::<EntityView>::empty(),
            ));
        },
        Some(header) => {
            let tail = r.buffer.drop_first();
            assert forall|i: int| 0 <= i < tail.len() implies !is_frame_start(
                #[trigger] tail[i],
            ) by {
                assert(tail[i] == r.buffer[i + 1]);
            }
            lemma_chunk_len_of(tail, Seq::<Seq<char>>::empty());
            assert(tail + Seq::<Seq<char>>::empty() == tail);
            assert(r.buffer.take(r.buffer.len() as int) == r.buffer);
            assert(r.buffer.skip(r.buffer.len() as int) == Seq::<Seq<char>>::empty());
            if let Ok(entity) = parse_entity_lines(r.buffer) {
                assert(seq![entity] + Seq::<EntityView>::empty() == seq![entity]);
                assert(r.entities + seq![entity] == r.entities.push(entity));
            }
        },
    }
}

/// A line that begins a frame makes the reader read what it has collected;
/// what it then holds stands for the same document as before.
proof fn lemma_step_frame_start(r: ReaderView, line: Seq<char>, rest: Seq<Seq<char>>)
    requires
        r.inv(),
        is_frame_start(line),
    ensures
        match r.flush() {
            Ok(d) => (ReaderView {
                buffer: seq![line],
                header: Some(d.header),
                entities: d.entities,
            }).whole(rest) == r.whole(seq![line] + rest),
            Err(e) => r.whole(seq![line] + rest) == Err::<DocView, Error>(e),
        },
{
    let after = seq![line] + rest;
    let lines = r.buffer + after;
    let n = r.buffer.len() as int;
    assert(after[0] == line);
    match r.header {
        None => {
            lemma_chunk_len_of(r.buffer, after);
            assert(lines.take(n) == r.buffer);
            assert(lines.skip(n) == after);
            if let Ok(header) = parse_clause_lines(LineKind::Header, r.buffer) {
                if let Ok(entities) = parse_entities(after) {
                    assert(r.entities + entities == entities);
                }
            }
        },
        Some(header) => {
            let tail = r.buffer.drop_first();
            assert forall|i: int| 0 <= i < tail.len() implies !is_frame_start(
                #[trigger] tail[i],
            ) by {
                assert(tail[i] == r.buffer[i + 1]);
            }
            assert(lines.drop_first() == tail + after);
            lemma_chunk_len_of(tail, after);
            assert(lines.take(n) == r.buffer);
            assert(lines.skip(n) == after);
            if let Ok(entity) = parse_entity_lines(r.buffer) {
                if let Ok(entities) = parse_entities(after) {
                    assert(r.entities + (seq![entity] + entities) == r.entities.push(entity)
                        + entities);
                }
            }
        },
    }
}

/// The reader gives the document that its collected lines and the lines
/// that come stand for, behind what it has read.
proof fn lemma_run(r: ReaderView, raws: Seq<Seq<char>>)
    requires
        r.inv(),
    ensures
        r.run(raws) == r.whole(chomp_all(raws)),
    decreases raws.len(),
{
    if raws.len() == 0 {
        assert(chomp_all(raws) == Seq::<Seq<char>>::empty());
        lemma_flush(r);
    } else {
        let line = chomp(raws[0]);
        let tail = raws.drop_first();
        let rest = chomp_all(tail);
        assert(chomp_all(raws) == seq![line] + rest);
        if is_frame_start(line) {
            lemma_step_frame_start(r, line, rest);
            if let Ok(d) = r.flush() {
                let next = ReaderView {
                    buffer: seq![line],
                    header: Some(d.header),
                    entities: d.entities,
                };
                lemma_run(next, tail);
            }
        } else {
            let next = ReaderView {
                buffer: r.buffer.push(line),
                header: r.header,
                entities: r.entities,
            };
            assert(next.buffer + rest == r.buffer + (seq![line] + rest));
            lemma_run(next, tail);
        }
    }
}

/// Reading a text line by line gives the document, or the error, that
/// reading the whole text gives.
pub proof fn lemma_streaming_equivalence(text: Seq<char>)
    ensures
        stream_doc(raw_lines_of(text)) == parse_doc(text),
{
    let r = ReaderView::initial();
    lemma_run(r, raw_lines_of(text));
    lemma_chomp_raw_lines(text);
    assert(r.buffer + lines_of(text) == lines_of(text));
}

/// A reader of documents that takes one line at a time.
#[derive(Debug)]
pub struct FrameReader {
    buffer: Vec<Vec<char>>,
    header: Option<HeaderFrame>,
    entities: Vec<EntityFrame>,
}

impl View for FrameReader {
    type V = ReaderView;

    closed spec fn view(&self) -> ReaderView {
        ReaderView {
            buffer: lines_view(self.buffer@),
            header: match self.header {
                Some(h) => Some(h@),
                None => None,
            },
            entities: entities_view(self.entities@),
        }
    }
}

/// What is read from the collected lines.
enum Flushed {
    Header(HeaderFrame),
    Entity(EntityFrame),
}

impl FrameReader {
    /// Whether all that the reader has read can be written and read back.
    pub closed spec fn valid(&self) -> bool {
        &&& self.header matches Some(h) ==> h.valid()
        &&& forall|i: int| 0 <= i < self.entities@.len() ==> (#[trigger] self.entities@[i]).valid()
    }

    /// A reader before the first line.
    pub fn new() -> (r: Self)
        ensures
            r@ == ReaderView::initial(),
            r.valid(),
    {
        let r = FrameReader { buffer: Vec::new(), header: None, entities: Vec::new() };
        assert(r@.buffer == Seq::<Seq<char>>::empty());
        assert(r@.entities == Seq::<EntityView>::empty());
        r
    }

    /// The state of the reader.
    pub fn state(&self) -> (s: ReaderState)
        ensures
            s == self@.state(),
    {
        if self.header.is_some() {
            ReaderState::Frames
        } else {
            ReaderState::Header
        }
    }

    /// Reads the collected lines: as the header in the first state, as an
    /// entity frame in the second.
    fn read_buffer(&self) -> (r: Result<Flushed, Error>)
        ensures
            match self@.flush() {
                Ok(d) => match r {
                    Ok(Flushed::Header(h)) => self@.header is None && d == (DocView {
                        header: h@,
                        entities: self@.entities,
                    }) && h.valid(),
                    Ok(Flushed::Entity(e)) => self@.header is Some && d == (DocView {
                        header: self@.header->0,
                        entities: self@.entities.push(e@),
                    }) && e.valid(),
                    Err(_) => false,
                },
                Err(e) => r matches Err(found) && found == e,
            },
    {
        assert(lines_view(self.buffer@).subrange(0, self.buffer@.len() as int) == lines_view(
            self.buffer@,
        ));
        if self.header.is_none() {
            match HeaderFrame::from_lines(&self.buffer, 0, self.buffer.len()) {
                Ok(h) => Ok(Flushed::Header(h)),
                Err(e) => Err(e),
            }
        } else {
            match EntityFrame::from_lines(&self.buffer, 0, self.buffer.len()) {
                Ok(e) => Ok(Flushed::Entity(e)),
                Err(e) => Err(e),
            }
        }
    }

    /// Takes one more line, given with or without the line feed that ends
    /// it. On an error the reader is left as it was.
    pub fn feed(&mut self, raw: &str) -> (r: Result<(), Error>)
        ensures
            match old(self)@.step(raw@) {
                Ok(next) => r is Ok && final(self)@ == next,
                Err(e) => r matches Err(found) && found == e && final(self)@ == old(self)@,
            },
            old(self).valid() ==> final(self).valid(),
    {
        let mut line = chars_of(raw);
        if line.len() > 0 && line[line.len() - 1] == '\n' {
            line.pop();
        }
        assert(line@ == chomp(raw@));
        if check_frame_start(&line) {
            match self.read_buffer() {
                Ok(Flushed::Header(h)) => {
                    self.header = Some(h);
                },
                Ok(Flushed::Entity(e)) => {
                    let ghost before = entities_view(self.entities@);
                    let ghost ev = e@;
                    let ghost old_entities = self.entities@;
                    self.entities.push(e);
                    assert(entities_view(self.entities@) == before.push(ev));
                    assert(old(self).valid() ==> forall|i: int|
                        0 <= i < self.entities@.len() ==> (#[trigger] self.entities@[i]).valid())
                        by {
                        if old(self).valid() {
                            assert forall|i: int| 0 <= i < self.entities@.len() implies (
                            #[trigger] self.entities@[i]).valid() by {
                                if i < old_entities.len() {
                                    assert(self.entities@[i] == old_entities[i]);
                                }
                            }
                        }
                    }
                },
                Err(e) => {
                    return Err(e);
                },
            }
            let ghost lv = line@;
            let mut buffer: Vec<Vec<char>> = Vec::new();
            buffer.push(line);
            assert(lines_view(buffer@) == seq![lv]);
            self.buffer = buffer;
            Ok(())
        } else {
            let ghost before = lines_view(self.buffer@);
            let ghost lv = line@;
            self.buffer.push(line);
            assert(lines_view(self.buffer@) == before.push(lv));
            Ok(())
        }
    }

    /// Ends the reading: reads what is left and gives the document.
    pub fn finish(self) -> (r: Result<OboDoc, Error>)
        ensures
            match self@.flush() {
                Ok(d) => r matches Ok(found) && found@ == d && (self.valid() ==> found.valid()),
                Err(e) => r matches Err(found) && found == e,
            },
    {
        match self.read_buffer() {
            Ok(Flushed::Header(h)) => Ok(OboDoc::with_entities(h, self.entities)),
            Ok(Flushed::Entity(e)) => {
                let mut entities = self.entities;
                let ghost before = entities_view(entities@);
                let ghost ev = e@;
                let ghost old_entities = entities@;
                entities.push(e);
                assert(entities_view(entities@) == before.push(ev));
                assert(self.valid() ==> forall|i: int|
                    0 <= i < entities@.len() ==> (#[trigger] entities@[i]).valid()) by {
                    if self.valid() {
                        assert forall|i: int| 0 <= i < entities@.len() implies (
                        #[trigger] entities@[i]).valid() by {
                            if i < old_entities.len() {
                                assert(entities@[i] == old_entities[i]);
                            }
                        }
                    }
                }
                match self.header {
                    Some(h) => Ok(OboDoc::with_entities(h, entities)),
                    None => Err(Error::SyntaxError { rule: crate::error::Rule::OboDoc }),
                }
            },
            Err(e) => Err(e),
        }
    }
}

/// What a sequence of strings is.
pub open spec fn strings_view(v: Seq<String>) -> Seq<Seq<char>> {
    v.map_values(|s: String| s@)
}

impl OboDoc {
    /// Reads a document from its lines, handed out one by one as a reader
    /// of a stream hands them out: each with the line feed that ends it,
    /// but for the last. Gives what `from_str` gives for the whole text.
    pub fn from_raw_lines(raws: &Vec<String>) -> (r: Result<OboDoc, Error>)
        ensures
            match stream_doc(strings_view(raws@)) {
                Ok(d) => r matches Ok(found) && found@ == d && found.valid(),
                Err(e) => r matches Err(found) && found == e,
            },
    {
        let ghost all = strings_view(raws@);
        let mut reader = FrameReader::new();
        let mut i: usize = 0;
        assert(all.skip(0) == all);
        while i < raws.len()
            invariant
                i <= raws.len(),
                all == strings_view(raws@),
                reader.valid(),
                reader@.run(all.skip(i as int)) == stream_doc(all),
            decreases raws.len() - i,
        {
            proof {
                let here = all.skip(i as int);
                assert(here[0] == raws@[i as int]@);
                assert(here.drop_first() == all.skip(i + 1));
            }
            match reader.feed(raws[i].as_str()) {
                Ok(()) => {},
                Err(e) => {
                    return Err(e);
                },
            }
            i = i + 1;
        }
        assert(all.skip(i as int) == Seq::<Seq<char>>::empty());
        reader.finish()
    }
}

} // verus!
