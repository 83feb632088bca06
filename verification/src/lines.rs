//! Texts as sequences of lines.
//!
//! A line ends at a line feed or at the end of the text; the line feed is
//! not part of the line. A text that ends with a line feed has no empty
//! line after it.

use crate::text::is_one_line;
use vstd::prelude::*;

verus! {

/// The position of the first line feed of a text, or its length where it
/// holds none.
pub open spec fn first_newline(s: Seq<char>) -> int
    decreases s.len(),
{
    if s.len() == 0 || s[0] == '\n' {
        0
    } else {
        1 + first_newline(s.skip(1))
    }
}

/// The first line feed of a text lies within the text, and no line feed
/// lies in front of it.
pub proof fn lemma_first_newline(s: Seq<char>)
    ensures
        0 <= first_newline(s) <= s.len(),
        is_one_line(s.take(first_newline(s))),
        first_newline(s) < s.len() ==> s[first_newline(s)] == '\n',
    decreases s.len(),
{
    if s.len() == 0 || s[0] == '\n' {
    } else {
        let rest = s.skip(1);
        lemma_first_newline(rest);
        let k = first_newline(s);
        assert forall|i: int| 0 <= i < k implies #[trigger] s.take(k)[i] != '\n' by {
            if i > 0 {
                assert(s.take(k)[i] == rest.take(k - 1)[i - 1]);
            }
        }
    }
}

/// A text without line feeds, in front of a line feed or of nothing, runs
/// up to the first line feed.
pub proof fn lemma_first_newline_of(line: Seq<char>, rest: Seq<char>)
    requires
        is_one_line(line),
        rest.len() == 0 || rest[0] == '\n',
    ensures
        first_newline(line + rest) == line.len(),
    decreases line.len(),
{
    let s = line + rest;
    if line.len() == 0 {
        assert(s == rest);
    } else {
        assert(s[0] == line[0]);
        let tail = line.skip(1);
        assert forall|i: int| 0 <= i < tail.len() implies #[trigger] tail[i] != '\n' by {
            assert(tail[i] == line[i + 1]);
        }
        assert(s.skip(1) == tail + rest);
        lemma_first_newline_of(tail, rest);
    }
}

/// The lines of a text, without the line feeds that end them.
pub open spec fn lines_of(s: Seq<char>) -> Seq<Seq<char>>
    decreases s.len(),
{
    if s.len() == 0 {
        Seq::<Seq<char>>::empty()
    } else {
        let k = first_newline(s);
        if 0 <= k < s.len() {
            seq![s.take(k)] + lines_of(s.skip(k + 1))
        } else {
            seq![s]
        }
    }
}

/// The lines of a text, each with the line feed that ends it, as a reader
/// hands them out one by one.
pub open spec fn raw_lines_of(s: Seq<char>) -> Seq<Seq<char>>
    decreases s.len(),
{
    if s.len() == 0 {
        Seq::<Seq<char>>::empty()
    } else {
        let k = first_newline(s);
        if 0 <= k < s.len() {
            seq![s.take(k + 1)] + raw_lines_of(s.skip(k + 1))
        } else {
            seq![s]
        }
    }
}

/// A line without the line feed at its end, if it has one.
pub open spec fn chomp(line: Seq<char>) -> Seq<char> {
    if line.len() > 0 && line.last() == '\n' {
        line.drop_last()
    } else {
        line
    }
}

/// The lines that a reader hands out are, without their line feeds, the
/// lines of the text.
pub proof fn lemma_chomp_raw_lines(s: Seq<char>)
    ensures
        raw_lines_of(s).map_values(|l: Seq<char>| chomp(l)) == lines_of(s),
    decreases s.len(),
{
    let f = |l: Seq<char>| chomp(l);
    if s.len() == 0 {
        assert(raw_lines_of(s).map_values(f) == lines_of(s));
    } else {
        lemma_first_newline(s);
        let k = first_newline(s);
        if k < s.len() {
            let rest = s.skip(k + 1);
            lemma_chomp_raw_lines(rest);
            assert(chomp(s.take(k + 1)) == s.take(k)) by {
                assert(s.take(k + 1).last() == '\n');
                assert(s.take(k + 1).drop_last() == s.take(k));
            }
            assert((seq![s.take(k + 1)] + raw_lines_of(rest)).map_values(f) == seq![s.take(k)]
                + raw_lines_of(rest).map_values(f));
        } else {
            assert(chomp(s) == s) by {
                if s.last() == '\n' {
                    assert(s.take(k)[s.len() - 1] == '\n');
                }
            }
            assert(seq![s].map_values(f) == seq![chomp(s)]);
        }
    }
}

/// The text of a sequence of lines: each line followed by a line feed.
pub open spec fn join_lines(ls: Seq<Seq<char>>) -> Seq<char>
    decreases ls.len(),
{
    if ls.len() == 0 {
        Seq::<char>::empty()
    } else {
        ls[0] + seq!['\n'] + join_lines(ls.drop_first())
    }
}

/// Whether no line of a sequence holds a line feed.
pub open spec fn are_lines(ls: Seq<Seq<char>>) -> bool {
    forall|i: int| 0 <= i < ls.len() ==> is_one_line(#[trigger] ls[i])
}

/// The text of a sequence of lines has those lines.
pub proof fn lemma_lines_of_join(ls: Seq<Seq<char>>)
    requires
        are_lines(ls),
    ensures
        lines_of(join_lines(ls)) == ls,
    decreases ls.len(),
{
    if ls.len() > 0 {
        let tail = ls.drop_first();
        assert(are_lines(tail)) by {
            assert forall|i: int| 0 <= i < tail.len() implies is_one_line(#[trigger] tail[i]) by {
                assert(tail[i] == ls[i + 1]);
            }
        }
        let rest = seq!['\n'] + join_lines(tail);
        let s = join_lines(ls);
        assert(s == ls[0] + rest);
        lemma_first_newline_of(ls[0], rest);
        let k = ls[0].len() as int;
        assert(s.take(k) == ls[0]);
        assert(s.skip(k + 1) == join_lines(tail));
        lemma_lines_of_join(tail);
        assert(seq![ls[0]] + tail == ls);
    }
}

/// Joining goes over concatenation.
pub proof fn lemma_join_concat(a: Seq<Seq<char>>, b: Seq<Seq<char>>)
    ensures
        join_lines(a + b) == join_lines(a) + join_lines(b),
    decreases a.len(),
{
    if a.len() == 0 {
        assert(a + b == b);
    } else {
        assert((a + b).drop_first() == a.drop_first() + b);
        lemma_join_concat(a.drop_first(), b);
    }
}

/// What a sequence of lines is.
pub open spec fn lines_view(v: Seq<Vec<char>>) -> Seq<Seq<char>> {
    v.map_values(|l: Vec<char>| l@)
}

/// Splits a text into its lines.
pub fn split_lines(v: &Vec<char>) -> (r: Vec<Vec<char>>)
    ensures
        lines_view(r@) == lines_of(v@),
{
    let mut lines: Vec<Vec<char>> = Vec::new();
    let mut line: Vec<char> = Vec::new();
    let mut start: usize = 0;
    let mut i: usize = 0;
    proof {
        assert(v@.skip(0) == v@);
        assert(lines_view(lines@) + lines_of(v@) == lines_of(v@));
    }
    while i < v.len()
        invariant
            start <= i <= v.len(),
            line@ == v@.subrange(start as int, i as int),
            is_one_line(line@),
            lines_view(lines@) + lines_of(v@.skip(start as int)) == lines_of(v@),
        decreases v.len() - i,
    {
        let c = v[i];
        if c == '\n' {
            proof {
                let here = v@.skip(start as int);
                let rest = v@.skip(i as int);
                assert(here == line@ + rest);
                lemma_first_newline_of(line@, rest);
                assert(here.take(i - start) == line@);
                assert(here.skip(i - start + 1) == v@.skip(i + 1));
                let before = lines_view(lines@);
                assert(lines_view(lines@.push(line)) == before.push(line@));
                assert(before.push(line@) + lines_of(v@.skip(i + 1)) == before + (seq![line@]
                    + lines_of(v@.skip(i + 1))));
            }
            lines.push(line);
            line = Vec::new();
            start = i + 1;
            assert(line@ == v@.subrange(start as int, i + 1));
        } else {
            line.push(c);
            assert(line@ == v@.subrange(start as int, i + 1));
        }
        i = i + 1;
    }
    proof {
        let here = v@.skip(start as int);
        assert(here == line@);
        let before = lines_view(lines@);
        if line@.len() > 0 {
            lemma_first_newline_of(line@, Seq::<char>::empty());
            assert(line@ + Seq::<char>::empty() == line@);
            assert(lines_of(here) == seq![line@]);
            assert(lines_view(lines@.push(line)) == before.push(line@));
            assert(before + seq![line@] == before.push(line@));
        } else {
            assert(before + Seq::<Seq<char>>::empty() == before);
        }
    }
    if line.len() > 0 {
        lines.push(line);
    }
    lines
}

} // verus!
