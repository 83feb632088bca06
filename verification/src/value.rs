//! The value of a clause: free text, or one or more tokens.

use crate::strings::UnquotedString;
use crate::text::{escape, lemma_scan_through, scan, scan_run, string_from, Charset};
use crate::token::{
    check_tokens, clone_tokens, lemma_parse_render_tokens, lemma_parsed_tokens_wf, parse_tokens,
    read_tokens, render_tokens, tokens_view, tokens_wf, write_tokens, Token, TokenView,
};
use crate::trailer::{
    lemma_parse_render_trailer, lemma_parsed_trailer_wf, lemma_trailer_first, parse_trailer,
    render_trailer, Trailer, TrailerView,
};
use vstd::prelude::*;

verus! {

/// The two shapes of a value.
#[derive(Clone, Copy, Debug, PartialEq, Eq, Hash, Structural)]
pub enum Shape {
    Text,
    Tokens,
}

/// What a value is: free text, or a sequence of tokens.
pub enum ValueView {
    Text(Seq<char>),
    Tokens(Seq<TokenView>),
}

impl ValueView {
    /// The shape of the value.
    pub open spec fn shape(self) -> Shape {
        match self {
            ValueView::Text(_) => Shape::Text,
            ValueView::Tokens(_) => Shape::Tokens,
        }
    }

    /// What can be written and read back: any text, or one or more tokens
    /// each of which can.
    pub open spec fn wf(self) -> bool {
        match self {
            ValueView::Text(_) => true,
            ValueView::Tokens(ts) => tokens_wf(ts),
        }
    }
}

/// The text of a value.
pub open spec fn render_value(v: ValueView) -> Seq<char> {
    match v {
        ValueView::Text(t) => escape(Charset::Unquoted, t),
        ValueView::Tokens(ts) => render_tokens(ts),
    }
}

/// Reads a value of the given shape at the start of `s`, and what stands
/// behind it up to the end of the line. Free text ends at the end of the
/// line or at the space in front of the first unescaped `{` or `!`.
pub open spec fn parse_value(shape: Shape, s: Seq<char>) -> Option<(ValueView, TrailerView)> {
    match shape {
        Shape::Text => match scan(Charset::Unquoted, s) {
            Some((text, n)) => {
                if n == s.len() {
                    Some((ValueView::Text(text), TrailerView::none()))
                } else if 1 <= n < s.len() && s[n - 1] == ' ' && text.len() > 0 && text.last()
                    == ' ' {
                    match parse_trailer(s.skip(n - 1)) {
                        Some(trailer) => Some((ValueView::Text(text.drop_last()), trailer)),
                        None => None,
                    }
                } else {
                    None
                }
            },
            None => None,
        },
        Shape::Tokens => match parse_tokens(s) {
            Some((ts, n)) => if 0 <= n <= s.len() {
                match parse_trailer(s.skip(n)) {
                    Some(trailer) => Some((ValueView::Tokens(ts), trailer)),
                    None => None,
                }
            } else {
                None
            },
            None => None,
        },
    }
}

/// Writing a value with what stands behind it and reading the text back
/// gives both.
pub proof fn lemma_parse_render_value(v: ValueView, t: TrailerView)
    requires
        v.wf(),
        t.wf(),
    ensures
        parse_value(v.shape(), render_value(v) + render_trailer(t)) == Some((v, t)),
{
    let tr = render_trailer(t);
    let s = render_value(v) + tr;
    lemma_trailer_first(t);
    lemma_parse_render_trailer(t);
    match v {
        ValueView::Text(text) => {
            let body = escape(Charset::Unquoted, text);
            lemma_scan_through(Charset::Unquoted, Charset::Unquoted, text, tr);
            if tr.len() == 0 {
                assert(text + Seq::<char>::empty() == text);
            } else {
                assert(scan(Charset::Unquoted, tr) == Some((seq![' '], 1int))) by {
                    reveal_with_fuel(scan, 3);
                    assert(seq![' '] + Seq::<char>::empty() == seq![' ']);
                }
                let n = body.len() as int + 1;
                assert((text + seq![' ']).drop_last() == text);
                assert(s.skip(n - 1) == tr);
            }
        },
        ValueView::Tokens(ts) => {
            lemma_parse_render_tokens(ts, tr);
            assert(s.skip(render_tokens(ts).len() as int) == tr);
        },
    }
}

/// The value of a clause: free text, or a sequence of tokens.
#[derive(Debug, PartialEq, Eq, Hash)]
pub enum Value {
    Text(UnquotedString),
    Tokens(Vec<Token>),
}

impl View for Value {
    type V = ValueView;

    open spec fn view(&self) -> ValueView {
        match self {
            Value::Text(t) => ValueView::Text(t@),
            Value::Tokens(ts) => ValueView::Tokens(tokens_view(ts@)),
        }
    }
}

impl Clone for Value {
    fn clone(&self) -> (r: Self)
        ensures
            r@ == self@,
    {
        match self {
            Value::Text(t) => Value::Text(t.clone()),
            Value::Tokens(ts) => Value::Tokens(clone_tokens(ts)),
        }
    }
}

impl Value {
    /// Tests whether the value can be written and read back.
    pub fn is_valid(&self) -> (b: bool)
        ensures
            b == self@.wf(),
    {
        match self {
            Value::Text(_) => true,
            Value::Tokens(ts) => ts.len() > 0 && check_tokens(ts),
        }
    }

    /// Appends the text of the value to `out`.
    pub fn write(&self, out: &mut Vec<char>)
        ensures
            final(out)@ == old(out)@ + render_value(self@),
    {
        match self {
            Value::Text(t) => t.write(out),
            Value::Tokens(ts) => {
                write_tokens(out, ts, 0);
                assert(tokens_view(ts@).skip(0) == tokens_view(ts@));
            },
        }
    }

    /// Reads a value of the given shape at `v[from..to]`, and what stands
    /// behind it up to the end of the line.
    pub fn read(shape: Shape, v: &Vec<char>, from: usize, to: usize) -> (r: Option<
        (Value, Trailer),
    >)
        requires
            from <= to <= v.len(),
        ensures
            match parse_value(shape, v@.subrange(from as int, to as int)) {
                Some((value, trailer)) => r matches Some((found, behind)) && found@ == value
                    && behind@ == trailer && value.wf() && trailer.wf() && value.shape() == shape,
                None => r is None,
            },
    {
        let ghost s = v@.subrange(from as int, to as int);
        match shape {
            Shape::Text => match scan_run(Charset::Unquoted, v, from, to) {
                Some((mut text, end)) => {
                    if end == to {
                        let text = UnquotedString::new(string_from(&text));
                        Some((Value::Text(text), Trailer::none()))
                    } else if end > from && v[end - 1] == ' ' && text.len() > 0 && text[text.len()
                        - 1] == ' ' {
                        assert(s.skip(end - from - 1) == v@.subrange(end - 1, to as int));
                        match Trailer::read(v, end - 1, to) {
                            Some(trailer) => {
                                text.pop();
                                Some(
                                    (Value::Text(UnquotedString::new(string_from(&text))), trailer),
                                )
                            },
                            None => None,
                        }
                    } else {
                        None
                    }
                },
                None => None,
            },
            Shape::Tokens => {
                let mut tokens: Vec<Token> = Vec::new();
                assert(tokens_view(tokens@) == Seq::<TokenView>::empty());
                match read_tokens(v, from, to, &mut tokens) {
                    Some(end) => {
                        assert(s.skip(end - from) == v@.subrange(end as int, to as int));
                        proof {
                            let (ts, n) = parse_tokens(s).unwrap();
                            assert(Seq::<TokenView>::empty() + ts == ts);
                        }
                        match Trailer::read(v, end, to) {
                            Some(trailer) => Some((Value::Tokens(tokens), trailer)),
                            None => None,
                        }
                    },
                    None => None,
                }
            },
        }
    }
}

/// A value that is read from a text, and what is read behind it, can be
/// written and read back, and the value has the shape that was asked for.
pub proof fn lemma_parsed_value_wf(shape: Shape, s: Seq<char>)
    ensures
        parse_value(shape, s) matches Some((v, t)) ==> v.wf() && t.wf() && v.shape() == shape,
{
    match shape {
        Shape::Text => {
            if let Some((text, n)) = scan(Charset::Unquoted, s) {
                if 1 <= n < s.len() {
                    lemma_parsed_trailer_wf(s.skip(n - 1));
                }
            }
        },
        Shape::Tokens => {
            lemma_parsed_tokens_wf(s);
            if let Some((ts, n)) = parse_tokens(s) {
                if 0 <= n <= s.len() {
                    lemma_parsed_trailer_wf(s.skip(n));
                }
            }
        },
    }
}

} // verus!
