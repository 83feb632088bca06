//! The tokens of a clause: identifiers and quoted strings, with one space
//! between one token and the next; and what tokens are taken for: prefixes,
//! URLs, and the words for truth values and for the scopes of synonyms.

use crate::id::{
    lemma_avoids_token, lemma_ident_first, lemma_ident_one_line, lemma_parse_render_ident,
    lemma_parsed_ident_wf, lemma_scan_through_ident, parse_ident, render_ident, Ident, IdentPrefix,
    IdentView, UnprefixedIdent, Url,
};
use crate::strings::{
    lemma_parse_render_quoted_at, lemma_quoted_one_line, parse_quoted_at, render_quoted,
    QuotedString,
};
use crate::synonym::{bool_from_str, bool_of, bool_str, bool_text, SynonymScope};
use crate::text::{is_one_line, lemma_one_line_concat, scan_len, scan_run, Charset};
use crate::xref::{
    check_xrefs, clone_xrefs, lemma_parse_render_xref_list, lemma_parsed_xref_list_wf,
    lemma_xref_list_one_line, parse_xref_list, read_xref_list, render_xref_list, write_xref_list,
    xrefs_view, xrefs_wf, Xref, XrefView,
};
use vstd::prelude::*;

verus! {

/// What a token is: an identifier, the value of a quoted string, or a list
/// of references.
pub enum TokenView {
    Ident(IdentView),
    Quoted(Seq<char>),
    Xrefs(Seq<XrefView>),
}

impl TokenView {
    /// What can be written and read back.
    pub open spec fn wf(self) -> bool {
        match self {
            TokenView::Ident(id) => id.wf(),
            TokenView::Quoted(_) => true,
            TokenView::Xrefs(xs) => xrefs_wf(xs),
        }
    }
}

/// Whether a sequence of tokens can be written and read back: it holds a
/// token, and every token of it can.
pub open spec fn tokens_wf(ts: Seq<TokenView>) -> bool {
    ts.len() > 0 && forall|i: int| 0 <= i < ts.len() ==> (#[trigger] ts[i]).wf()
}

/// The text of a token.
pub open spec fn render_token(t: TokenView) -> Seq<char> {
    match t {
        TokenView::Ident(id) => render_ident(id),
        TokenView::Quoted(q) => render_quoted(q),
        TokenView::Xrefs(xs) => seq!['['] + render_xref_list(xs),
    }
}

/// Reads a token at the start of `s`: a quoted string where `s` begins with
/// a double quote, a list of references where it begins with an opening
/// square bracket, else an identifier that runs up to the first blank.
/// Gives the token and the number of characters that it takes.
#[verifier::opaque]
pub open spec fn parse_token(s: Seq<char>) -> Option<(TokenView, int)> {
    if s.len() > 0 && s[0] == '"' {
        match parse_quoted_at(s) {
            Some((q, n)) => Some((TokenView::Quoted(q), n)),
            None => None,
        }
    } else if s.len() > 0 && s[0] == '[' {
        match parse_xref_list(s.skip(1)) {
            Some((xs, n)) => Some((TokenView::Xrefs(xs), n + 1)),
            None => None,
        }
    } else {
        match scan_len(Charset::Blank, s) {
            Some(n) => match parse_ident(s.take(n)) {
                Some(id) => Some((TokenView::Ident(id), n)),
                None => None,
            },
            None => None,
        }
    }
}

/// Whether `s` begins where the end of a line's value is marked: with a
/// space and then `{` or `!`.
pub open spec fn at_trailer(s: Seq<char>) -> bool {
    s.len() >= 2 && s[0] == ' ' && (s[1] == '{' || s[1] == '!')
}

/// The text of a sequence of tokens: the tokens with one space between
/// them.
pub open spec fn render_tokens(ts: Seq<TokenView>) -> Seq<char>
    decreases ts.len(),
{
    if ts.len() == 0 {
        Seq::<char>::empty()
    } else if ts.len() == 1 {
        render_token(ts[0])
    } else {
        render_token(ts[0]) + seq![' '] + render_tokens(ts.drop_first())
    }
}

/// Reads one or more tokens at the start of `s`, up to the end of `s` or to
/// the space in front of `{` or `!`. Gives the tokens and the number of
/// characters that they take.
pub open spec fn parse_tokens(s: Seq<char>) -> Option<(Seq<TokenView>, int)>
    decreases s.len(),
{
    match parse_token(s) {
        Some((t, n)) => {
            if n < 0 || n > s.len() {
                None
            } else if n == s.len() || at_trailer(s.skip(n)) {
                Some((seq![t], n))
            } else if s[n] == ' ' {
                match parse_tokens(s.skip(n + 1)) {
                    Some((ts, m)) => Some((seq![t] + ts, n + 1 + m)),
                    None => None,
                }
            } else {
                None
            }
        },
        None => None,
    }
}

/// A written token begins neither with a blank nor like the end of a
/// line's value.
pub proof fn lemma_token_first(t: TokenView)
    requires
        t.wf(),
    ensures
        render_token(t).len() > 0,
        render_token(t)[0] != ' ',
        render_token(t)[0] != '{',
        render_token(t)[0] != '!',
        render_token(t)[0] != '}',
{
    match t {
        TokenView::Ident(id) => {
            lemma_ident_first(id);
        },
        TokenView::Quoted(q) => {},
        TokenView::Xrefs(xs) => {},
    }
}

/// Reading goes through a written token, gives the token, and stops right
/// behind it, whenever what follows is nothing or begins with a space.
pub proof fn lemma_parse_render_token(t: TokenView, rest: Seq<char>)
    requires
        t.wf(),
        rest.len() == 0 || rest[0] == ' ',
    ensures
        parse_token(render_token(t) + rest) == Some((t, render_token(t).len() as int)),
{
    reveal(parse_token);
    let s = render_token(t) + rest;
    match t {
        TokenView::Ident(id) => {
            lemma_ident_first(id);
            lemma_avoids_token(id, Charset::Blank);
            lemma_scan_through_ident(Charset::Blank, id, rest);
            assert(scan_len(Charset::Blank, rest) == Some(0int));
            assert(s.take(render_ident(id).len() as int) == render_ident(id));
            lemma_parse_render_ident(id);
        },
        TokenView::Quoted(q) => {
            lemma_parse_render_quoted_at(q, rest);
        },
        TokenView::Xrefs(xs) => {
            assert(s.skip(1) == render_xref_list(xs) + rest);
            lemma_parse_render_xref_list(xs, rest);
        },
    }
}

/// Reading goes through written tokens, gives the tokens, and stops right
/// behind them, whenever what follows is nothing or the end of a line's
/// value.
pub proof fn lemma_parse_render_tokens(ts: Seq<TokenView>, rest: Seq<char>)
    requires
        tokens_wf(ts),
        rest.len() == 0 || at_trailer(rest),
    ensures
        parse_tokens(render_tokens(ts) + rest) == Some((ts, render_tokens(ts).len() as int)),
    decreases ts.len(),
{
    let first = render_token(ts[0]);
    let n = first.len() as int;
    if ts.len() == 1 {
        let s = first + rest;
        lemma_parse_render_token(ts[0], rest);
        assert(s.skip(n) == rest);
        assert(seq![ts[0]] == ts);
    } else {
        let tail = ts.drop_first();
        assert(tokens_wf(tail)) by {
            assert forall|i: int| 0 <= i < tail.len() implies (#[trigger] tail[i]).wf() by {
                assert(tail[i] == ts[i + 1]);
            }
        }
        let after = render_tokens(tail) + rest;
        let s = render_tokens(ts) + rest;
        assert(s == first + (seq![' '] + after));
        lemma_parse_render_token(ts[0], seq![' '] + after);
        lemma_parse_render_tokens(tail, rest);
        lemma_token_first(tail[0]);
        assert(render_tokens(tail).len() > 0 && render_tokens(tail)[0] == render_token(tail[0])[0])
            by {
            if tail.len() > 1 {
                assert(render_tokens(tail) == render_token(tail[0]) + (seq![' ']
                    + render_tokens(tail.drop_first())));
            }
        }
        assert(s.skip(n) == seq![' '] + after);
        assert(s.skip(n)[1] == after[0]);
        assert(!at_trailer(s.skip(n)));
        assert(s.skip(n + 1) == after);
        assert(seq![ts[0]] + tail == ts);
    }
}

/// Written tokens hold no line feed.
pub proof fn lemma_tokens_one_line(ts: Seq<TokenView>)
    requires
        forall|i: int| 0 <= i < ts.len() ==> (#[trigger] ts[i]).wf(),
    ensures
        is_one_line(render_tokens(ts)),
    decreases ts.len(),
{
    if ts.len() > 0 {
        match ts[0] {
            TokenView::Ident(id) => {
                lemma_ident_one_line(id);
            },
            TokenView::Quoted(q) => {
                lemma_quoted_one_line(q);
            },
            TokenView::Xrefs(xs) => {
                lemma_xref_list_one_line(xs);
                lemma_one_line_concat(seq!['['], render_xref_list(xs));
            },
        }
        if ts.len() > 1 {
            let tail = ts.drop_first();
            assert forall|i: int| 0 <= i < tail.len() implies (#[trigger] tail[i]).wf() by {
                assert(tail[i] == ts[i + 1]);
            }
            lemma_tokens_one_line(tail);
            lemma_one_line_concat(render_token(ts[0]), seq![' ']);
            lemma_one_line_concat(render_token(ts[0]) + seq![' '], render_tokens(tail));
        }
    }
}

/// A token of a line: an identifier, a quoted string, or a list of
/// references between square brackets.
#[derive(Debug, PartialEq, Eq, Hash)]
pub enum Token {
    Ident(Ident),
    Quoted(QuotedString),
    Xrefs(Vec<Xref>),
}

impl View for Token {
    type V = TokenView;

    open spec fn view(&self) -> TokenView {
        match self {
            Token::Ident(id) => TokenView::Ident(id@),
            Token::Quoted(q) => TokenView::Quoted(q@),
            Token::Xrefs(xs) => TokenView::Xrefs(xrefs_view(xs@)),
        }
    }
}

impl Clone for Token {
    fn clone(&self) -> (r: Self)
        ensures
            r@ == self@,
    {
        match self {
            Token::Ident(id) => Token::Ident(id.clone()),
            Token::Quoted(q) => Token::Quoted(q.clone()),
            Token::Xrefs(xs) => Token::Xrefs(clone_xrefs(xs)),
        }
    }
}

impl Token {
    /// Tests whether the token can be written and read back.
    pub fn is_valid(&self) -> (b: bool)
        ensures
            b == self@.wf(),
    {
        match self {
            Token::Ident(id) => id.is_valid(),
            Token::Quoted(_) => true,
            Token::Xrefs(xs) => check_xrefs(xs),
        }
    }

    /// Appends the text of the token to `out`.
    pub fn write(&self, out: &mut Vec<char>)
        ensures
            final(out)@ == old(out)@ + render_token(self@),
    {
        match self {
            Token::Ident(id) => id.write(out),
            Token::Quoted(q) => q.write(out),
            Token::Xrefs(xs) => {
                out.push('[');
                write_xref_list(out, xs, 0);
                assert(xrefs_view(xs@).skip(0) == xrefs_view(xs@));
            },
        }
    }

    /// Reads a token at `v[from..to]`: gives the token and the position
    /// right behind it.
    pub fn read(v: &Vec<char>, from: usize, to: usize) -> (r: Option<(Token, usize)>)
        requires
            from <= to <= v.len(),
        ensures
            match parse_token(v@.subrange(from as int, to as int)) {
                Some((t, n)) => r matches Some((token, end)) && token@ == t && end == from + n
                    && from <= end <= to && t.wf(),
                None => r is None,
            },
    {
        let ghost s = v@.subrange(from as int, to as int);
        proof {
            reveal(parse_token);
        }
        if from < to && v[from] == '"' {
            match QuotedString::read(v, from, to) {
                Some((q, end)) => Some((Token::Quoted(q), end)),
                None => None,
            }
        } else if from < to && v[from] == '[' {
            assert(s.skip(1) == v@.subrange(from + 1, to as int));
            match read_xref_list(v, from + 1, to) {
                Some((xs, end)) => Some((Token::Xrefs(xs), end)),
                None => None,
            }
        } else {
            match scan_run(Charset::Blank, v, from, to) {
                Some((_, end)) => {
                    assert(s.take(end - from) == v@.subrange(from as int, end as int));
                    match Ident::from_chars(v, from, end) {
                        Ok(id) => Some((Token::Ident(id), end)),
                        Err(_) => None,
                    }
                },
                None => None,
            }
        }
    }
}

/// What a sequence of tokens is.
pub open spec fn tokens_view(v: Seq<Token>) -> Seq<TokenView> {
    v.map_values(|t: Token| t@)
}

/// Tests whether every token of a sequence can be written and read back.
pub fn check_tokens(tokens: &Vec<Token>) -> (b: bool)
    ensures
        b == forall|i: int|
            0 <= i < tokens@.len() ==> (#[trigger] tokens_view(tokens@)[i]).wf(),
{
    let mut i: usize = 0;
    while i < tokens.len()
        invariant
            i <= tokens.len(),
            forall|j: int| 0 <= j < i ==> (#[trigger] tokens_view(tokens@)[j]).wf(),
        decreases tokens.len() - i,
    {
        if !tokens[i].is_valid() {
            assert(!tokens_view(tokens@)[i as int].wf());
            return false;
        }
        i = i + 1;
    }
    true
}

/// Copies a sequence of tokens.
pub fn clone_tokens(v: &Vec<Token>) -> (r: Vec<Token>)
    ensures
        tokens_view(r@) == tokens_view(v@),
{
    let mut r: Vec<Token> = Vec::new();
    let mut i: usize = 0;
    while i < v.len()
        invariant
            i <= v.len(),
            tokens_view(r@) == tokens_view(v@.take(i as int)),
        decreases v.len() - i,
    {
        let item = v[i].clone();
        let ghost before = r@;
        r.push(item);
        proof {
            let done = v@.take(i as int);
            assert(v@.take(i + 1) == done.push(v@[i as int]));
            assert(tokens_view(before.push(item)) == tokens_view(before).push(item@));
            assert(tokens_view(done.push(v@[i as int])) == tokens_view(done).push(v@[i as int]@));
        }
        i = i + 1;
    }
    assert(v@.take(v@.len() as int) == v@);
    r
}

/// Appends to `out` the text of the tokens from the `i`-th on.
pub fn write_tokens(out: &mut Vec<char>, tokens: &Vec<Token>, i: usize)
    requires
        i <= tokens.len(),
    ensures
        final(out)@ == old(out)@ + render_tokens(tokens_view(tokens@).skip(i as int)),
    decreases tokens.len() - i,
{
    let ghost ts = tokens_view(tokens@).skip(i as int);
    if i < tokens.len() {
        tokens[i].write(out);
        if i + 1 < tokens.len() {
            out.push(' ');
            write_tokens(out, tokens, i + 1);
            assert(ts.drop_first() == tokens_view(tokens@).skip(i + 1));
        }
        assert(out@ == old(out)@ + render_tokens(ts));
    } else {
        assert(out@ == old(out)@ + render_tokens(ts));
    }
}

/// Reads one or more tokens at `v[from..to]` and appends them to `acc`:
/// gives the position right behind the last one.
pub fn read_tokens(v: &Vec<char>, from: usize, to: usize, acc: &mut Vec<Token>) -> (r: Option<
    usize,
>)
    requires
        from <= to <= v.len(),
    ensures
        match parse_tokens(v@.subrange(from as int, to as int)) {
            Some((ts, n)) => r == Some((from + n) as usize) && from <= from + n <= to
                && tokens_view(final(acc)@) == tokens_view(old(acc)@) + ts && tokens_wf(
                ts,
            ),
            None => r is None,
        },
    decreases to - from,
{
    let ghost s = v@.subrange(from as int, to as int);
    match Token::read(v, from, to) {
        Some((token, end)) => {
            let ghost t = token@;
            let ghost before = tokens_view(acc@);
            acc.push(token);
            assert(tokens_view(acc@) == before + seq![t]);
            assert(s.skip(end - from) == v@.subrange(end as int, to as int));
            let trailer = to - end >= 2 && v[end] == ' ' && (v[end + 1] == '{' || v[end + 1]
                == '!');
            if end == to || trailer {
                Some(end)
            } else if v[end] == ' ' {
                assert(s.skip(end - from + 1) == v@.subrange(end + 1, to as int));
                let r = read_tokens(v, end + 1, to, acc);
                proof {
                    if let Some((ts, m)) = parse_tokens(s.skip(end - from + 1)) {
                        assert(before + seq![t] + ts == before + (seq![t] + ts));
                    }
                }
                r
            } else {
                None
            }
        },
        None => None,
    }
}

/// A token that is read from a text can be written and read back.
pub proof fn lemma_parsed_token_wf(s: Seq<char>)
    ensures
        parse_token(s) matches Some((t, n)) ==> t.wf(),
{
    reveal(parse_token);
    if s.len() > 0 && s[0] == '[' {
        lemma_parsed_xref_list_wf(s.skip(1));
    } else if let Some(n) = scan_len(Charset::Blank, s) {
        lemma_parsed_ident_wf(s.take(n));
    }
}

/// Tokens that are read from a text can be written and read back.
pub proof fn lemma_parsed_tokens_wf(s: Seq<char>)
    ensures
        parse_tokens(s) matches Some((ts, n)) ==> tokens_wf(ts),
    decreases s.len(),
{
    lemma_parsed_token_wf(s);
    if let Some((t, n)) = parse_token(s) {
        if 0 <= n < s.len() && !at_trailer(s.skip(n)) && s[n] == ' ' {
            lemma_parsed_tokens_wf(s.skip(n + 1));
            if let Some((ts, m)) = parse_tokens(s.skip(n + 1)) {
                let all = seq![t] + ts;
                assert forall|i: int| 0 <= i < all.len() implies (#[trigger] all[i]).wf() by {
                    if i > 0 {
                        assert(all[i] == ts[i - 1]);
                    }
                }
            }
        }
    }
}

/// The token that a word is written as: an unprefixed identifier.
pub open spec fn word(text: Seq<char>) -> TokenView {
    TokenView::Ident(IdentView::Unprefixed(text))
}

/// The token that a URL is written as.
pub open spec fn url_token(text: Seq<char>) -> TokenView {
    TokenView::Ident(IdentView::Url(text))
}

/// The word of a token, if the token is a word.
pub open spec fn word_of(t: TokenView) -> Option<Seq<char>> {
    match t {
        TokenView::Ident(IdentView::Unprefixed(text)) => Some(text),
        _ => None,
    }
}

/// Whether a token is the word of a truth value.
pub open spec fn is_bool_token(t: TokenView) -> bool {
    word_of(t) matches Some(text) && bool_of(text) is Some
}

/// Whether a token is the word of a scope.
pub open spec fn is_scope_token(t: TokenView) -> bool {
    word_of(t) matches Some(text) && SynonymScope::of(text) is Some
}

/// Whether a token is a URL.
pub open spec fn is_url_token(t: TokenView) -> bool {
    t matches TokenView::Ident(IdentView::Url(_))
}

impl Token {
    /// The token of a word.
    pub fn from_word(text: &str) -> (r: Token)
        ensures
            r@ == word(text@),
    {
        Token::Ident(Ident::Unprefixed(UnprefixedIdent::new(text.to_owned())))
    }

    /// The token of a prefix.
    pub fn from_prefix(prefix: &IdentPrefix) -> (r: Token)
        ensures
            r@ == word(prefix@),
    {
        Token::from_word(prefix.as_str())
    }

    /// The token of a truth value.
    pub fn from_bool(b: bool) -> (r: Token)
        ensures
            r@ == word(bool_text(b)),
    {
        Token::from_word(bool_str(b))
    }

    /// The token of a scope.
    pub fn from_scope(scope: SynonymScope) -> (r: Token)
        ensures
            r@ == word(scope.text()),
    {
        Token::from_word(scope.as_str())
    }

    /// The token of a URL.
    pub fn from_url(url: &Url) -> (r: Token)
        ensures
            r@ == url_token(url@),
    {
        Token::Ident(Ident::Url(url.clone()))
    }

    /// The identifier that the token is, if it is one.
    pub fn into_ident(self) -> (r: Option<Ident>)
        ensures
            match self@ {
                TokenView::Ident(id) => r matches Some(found) && found@ == id,
                _ => r is None,
            },
    {
        match self {
            Token::Ident(id) => Some(id),
            _ => None,
        }
    }

    /// The quoted string that the token is, if it is one.
    pub fn into_quoted(self) -> (r: Option<QuotedString>)
        ensures
            match self@ {
                TokenView::Quoted(q) => r matches Some(found) && found@ == q,
                _ => r is None,
            },
    {
        match self {
            Token::Quoted(q) => Some(q),
            _ => None,
        }
    }

    /// The list of references that the token is, if it is one.
    pub fn into_xrefs(self) -> (r: Option<Vec<Xref>>)
        ensures
            match self@ {
                TokenView::Xrefs(xs) => r matches Some(found) && xrefs_view(found@) == xs,
                _ => r is None,
            },
    {
        match self {
            Token::Xrefs(xs) => Some(xs),
            _ => None,
        }
    }

    /// The prefix that the token is the word of, if it is a word.
    pub fn into_prefix(self) -> (r: Option<IdentPrefix>)
        ensures
            match word_of(self@) {
                Some(text) => r matches Some(found) && found@ == text,
                None => r is None,
            },
    {
        match self {
            Token::Ident(Ident::Unprefixed(u)) => Some(IdentPrefix::new(u.into_string())),
            _ => None,
        }
    }

    /// The URL that the token is, if it is one.
    pub fn into_url(self) -> (r: Option<Url>)
        ensures
            match self@ {
                TokenView::Ident(IdentView::Url(text)) => r matches Some(found) && found@ == text,
                _ => r is None,
            },
    {
        match self {
            Token::Ident(Ident::Url(url)) => Some(url),
            _ => None,
        }
    }

    /// The truth value that the token is the word of, if it is one.
    pub fn into_bool(self) -> (r: Option<bool>)
        ensures
            match word_of(self@) {
                Some(text) => r == bool_of(text),
                None => r is None,
            },
    {
        match self {
            Token::Ident(Ident::Unprefixed(u)) => bool_from_str(u.as_str()),
            _ => None,
        }
    }

    /// The scope that the token is the word of, if it is one.
    pub fn into_scope(self) -> (r: Option<SynonymScope>)
        ensures
            match word_of(self@) {
                Some(text) => r == SynonymScope::of(text),
                None => r is None,
            },
    {
        match self {
            Token::Ident(Ident::Unprefixed(u)) => SynonymScope::from_str(u.as_str()),
            _ => None,
        }
    }
}

/// The only token of a sequence, if the sequence holds one token.
pub fn take_one(tokens: Vec<Token>) -> (r: Option<Token>)
    ensures
        match r {
            Some(a) => tokens_view(tokens@) == seq![a@],
            None => tokens@.len() != 1,
        },
{
    let ghost ts = tokens_view(tokens@);
    let mut tokens = tokens;
    if tokens.len() == 1 {
        let a = tokens.pop().unwrap();
        assert(ts == seq![a@]);
        Some(a)
    } else {
        None
    }
}

/// The two tokens of a sequence, if the sequence holds two tokens.
pub fn take_two(tokens: Vec<Token>) -> (r: Option<(Token, Token)>)
    ensures
        match r {
            Some((a, b)) => tokens_view(tokens@) == seq![a@, b@],
            None => tokens@.len() != 2,
        },
{
    let ghost ts = tokens_view(tokens@);
    let mut tokens = tokens;
    if tokens.len() == 2 {
        let b = tokens.pop().unwrap();
        let a = tokens.pop().unwrap();
        assert(ts == seq![a@, b@]);
        Some((a, b))
    } else {
        None
    }
}

/// The three tokens of a sequence, if the sequence holds three tokens.
pub fn take_three(tokens: Vec<Token>) -> (r: Option<(Token, Token, Token)>)
    ensures
        match r {
            Some((a, b, c)) => tokens_view(tokens@) == seq![a@, b@, c@],
            None => tokens@.len() != 3,
        },
{
    let ghost ts = tokens_view(tokens@);
    let mut tokens = tokens;
    if tokens.len() == 3 {
        let c = tokens.pop().unwrap();
        let b = tokens.pop().unwrap();
        let a = tokens.pop().unwrap();
        assert(ts == seq![a@, b@, c@]);
        Some((a, b, c))
    } else {
        None
    }
}

/// The four tokens of a sequence, if the sequence holds four tokens.
pub fn take_four(tokens: Vec<Token>) -> (r: Option<(Token, Token, Token, Token)>)
    ensures
        match r {
            Some((a, b, c, d)) => tokens_view(tokens@) == seq![a@, b@, c@, d@],
            None => tokens@.len() != 4,
        },
{
    let ghost ts = tokens_view(tokens@);
    let mut tokens = tokens;
    if tokens.len() == 4 {
        let d = tokens.pop().unwrap();
        let c = tokens.pop().unwrap();
        let b = tokens.pop().unwrap();
        let a = tokens.pop().unwrap();
        assert(ts == seq![a@, b@, c@, d@]);
        Some((a, b, c, d))
    } else {
        None
    }
}

/// The tokens of a sequence that holds one token or two: the first, and
/// the second if there is one.
pub fn take_one_or_two(tokens: Vec<Token>) -> (r: Option<(Token, Option<Token>)>)
    ensures
        match r {
            Some((a, None)) => tokens_view(tokens@) == seq![a@],
            Some((a, Some(b))) => tokens_view(tokens@) == seq![a@, b@],
            None => tokens@.len() != 1 && tokens@.len() != 2,
        },
{
    let ghost ts = tokens_view(tokens@);
    let mut tokens = tokens;
    if tokens.len() == 1 {
        let a = tokens.pop().unwrap();
        assert(ts == seq![a@]);
        Some((a, None))
    } else if tokens.len() == 2 {
        let b = tokens.pop().unwrap();
        let a = tokens.pop().unwrap();
        assert(ts == seq![a@, b@]);
        Some((a, Some(b)))
    } else {
        None
    }
}

/// The tokens of a sequence that holds two tokens or three: the first two,
/// and the third if there is one.
pub fn take_two_or_three(tokens: Vec<Token>) -> (r: Option<(Token, Token, Option<Token>)>)
    ensures
        match r {
            Some((a, b, None)) => tokens_view(tokens@) == seq![a@, b@],
            Some((a, b, Some(c))) => tokens_view(tokens@) == seq![a@, b@, c@],
            None => tokens@.len() != 2 && tokens@.len() != 3,
        },
{
    let ghost ts = tokens_view(tokens@);
    let mut tokens = tokens;
    if tokens.len() == 2 {
        let b = tokens.pop().unwrap();
        let a = tokens.pop().unwrap();
        assert(ts == seq![a@, b@]);
        Some((a, b, None))
    } else if tokens.len() == 3 {
        let c = tokens.pop().unwrap();
        let b = tokens.pop().unwrap();
        let a = tokens.pop().unwrap();
        assert(ts == seq![a@, b@, c@]);
        Some((a, b, Some(c)))
    } else {
        None
    }
}

} // verus!
