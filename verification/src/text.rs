//! Character-level utilities: conversion between strings and character
//! vectors, character sets, and the escaping scheme of the format.
//!
//! A value is written with a backslash in front of every character that is
//! reserved where it stands; line breaks, form feeds and tabs are written as
//! `\n`, `\r`, `\f` and `\t`. Reading undoes this: a backslash followed by
//! one of those four letters gives the control character, a backslash
//! followed by anything else gives that character.

use vstd::prelude::*;

verus! {

/// Appends one character to a string.
///
/// Trusted: states what `String::push` does, namely that the new contents
/// are the old contents followed by `c`.
#[verifier::external_body]
pub(crate) fn push_char(s: &mut String, c: char)
    ensures
        final(s)@ == old(s)@.push(c),
{
    s.push(c)
}

/// Collects the characters of a string slice into a vector.
pub fn chars_of(s: &str) -> (v: Vec<char>)
    ensures
        v@ == s@,
{
    let mut v: Vec<char> = Vec::new();
    for c in it: s.chars()
        invariant
            it.seq() == s@,
            v@ == it.seq().take(it.index() as int),
    {
        v.push(c);
    }
    assert(v@ == s@);
    v
}

/// Builds a string from all the characters of `v`.
pub fn string_from(v: &Vec<char>) -> (s: String)
    ensures
        s@ == v@,
{
    assert(v@.subrange(0, v@.len() as int) == v@);
    string_of(v, 0, v.len())
}

/// Builds a string from the characters `v[from..to]`.
pub fn string_of(v: &Vec<char>, from: usize, to: usize) -> (s: String)
    requires
        from <= to <= v.len(),
    ensures
        s@ == v@.subrange(from as int, to as int),
{
    let mut s = String::new();
    let mut i: usize = from;
    while i < to
        invariant
            from <= i <= to <= v.len(),
            s@ == v@.subrange(from as int, i as int),
        decreases to - i,
    {
        push_char(&mut s, v[i]);
        i = i + 1;
    }
    s
}

/// Appends the characters of `text` to `out`.
pub fn push_chars(out: &mut Vec<char>, text: &str)
    ensures
        final(out)@ == old(out)@ + text@,
{
    for c in it: text.chars()
        invariant
            it.seq() == text@,
            out@ == old(out)@ + it.seq().take(it.index() as int),
    {
        out.push(c);
    }
    assert(text@.take(text@.len() as int) == text@);
}

/// Tests whether `v[from..to]` is the text `text`.
pub fn chars_eq(v: &Vec<char>, from: usize, to: usize, text: &str) -> (b: bool)
    requires
        from <= to <= v.len(),
    ensures
        b == (v@.subrange(from as int, to as int) == text@),
{
    let ghost s = v@.subrange(from as int, to as int);
    let t = chars_of(text);
    if t.len() != to - from {
        return false;
    }
    let mut i: usize = 0;
    while i < t.len()
        invariant
            from <= to <= v.len(),
            t.len() == to - from,
            t@ == text@,
            i <= t.len(),
            s == v@.subrange(from as int, to as int),
            forall|j: int| 0 <= j < i ==> s[j] == t@[j],
        decreases t.len() - i,
    {
        assert(s[i as int] == v@[from + i]);
        if v[from + i] != t[i] {
            return false;
        }
        i = i + 1;
    }
    assert(s == t@);
    true
}

/// Tests whether two texts are the same.
pub fn str_eq(a: &str, b: &str) -> (r: bool)
    ensures
        r == (a@ == b@),
{
    let v = chars_of(a);
    assert(v@.subrange(0, v@.len() as int) == v@);
    chars_eq(&v, 0, v.len(), b)
}

/// Line feed, carriage return or form feed.
pub open spec fn is_newline(c: char) -> bool {
    c == '\n' || c == '\r' || c == '\u{c}'
}

/// Space or tab.
pub open spec fn is_blank(c: char) -> bool {
    c == ' ' || c == '\t'
}

/// The sets of characters that matter to the format. No set holds the
/// backslash, which is special everywhere, nor a letter.
#[derive(Clone, Copy, Debug)]
pub enum Charset {
    /// Reserved inside an identifier: the colon, the comma, blanks, line
    /// breaks, the double quote, `!`, and the brackets `{`, `}`, `[`, `]`.
    Ident,
    /// Reserved inside a quoted string: the double quote and line breaks.
    Quoted,
    /// Reserved inside free text: `!`, `{` and line breaks.
    Unquoted,
    /// Space and tab.
    Blank,
    /// The double quote alone.
    Quote,
    /// What no token of a line may hold unescaped: blanks, line breaks and
    /// the double quote.
    Token,
    /// What ends an identifier in a list of references: a blank, a comma
    /// or a closing square bracket.
    Xref,
}

impl Charset {
    /// Membership of `c` in the set.
    pub open spec fn contains(self, c: char) -> bool {
        match self {
            Charset::Ident => c == ':' || c == ',' || is_blank(c) || is_newline(c) || c == '"'
                || c == '!' || c == '{' || c == '}' || c == '[' || c == ']',
            Charset::Quoted => c == '"' || is_newline(c),
            Charset::Unquoted => c == '!' || c == '{' || is_newline(c),
            Charset::Blank => is_blank(c),
            Charset::Quote => c == '"',
            Charset::Token => is_blank(c) || is_newline(c) || c == '"',
            Charset::Xref => is_blank(c) || c == ',' || c == ']',
        }
    }

    /// Whether every character of `self` is also in `other`.
    pub open spec fn within(self, other: Charset) -> bool {
        forall|c: char| self.contains(c) ==> other.contains(c)
    }

    /// Tests membership of `c` in the set.
    pub fn has(self, c: char) -> (b: bool)
        ensures
            b == self.contains(c),
    {
        let newline = c == '\n' || c == '\r' || c == '\u{c}';
        let blank = c == ' ' || c == '\t';
        match self {
            Charset::Ident => c == ':' || c == ',' || blank || newline || c == '"' || c == '!'
                || c == '{' || c == '}' || c == '[' || c == ']',
            Charset::Quoted => c == '"' || newline,
            Charset::Unquoted => c == '!' || c == '{' || newline,
            Charset::Blank => blank,
            Charset::Quote => c == '"',
            Charset::Token => blank || newline || c == '"',
            Charset::Xref => blank || c == ',' || c == ']',
        }
    }
}

/// The character written after the backslash when `c` is escaped.
pub open spec fn escape_letter(c: char) -> char {
    if c == '\n' {
        'n'
    } else if c == '\r' {
        'r'
    } else if c == '\u{c}' {
        'f'
    } else if c == '\t' {
        't'
    } else {
        c
    }
}

/// The character meant by a backslash followed by `c`.
pub open spec fn unescape_letter(c: char) -> char {
    if c == 'n' {
        '\n'
    } else if c == 'r' {
        '\r'
    } else if c == 'f' {
        '\u{c}'
    } else if c == 't' {
        '\t'
    } else {
        c
    }
}

/// How one character is written where the characters of `set` are reserved.
pub open spec fn escape_char(set: Charset, c: char) -> Seq<char> {
    if c == '\\' || set.contains(c) {
        seq!['\\', escape_letter(c)]
    } else {
        seq![c]
    }
}

/// How a value is written where the characters of `set` are reserved.
pub open spec fn escape(set: Charset, s: Seq<char>) -> Seq<char>
    decreases s.len(),
{
    if s.len() == 0 {
        Seq::<char>::empty()
    } else {
        escape_char(set, s[0]) + escape(set, s.drop_first())
    }
}

/// Reads the longest run of plain and escaped characters at the start of
/// `s`, stopping in front of the first unescaped character of `stop`. Gives
/// the value read, with the escapes undone, and the number of characters
/// consumed; `None` if the run ends in a lone backslash.
pub open spec fn scan(stop: Charset, s: Seq<char>) -> Option<(Seq<char>, int)>
    decreases s.len(),
{
    if s.len() == 0 {
        Some((Seq::<char>::empty(), 0int))
    } else if s[0] == '\\' {
        if s.len() < 2 {
            None
        } else {
            match scan(stop, s.skip(2)) {
                Some((v, n)) => Some((seq![unescape_letter(s[1])] + v, n + 2)),
                None => None,
            }
        }
    } else if stop.contains(s[0]) {
        Some((Seq::<char>::empty(), 0int))
    } else {
        match scan(stop, s.skip(1)) {
            Some((v, n)) => Some((seq![s[0]] + v, n + 1)),
            None => None,
        }
    }
}

/// The value of a token that `scan` must consume whole.
pub open spec fn scan_all(stop: Charset, s: Seq<char>) -> Option<Seq<char>> {
    match scan(stop, s) {
        Some((v, n)) => if n == s.len() {
            Some(v)
        } else {
            None
        },
        None => None,
    }
}

/// Whether `t` holds neither a backslash nor a character of `set`.
pub open spec fn is_plain(set: Charset, t: Seq<char>) -> bool {
    forall|i: int| 0 <= i < t.len() ==> t[i] != '\\' && !set.contains(#[trigger] t[i])
}

/// A text that holds no character of a set holds none of a set within it.
pub proof fn lemma_plain_within(stop: Charset, set: Charset, t: Seq<char>)
    requires
        stop.within(set),
        is_plain(set, t),
    ensures
        is_plain(stop, t),
{
    assert forall|i: int| 0 <= i < t.len() implies t[i] != '\\' && !stop.contains(
        #[trigger] t[i],
    ) by {
        if stop.contains(t[i]) {
            assert(set.contains(t[i]));
        }
    }
}

/// Tests whether `text` holds neither a backslash nor a character of `set`.
pub fn check_plain(set: Charset, text: &str) -> (b: bool)
    ensures
        b == is_plain(set, text@),
{
    let v = chars_of(text);
    let mut i: usize = 0;
    while i < v.len()
        invariant
            i <= v.len(),
            v@ == text@,
            forall|j: int| 0 <= j < i ==> v@[j] != '\\' && !set.contains(#[trigger] v@[j]),
        decreases v.len() - i,
    {
        if v[i] == '\\' || set.has(v[i]) {
            return false;
        }
        i = i + 1;
    }
    true
}

/// `scan` never consumes more than there is.
pub proof fn lemma_scan_bounds(stop: Charset, s: Seq<char>)
    ensures
        scan(stop, s) matches Some((v, n)) ==> 0 <= n <= s.len() && v.len() <= n,
    decreases s.len(),
{
    if s.len() == 0 {
    } else if s[0] == '\\' {
        if s.len() >= 2 {
            lemma_scan_bounds(stop, s.skip(2));
        }
    } else if stop.contains(s[0]) {
    } else {
        lemma_scan_bounds(stop, s.skip(1));
    }
}

/// Escaping distributes over concatenation.
pub proof fn lemma_escape_concat(set: Charset, a: Seq<char>, b: Seq<char>)
    ensures
        escape(set, a + b) == escape(set, a) + escape(set, b),
    decreases a.len(),
{
    if a.len() == 0 {
        assert(a + b == b);
    } else {
        assert((a + b).drop_first() == a.drop_first() + b);
        lemma_escape_concat(set, a.drop_first(), b);
    }
}

/// What `scan` gives for `rest`, with the value `v` and `n` more characters
/// in front of it.
pub open spec fn scan_after(v: Seq<char>, n: int, rest: Option<(Seq<char>, int)>) -> Option<
    (Seq<char>, int),
> {
    match rest {
        Some((w, m)) => Some((v + w, n + m)),
        None => None,
    }
}

/// Reading goes through an escaped value and on into what follows it,
/// whenever the stop characters are among those that were escaped.
pub proof fn lemma_scan_through(stop: Charset, set: Charset, v: Seq<char>, rest: Seq<char>)
    requires
        stop.within(set),
    ensures
        scan(stop, escape(set, v) + rest) == scan_after(
            v,
            escape(set, v).len() as int,
            scan(stop, rest),
        ),
    decreases v.len(),
{
    let whole = escape(set, v) + rest;
    if v.len() == 0 {
        assert(whole == rest);
        match scan(stop, rest) {
            Some((w, m)) => {
                assert(v + w == w);
            },
            None => {},
        }
    } else {
        let c = v[0];
        let tail = v.drop_first();
        lemma_scan_through(stop, set, tail, rest);
        if c == '\\' || set.contains(c) {
            assert(whole.skip(2) == escape(set, tail) + rest);
            assert(unescape_letter(escape_letter(c)) == c);
        } else {
            assert(whole.skip(1) == escape(set, tail) + rest);
        }
        match scan(stop, rest) {
            Some((w, m)) => {
                assert(seq![c] + (tail + w) == v + w);
            },
            None => {},
        }
    }
}

/// Reading back an escaped value gives the value, and stops exactly at its
/// end, whenever what follows is nothing or a stop character.
pub proof fn lemma_scan_escaped(stop: Charset, set: Charset, v: Seq<char>, rest: Seq<char>)
    requires
        stop.within(set),
        rest.len() == 0 || stop.contains(rest[0]),
    ensures
        scan(stop, escape(set, v) + rest) == Some((v, escape(set, v).len() as int)),
{
    lemma_scan_through(stop, set, v, rest);
    assert(v + Seq::<char>::empty() == v);
}

/// Reading goes through a text without backslashes or stop characters and
/// on into what follows it.
pub proof fn lemma_scan_plain_through(stop: Charset, t: Seq<char>, rest: Seq<char>)
    requires
        is_plain(stop, t),
    ensures
        scan(stop, t + rest) == scan_after(t, t.len() as int, scan(stop, rest)),
    decreases t.len(),
{
    let whole = t + rest;
    if t.len() == 0 {
        assert(whole == rest);
        match scan(stop, rest) {
            Some((w, m)) => {
                assert(t + w == w);
            },
            None => {},
        }
    } else {
        let tail = t.drop_first();
        assert(whole[0] == t[0]);
        assert forall|i: int| 0 <= i < tail.len() implies tail[i] != '\\' && !stop.contains(
            #[trigger] tail[i],
        ) by {
            assert(tail[i] == t[i + 1]);
        }
        lemma_scan_plain_through(stop, tail, rest);
        assert(whole.skip(1) == tail + rest);
        match scan(stop, rest) {
            Some((w, m)) => {
                assert(seq![t[0]] + (tail + w) == t + w);
            },
            None => {},
        }
    }
}

/// The first character of an escaped value: a backslash where the value's
/// first character is escaped, else that character itself.
pub proof fn lemma_escape_first(set: Charset, v: Seq<char>)
    requires
        v.len() > 0,
    ensures
        escape(set, v).len() > 0,
        escape(set, v)[0] == (if v[0] == '\\' || set.contains(v[0]) {
            '\\'
        } else {
            v[0]
        }),
        !(v[0] == '\\' || set.contains(v[0])) ==> escape(set, v).skip(1) == escape(
            set,
            v.drop_first(),
        ),
{
}

/// A text without backslashes or reserved characters is its own escaped
/// form.
pub proof fn lemma_escape_plain(set: Charset, t: Seq<char>)
    requires
        is_plain(set, t),
    ensures
        escape(set, t) == t,
    decreases t.len(),
{
    if t.len() > 0 {
        let tail = t.drop_first();
        assert forall|i: int| 0 <= i < tail.len() implies tail[i] != '\\' && !set.contains(
            #[trigger] tail[i],
        ) by {
            assert(tail[i] == t[i + 1]);
        }
        lemma_escape_plain(set, tail);
        assert(seq![t[0]] + tail == t);
    }
}

/// Whether a text holds no line feed.
pub open spec fn is_one_line(t: Seq<char>) -> bool {
    forall|i: int| 0 <= i < t.len() ==> #[trigger] t[i] != '\n'
}

/// Two texts without line feeds make a text without line feeds.
pub proof fn lemma_one_line_concat(a: Seq<char>, b: Seq<char>)
    requires
        is_one_line(a),
        is_one_line(b),
    ensures
        is_one_line(a + b),
{
    assert forall|i: int| 0 <= i < (a + b).len() implies #[trigger] (a + b)[i] != '\n' by {
        if i < a.len() {
            assert((a + b)[i] == a[i]);
        } else {
            assert((a + b)[i] == b[i - a.len()]);
        }
    }
}

/// A value that is written where the line feed is reserved is written
/// without line feeds.
pub proof fn lemma_escape_one_line(set: Charset, v: Seq<char>)
    requires
        set.contains('\n'),
    ensures
        is_one_line(escape(set, v)),
    decreases v.len(),
{
    if v.len() > 0 {
        lemma_escape_one_line(set, v.drop_first());
        lemma_one_line_concat(escape_char(set, v[0]), escape(set, v.drop_first()));
    }
}

/// Whether a text holds no backslash, so that it is read as it stands.
pub open spec fn is_verbatim(t: Seq<char>) -> bool {
    forall|i: int| 0 <= i < t.len() ==> #[trigger] t[i] != '\\'
}

/// Reading a text without backslashes gives the text itself, up to the
/// first stop character.
pub proof fn lemma_scan_verbatim(stop: Charset, t: Seq<char>)
    requires
        is_verbatim(t),
    ensures
        scan(stop, t) matches Some((v, n)) && 0 <= n <= t.len() && v == t.take(n) && is_plain(
            stop,
            v,
        ),
    decreases t.len(),
{
    if t.len() == 0 {
        assert(t.take(0) == Seq::<char>::empty());
    } else if stop.contains(t[0]) {
        assert(t.take(0) == Seq::<char>::empty());
    } else {
        let tail = t.skip(1);
        assert forall|i: int| 0 <= i < tail.len() implies #[trigger] tail[i] != '\\' by {
            assert(tail[i] == t[i + 1]);
        }
        lemma_scan_verbatim(stop, tail);
        let (w, m) = scan(stop, tail).unwrap();
        assert(seq![t[0]] + tail.take(m) == t.take(m + 1));
    }
}

/// A run that yields as many characters as it consumes holds no escape: the
/// value is the text that was consumed.
pub proof fn lemma_scan_same_length(stop: Charset, t: Seq<char>)
    ensures
        scan(stop, t) matches Some((v, n)) ==> (v.len() == n ==> v == t.take(n)),
    decreases t.len(),
{
    if t.len() == 0 {
        assert(t.take(0) == Seq::<char>::empty());
    } else if t[0] == '\\' {
        if t.len() >= 2 {
            lemma_scan_bounds(stop, t.skip(2));
        }
    } else if stop.contains(t[0]) {
        assert(t.take(0) == Seq::<char>::empty());
    } else {
        lemma_scan_same_length(stop, t.skip(1));
        lemma_scan_bounds(stop, t.skip(1));
        if let Some((w, m)) = scan(stop, t.skip(1)) {
            if w.len() == m {
                assert(seq![t[0]] + t.skip(1).take(m) == t.take(m + 1));
            }
        }
    }
}

/// Writes `text` to `out`, escaped for a place where the characters of
/// `set` are reserved.
pub fn push_escaped(out: &mut Vec<char>, set: Charset, text: &str)
    ensures
        final(out)@ == old(out)@ + escape(set, text@),
{
    for c in it: text.chars()
        invariant
            it.seq() == text@,
            out@ == old(out)@ + escape(set, it.seq().take(it.index() as int)),
    {
        proof {
            let done = text@.take(it.index() as int);
            assert(text@.take(it.index() + 1) == done + seq![c]);
            lemma_escape_concat(set, done, seq![c]);
            assert(escape(set, seq![c]) == escape_char(set, c)) by {
                reveal_with_fuel(escape, 2);
            }
        }
        if c == '\\' || set.has(c) {
            out.push('\\');
            let letter = if c == '\n' {
                'n'
            } else if c == '\r' {
                'r'
            } else if c == '\u{c}' {
                'f'
            } else if c == '\t' {
                't'
            } else {
                c
            };
            out.push(letter);
        } else {
            out.push(c);
        }
    }
    assert(text@.take(text@.len() as int) == text@);
}

/// Reads a run of `v[from..to]` as `scan` does, and gives the value and the
/// position at which the run stopped.
pub fn scan_run(stop: Charset, v: &Vec<char>, from: usize, to: usize) -> (r: Option<
    (Vec<char>, usize),
>)
    requires
        from <= to <= v.len(),
    ensures
        match scan(stop, v@.subrange(from as int, to as int)) {
            Some((value, n)) => r matches Some((s, end)) && s@ == value && end == from + n
                && from <= end <= to,
            None => r is None,
        },
{
    let ghost window = v@.subrange(from as int, to as int);
    let mut value: Vec<char> = Vec::new();
    let mut i: usize = from;
    proof {
        assert(window.skip(0) == window);
        match scan(stop, window) {
            Some((rest, n)) => {
                assert(value@ + rest == rest);
            },
            None => {},
        }
    }
    loop
        invariant
            from <= i <= to <= v.len(),
            window == v@.subrange(from as int, to as int),
            match scan(stop, window.skip(i - from)) {
                Some((rest, n)) => scan(stop, window) == Some((value@ + rest, (i - from) + n)),
                None => scan(stop, window) is None,
            },
        decreases to - i,
    {
        let ghost here = window.skip(i - from);
        proof {
            lemma_scan_bounds(stop, here);
        }
        if i >= to {
            assert(here.len() == 0);
            assert(value@ + Seq::<char>::empty() == value@);
            return Some((value, i));
        }
        let c = v[i];
        assert(here[0] == c);
        if c == '\\' {
            if to - i < 2 {
                return None;
            }
            let d = v[i + 1];
            assert(here[1] == d);
            let meant = if d == 'n' {
                '\n'
            } else if d == 'r' {
                '\r'
            } else if d == 'f' {
                '\u{c}'
            } else if d == 't' {
                '\t'
            } else {
                d
            };
            proof {
                assert(here.skip(2) == window.skip(i + 2 - from));
                match scan(stop, here.skip(2)) {
                    Some((rest, n)) => {
                        assert(value@.push(meant) + rest == value@ + (seq![meant] + rest));
                    },
                    None => {},
                }
            }
            value.push(meant);
            i = i + 2;
        } else if stop.has(c) {
            assert(value@ + Seq::<char>::empty() == value@);
            return Some((value, i));
        } else {
            proof {
                assert(here.skip(1) == window.skip(i + 1 - from));
                match scan(stop, here.skip(1)) {
                    Some((rest, n)) => {
                        assert(value@.push(c) + rest == value@ + (seq![c] + rest));
                    },
                    None => {},
                }
            }
            value.push(c);
            i = i + 1;
        }
    }
}

/// The number of characters that `scan` consumes.
pub open spec fn scan_len(stop: Charset, s: Seq<char>) -> Option<int> {
    match scan(stop, s) {
        Some((_, n)) => Some(n),
        None => None,
    }
}

/// What `scan_len` gives for `rest`, with `n` more characters in front.
pub open spec fn len_after(n: int, rest: Option<int>) -> Option<int> {
    match rest {
        Some(m) => Some(n + m),
        None => None,
    }
}

} // verus!
