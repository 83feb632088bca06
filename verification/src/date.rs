//! Dates as the header writes them: `dd:MM:yyyy HH:mm`.

use crate::error::{Error, Rule};
use crate::text::{chars_of, string_from};
use vstd::prelude::*;

verus! {

/// A day and a time of day, each part as the number that is written.
#[derive(Clone, Copy, Debug, PartialEq, Eq, Hash, Structural)]
pub struct NaiveDate {
    pub day: u8,
    pub month: u8,
    pub year: u16,
    pub hour: u8,
    pub minute: u8,
}

impl View for NaiveDate {
    type V = NaiveDate;

    open spec fn view(&self) -> NaiveDate {
        *self
    }
}

/// The character of a decimal digit.
pub open spec fn digit_char(n: int) -> char {
    if n == 0 {
        '0'
    } else if n == 1 {
        '1'
    } else if n == 2 {
        '2'
    } else if n == 3 {
        '3'
    } else if n == 4 {
        '4'
    } else if n == 5 {
        '5'
    } else if n == 6 {
        '6'
    } else if n == 7 {
        '7'
    } else if n == 8 {
        '8'
    } else {
        '9'
    }
}

/// The decimal digit that a character stands for, if it stands for one.
pub open spec fn digit_value(c: char) -> Option<int> {
    if c == '0' {
        Some(0int)
    } else if c == '1' {
        Some(1int)
    } else if c == '2' {
        Some(2int)
    } else if c == '3' {
        Some(3int)
    } else if c == '4' {
        Some(4int)
    } else if c == '5' {
        Some(5int)
    } else if c == '6' {
        Some(6int)
    } else if c == '7' {
        Some(7int)
    } else if c == '8' {
        Some(8int)
    } else if c == '9' {
        Some(9int)
    } else {
        None
    }
}

/// The last two digits of a number.
pub open spec fn two_digits(n: int) -> Seq<char> {
    seq![digit_char((n / 10) % 10), digit_char(n % 10)]
}

/// The last four digits of a number.
pub open spec fn four_digits(n: int) -> Seq<char> {
    seq![
        digit_char((n / 1000) % 10),
        digit_char((n / 100) % 10),
        digit_char((n / 10) % 10),
        digit_char(n % 10),
    ]
}

/// The number that the `count` characters of `s` from `at` on are the
/// decimal digits of, if they all are digits.
pub open spec fn number_at(s: Seq<char>, at: int, count: nat) -> Option<int>
    decreases count,
{
    if count == 0 {
        Some(0int)
    } else if 0 <= at && at + count <= s.len() {
        match (number_at(s, at, (count - 1) as nat), digit_value(s[at + count - 1])) {
            (Some(high), Some(low)) => Some(high * 10 + low),
            _ => None,
        }
    } else {
        None
    }
}

impl NaiveDate {
    /// What can be written and read back: each part fits the digits that
    /// it is written with.
    pub open spec fn wf(self) -> bool {
        self.day < 100 && self.month < 100 && self.year < 10000 && self.hour < 100 && self.minute
            < 100
    }

    /// The error that reading a date fails with.
    pub open spec fn parse_error() -> Error {
        Error::SyntaxError { rule: Rule::Date }
    }
}

/// The text of a date: day, month and year with colons between them, a
/// space, hour and minute with a colon between them. Day, month, hour and
/// minute are written with their last two digits, the year with its last
/// four.
pub open spec fn render_date(d: NaiveDate) -> Seq<char> {
    two_digits(d.day as int) + seq![':'] + two_digits(d.month as int) + seq![':'] + four_digits(
        d.year as int,
    ) + seq![' '] + two_digits(d.hour as int) + seq![':'] + two_digits(d.minute as int)
}

/// The date that a whole text stands for.
pub open spec fn parse_date(s: Seq<char>) -> Option<NaiveDate> {
    if s.len() == 16 && s[2] == ':' && s[5] == ':' && s[10] == ' ' && s[13] == ':' {
        match (
            number_at(s, 0, 2),
            number_at(s, 3, 2),
            number_at(s, 6, 4),
            number_at(s, 11, 2),
            number_at(s, 14, 2),
        ) {
            (Some(day), Some(month), Some(year), Some(hour), Some(minute)) => Some(
                NaiveDate {
                    day: day as u8,
                    month: month as u8,
                    year: year as u16,
                    hour: hour as u8,
                    minute: minute as u8,
                },
            ),
            _ => None,
        }
    } else {
        None
    }
}

/// A number read from digits is below the power of ten of their count.
pub proof fn lemma_number_bound(s: Seq<char>, at: int, count: nat)
    requires
        count <= 4,
    ensures
        number_at(s, at, count) matches Some(n) ==> 0 <= n && (count == 0 ==> n == 0) && (count
            == 1 ==> n < 10) && (count == 2 ==> n < 100) && (count == 3 ==> n < 1000) && (count
            == 4 ==> n < 10000),
    decreases count,
{
    if count > 0 {
        lemma_number_bound(s, at, (count - 1) as nat);
    }
}

/// A digit that was written is read as itself.
pub proof fn lemma_digit(n: int)
    requires
        0 <= n < 10,
    ensures
        digit_value(digit_char(n)) == Some(n),
{
}

/// Two written digits are read as the number that was written.
pub proof fn lemma_number_two(s: Seq<char>, at: int, n: int)
    requires
        0 <= n < 100,
        0 <= at,
        at + 2 <= s.len(),
        s.subrange(at, at + 2) == two_digits(n),
    ensures
        number_at(s, at, 2) == Some(n),
{
    let t = two_digits(n);
    assert(s[at] == t[0] && s[at + 1] == t[1]);
    let high = n / 10;
    let low = n % 10;
    assert(0 <= high < 10 && 0 <= low < 10 && n == high * 10 + low);
    lemma_digit(high);
    lemma_digit(low);
    assert(number_at(s, at, 0) == Some(0int));
    assert(number_at(s, at, 1) == Some(high));
}

/// Four written digits are read as the number that was written.
pub proof fn lemma_number_four(s: Seq<char>, at: int, n: int)
    requires
        0 <= n < 10000,
        0 <= at,
        at + 4 <= s.len(),
        s.subrange(at, at + 4) == four_digits(n),
    ensures
        number_at(s, at, 4) == Some(n),
{
    let t = four_digits(n);
    assert(s[at] == t[0] && s[at + 1] == t[1] && s[at + 2] == t[2] && s[at + 3] == t[3]);
    let a = n / 1000;
    let b = (n / 100) % 10;
    let c = (n / 10) % 10;
    let d = n % 10;
    assert(0 <= a < 10 && 0 <= b < 10 && 0 <= c < 10 && 0 <= d < 10);
    assert(n == ((a * 10 + b) * 10 + c) * 10 + d);
    lemma_digit(a);
    lemma_digit(b);
    lemma_digit(c);
    lemma_digit(d);
    assert(number_at(s, at, 0) == Some(0int));
    assert(number_at(s, at, 1) == Some(a));
    assert(number_at(s, at, 2) == Some(a * 10 + b));
    assert(number_at(s, at, 3) == Some((a * 10 + b) * 10 + c));
}

/// Writing a date and reading the text back gives the date.
pub proof fn lemma_parse_render_date(d: NaiveDate)
    requires
        d.wf(),
    ensures
        parse_date(render_date(d)) == Some(d),
{
    let s = render_date(d);
    assert(s.len() == 16);
    assert(s.subrange(0, 2) == two_digits(d.day as int));
    assert(s.subrange(3, 5) == two_digits(d.month as int));
    assert(s.subrange(6, 10) == four_digits(d.year as int));
    assert(s.subrange(11, 13) == two_digits(d.hour as int));
    assert(s.subrange(14, 16) == two_digits(d.minute as int));
    lemma_number_two(s, 0, d.day as int);
    lemma_number_two(s, 3, d.month as int);
    lemma_number_four(s, 6, d.year as int);
    lemma_number_two(s, 11, d.hour as int);
    lemma_number_two(s, 14, d.minute as int);
}

/// A digit that was read is written as itself.
pub proof fn lemma_digit_char(c: char)
    ensures
        digit_value(c) matches Some(n) ==> 0 <= n < 10 && digit_char(n) == c,
{
}

/// Two digits that were read are written as themselves.
pub proof fn lemma_two_at(s: Seq<char>, at: int)
    requires
        0 <= at,
        at + 2 <= s.len(),
    ensures
        number_at(s, at, 2) matches Some(n) ==> 0 <= n < 100 && two_digits(n) == s.subrange(
            at,
            at + 2,
        ),
{
    reveal_with_fuel(number_at, 3);
    lemma_digit_char(s[at]);
    lemma_digit_char(s[at + 1]);
    if let Some(n) = number_at(s, at, 2) {
        let high = digit_value(s[at]).unwrap();
        let low = digit_value(s[at + 1]).unwrap();
        assert(n == high * 10 + low);
        assert((n / 10) % 10 == high && n % 10 == low);
    }
}

/// Four digits that were read are written as themselves.
pub proof fn lemma_four_at(s: Seq<char>, at: int)
    requires
        0 <= at,
        at + 4 <= s.len(),
    ensures
        number_at(s, at, 4) matches Some(n) ==> 0 <= n < 10000 && four_digits(n) == s.subrange(
            at,
            at + 4,
        ),
{
    reveal_with_fuel(number_at, 5);
    lemma_digit_char(s[at]);
    lemma_digit_char(s[at + 1]);
    lemma_digit_char(s[at + 2]);
    lemma_digit_char(s[at + 3]);
    if let Some(n) = number_at(s, at, 4) {
        let a = digit_value(s[at]).unwrap();
        let b = digit_value(s[at + 1]).unwrap();
        let c = digit_value(s[at + 2]).unwrap();
        let d = digit_value(s[at + 3]).unwrap();
        assert(n == ((a * 10 + b) * 10 + c) * 10 + d);
        assert((n / 1000) % 10 == a && (n / 100) % 10 == b && (n / 10) % 10 == c && n % 10 == d);
    }
}

/// Reading a date and writing it again gives the text that was read.
pub proof fn lemma_render_parse_date(s: Seq<char>)
    ensures
        parse_date(s) matches Some(d) ==> render_date(d) == s && d.wf(),
{
    if let Some(d) = parse_date(s) {
        lemma_two_at(s, 0);
        lemma_two_at(s, 3);
        lemma_four_at(s, 6);
        lemma_two_at(s, 11);
        lemma_two_at(s, 14);
        let t = render_date(d);
        assert(t.len() == 16);
        assert forall|i: int| 0 <= i < 16 implies t[i] == s[i] by {
            if i < 2 {
                assert(s.subrange(0, 2)[i] == s[i]);
            } else if 3 <= i < 5 {
                assert(s.subrange(3, 5)[i - 3] == s[i]);
            } else if 6 <= i < 10 {
                assert(s.subrange(6, 10)[i - 6] == s[i]);
            } else if 11 <= i < 13 {
                assert(s.subrange(11, 13)[i - 11] == s[i]);
            } else if 14 <= i {
                assert(s.subrange(14, 16)[i - 14] == s[i]);
            }
        }
        assert(t == s);
    }
}

/// The date without what its text does not show: each part cut to the
/// digits that it is written with.
pub open spec fn shown(d: NaiveDate) -> NaiveDate {
    NaiveDate {
        day: (d.day % 100) as u8,
        month: (d.month % 100) as u8,
        year: (d.year % 10000) as u16,
        hour: (d.hour % 100) as u8,
        minute: (d.minute % 100) as u8,
    }
}

/// The text of any date is read as the date that it shows, which is
/// written as the same text.
pub proof fn lemma_render_date_stable(d: NaiveDate)
    ensures
        parse_date(render_date(d)) == Some(shown(d)),
        render_date(shown(d)) == render_date(d),
        d.wf() ==> shown(d) == d,
{
    let e = shown(d);
    lemma_two_digits_cut(d.day);
    lemma_two_digits_cut(d.month);
    lemma_four_digits_cut(d.year);
    lemma_two_digits_cut(d.hour);
    lemma_two_digits_cut(d.minute);
    lemma_parse_render_date(e);
}

/// The last two digits of a number are those of the number cut to two
/// digits.
proof fn lemma_two_digits_cut(n: u8)
    ensures
        n % 100 < 100,
        two_digits((n % 100) as int) == two_digits(n as int),
        n < 100 ==> n % 100 == n,
{
    assert(((n % 100) / 10) % 10 == (n / 10) % 10 && (n % 100) % 10 == n % 10 && n % 100 < 100
        && (n < 100 ==> n % 100 == n)) by (bit_vector);
}

/// The last four digits of a number are those of the number cut to four
/// digits.
proof fn lemma_four_digits_cut(n: u16)
    ensures
        n % 10000 < 10000,
        four_digits((n % 10000) as int) == four_digits(n as int),
        n < 10000 ==> n % 10000 == n,
{
    assert(((n % 10000) / 1000) % 10 == (n / 1000) % 10) by (bit_vector);
    assert(((n % 10000) / 100) % 10 == (n / 100) % 10) by (bit_vector);
    assert(((n % 10000) / 10) % 10 == (n / 10) % 10) by (bit_vector);
    assert((n % 10000) % 10 == n % 10) by (bit_vector);
    assert(n % 10000 < 10000 && (n < 10000 ==> n % 10000 == n)) by (bit_vector);
}

/// What is read from a text can be written.
pub proof fn lemma_parsed_date_wf(s: Seq<char>)
    ensures
        parse_date(s) matches Some(d) ==> d.wf(),
{
    lemma_number_bound(s, 0, 2);
    lemma_number_bound(s, 3, 2);
    lemma_number_bound(s, 6, 4);
    lemma_number_bound(s, 11, 2);
    lemma_number_bound(s, 14, 2);
}

/// The character of the decimal digit `n`.
fn digit(n: u16) -> (c: char)
    requires
        n < 10,
    ensures
        c == digit_char(n as int),
{
    if n == 0 {
        '0'
    } else if n == 1 {
        '1'
    } else if n == 2 {
        '2'
    } else if n == 3 {
        '3'
    } else if n == 4 {
        '4'
    } else if n == 5 {
        '5'
    } else if n == 6 {
        '6'
    } else if n == 7 {
        '7'
    } else if n == 8 {
        '8'
    } else {
        '9'
    }
}

/// Appends the two digits of `n` to `out`.
fn push_two(out: &mut Vec<char>, n: u16)
    ensures
        final(out)@ == old(out)@ + two_digits(n as int),
{
    out.push(digit((n / 10) % 10));
    out.push(digit(n % 10));
    assert(out@ == old(out)@ + two_digits(n as int));
}

/// Appends the four digits of `n` to `out`.
fn push_four(out: &mut Vec<char>, n: u16)
    ensures
        final(out)@ == old(out)@ + four_digits(n as int),
{
    out.push(digit((n / 1000) % 10));
    out.push(digit((n / 100) % 10));
    out.push(digit((n / 10) % 10));
    out.push(digit(n % 10));
    assert(out@ == old(out)@ + four_digits(n as int));
}

/// The decimal digit that `c` stands for.
fn value_of(c: char) -> (r: Option<u16>)
    ensures
        match digit_value(c) {
            Some(n) => r == Some(n as u16) && 0 <= n < 10,
            None => r is None,
        },
{
    if c == '0' {
        Some(0)
    } else if c == '1' {
        Some(1)
    } else if c == '2' {
        Some(2)
    } else if c == '3' {
        Some(3)
    } else if c == '4' {
        Some(4)
    } else if c == '5' {
        Some(5)
    } else if c == '6' {
        Some(6)
    } else if c == '7' {
        Some(7)
    } else if c == '8' {
        Some(8)
    } else if c == '9' {
        Some(9)
    } else {
        None
    }
}

/// Reads the number that `v[at..at + count]` are the digits of.
fn read_number(v: &Vec<char>, at: usize, count: usize) -> (r: Option<u16>)
    requires
        count <= 4,
        at + count <= v.len(),
    ensures
        match number_at(v@, at as int, count as nat) {
            Some(n) => r == Some(n as u16) && 0 <= n < 10000,
            None => r is None,
        },
{
    let mut n: u16 = 0;
    let mut i: usize = 0;
    while i < count
        invariant
            i <= count <= 4,
            at + count <= v.len(),
            number_at(v@, at as int, i as nat) == Some(n as int),
        decreases count - i,
    {
        proof {
            lemma_number_bound(v@, at as int, i as nat);
            lemma_number_bound(v@, at as int, (i + 1) as nat);
        }
        match value_of(v[at + i]) {
            Some(low) => {
                n = n * 10 + low;
            },
            None => {
                proof {
                    lemma_number_none(v@, at as int, (i + 1) as nat, count as nat);
                }
                return None;
            },
        }
        i = i + 1;
    }
    proof {
        lemma_number_bound(v@, at as int, count as nat);
    }
    Some(n)
}

/// Where some leading digits are no number, no longer run is one.
proof fn lemma_number_none(s: Seq<char>, at: int, short: nat, long: nat)
    requires
        short <= long,
        number_at(s, at, short) is None,
    ensures
        number_at(s, at, long) is None,
    decreases long,
{
    if short < long {
        lemma_number_none(s, at, short, (long - 1) as nat);
    }
}

impl NaiveDate {
    /// Makes a date from its parts.
    pub fn new(day: u8, month: u8, year: u16, hour: u8, minute: u8) -> (r: Self)
        ensures
            r == (NaiveDate { day, month, year, hour, minute }),
    {
        NaiveDate { day, month, year, hour, minute }
    }

    /// Tests whether the date can be written and read back.
    pub fn is_valid(&self) -> (b: bool)
        ensures
            b == self.wf(),
    {
        self.day < 100 && self.month < 100 && self.year < 10000 && self.hour < 100 && self.minute
            < 100
    }

    /// Appends the text of the date to `out`.
    pub fn write(&self, out: &mut Vec<char>)
        ensures
            final(out)@ == old(out)@ + render_date(*self),
    {
        push_two(out, self.day as u16);
        out.push(':');
        push_two(out, self.month as u16);
        out.push(':');
        push_four(out, self.year);
        out.push(' ');
        push_two(out, self.hour as u16);
        out.push(':');
        push_two(out, self.minute as u16);
        assert(out@ == old(out)@ + render_date(*self));
    }

    /// The text of the date.
    pub fn to_string(&self) -> (s: String)
        ensures
            s@ == render_date(*self),
    {
        let mut out: Vec<char> = Vec::new();
        self.write(&mut out);
        string_from(&out)
    }

    /// Reads the date that the whole of `v` stands for.
    pub fn from_chars(v: &Vec<char>) -> (r: Result<Self, Error>)
        ensures
            match parse_date(v@) {
                Some(d) => r == Ok::<Self, Error>(d) && d.wf(),
                None => r == Err::<Self, Error>(Self::parse_error()),
            },
    {
        let fail = Err(Error::SyntaxError { rule: Rule::Date });
        if v.len() != 16 || v[2] != ':' || v[5] != ':' || v[10] != ' ' || v[13] != ':' {
            return fail;
        }
        proof {
            lemma_parsed_date_wf(v@);
            lemma_number_bound(v@, 0, 2);
            lemma_number_bound(v@, 3, 2);
            lemma_number_bound(v@, 6, 4);
            lemma_number_bound(v@, 11, 2);
            lemma_number_bound(v@, 14, 2);
        }
        match (
            read_number(v, 0, 2),
            read_number(v, 3, 2),
            read_number(v, 6, 4),
            read_number(v, 11, 2),
            read_number(v, 14, 2),
        ) {
            (Some(day), Some(month), Some(year), Some(hour), Some(minute)) => Ok(
                NaiveDate {
                    day: day as u8,
                    month: month as u8,
                    year,
                    hour: hour as u8,
                    minute: minute as u8,
                },
            ),
            _ => fail,
        }
    }

    /// Reads the date that `s` stands for.
    pub fn from_str(s: &str) -> (r: Result<Self, Error>)
        ensures
            match parse_date(s@) {
                Some(d) => r == Ok::<Self, Error>(d) && d.wf(),
                None => r == Err::<Self, Error>(Self::parse_error()),
            },
    {
        let v = chars_of(s);
        Self::from_chars(&v)
    }
}

} // verus!
