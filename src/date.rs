use vstd::prelude::*;

use crate::text::{push_char, utf8_len, lemma_utf8_len_ascii};

verus! {

/// A calendar date, as the feed's publication date gives it.
#[derive(Clone, Copy, Debug, PartialEq, Eq, Structural)]
pub struct Date {
    pub year: i16,
    pub month: i8,
    pub day: i8,
}

/// The civil date (year, month, day) that `jiff::fmt::rfc2822::parse` reads
/// from a date text, or `None` where it rejects the text.
pub uninterp spec fn rfc2822_date(s: Seq<char>) -> Option<(i16, i8, i8)>;

/// The ten decimal digits, in order.
pub open spec fn decimal_digit(d: int) -> char {
    seq!['0', '1', '2', '3', '4', '5', '6', '7', '8', '9'][d]
}

/// `n` written with at least four digits, padded with zeros.
pub open spec fn pad4(n: int) -> Seq<char> {
    seq![
        decimal_digit(n / 1000),
        decimal_digit(n / 100 % 10),
        decimal_digit(n / 10 % 10),
        decimal_digit(n % 10),
    ]
}

/// `n` written with two digits, padded with a zero.
pub open spec fn pad2(n: int) -> Seq<char> {
    seq![decimal_digit(n / 10), decimal_digit(n % 10)]
}

/// A date in ISO 8601 form, `YYYY-MM-DD`, with a leading `-` before a year
/// before year zero.
pub open spec fn iso_date_text(year: int, month: int, day: int) -> Seq<char> {
    let sign = if year < 0 { seq!['-'] } else { Seq::<char>::empty() };
    let y = if year < 0 { -year } else { year };
    sign + pad4(y) + seq!['-'] + pad2(month) + seq!['-'] + pad2(day)
}

impl Date {
    /// The ranges that a civil date keeps to.
    pub open spec fn wf(&self) -> bool {
        &&& -9999 <= self.year <= 9999
        &&& 1 <= self.month <= 12
        &&& 1 <= self.day <= 31
    }

    /// Whether the date keeps to the ranges of a civil date.
    pub fn is_valid(&self) -> (r: bool)
        ensures
            r == self.wf(),
    {
        -9999 <= self.year && self.year <= 9999 && 1 <= self.month && self.month <= 12
            && 1 <= self.day && self.day <= 31
    }

    /// This date in ISO 8601 form.
    pub open spec fn iso_spec(&self) -> Seq<char> {
        iso_date_text(self.year as int, self.month as int, self.day as int)
    }

    /// Writes the date as `YYYY-MM-DD`.
    pub fn iso_text(&self) -> (r: String)
        requires
            self.wf(),
        ensures
            r@ == self.iso_spec(),
            utf8_len(r@) == r@.len(),
            r@.len() == if self.year < 0 { 11nat } else { 10nat },
    {
        let mut out = String::new();
        if self.year < 0 {
            push_char(&mut out, '-');
        }
        let y: u32 = if self.year < 0 { (-(self.year as i32)) as u32 } else { self.year as u32 };
        push_char(&mut out, digit_char(y / 1000));
        push_char(&mut out, digit_char(y / 100 % 10));
        push_char(&mut out, digit_char(y / 10 % 10));
        push_char(&mut out, digit_char(y % 10));
        push_char(&mut out, '-');
        let m: u32 = self.month as u32;
        push_char(&mut out, digit_char(m / 10));
        push_char(&mut out, digit_char(m % 10));
        push_char(&mut out, '-');
        let d: u32 = self.day as u32;
        push_char(&mut out, digit_char(d / 10));
        push_char(&mut out, digit_char(d % 10));
        assert(out@ =~= self.iso_spec());
        proof {
            assert forall|i: int| 0 <= i < out@.len() implies (#[trigger] out@[i] as u32) < 0x80 by {
                assert(out@[i] == '-' || ('0' <= out@[i] <= '9'));
            }
            lemma_utf8_len_ascii(out@);
        }
        out
    }
}

/// The character of one decimal digit.
fn digit_char(d: u32) -> (c: char)
    requires
        d < 10,
    ensures
        c == decimal_digit(d as int),
        '0' <= c <= '9',
{
    match d {
        0 => '0',
        1 => '1',
        2 => '2',
        3 => '3',
        4 => '4',
        5 => '5',
        6 => '6',
        7 => '7',
        8 => '8',
        _ => '9',
    }
}

/// Relies on `jiff::fmt::rfc2822::parse` and on `Zoned::year`, `month` and
/// `day`: the parser decides, from the text alone, whether it is an RFC 2822
/// date-time, and the civil date of a parsed value keeps to jiff's ranges
/// (years -9999..=9999, months 1..=12, days 1..=31).
#[verifier::external_body]
pub(crate) fn parse_rfc2822_date(s: &str) -> (r: Option<Date>)
    ensures
        r matches Some(d) ==> rfc2822_date(s@) == Some((d.year, d.month, d.day)) && d.wf(),
        r is None ==> rfc2822_date(s@) is None,
{
    jiff::fmt::rfc2822::parse(s).ok().map(|z| Date { year: z.year(), month: z.month(), day: z.day() })
}

} // verus!
