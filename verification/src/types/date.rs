//! The calendar-date value used by the birthday and anniversary properties.
//!
//! The value text of a date line is handed to the calendar library; the model
//! keeps the result as plain year, month and day numbers.

use vstd::prelude::*;

use chrono::Datelike;

use crate::parse::{
    parse_error, parse_value, spec_decimal, spec_value_text, ErrorKind, Parse, ParseError,
    ScanOutcome,
};

verus! {

/// A calendar date as plain numbers: year, month (1 to 12), day (1 to 31).
#[derive(Debug, PartialEq, Eq, Structural, Clone, Copy)]
pub struct Date {
    pub year: i32,
    pub month: u8,
    pub day: u8,
}

impl View for Date {
    type V = Date;

    open spec fn view(&self) -> Date {
        *self
    }
}

/// The date denoted by a text in the compact `YYYYMMDD` form, if it is a
/// valid calendar date; the result depends on the characters alone.
pub uninterp spec fn date_of(s: Seq<char>) -> Option<(int, int, int)>;

/// Relies on `chrono::NaiveDate::parse_from_str` with the `%Y%m%d` format to
/// recognize a compact calendar date, and on the `Datelike` accessors, whose
/// documentation promises a month in 1..=12 and a day in 1..=31.
#[verifier::external_body]
fn date_from_text(s: &str) -> (r: Option<Date>)
    ensures
        match r {
            Some(d) => date_of(s@) == Some((d.year as int, d.month as int, d.day as int)) && 1
                <= d.month <= 12 && 1 <= d.day <= 31,
            None => date_of(s@) is None,
        },
{
    match chrono::NaiveDate::parse_from_str(s, "%Y%m%d") {
        Ok(d) => Some(Date { year: d.year(), month: d.month() as u8, day: d.day() as u8 }),
        Err(_) => None,
    }
}

/// The date built from named parts.
pub open spec fn date_from_parts(p: (int, int, int)) -> Date {
    Date { year: p.0 as i32, month: p.1 as u8, day: p.2 as u8 }
}

/// Grammar: the whole value text up to the unescaped line terminator must be
/// a valid compact calendar date.
#[verifier::opaque]
pub open spec fn spec_parse_date(s: Seq<char>) -> ScanOutcome<Date> {
    match spec_value_text(s) {
        ScanOutcome::Match { value, used } => match date_of(value) {
            Option::Some(p) => ScanOutcome::Match { value: date_from_parts(p), used },
            Option::None => ScanOutcome::NoMatch,
        },
        _ => ScanOutcome::Incomplete,
    }
}

impl Parse for Date {
    open spec fn spec_parse(s: Seq<char>) -> ScanOutcome<Date> {
        spec_parse_date(s)
    }

    fn parse(input: &str, pos: usize) -> (r: Result<(Self, usize), ParseError>) {
        proof {
            reveal(spec_parse_date);
        }
        match parse_value(input, pos) {
            Err(e) => Err(e),
            Ok((text, end)) => match date_from_text(text.as_str()) {
                Some(d) => Ok((d, end)),
                None => Err(parse_error(ErrorKind::Mismatch, pos, "not a calendar date")),
            },
        }
    }
}

/// A number zero-padded to two digits.
pub open spec fn spec_pad2(n: int) -> Seq<char> {
    if 0 <= n < 10 {
        "0"@ + spec_decimal(n)
    } else {
        spec_decimal(n)
    }
}

/// A number zero-padded to four digits.
pub open spec fn spec_pad4(n: int) -> Seq<char> {
    if 0 <= n < 10 {
        "000"@ + spec_decimal(n)
    } else if 10 <= n < 100 {
        "00"@ + spec_decimal(n)
    } else if 100 <= n < 1000 {
        "0"@ + spec_decimal(n)
    } else {
        spec_decimal(n)
    }
}

/// The year text: four zero-padded digits, a leading minus sign for a year
/// before year zero.
pub open spec fn spec_year_text(y: int) -> Seq<char> {
    if y < 0 {
        "-"@ + spec_pad4(-y)
    } else {
        spec_pad4(y)
    }
}

/// Rendered form of a date: the compact `YYYYMMDD` form.
pub open spec fn spec_render_date(d: Date) -> Seq<char> {
    spec_year_text(d.year as int) + spec_pad2(d.month as int) + spec_pad2(d.day as int)
}

fn pad2_string(n: u8) -> (r: String)
    ensures
        r@ == spec_pad2(n as int),
{
    let mut out = String::new();
    if n < 10 {
        out.append("0");
    }
    let digits = crate::parse::decimal_string(n as usize);
    out.append(digits.as_str());
    proof {
        assert(out@ =~= spec_pad2(n as int));
    }
    out
}

impl Date {
    /// Render this date as value text.
    pub fn render(&self) -> (r: String)
        ensures
            r@ == spec_render_date(*self),
    {
        let mut out = String::new();
        let mag: usize = if self.year < 0 {
            out.append("-");
            let wide: i64 = self.year as i64;
            (-wide) as usize
        } else {
            self.year as usize
        };
        if mag < 10 {
            out.append("000");
        } else if mag < 100 {
            out.append("00");
        } else if mag < 1000 {
            out.append("0");
        }
        let digits = crate::parse::decimal_string(mag);
        out.append(digits.as_str());
        let part = pad2_string(self.month);
        out.append(part.as_str());
        let part = pad2_string(self.day);
        out.append(part.as_str());
        proof {
            assert(out@ =~= spec_render_date(*self));
        }
        out
    }
}

} // verus!
