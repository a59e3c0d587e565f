//! The geographic position value: two signed decimal numbers separated by a
//! comma. The numbers are kept as their verbatim digit text; no bounds
//! checking is performed.

use vstd::prelude::*;

use crate::parse::{parse_error, ErrorKind, Parse, ParseError, ScanOutcome};
use crate::scan;
use crate::scan::CharClass;

verus! {

/// Specification-level counterpart of [`GeoPosition`].
#[verifier::ext_equal]
pub struct SpecGeoPosition {
    pub lat: Seq<char>,
    pub lon: Seq<char>,
}

/// A geographic position: latitude and longitude, each kept as the verbatim
/// text of a decimal number literal.
#[derive(Debug, PartialEq, Clone)]
pub struct GeoPosition(pub String, pub String);

impl View for GeoPosition {
    type V = SpecGeoPosition;

    open spec fn view(&self) -> SpecGeoPosition {
        SpecGeoPosition { lat: self.0@, lon: self.1@ }
    }
}

/// End of a decimal number literal starting at `i`: an optional minus sign,
/// one or more digits, then optionally a dot and one or more digits.
pub open spec fn spec_number_end(s: Seq<char>, i: int) -> Option<int> {
    if i < 0 || i > s.len() {
        Option::None
    } else {
        let start = if i < s.len() && s[i] == '-' {
            i + 1
        } else {
            i
        };
        let d1 = scan::spec_run(s, start, CharClass::Digit);
        if d1 <= start {
            Option::None
        } else if d1 < s.len() && s[d1] == '.' {
            let d2 = scan::spec_run(s, d1 + 1, CharClass::Digit);
            if d2 <= d1 + 1 {
                Option::None
            } else {
                Option::Some(d2)
            }
        } else {
            Option::Some(d1)
        }
    }
}

/// A number scan within the suffix `s.skip(i)` is the scan within `s`,
/// shifted.
pub proof fn lemma_number_shift(s: Seq<char>, i: int, k: int)
    requires
        0 <= i,
        0 <= k,
        i + k <= s.len(),
    ensures
        spec_number_end(s, i + k) == match spec_number_end(s.skip(i), k) {
            Some(j) => Some(i + j),
            None => None::<int>,
        },
{
    let sk = s.skip(i);
    assert(sk.len() == s.len() - i);
    if i + k < s.len() {
        assert(sk[k] == s[i + k]);
    }
    let start = if k < sk.len() && sk[k] == '-' {
        k + 1
    } else {
        k
    };
    scan::lemma_run_shift(s, i, start, CharClass::Digit);
    scan::lemma_run_props(sk, start, CharClass::Digit);
    let d1 = scan::spec_run(sk, start, CharClass::Digit);
    if d1 > start {
        if d1 < sk.len() {
            assert(sk[d1] == s[i + d1]);
            if sk[d1] == '.' {
                scan::lemma_run_shift(s, i, d1 + 1, CharClass::Digit);
            }
        }
    }
}

/// Grammar: a number, a comma, a number.
#[verifier::opaque]
pub open spec fn spec_parse_geo(s: Seq<char>) -> ScanOutcome<SpecGeoPosition> {
    match spec_number_end(s, 0) {
        Option::None => ScanOutcome::NoMatch,
        Option::Some(a) => {
            if a < s.len() && s[a] == ',' {
                match spec_number_end(s, a + 1) {
                    Option::None => ScanOutcome::NoMatch,
                    Option::Some(b) => ScanOutcome::Match {
                        value: SpecGeoPosition { lat: s.take(a), lon: s.subrange(a + 1, b) },
                        used: b,
                    },
                }
            } else {
                ScanOutcome::NoMatch
            }
        },
    }
}

/// Scan one decimal number literal; `Some(end)` is the index just past it.
fn scan_number(input: &str, pos: usize) -> (r: Option<usize>)
    requires
        pos <= input@.len(),
    ensures
        match r {
            Some(end) => pos <= end <= input@.len() && spec_number_end(input@, pos as int)
                == Some(end as int),
            None => spec_number_end(input@, pos as int) is None,
        },
{
    let len = input.unicode_len();
    let start = if pos < len && input.get_char(pos) == '-' {
        pos + 1
    } else {
        pos
    };
    let d1 = scan::scan_run(input, start, CharClass::Digit);
    proof {
        scan::lemma_run_shift(input@, start as int, 0, CharClass::Digit);
        assert(input@.skip(start as int).skip(0) =~= input@.skip(start as int));
        assert(scan::spec_run(input@, start as int, CharClass::Digit) == d1 as int);
    }
    if d1 <= start {
        return None;
    }
    if d1 < len && input.get_char(d1) == '.' {
        let d2 = scan::scan_run(input, d1 + 1, CharClass::Digit);
        proof {
            scan::lemma_run_shift(input@, d1 + 1, 0, CharClass::Digit);
            assert(input@.skip(d1 + 1).skip(0) =~= input@.skip(d1 + 1));
            assert(scan::spec_run(input@, d1 + 1, CharClass::Digit) == d2 as int);
        }
        if d2 <= d1 + 1 {
            None
        } else {
            Some(d2)
        }
    } else {
        Some(d1)
    }
}

impl Parse for GeoPosition {
    open spec fn spec_parse(s: Seq<char>) -> ScanOutcome<SpecGeoPosition> {
        spec_parse_geo(s)
    }

    fn parse(input: &str, pos: usize) -> (r: Result<(Self, usize), ParseError>) {
        proof {
            reveal(spec_parse_geo);
        }
        let ghost sub = input@.skip(pos as int);
        proof {
            lemma_number_shift(input@, pos as int, 0);
        }
        let len = input.unicode_len();
        match scan_number(input, pos) {
            None => Err(parse_error(ErrorKind::Mismatch, pos, "malformed position number")),
            Some(a) => {
                if a < len && input.get_char(a) == ',' {
                    proof {
                        assert(sub[a - pos] == input@[a as int]);
                        lemma_number_shift(input@, pos as int, a + 1 - pos);
                    }
                    match scan_number(input, a + 1) {
                        None => Err(
                            parse_error(ErrorKind::Mismatch, pos, "malformed position number"),
                        ),
                        Some(b) => {
                            let lat = scan::extract(input, pos, a);
                            let lon = scan::extract(input, a + 1, b);
                            let geo = GeoPosition(lat, lon);
                            proof {
                                assert(geo.0@ =~= sub.take(a - pos));
                                assert(geo.1@ =~= sub.subrange(a + 1 - pos, b - pos));
                                assert(spec_parse_geo(sub) =~= (ScanOutcome::Match {
                                    value: geo@,
                                    used: b - pos,
                                }));
                            }
                            Ok((geo, b))
                        },
                    }
                } else {
                    proof {
                        if a < len {
                            assert(sub[a - pos] == input@[a as int]);
                        }
                    }
                    Err(parse_error(ErrorKind::Mismatch, pos, "expected comma in position"))
                }
            },
        }
    }
}

/// Rendered form of a position: `lat,lon`.
pub open spec fn spec_render_geo(g: SpecGeoPosition) -> Seq<char> {
    g.lat + ","@ + g.lon
}

impl GeoPosition {
    /// Render this position as value text.
    pub fn render(&self) -> (r: String)
        ensures
            r@ == spec_render_geo(self@),
    {
        let mut out = self.0.clone();
        out.append(",");
        out.append(self.1.as_str());
        proof {
            assert(out@ =~= spec_render_geo(self@));
        }
        out
    }
}

} // verus!
