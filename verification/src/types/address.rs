//! The postal address value: seven optional fields separated by semicolons.

use vstd::prelude::*;

use crate::parse::{parse_error, ErrorKind, Parse, ParseError, ScanOutcome};
use crate::scan;
use crate::scan::CharClass;

verus! {

/// Specification-level counterpart of [`Address`].
#[verifier::ext_equal]
pub struct SpecAddress {
    pub po_box: Option<Seq<char>>,
    pub extended: Option<Seq<char>>,
    pub street: Option<Seq<char>>,
    pub locality: Option<Seq<char>>,
    pub region: Option<Seq<char>>,
    pub code: Option<Seq<char>>,
    pub country: Option<Seq<char>>,
}

/// A postal address: seven `;`-separated optional fields. An empty segment
/// means the field is absent, not an empty string.
#[derive(Debug, PartialEq, Clone)]
pub struct Address {
    pub po_box: Option<String>,
    pub extended: Option<String>,
    pub street: Option<String>,
    pub locality: Option<String>,
    pub region: Option<String>,
    pub code: Option<String>,
    pub country: Option<String>,
}

impl View for Address {
    type V = SpecAddress;

    open spec fn view(&self) -> SpecAddress {
        SpecAddress {
            po_box: match &self.po_box {
                Option::Some(v) => Option::Some(v@),
                Option::None => Option::None,
            },
            extended: match &self.extended {
                Option::Some(v) => Option::Some(v@),
                Option::None => Option::None,
            },
            street: match &self.street {
                Option::Some(v) => Option::Some(v@),
                Option::None => Option::None,
            },
            locality: match &self.locality {
                Option::Some(v) => Option::Some(v@),
                Option::None => Option::None,
            },
            region: match &self.region {
                Option::Some(v) => Option::Some(v@),
                Option::None => Option::None,
            },
            code: match &self.code {
                Option::Some(v) => Option::Some(v@),
                Option::None => Option::None,
            },
            country: match &self.country {
                Option::Some(v) => Option::Some(v@),
                Option::None => Option::None,
            },
        }
    }
}

/// The text of a segment spanning `[a, b)` of `s`, absent when empty.
pub open spec fn seg_opt(s: Seq<char>, a: int, b: int) -> Option<Seq<char>> {
    if b <= a {
        Option::None
    } else {
        Option::Some(s.subrange(a, b))
    }
}

/// Grammar: seven formatted segments, each possibly empty, separated by six
/// semicolons.
#[verifier::opaque]
pub open spec fn spec_parse_address(s: Seq<char>) -> ScanOutcome<SpecAddress> {
    let e1 = scan::spec_run(s, 0, CharClass::Formatted);
    if !(0 <= e1 < s.len() && s[e1] == ';') {
        ScanOutcome::NoMatch
    } else {
        let e2 = scan::spec_run(s, e1 + 1, CharClass::Formatted);
        if !(e2 < s.len() && s[e2] == ';') {
            ScanOutcome::NoMatch
        } else {
            let e3 = scan::spec_run(s, e2 + 1, CharClass::Formatted);
            if !(e3 < s.len() && s[e3] == ';') {
                ScanOutcome::NoMatch
            } else {
                let e4 = scan::spec_run(s, e3 + 1, CharClass::Formatted);
                if !(e4 < s.len() && s[e4] == ';') {
                    ScanOutcome::NoMatch
                } else {
                    let e5 = scan::spec_run(s, e4 + 1, CharClass::Formatted);
                    if !(e5 < s.len() && s[e5] == ';') {
                        ScanOutcome::NoMatch
                    } else {
                        let e6 = scan::spec_run(s, e5 + 1, CharClass::Formatted);
                        if !(e6 < s.len() && s[e6] == ';') {
                            ScanOutcome::NoMatch
                        } else {
                            let e7 = scan::spec_run(s, e6 + 1, CharClass::Formatted);
                            ScanOutcome::Match {
                                value: SpecAddress {
                                    po_box: seg_opt(s, 0, e1),
                                    extended: seg_opt(s, e1 + 1, e2),
                                    street: seg_opt(s, e2 + 1, e3),
                                    locality: seg_opt(s, e3 + 1, e4),
                                    region: seg_opt(s, e4 + 1, e5),
                                    code: seg_opt(s, e5 + 1, e6),
                                    country: seg_opt(s, e6 + 1, e7),
                                },
                                used: e7,
                            }
                        }
                    }
                }
            }
        }
    }
}

/// Copy the segment `[a, b)` into an owned string, or `None` when empty.
fn seg_string(input: &str, a: usize, b: usize) -> (r: Option<String>)
    requires
        a <= b <= input@.len(),
    ensures
        match r {
            Some(v) => b > a && v@ == input@.subrange(a as int, b as int),
            None => b <= a,
        },
{
    if b > a {
        Some(scan::extract(input, a, b))
    } else {
        None
    }
}

impl Parse for Address {
    open spec fn spec_parse(s: Seq<char>) -> ScanOutcome<SpecAddress> {
        spec_parse_address(s)
    }

    fn parse(input: &str, pos: usize) -> (r: Result<(Self, usize), ParseError>) {
        proof {
            reveal(spec_parse_address);
        }
        let ghost sub = input@.skip(pos as int);
        let len = input.unicode_len();
        let e1 = scan::scan_run_abs(input, pos, CharClass::Formatted);
        proof {
            scan::lemma_run_shift(input@, pos as int, 0, CharClass::Formatted);
            if e1 < len {
                assert(sub[e1 - pos] == input@[e1 as int]);
            }
        }
        if !(e1 < len && input.get_char(e1) == ';') {
            return Err(parse_error(ErrorKind::Mismatch, pos, "malformed address"));
        }
        let e2 = scan::scan_run_abs(input, e1 + 1, CharClass::Formatted);
        proof {
            scan::lemma_run_shift(input@, pos as int, e1 + 1 - pos, CharClass::Formatted);
            if e2 < len {
                assert(sub[e2 - pos] == input@[e2 as int]);
            }
        }
        if !(e2 < len && input.get_char(e2) == ';') {
            return Err(parse_error(ErrorKind::Mismatch, pos, "malformed address"));
        }
        let e3 = scan::scan_run_abs(input, e2 + 1, CharClass::Formatted);
        proof {
            scan::lemma_run_shift(input@, pos as int, e2 + 1 - pos, CharClass::Formatted);
            if e3 < len {
                assert(sub[e3 - pos] == input@[e3 as int]);
            }
        }
        if !(e3 < len && input.get_char(e3) == ';') {
            return Err(parse_error(ErrorKind::Mismatch, pos, "malformed address"));
        }
        let e4 = scan::scan_run_abs(input, e3 + 1, CharClass::Formatted);
        proof {
            scan::lemma_run_shift(input@, pos as int, e3 + 1 - pos, CharClass::Formatted);
            if e4 < len {
                assert(sub[e4 - pos] == input@[e4 as int]);
            }
        }
        if !(e4 < len && input.get_char(e4) == ';') {
            return Err(parse_error(ErrorKind::Mismatch, pos, "malformed address"));
        }
        let e5 = scan::scan_run_abs(input, e4 + 1, CharClass::Formatted);
        proof {
            scan::lemma_run_shift(input@, pos as int, e4 + 1 - pos, CharClass::Formatted);
            if e5 < len {
                assert(sub[e5 - pos] == input@[e5 as int]);
            }
        }
        if !(e5 < len && input.get_char(e5) == ';') {
            return Err(parse_error(ErrorKind::Mismatch, pos, "malformed address"));
        }
        let e6 = scan::scan_run_abs(input, e5 + 1, CharClass::Formatted);
        proof {
            scan::lemma_run_shift(input@, pos as int, e5 + 1 - pos, CharClass::Formatted);
            if e6 < len {
                assert(sub[e6 - pos] == input@[e6 as int]);
            }
        }
        if !(e6 < len && input.get_char(e6) == ';') {
            return Err(parse_error(ErrorKind::Mismatch, pos, "malformed address"));
        }
        let e7 = scan::scan_run_abs(input, e6 + 1, CharClass::Formatted);
        proof {
            scan::lemma_run_shift(input@, pos as int, e6 + 1 - pos, CharClass::Formatted);
        }
        let addr = Address {
            po_box: seg_string(input, pos, e1),
            extended: seg_string(input, e1 + 1, e2),
            street: seg_string(input, e2 + 1, e3),
            locality: seg_string(input, e3 + 1, e4),
            region: seg_string(input, e4 + 1, e5),
            code: seg_string(input, e5 + 1, e6),
            country: seg_string(input, e6 + 1, e7),
        };
        proof {
            assert(input@.subrange(pos as int, e1 as int) =~= sub.subrange(0, e1 - pos));
            assert(input@.subrange(e1 + 1, e2 as int) =~= sub.subrange(e1 + 1 - pos, e2 - pos));
            assert(input@.subrange(e2 + 1, e3 as int) =~= sub.subrange(e2 + 1 - pos, e3 - pos));
            assert(input@.subrange(e3 + 1, e4 as int) =~= sub.subrange(e3 + 1 - pos, e4 - pos));
            assert(input@.subrange(e4 + 1, e5 as int) =~= sub.subrange(e4 + 1 - pos, e5 - pos));
            assert(input@.subrange(e5 + 1, e6 as int) =~= sub.subrange(e5 + 1 - pos, e6 - pos));
            assert(input@.subrange(e6 + 1, e7 as int) =~= sub.subrange(e6 + 1 - pos, e7 - pos));
            assert(spec_parse_address(sub) =~= (ScanOutcome::Match {
                value: addr@,
                used: e7 - pos,
            }));
        }
        Ok((addr, e7))
    }
}

/// The text of an optional field, empty when absent.
pub open spec fn opt_text(o: Option<Seq<char>>) -> Seq<char> {
    match o {
        Option::Some(v) => v,
        Option::None => Seq::empty(),
    }
}

/// Rendered form of an address: the seven fields joined by `;`, absent fields
/// rendering as nothing.
pub open spec fn spec_render_address(a: SpecAddress) -> Seq<char> {
    opt_text(a.po_box) + ";"@ + opt_text(a.extended) + ";"@ + opt_text(a.street) + ";"@
        + opt_text(a.locality) + ";"@ + opt_text(a.region) + ";"@ + opt_text(a.code) + ";"@
        + opt_text(a.country)
}

fn append_opt(out: &mut String, field: &Option<String>)
    ensures
        final(out)@ == old(out)@ + opt_text(
            match field {
                Option::Some(v) => Option::Some(v@),
                Option::None => Option::None,
            },
        ),
{
    match field {
        Some(v) => out.append(v.as_str()),
        None => {
            proof {
                assert(old(out)@ + Seq::<char>::empty() =~= old(out)@);
            }
        },
    }
}

impl Address {
    /// Render this address as value text.
    pub fn render(&self) -> (r: String)
        ensures
            r@ == spec_render_address(self@),
    {
        let mut out = String::new();
        append_opt(&mut out, &self.po_box);
        out.append(";");
        append_opt(&mut out, &self.extended);
        out.append(";");
        append_opt(&mut out, &self.street);
        out.append(";");
        append_opt(&mut out, &self.locality);
        out.append(";");
        append_opt(&mut out, &self.region);
        out.append(";");
        append_opt(&mut out, &self.code);
        out.append(";");
        append_opt(&mut out, &self.country);
        proof {
            assert(out@ =~= spec_render_address(self@));
        }
        out
    }
}

} // verus!
