//! The structured name value: five semicolon-separated comma-lists.

use vstd::prelude::*;

use crate::parse::{
    parse_error, spec_join, views_of, join_strings, ErrorKind, Parse, ParseError, ScanOutcome,
};
use crate::scan;
use crate::scan::CharClass;

verus! {

/// Specification-level counterpart of [`FormattedName`].
#[verifier::ext_equal]
pub struct SpecFormattedName {
    pub surname: Seq<Seq<char>>,
    pub given: Seq<Seq<char>>,
    pub additional: Seq<Seq<char>>,
    pub prefix: Seq<Seq<char>>,
    pub suffix: Seq<Seq<char>>,
}

/// A structured name: five `;`-separated comma-lists. An absent segment is an
/// empty list.
#[derive(Debug, PartialEq, Clone)]
pub struct FormattedName {
    pub surname: Vec<String>,
    pub given: Vec<String>,
    pub additional: Vec<String>,
    pub prefix: Vec<String>,
    pub suffix: Vec<String>,
}

impl View for FormattedName {
    type V = SpecFormattedName;

    open spec fn view(&self) -> SpecFormattedName {
        SpecFormattedName {
            surname: views_of(self.surname@),
            given: views_of(self.given@),
            additional: views_of(self.additional@),
            prefix: views_of(self.prefix@),
            suffix: views_of(self.suffix@),
        }
    }
}

/// A comma-list of formatted segments starting at `i`: non-empty segments of
/// formatted characters separated by single commas; a comma not followed by a
/// further segment is left unconsumed. Yields the segments and the index just
/// past the list; an absent list is empty and consumes nothing.
pub open spec fn spec_fmt_list(s: Seq<char>, i: int) -> (Seq<Seq<char>>, int)
    decreases s.len() - i,
{
    let e = scan::spec_run(s, i, CharClass::Formatted);
    if e <= i {
        (seq![], i)
    } else if e < s.len() && s[e] == ',' && scan::spec_run(s, e + 1, CharClass::Formatted) > e
        + 1 {
        let (rest, end) = spec_fmt_list(s, e + 1);
        (seq![s.subrange(i, e)] + rest, end)
    } else {
        (seq![s.subrange(i, e)], e)
    }
}

pub proof fn lemma_fmt_list_props(s: Seq<char>, i: int)
    requires
        0 <= i <= s.len(),
    ensures
        i <= spec_fmt_list(s, i).1 <= s.len(),
    decreases s.len() - i,
{
    scan::lemma_run_props(s, i, CharClass::Formatted);
    let e = scan::spec_run(s, i, CharClass::Formatted);
    if e > i && e < s.len() && s[e] == ',' && scan::spec_run(s, e + 1, CharClass::Formatted) > e
        + 1 {
        lemma_fmt_list_props(s, e + 1);
    }
}

/// A list scan within the suffix `s.skip(i)` is the scan within `s`, shifted.
pub proof fn lemma_fmt_list_shift(s: Seq<char>, i: int, k: int)
    requires
        0 <= i,
        0 <= k,
        i + k <= s.len(),
    ensures
        spec_fmt_list(s, i + k).0 == spec_fmt_list(s.skip(i), k).0,
        spec_fmt_list(s, i + k).1 == i + spec_fmt_list(s.skip(i), k).1,
    decreases s.len() - i - k,
{
    let sk = s.skip(i);
    scan::lemma_run_shift(s, i, k, CharClass::Formatted);
    scan::lemma_run_props(sk, k, CharClass::Formatted);
    let e = scan::spec_run(sk, k, CharClass::Formatted);
    if e > k {
        assert(s.subrange(i + k, i + e) =~= sk.subrange(k, e));
        if e < sk.len() {
            assert(sk[e] == s[i + e]);
            if sk[e] == ',' {
                scan::lemma_run_shift(s, i, e + 1, CharClass::Formatted);
                if scan::spec_run(sk, e + 1, CharClass::Formatted) > e + 1 {
                    lemma_fmt_list_shift(s, i, e + 1);
                }
            }
        }
    }
}

/// Scan one comma-list of formatted segments.
fn parse_fmt_list(input: &str, pos: usize) -> (r: (Vec<String>, usize))
    requires
        pos <= input@.len(),
    ensures
        pos <= r.1 <= input@.len(),
        views_of(r.0@) == spec_fmt_list(input@, pos as int).0,
        r.1 as int == spec_fmt_list(input@, pos as int).1,
    decreases input@.len() - pos,
{
    let len = input.unicode_len();
    let e = scan::scan_run_abs(input, pos, CharClass::Formatted);
    if e <= pos {
        let items: Vec<String> = Vec::new();
        proof {
            assert(views_of(items@) =~= spec_fmt_list(input@, pos as int).0);
        }
        (items, pos)
    } else if e < len && input.get_char(e) == ',' {
        let e2 = scan::scan_run_abs(input, e + 1, CharClass::Formatted);
        let seg = scan::extract(input, pos, e);
        if e2 > e + 1 {
            let (mut items, end) = parse_fmt_list(input, e + 1);
            items.insert(0, seg);
            proof {
                assert(views_of(items@) =~= seq![input@.subrange(pos as int, e as int)]
                    + spec_fmt_list(input@, e + 1).0);
            }
            (items, end)
        } else {
            let mut items: Vec<String> = Vec::new();
            items.push(seg);
            proof {
                assert(views_of(items@) =~= spec_fmt_list(input@, pos as int).0);
            }
            (items, e)
        }
    } else {
        let seg = scan::extract(input, pos, e);
        let mut items: Vec<String> = Vec::new();
        items.push(seg);
        proof {
            assert(views_of(items@) =~= spec_fmt_list(input@, pos as int).0);
        }
        (items, e)
    }
}

/// Grammar: five comma-lists separated by semicolons; the separator before
/// the fifth list is optional (an absent fifth list is empty).
#[verifier::opaque]
pub open spec fn spec_parse_fname(s: Seq<char>) -> ScanOutcome<SpecFormattedName> {
    let (l1, i1) = spec_fmt_list(s, 0);
    if !(0 <= i1 < s.len() && s[i1] == ';') {
        ScanOutcome::NoMatch
    } else {
        let (l2, i2) = spec_fmt_list(s, i1 + 1);
        if !(i2 < s.len() && s[i2] == ';') {
            ScanOutcome::NoMatch
        } else {
            let (l3, i3) = spec_fmt_list(s, i2 + 1);
            if !(i3 < s.len() && s[i3] == ';') {
                ScanOutcome::NoMatch
            } else {
                let (l4, i4) = spec_fmt_list(s, i3 + 1);
                let i5 = if i4 < s.len() && s[i4] == ';' {
                    i4 + 1
                } else {
                    i4
                };
                let (l5, i6) = spec_fmt_list(s, i5);
                ScanOutcome::Match {
                    value: SpecFormattedName {
                        surname: l1,
                        given: l2,
                        additional: l3,
                        prefix: l4,
                        suffix: l5,
                    },
                    used: i6,
                }
            }
        }
    }
}

impl Parse for FormattedName {
    open spec fn spec_parse(s: Seq<char>) -> ScanOutcome<SpecFormattedName> {
        spec_parse_fname(s)
    }

    fn parse(input: &str, pos: usize) -> (r: Result<(Self, usize), ParseError>) {
        proof {
            reveal(spec_parse_fname);
        }
        let ghost sub = input@.skip(pos as int);
        let len = input.unicode_len();
        let (surname, i1) = parse_fmt_list(input, pos);
        proof {
            lemma_fmt_list_shift(input@, pos as int, 0);
            if i1 < len {
                assert(sub[i1 - pos] == input@[i1 as int]);
            }
        }
        if !(i1 < len && input.get_char(i1) == ';') {
            return Err(parse_error(ErrorKind::Mismatch, pos, "malformed structured name"));
        }
        let (given, i2) = parse_fmt_list(input, i1 + 1);
        proof {
            lemma_fmt_list_shift(input@, pos as int, i1 + 1 - pos);
            if i2 < len {
                assert(sub[i2 - pos] == input@[i2 as int]);
            }
        }
        if !(i2 < len && input.get_char(i2) == ';') {
            return Err(parse_error(ErrorKind::Mismatch, pos, "malformed structured name"));
        }
        let (additional, i3) = parse_fmt_list(input, i2 + 1);
        proof {
            lemma_fmt_list_shift(input@, pos as int, i2 + 1 - pos);
            if i3 < len {
                assert(sub[i3 - pos] == input@[i3 as int]);
            }
        }
        if !(i3 < len && input.get_char(i3) == ';') {
            return Err(parse_error(ErrorKind::Mismatch, pos, "malformed structured name"));
        }
        let (prefix, i4) = parse_fmt_list(input, i3 + 1);
        proof {
            lemma_fmt_list_shift(input@, pos as int, i3 + 1 - pos);
            if i4 < len {
                assert(sub[i4 - pos] == input@[i4 as int]);
            }
        }
        let i5 = if i4 < len && input.get_char(i4) == ';' {
            i4 + 1
        } else {
            i4
        };
        let (suffix, i6) = parse_fmt_list(input, i5);
        let name = FormattedName { surname, given, additional, prefix, suffix };
        proof {
            lemma_fmt_list_shift(input@, pos as int, i5 - pos);
            assert(spec_parse_fname(sub) =~= (ScanOutcome::Match {
                value: name@,
                used: i6 - pos,
            }));
        }
        Ok((name, i6))
    }
}

/// Rendered form of a structured name: the five comma-joined lists joined by
/// `;`.
pub open spec fn spec_render_fname(n: SpecFormattedName) -> Seq<char> {
    spec_join(n.surname, ","@) + ";"@ + spec_join(n.given, ","@) + ";"@ + spec_join(
        n.additional,
        ","@,
    ) + ";"@ + spec_join(n.prefix, ","@) + ";"@ + spec_join(n.suffix, ","@)
}

impl FormattedName {
    /// Render this structured name as value text.
    pub fn render(&self) -> (r: String)
        ensures
            r@ == spec_render_fname(self@),
    {
        let mut out = join_strings(&self.surname, ",");
        out.append(";");
        let part = join_strings(&self.given, ",");
        out.append(part.as_str());
        out.append(";");
        let part = join_strings(&self.additional, ",");
        out.append(part.as_str());
        out.append(";");
        let part = join_strings(&self.prefix, ",");
        out.append(part.as_str());
        out.append(";");
        let part = join_strings(&self.suffix, ",");
        out.append(part.as_str());
        proof {
            assert(out@ =~= spec_render_fname(self@));
        }
        out
    }
}

} // verus!
