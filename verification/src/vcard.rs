//! The record assembler: one contact record framed by `BEGIN:VCARD` and
//! `END:VCARD` markers.
//!
//! Frame policy: the begin and end markers are emitted as explicit entries of
//! the parsed property sequence, so a record with three body lines parses to
//! five properties in source order.

use vstd::prelude::*;

use crate::parse::{
    err_matches, spec_join, ErrorKind, Parse, ParseError, ScanOutcome,
};
use crate::property::{
    parse_begin, parse_end, parse_property, spec_parse_begin, spec_parse_end,
    spec_parse_property, spec_render_property, Property, SpecProperty,
};

verus! {

/// The views of a property sequence.
pub open spec fn property_views(v: Seq<Property>) -> Seq<SpecProperty> {
    v.map_values(|p: Property| p@)
}

/// One contact record: its ordered property list, frame markers included.
#[derive(Debug, PartialEq, Clone)]
pub struct VCard(pub Vec<Property>);

impl View for VCard {
    type V = Seq<SpecProperty>;

    open spec fn view(&self) -> Seq<SpecProperty> {
        property_views(self.0@)
    }
}

/// The record body starting at `i`: properties parsed one after another, each
/// followed by one optional line terminator, until a property fails to parse
/// (the closing frame marker is rejected by the name scan, which is what ends
/// the loop). Yields the properties and the index where the body stops.
pub open spec fn spec_parse_body(s: Seq<char>, i: int) -> (Seq<SpecProperty>, int)
    decreases s.len() - i,
{
    if i < 0 || i > s.len() {
        (seq![], i)
    } else {
        match spec_parse_property(s.skip(i)) {
            ScanOutcome::Match { value: p, used } => {
                let j = i + used;
                let j2 = if i <= j < s.len() && s[j] == '\n' {
                    j + 1
                } else {
                    j
                };
                if i < j2 <= s.len() {
                    let (rest, end) = spec_parse_body(s, j2);
                    (seq![p] + rest, end)
                } else {
                    (seq![], i)
                }
            },
            _ => (seq![], i),
        }
    }
}

/// A body scan within the suffix `s.skip(i)` is the scan within `s`, shifted.
pub proof fn lemma_body_shift(s: Seq<char>, i: int, k: int)
    requires
        0 <= i,
        0 <= k,
        i + k <= s.len(),
    ensures
        spec_parse_body(s, i + k).0 == spec_parse_body(s.skip(i), k).0,
        spec_parse_body(s, i + k).1 == i + spec_parse_body(s.skip(i), k).1,
    decreases s.len() - i - k,
{
    let sk = s.skip(i);
    assert(s.skip(i + k) =~= sk.skip(k));
    match spec_parse_property(sk.skip(k)) {
        ScanOutcome::Match { value: p, used } => {
            let j = k + used;
            if k <= j < sk.len() {
                assert(sk[j] == s[i + j]);
            }
            let j2 = if k <= j < sk.len() && sk[j] == '\n' {
                j + 1
            } else {
                j
            };
            if k < j2 <= sk.len() {
                lemma_body_shift(s, i, j2);
            }
        },
        _ => {},
    }
}

/// Parse the record body starting at `pos`.
fn parse_body(input: &str, pos: usize) -> (r: (Vec<Property>, usize))
    requires
        pos <= input@.len(),
    ensures
        pos <= r.1 <= input@.len(),
        property_views(r.0@) == spec_parse_body(input@, pos as int).0,
        r.1 as int == spec_parse_body(input@, pos as int).1,
    decreases input@.len() - pos,
{
    let len = input.unicode_len();
    match parse_property(input, pos) {
        Err(_) => {
            let props: Vec<Property> = Vec::new();
            proof {
                assert(property_views(props@) =~= spec_parse_body(input@, pos as int).0);
            }
            (props, pos)
        },
        Ok((p, j)) => {
            let j2 = if j < len && input.get_char(j) == '\n' {
                j + 1
            } else {
                j
            };
            if j2 <= pos {
                let props: Vec<Property> = Vec::new();
                proof {
                    assert(property_views(props@) =~= spec_parse_body(input@, pos as int).0);
                }
                (props, pos)
            } else {
                let (mut rest, end) = parse_body(input, j2);
                let ghost rest_views = property_views(rest@);
                rest.insert(0, p);
                proof {
                    assert(property_views(rest@) =~= seq![rest@[0]@] + rest_views);
                    assert(property_views(rest@) =~= spec_parse_body(input@, pos as int).0);
                }
                (rest, end)
            }
        },
    }
}

/// Grammar of one record: the opening frame marker, the body, the closing
/// frame marker; the two markers stand as the first and last entries of the
/// property sequence.
pub open spec fn spec_parse_vcard(s: Seq<char>) -> ScanOutcome<Seq<SpecProperty>> {
    match spec_parse_begin(s) {
        ScanOutcome::Match { value: p0, used: u0 } => {
            if 0 <= u0 <= s.len() {
                let (body, bend) = spec_parse_body(s, u0);
                if 0 <= bend <= s.len() {
                    match spec_parse_end(s.skip(bend)) {
                        ScanOutcome::Match { value: p1, used: ue } => ScanOutcome::Match {
                            value: seq![p0] + body + seq![p1],
                            used: bend + ue,
                        },
                        ScanOutcome::Incomplete => ScanOutcome::Incomplete,
                        ScanOutcome::Reserved => ScanOutcome::Reserved,
                        ScanOutcome::NoMatch => ScanOutcome::NoMatch,
                    }
                } else {
                    ScanOutcome::NoMatch
                }
            } else {
                ScanOutcome::NoMatch
            }
        },
        ScanOutcome::Incomplete => ScanOutcome::Incomplete,
        ScanOutcome::Reserved => ScanOutcome::Reserved,
        ScanOutcome::NoMatch => ScanOutcome::NoMatch,
    }
}

impl Parse for VCard {
    open spec fn spec_parse(s: Seq<char>) -> ScanOutcome<Seq<SpecProperty>> {
        spec_parse_vcard(s)
    }

    fn parse(input: &str, pos: usize) -> (r: Result<(Self, usize), ParseError>) {
        let ghost sub = input@.skip(pos as int);
        match parse_begin(input, pos) {
            Err(e) => Err(e),
            Ok((p0, u0)) => {
                proof {
                    lemma_body_shift(input@, pos as int, u0 - pos);
                }
                let (body, bend) = parse_body(input, u0);
                proof {
                    assert(input@.skip(bend as int) =~= sub.skip(bend - pos));
                }
                match parse_end(input, bend) {
                    Err(e) => Err(e.with_context(pos, "expected closing frame marker")),
                    Ok((p1, ue)) => {
                        let ghost body_views = property_views(body@);
                        let mut props = body;
                        props.insert(0, p0);
                        props.push(p1);
                        let card = VCard(props);
                        proof {
                            assert(card@ =~= seq![p0@] + body_views + seq![p1@]);
                            assert(spec_parse_vcard(sub) == (ScanOutcome::Match {
                                value: card@,
                                used: ue - pos,
                            }));
                        }
                        Ok((card, ue))
                    },
                }
            },
        }
    }
}

impl VCard {
    /// The record's properties, in source order.
    pub fn iter(&self) -> (r: &Vec<Property>)
        ensures
            r@ == self.0@,
    {
        &self.0
    }

    /// Parse one record from the start of `input`; the remainder of the input
    /// is ignored.
    pub fn parse(input: &str) -> (r: Result<VCard, ParseError>)
        ensures
            match r {
                Ok(card) => spec_parse_vcard(input@) matches ScanOutcome::Match { value, .. }
                    && value == card@,
                Err(e) => !(spec_parse_vcard(input@) is Match) && err_matches(
                    spec_parse_vcard(input@),
                    e.kind,
                ) && e.trail@.len() >= 1,
            },
    {
        proof {
            assert(input@.skip(0) =~= input@);
        }
        match <VCard as Parse>::parse(input, 0) {
            Ok((card, _)) => Ok(card),
            Err(e) => Err(e),
        }
    }
}

/// Rendered form of a record: its properties rendered one per line, joined by
/// the line terminator.
pub open spec fn spec_render_vcard(ps: Seq<SpecProperty>) -> Seq<char> {
    spec_join(ps.map_values(|p: SpecProperty| spec_render_property(p)), "\n"@)
}

impl VCard {
    /// Render this record as text, one property per line.
    pub fn render(&self) -> (r: String)
        ensures
            r@ == spec_render_vcard(self@),
    {
        let ghost texts = self@.map_values(|p: SpecProperty| spec_render_property(p));
        let mut out = String::new();
        let n = self.0.len();
        let mut k: usize = 0;
        while k < n
            invariant
                0 <= k <= n,
                n == self.0@.len(),
                texts == self@.map_values(|p: SpecProperty| spec_render_property(p)),
                out@ == spec_join(texts.take(k as int), "\n"@),
            decreases n - k,
        {
            if k > 0 {
                out.append("\n");
            }
            let line = self.0[k].render();
            out.append(line.as_str());
            proof {
                let head = texts.take(k + 1);
                assert(head[k as int] == spec_render_property(self.0@[k as int]@));
                assert(head.take(k as int) =~= texts.take(k as int));
                if k == 0 {
                    assert(spec_join(head, "\n"@) == head[0]) by {
                        assert(head.len() == 1);
                    }
                    assert(out@ =~= spec_join(head, "\n"@));
                } else {
                    crate::parse::lemma_join_snoc(head, "\n"@);
                    assert(out@ =~= spec_join(texts.take(k as int), "\n"@) + "\n"@ + head[
                        k as int
                    ]);
                }
            }
            k = k + 1;
        }
        proof {
            assert(texts.take(n as int) =~= texts);
        }
        out
    }
}

} // verus!
