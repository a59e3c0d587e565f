//! The multi-record container: consecutive records parsed from one stream.

use vstd::prelude::*;

use crate::parse::{spec_join, Parse, ParseError, ScanOutcome};
use crate::property::SpecProperty;
use crate::vcard::{spec_parse_vcard, spec_render_vcard, VCard};

verus! {

/// The views of a record sequence.
pub open spec fn card_views(v: Seq<VCard>) -> Seq<Seq<SpecProperty>> {
    v.map_values(|c: VCard| c@)
}

/// A stream of consecutive contact records.
#[derive(Debug, PartialEq, Clone)]
pub struct Vcf(pub Vec<VCard>);

impl View for Vcf {
    type V = Seq<Seq<SpecProperty>>;

    open spec fn view(&self) -> Seq<Seq<SpecProperty>> {
        card_views(self.0@)
    }
}

/// Records parsed one after another starting at `i`, until no further record
/// can be parsed; an empty stream is not an error.
pub open spec fn spec_parse_records(s: Seq<char>, i: int) -> (Seq<Seq<SpecProperty>>, int)
    decreases s.len() - i,
{
    if i < 0 || i > s.len() {
        (seq![], i)
    } else {
        match spec_parse_vcard(s.skip(i)) {
            ScanOutcome::Match { value: c, used } => {
                let j = i + used;
                if i < j <= s.len() {
                    let (rest, end) = spec_parse_records(s, j);
                    (seq![c] + rest, end)
                } else {
                    (seq![], i)
                }
            },
            _ => (seq![], i),
        }
    }
}

/// A record scan within the suffix `s.skip(i)` is the scan within `s`,
/// shifted.
pub proof fn lemma_records_shift(s: Seq<char>, i: int, k: int)
    requires
        0 <= i,
        0 <= k,
        i + k <= s.len(),
    ensures
        spec_parse_records(s, i + k).0 == spec_parse_records(s.skip(i), k).0,
        spec_parse_records(s, i + k).1 == i + spec_parse_records(s.skip(i), k).1,
    decreases s.len() - i - k,
{
    let sk = s.skip(i);
    assert(s.skip(i + k) =~= sk.skip(k));
    match spec_parse_vcard(sk.skip(k)) {
        ScanOutcome::Match { value: c, used } => {
            let j = k + used;
            if k < j <= sk.len() {
                lemma_records_shift(s, i, j);
            }
        },
        _ => {},
    }
}

/// Parse the records starting at `pos`.
fn parse_records(input: &str, pos: usize) -> (r: (Vec<VCard>, usize))
    requires
        pos <= input@.len(),
    ensures
        pos <= r.1 <= input@.len(),
        card_views(r.0@) == spec_parse_records(input@, pos as int).0,
        r.1 as int == spec_parse_records(input@, pos as int).1,
    decreases input@.len() - pos,
{
    match <VCard as Parse>::parse(input, pos) {
        Err(_) => {
            let cards: Vec<VCard> = Vec::new();
            proof {
                assert(card_views(cards@) =~= spec_parse_records(input@, pos as int).0);
            }
            (cards, pos)
        },
        Ok((c, j)) => {
            if j <= pos {
                let cards: Vec<VCard> = Vec::new();
                proof {
                    assert(card_views(cards@) =~= spec_parse_records(input@, pos as int).0);
                }
                (cards, pos)
            } else {
                let (mut rest, end) = parse_records(input, j);
                let ghost rest_views = card_views(rest@);
                rest.insert(0, c);
                proof {
                    assert(card_views(rest@) =~= seq![rest@[0]@] + rest_views);
                    assert(card_views(rest@) =~= spec_parse_records(input@, pos as int).0);
                }
                (rest, end)
            }
        },
    }
}

impl Parse for Vcf {
    open spec fn spec_parse(s: Seq<char>) -> ScanOutcome<Seq<Seq<SpecProperty>>> {
        ScanOutcome::Match {
            value: spec_parse_records(s, 0).0,
            used: spec_parse_records(s, 0).1,
        }
    }

    fn parse(input: &str, pos: usize) -> (r: Result<(Self, usize), ParseError>) {
        proof {
            lemma_records_shift(input@, pos as int, 0);
        }
        let (cards, end) = parse_records(input, pos);
        Ok((Vcf(cards), end))
    }
}

/// Rendered form of a stream: the records' texts joined by the line
/// terminator.
pub open spec fn spec_render_vcf(cards: Seq<Seq<SpecProperty>>) -> Seq<char> {
    spec_join(cards.map_values(|c: Seq<SpecProperty>| spec_render_vcard(c)), "\n"@)
}

impl Vcf {
    /// Render this stream as text.
    pub fn render(&self) -> (r: String)
        ensures
            r@ == spec_render_vcf(self@),
    {
        let ghost texts = self@.map_values(|c: Seq<SpecProperty>| spec_render_vcard(c));
        let mut out = String::new();
        let n = self.0.len();
        let mut k: usize = 0;
        while k < n
            invariant
                0 <= k <= n,
                n == self.0@.len(),
                texts == self@.map_values(|c: Seq<SpecProperty>| spec_render_vcard(c)),
                out@ == spec_join(texts.take(k as int), "\n"@),
            decreases n - k,
        {
            if k > 0 {
                out.append("\n");
            }
            let text = self.0[k].render();
            out.append(text.as_str());
            proof {
                let head = texts.take(k + 1);
                assert(head[k as int] == spec_render_vcard(self.0@[k as int]@));
                assert(head.take(k as int) =~= texts.take(k as int));
                if k == 0 {
                    assert(spec_join(head, "\n"@) == head[0]) by {
                        assert(head.len() == 1);
                    }
                    assert(out@ =~= spec_join(head, "\n"@));
                } else {
                    crate::parse::lemma_join_snoc(head, "\n"@);
                    assert(out@ =~= spec_join(texts.take(k as int), "\n"@) + "\n"@ + head[
                        k as int
                    ]);
                }
            }
            k = k + 1;
        }
        proof {
            assert(texts.take(n as int) =~= texts);
        }
        out
    }
}

} // verus!
