//! Parse outcomes, positioned diagnostics, and the two shared value
//! resolvers: typed-or-raw resolution and multiplicity resolution.

use vstd::prelude::*;

use crate::scan;
use crate::value::at_least::{spec_multiplicity, AtLeastOne, SpecAtLeastOne};
use crate::value::ty::{SpecTypeOrRaw, TypeOrRaw};

verus! {

// ---------------------------------------------------------------------------
// Outcomes and errors
// ---------------------------------------------------------------------------

/// Specification-level outcome of running a grammar against the front of a
/// character sequence. `used` counts the characters the grammar consumed.
#[verifier::ext_equal]
pub enum ScanOutcome<T> {
    /// The grammar matched, producing a value and consuming `used` characters.
    Match { value: T, used: int },
    /// The grammar did not match; callers may fall back to another grammar.
    NoMatch,
    /// The input ended before a required terminator; the caller must supply
    /// more input and retry from the same offset.
    Incomplete,
    /// A reserved frame-marker token was found where a property name was
    /// expected.
    Reserved,
}

/// The kinds of parse failure.
#[derive(Clone, Copy, PartialEq, Eq, Structural, Debug)]
pub enum ErrorKind {
    /// A required literal or delimiter is missing; fatal for the current
    /// record.
    Framing,
    /// A structured sub-grammar did not match; recoverable by falling back to
    /// a raw value.
    Mismatch,
    /// The input ended before a required terminator was found.
    Incomplete,
    /// A reserved frame-marker token stopped a generic property-name scan.
    Reserved,
}

/// One layer of failure context: a position in the original input plus a
/// human-readable label.
#[derive(Clone, PartialEq, Debug)]
pub struct Diagnostic {
    pub pos: usize,
    pub label: String,
}

/// Error returned by the parser: a failure kind plus a trail of positioned
/// context labels, deepest first. Layers append context rather than replacing
/// the inner entries.
#[derive(Clone, PartialEq, Debug)]
pub struct ParseError {
    pub kind: ErrorKind,
    pub trail: Vec<Diagnostic>,
}

/// Build a one-entry error.
pub fn parse_error(kind: ErrorKind, pos: usize, label: &str) -> (e: ParseError)
    ensures
        e.kind == kind,
        e.trail@.len() == 1,
        e.trail@[0].pos == pos,
        e.trail@[0].label@ == label@,
{
    let mut trail: Vec<Diagnostic> = Vec::new();
    trail.push(Diagnostic { pos, label: label.to_owned() });
    ParseError { kind, trail }
}

impl ParseError {
    /// Append one more layer of context, keeping the inner trail unchanged.
    pub fn with_context(self, pos: usize, label: &str) -> (e: ParseError)
        ensures
            e.kind == self.kind,
            e.trail@.len() == self.trail@.len() + 1,
            forall|k: int| 0 <= k < self.trail@.len() ==> e.trail@[k] == self.trail@[k],
            e.trail@[self.trail@.len() as int].pos == pos,
            e.trail@[self.trail@.len() as int].label@ == label@,
    {
        let ParseError { kind, mut trail } = self;
        trail.push(Diagnostic { pos, label: label.to_owned() });
        ParseError { kind, trail }
    }
}

// ---------------------------------------------------------------------------
// Rendering an error trail
// ---------------------------------------------------------------------------

/// The decimal digit character for `d`.
pub open spec fn digit_char(d: int) -> char {
    if d == 0 {
        '0'
    } else if d == 1 {
        '1'
    } else if d == 2 {
        '2'
    } else if d == 3 {
        '3'
    } else if d == 4 {
        '4'
    } else if d == 5 {
        '5'
    } else if d == 6 {
        '6'
    } else if d == 7 {
        '7'
    } else if d == 8 {
        '8'
    } else {
        '9'
    }
}

/// Decimal rendering of a natural number.
pub open spec fn spec_decimal(n: int) -> Seq<char>
    decreases n,
{
    if n < 10 {
        seq![digit_char(n)]
    } else {
        spec_decimal(n / 10).push(digit_char(n % 10))
    }
}

fn digit_str(d: usize) -> (r: &'static str)
    requires
        d < 10,
    ensures
        r@ == seq![digit_char(d as int)],
{
    proof {
        reveal_strlit("0");
        reveal_strlit("1");
        reveal_strlit("2");
        reveal_strlit("3");
        reveal_strlit("4");
        reveal_strlit("5");
        reveal_strlit("6");
        reveal_strlit("7");
        reveal_strlit("8");
        reveal_strlit("9");
    }
    if d == 0 {
        "0"
    } else if d == 1 {
        "1"
    } else if d == 2 {
        "2"
    } else if d == 3 {
        "3"
    } else if d == 4 {
        "4"
    } else if d == 5 {
        "5"
    } else if d == 6 {
        "6"
    } else if d == 7 {
        "7"
    } else if d == 8 {
        "8"
    } else {
        "9"
    }
}

/// Render a number in decimal.
pub fn decimal_string(n: usize) -> (r: String)
    ensures
        r@ == spec_decimal(n as int),
    decreases n,
{
    if n < 10 {
        digit_str(n).to_owned()
    } else {
        let mut head = decimal_string(n / 10);
        head.append(digit_str(n % 10));
        assert(head@ =~= spec_decimal(n as int));
        head
    }
}

/// Text of one trail entry: `"  at <pos>: <label>\n"`.
pub open spec fn spec_diagnostic_text(d: Diagnostic) -> Seq<char> {
    "  at "@ + spec_decimal(d.pos as int) + ": "@ + d.label@ + "\n"@
}

/// Text of a whole trail, deepest entry first.
pub open spec fn spec_trail_text(trail: Seq<Diagnostic>) -> Seq<char>
    decreases trail.len(),
{
    if trail.len() == 0 {
        Seq::<char>::empty()
    } else {
        spec_diagnostic_text(trail[0]) + spec_trail_text(trail.skip(1))
    }
}

impl ParseError {
    /// Render the positioned context trail as human-readable lines, deepest
    /// context first. The argument is accepted so callers holding the source
    /// text can keep their call sites unchanged; the rendering itself only
    /// needs the recorded positions.
    pub fn display(self, _data: &str) -> (r: String)
        ensures
            r@ == spec_trail_text(self.trail@),
    {
        let mut out = String::new();
        let n = self.trail.len();
        let mut k: usize = 0;
        proof {
            assert(self.trail@.skip(0) =~= self.trail@);
            assert(out@ + spec_trail_text(self.trail@.skip(0)) =~= spec_trail_text(self.trail@));
        }
        while k < n
            invariant
                0 <= k <= n,
                n == self.trail@.len(),
                out@ + spec_trail_text(self.trail@.skip(k as int)) == spec_trail_text(
                    self.trail@,
                ),
            decreases n - k,
        {
            let ghost out0 = out@;
            let d = &self.trail[k];
            out.append("  at ");
            let num = decimal_string(d.pos);
            out.append(num.as_str());
            out.append(": ");
            out.append(d.label.as_str());
            out.append("\n");
            proof {
                let tail = self.trail@.skip(k as int);
                assert(tail[0] == self.trail@[k as int]);
                assert(tail.skip(1) =~= self.trail@.skip(k + 1));
                assert(out@ =~= out0 + spec_diagnostic_text(self.trail@[k as int]));
                assert(out@ + spec_trail_text(self.trail@.skip(k + 1)) =~= out0 + spec_trail_text(
                    tail,
                ));
            }
            k = k + 1;
        }
        proof {
            assert(self.trail@.skip(n as int) =~= Seq::<Diagnostic>::empty());
            assert(out@ =~= spec_trail_text(self.trail@));
        }
        out
    }
}

// ---------------------------------------------------------------------------
// The Parse trait
// ---------------------------------------------------------------------------

/// Marker trait for types that can stand as a property value.
pub trait PropertyValue {

}

impl<T> PropertyValue for T {

}

/// Does the failure kind reported by an executable parser agree with the
/// specification outcome?
pub open spec fn err_matches<V>(out: ScanOutcome<V>, kind: ErrorKind) -> bool {
    match kind {
        ErrorKind::Incomplete => out is Incomplete,
        ErrorKind::Reserved => out is Reserved,
        ErrorKind::Mismatch => out is NoMatch,
        ErrorKind::Framing => out is NoMatch,
    }
}

/// The result of an executable parser agrees exactly with the outcome `out`
/// of the specification grammar applied to the input suffix starting at
/// `pos`.
pub open spec fn agrees_with<T: View>(
    s: Seq<char>,
    pos: int,
    r: Result<(T, usize), ParseError>,
    out: ScanOutcome<T::V>,
) -> bool {
    match r {
        Ok((v, end)) => pos <= end <= s.len() && out == (ScanOutcome::Match {
            value: v@,
            used: end - pos,
        }),
        Err(e) => err_matches(out, e.kind) && e.trail@.len() >= 1,
    }
}

/// A type with its own grammar. `spec_parse` is the grammar itself, stated
/// over the view of the parsed value; `parse` is the executable parser,
/// proved to agree with it.
pub trait Parse: View + Sized {
    spec fn spec_parse(s: Seq<char>) -> ScanOutcome<Self::V>;

    fn parse(input: &str, pos: usize) -> (r: Result<(Self, usize), ParseError>)
        requires
            pos <= input@.len(),
        ensures
            agrees_with::<Self>(input@, pos as int, r, Self::spec_parse(input@.skip(pos as int))),
    ;
}

/// Something the parser knows how to manage as a typed property payload.
pub trait Parsable: PropertyValue + Parse {

}

impl<T: PropertyValue + Parse> Parsable for T {

}

// ---------------------------------------------------------------------------
// Unstructured values
// ---------------------------------------------------------------------------

/// Grammar of an unstructured value: everything up to, and excluding, the
/// first unescaped line terminator, which is left unconsumed. When the input
/// ends before one is found, the scan is incomplete rather than failed.
pub open spec fn spec_value_text(s: Seq<char>) -> ScanOutcome<Seq<char>> {
    match scan::spec_scan_escaped(s, 0, false, false) {
        Some(j) => ScanOutcome::Match { value: s.take(j), used: j },
        None => ScanOutcome::Incomplete,
    }
}

/// Scan an unstructured value starting at `pos`.
pub fn parse_value(input: &str, pos: usize) -> (r: Result<(String, usize), ParseError>)
    requires
        pos <= input@.len(),
    ensures
        match r {
            Ok((v, end)) => pos <= end <= input@.len() && spec_value_text(
                input@.skip(pos as int),
            ) == (ScanOutcome::Match { value: v@, used: end - pos }),
            Err(e) => spec_value_text(input@.skip(pos as int)) is Incomplete && e.kind
                == ErrorKind::Incomplete && e.trail@.len() >= 1,
        },
{
    match scan::scan_escaped(input, pos, false) {
        Some(j) => {
            let v = scan::extract(input, pos, j);
            proof {
                assert(v@ =~= input@.skip(pos as int).take(j - pos));
            }
            Ok((v, j))
        },
        None => Err(parse_error(ErrorKind::Incomplete, pos, "unterminated value")),
    }
}

// ---------------------------------------------------------------------------
// Typed-or-raw resolution
// ---------------------------------------------------------------------------

/// Grammar of the typed-or-raw resolver: try `T`'s own grammar first; on any
/// non-incomplete failure re-scan the same input as an unstructured value and
/// keep it verbatim as a raw string.
pub open spec fn spec_resolve<T: Parse>(s: Seq<char>) -> ScanOutcome<SpecTypeOrRaw<T::V>> {
    match T::spec_parse(s) {
        ScanOutcome::Match { value, used } => ScanOutcome::Match {
            value: SpecTypeOrRaw::Type(value),
            used,
        },
        ScanOutcome::Incomplete => ScanOutcome::Incomplete,
        _ => match scan::spec_scan_escaped(s, 0, false, false) {
            Some(j) => ScanOutcome::Match { value: SpecTypeOrRaw::Raw(s.take(j)), used: j },
            None => ScanOutcome::Incomplete,
        },
    }
}

/// Parse a typed property payload, falling back to the verbatim raw text when
/// the typed grammar reports a non-incomplete failure.
pub fn parse_typed_value<T: Parsable>(input: &str, pos: usize) -> (r: Result<
    (TypeOrRaw<T>, usize),
    ParseError,
>)
    requires
        pos <= input@.len(),
    ensures
        match r {
            Ok((v, end)) => pos <= end <= input@.len() && spec_resolve::<T>(
                input@.skip(pos as int),
            ) == (ScanOutcome::Match { value: v@, used: end - pos }),
            Err(e) => spec_resolve::<T>(input@.skip(pos as int)) is Incomplete && e.kind
                == ErrorKind::Incomplete && e.trail@.len() >= 1,
        },
{
    match T::parse(input, pos) {
        Ok((v, end)) => Ok((TypeOrRaw::Type(v), end)),
        Err(e) => {
            if e.kind == ErrorKind::Incomplete {
                Err(e)
            } else {
                match scan::scan_escaped(input, pos, false) {
                    Some(j) => {
                        let raw = scan::extract(input, pos, j);
                        proof {
                            assert(raw@ =~= input@.skip(pos as int).take(j - pos));
                        }
                        Ok((TypeOrRaw::Raw(raw), j))
                    },
                    None => Err(parse_error(ErrorKind::Incomplete, pos, "unterminated value")),
                }
            }
        },
    }
}

/// Fallback totality: whenever a typed grammar reports a non-incomplete
/// failure on an input whose unstructured scan finds a terminator, the
/// resolver never fails — it yields the verbatim scanned text as a raw value.
pub proof fn lemma_fallback_totality<T: Parse>(s: Seq<char>)
    requires
        T::spec_parse(s) is NoMatch || T::spec_parse(s) is Reserved,
    ensures
        match scan::spec_scan_escaped(s, 0, false, false) {
            Some(j) => spec_resolve::<T>(s) == (ScanOutcome::Match {
                value: SpecTypeOrRaw::<T::V>::Raw(s.take(j)),
                used: j,
            }),
            None => spec_resolve::<T>(s) is Incomplete,
        },
{
}

impl<T: Parsable> Parse for TypeOrRaw<T> {
    open spec fn spec_parse(s: Seq<char>) -> ScanOutcome<Self::V> {
        spec_resolve::<T>(s)
    }

    fn parse(input: &str, pos: usize) -> (r: Result<(Self, usize), ParseError>) {
        parse_typed_value::<T>(input, pos)
    }
}

// ---------------------------------------------------------------------------
// Multiplicity resolution
// ---------------------------------------------------------------------------

/// The views of a sequence of strings.
pub open spec fn views_of(v: Seq<String>) -> Seq<Seq<char>> {
    v.map_values(|x: String| x@)
}

/// Split the front of `s` into comma-separated segments: each segment runs to
/// the next unescaped comma, unescaped line terminator, or end of input; the
/// list ends at the line terminator (left unconsumed) or at the end of input.
/// At least one segment is always produced.
pub open spec fn spec_comma_items(s: Seq<char>) -> (Seq<Seq<char>>, int)
    decreases s.len(),
{
    match scan::spec_scan_escaped(s, 0, false, true) {
        None => (seq![s], s.len() as int),
        Some(j) => {
            if 0 <= j < s.len() && s[j] == ',' {
                let (rest, used) = spec_comma_items(s.skip(j + 1));
                (seq![s.take(j)] + rest, j + 1 + used)
            } else if 0 <= j <= s.len() {
                (seq![s.take(j)], j)
            } else {
                (seq![s], s.len() as int)
            }
        },
    }
}

pub proof fn lemma_comma_items_props(s: Seq<char>)
    ensures
        spec_comma_items(s).0.len() >= 1,
        0 <= spec_comma_items(s).1 <= s.len(),
    decreases s.len(),
{
    scan::lemma_scan_escaped_props(s, 0, false, true);
    match scan::spec_scan_escaped(s, 0, false, true) {
        None => {},
        Some(j) => {
            if 0 <= j < s.len() && s[j] == ',' {
                lemma_comma_items_props(s.skip(j + 1));
            }
        },
    }
}

/// Scan the comma-separated segments that start at `pos`.
fn parse_comma_items(input: &str, pos: usize) -> (r: (Vec<String>, usize))
    requires
        pos <= input@.len(),
    ensures
        pos <= r.1 <= input@.len(),
        views_of(r.0@) == spec_comma_items(input@.skip(pos as int)).0,
        r.1 - pos == spec_comma_items(input@.skip(pos as int)).1,
        r.0@.len() >= 1,
    decreases input@.len() - pos,
{
    let ghost sub = input@.skip(pos as int);
    let len = input.unicode_len();
    match scan::scan_escaped(input, pos, true) {
        None => {
            let seg = scan::extract(input, pos, len);
            proof {
                assert(seg@ =~= sub);
            }
            let mut items: Vec<String> = Vec::new();
            items.push(seg);
            proof {
                assert(views_of(items@) =~= spec_comma_items(sub).0);
            }
            (items, len)
        },
        Some(j) => {
            proof {
                scan::lemma_scan_escaped_props(sub, 0, false, true);
                assert(sub[j - pos] == input@[j as int]);
            }
            let c = input.get_char(j);
            let seg = scan::extract(input, pos, j);
            proof {
                assert(seg@ =~= sub.take(j - pos));
            }
            if c == ',' {
                let (mut items, end) = parse_comma_items(input, j + 1);
                proof {
                    assert(input@.skip(j + 1) =~= sub.skip(j - pos + 1));
                }
                items.insert(0, seg);
                proof {
                    let (spec_items, spec_used) = spec_comma_items(sub);
                    assert(spec_items =~= seq![sub.take(j - pos)] + spec_comma_items(
                        sub.skip(j - pos + 1),
                    ).0);
                    assert(views_of(items@) =~= spec_items);
                }
                (items, end)
            } else {
                let mut items: Vec<String> = Vec::new();
                items.push(seg);
                proof {
                    assert(views_of(items@) =~= spec_comma_items(sub).0);
                }
                (items, j)
            }
        },
    }
}

/// The texts of `items` joined by `sep`.
pub open spec fn spec_join(items: Seq<Seq<char>>, sep: Seq<char>) -> Seq<char>
    decreases items.len(),
{
    if items.len() == 0 {
        Seq::empty()
    } else if items.len() == 1 {
        items[0]
    } else {
        items[0] + sep + spec_join(items.skip(1), sep)
    }
}

/// Splitting a join at its last item.
pub proof fn lemma_join_snoc(items: Seq<Seq<char>>, sep: Seq<char>)
    requires
        items.len() >= 2,
    ensures
        spec_join(items, sep) == spec_join(items.take(items.len() - 1), sep) + sep + items[items.len()
            - 1],
    decreases items.len(),
{
    let head = items.take(items.len() - 1);
    if items.len() == 2 {
        assert(head =~= seq![items[0]]);
        assert(items.skip(1) =~= seq![items[1]]);
        assert(spec_join(items.skip(1), sep) == items.skip(1)[0]);
        assert(spec_join(head, sep) == head[0]);
        assert(spec_join(items, sep) =~= head[0] + sep + items[1]);
    } else {
        lemma_join_snoc(items.skip(1), sep);
        assert(items.skip(1).take(items.len() - 2) =~= head.skip(1));
        assert(items.skip(1)[items.len() - 2] == items[items.len() - 1]);
        assert(spec_join(head, sep) == head[0] + sep + spec_join(head.skip(1), sep));
        assert(spec_join(items, sep) =~= spec_join(head, sep) + sep + items[items.len() - 1]);
    }
}

/// Join the strings of `items` with `sep`.
pub fn join_strings(items: &Vec<String>, sep: &str) -> (r: String)
    ensures
        r@ == spec_join(views_of(items@), sep@),
{
    let ghost views = views_of(items@);
    let mut out = String::new();
    let n = items.len();
    let mut k: usize = 0;
    while k < n
        invariant
            0 <= k <= n,
            n == items@.len(),
            views == views_of(items@),
            out@ == spec_join(views.take(k as int), sep@),
        decreases n - k,
    {
        let ghost out0 = out@;
        if k > 0 {
            out.append(sep);
        }
        out.append(items[k].as_str());
        proof {
            let head = views.take(k + 1);
            assert(head[k as int] == items@[k as int]@);
            assert(head.take(k as int) =~= views.take(k as int));
            if k == 0 {
                assert(out@ =~= head[0]);
                assert(spec_join(head, sep@) == head[0]) by {
                    assert(head.len() == 1);
                }
            } else {
                lemma_join_snoc(head, sep@);
                assert(out@ =~= spec_join(views.take(k as int), sep@) + sep@ + head[k as int]);
            }
        }
        k = k + 1;
    }
    proof {
        assert(views.take(n as int) =~= views);
    }
    out
}

/// Grammar of the multiplicity resolver: one segment stays a scalar, two or
/// more become a list.
pub open spec fn spec_multiple_value(s: Seq<char>) -> ScanOutcome<SpecAtLeastOne<Seq<char>>> {
    let (items, used) = spec_comma_items(s);
    ScanOutcome::Match { value: spec_multiplicity(items), used }
}

/// Multiplicity law: resolving a value always succeeds; exactly one segment
/// yields that segment as a scalar, and a list result never has fewer than
/// two items.
pub proof fn lemma_multiplicity_law(s: Seq<char>)
    ensures
        spec_multiple_value(s) matches ScanOutcome::Match { value, .. } && value.wf(),
        spec_comma_items(s).0.len() == 1 ==> spec_multiple_value(s) == (ScanOutcome::Match {
            value: SpecAtLeastOne::Single(spec_comma_items(s).0[0]),
            used: spec_comma_items(s).1,
        }),
{
    lemma_comma_items_props(s);
    crate::value::at_least::lemma_multiplicity_wf(spec_comma_items(s).0);
}

/// Parse a comma-separated value: a single segment yields a scalar, two or
/// more yield the full ordered list. Never fails.
pub fn parse_multiple_value(input: &str, pos: usize) -> (r: Result<
    (AtLeastOne<String>, usize),
    ParseError,
>)
    requires
        pos <= input@.len(),
    ensures
        r matches Ok((v, end)) && pos <= end <= input@.len() && spec_multiple_value(
            input@.skip(pos as int),
        ) == (ScanOutcome::Match { value: v@, used: end - pos }),
{
    let (mut items, end) = parse_comma_items(input, pos);
    if items.len() == 1 {
        let single = items.remove(0);
        proof {
            assert(views_of(items@.insert(0, single))[0] == single@);
        }
        Ok((AtLeastOne::Single(single), end))
    } else {
        proof {
            assert(views_of(items@).len() == items@.len());
        }
        Ok((AtLeastOne::Multiple(items), end))
    }
}

} // verus!
