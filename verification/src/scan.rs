//! Scanner primitives shared by every grammar in the crate.
//!
//! All specification functions describe a scan of a character sequence `s`
//! that begins at index `i`; executable scanners run over a `&str` and a
//! start position and are proved to agree with the specification applied to
//! the suffix of the input that starts at that position.

use vstd::prelude::*;

verus! {

// ---------------------------------------------------------------------------
// Character classes
// ---------------------------------------------------------------------------

/// Characters that terminate a property-name token.
pub open spec fn is_name_delim(c: char) -> bool {
    c == ':' || c == '=' || c == ';'
}

/// Characters that terminate a parameter value.
pub open spec fn is_param_delim(c: char) -> bool {
    c == ':' || c == ';'
}

pub open spec fn is_alpha(c: char) -> bool {
    ('a' <= c && c <= 'z') || ('A' <= c && c <= 'Z')
}

pub open spec fn is_digit(c: char) -> bool {
    '0' <= c && c <= '9'
}

pub open spec fn is_alnum(c: char) -> bool {
    is_alpha(c) || is_digit(c)
}

/// Characters allowed in a URL domain.
pub open spec fn is_domain_char(c: char) -> bool {
    is_alnum(c) || c == '.'
}

/// Characters allowed in a URL path segment.
pub open spec fn is_path_char(c: char) -> bool {
    is_alnum(c) || c == '.' || c == '_' || c == '-'
}

/// Characters allowed in a formatted (fixed-delimiter) segment.
pub open spec fn is_fmt_char(c: char) -> bool {
    c != ',' && c != ';' && c != '\n'
}

/// The character classes an executable scanner can run over.
#[derive(Clone, Copy, PartialEq, Eq, Debug)]
pub enum CharClass {
    Alpha,
    Digit,
    Domain,
    PathSeg,
    Formatted,
}

pub open spec fn in_class(cls: CharClass, c: char) -> bool {
    match cls {
        CharClass::Alpha => is_alpha(c),
        CharClass::Digit => is_digit(c),
        CharClass::Domain => is_domain_char(c),
        CharClass::PathSeg => is_path_char(c),
        CharClass::Formatted => is_fmt_char(c),
    }
}

fn char_in_class(cls: CharClass, c: char) -> (r: bool)
    ensures
        r == in_class(cls, c),
{
    match cls {
        CharClass::Alpha => ('a' <= c && c <= 'z') || ('A' <= c && c <= 'Z'),
        CharClass::Digit => '0' <= c && c <= '9',
        CharClass::Domain => ('a' <= c && c <= 'z') || ('A' <= c && c <= 'Z') || ('0' <= c && c
            <= '9') || c == '.',
        CharClass::PathSeg => ('a' <= c && c <= 'z') || ('A' <= c && c <= 'Z') || ('0' <= c && c
            <= '9') || c == '.' || c == '_' || c == '-',
        CharClass::Formatted => c != ',' && c != ';' && c != '\n',
    }
}

// ---------------------------------------------------------------------------
// Maximal runs of a character class
// ---------------------------------------------------------------------------

/// Index just past the maximal run of `cls` characters starting at `i`.
pub open spec fn spec_run(s: Seq<char>, i: int, cls: CharClass) -> int
    decreases s.len() - i,
{
    if i < 0 || i >= s.len() || !in_class(cls, s[i]) {
        i
    } else {
        spec_run(s, i + 1, cls)
    }
}

pub proof fn lemma_run_props(s: Seq<char>, i: int, cls: CharClass)
    requires
        0 <= i <= s.len(),
    ensures
        i <= spec_run(s, i, cls) <= s.len(),
        forall|k: int| i <= k < spec_run(s, i, cls) ==> in_class(cls, #[trigger] s[k]),
        spec_run(s, i, cls) < s.len() ==> !in_class(cls, s[spec_run(s, i, cls)]),
    decreases s.len() - i,
{
    if i < s.len() && in_class(cls, s[i]) {
        lemma_run_props(s, i + 1, cls);
    }
}

/// The converse characterization of a run: a stretch of class characters
/// bounded by a non-class character (or the end of the input) is the run.
pub proof fn lemma_run_stops(s: Seq<char>, i: int, e: int, cls: CharClass)
    requires
        0 <= i <= e <= s.len(),
        forall|k: int| i <= k < e ==> in_class(cls, #[trigger] s[k]),
        e < s.len() ==> !in_class(cls, s[e]),
    ensures
        spec_run(s, i, cls) == e,
    decreases e - i,
{
    if i < e {
        lemma_run_stops(s, i + 1, e, cls);
    }
}

/// A run within the suffix `s.skip(i)` is the run within `s`, shifted.
pub proof fn lemma_run_shift(s: Seq<char>, i: int, k: int, cls: CharClass)
    requires
        0 <= i,
        0 <= k,
        i + k <= s.len(),
    ensures
        spec_run(s, i + k, cls) == i + spec_run(s.skip(i), k, cls),
    decreases s.len() - i - k,
{
    assert(s.skip(i).len() == s.len() - i);
    if i + k < s.len() {
        assert(s.skip(i)[k] == s[i + k]);
        if in_class(cls, s[i + k]) {
            lemma_run_shift(s, i, k + 1, cls);
        }
    }
}

/// Scan the maximal run of `cls` characters that starts at `pos`.
pub fn scan_run(input: &str, pos: usize, cls: CharClass) -> (end: usize)
    requires
        pos <= input@.len(),
    ensures
        pos <= end <= input@.len(),
        end - pos == spec_run(input@.skip(pos as int), 0, cls),
{
    let ghost sub = input@.skip(pos as int);
    let len = input.unicode_len();
    let mut i = pos;
    while i < len && char_in_class(cls, input.get_char(i))
        invariant
            pos <= i <= len,
            len == input@.len(),
            sub == input@.skip(pos as int),
            spec_run(sub, 0, cls) == spec_run(sub, i - pos, cls),
            forall|k: int| 0 <= k < i - pos ==> in_class(cls, #[trigger] sub[k]),
        decreases len - i,
    {
        assert(sub[i - pos] == input@[i as int]);
        i = i + 1;
    }
    proof {
        if i < len {
            assert(sub[i - pos] == input@[i as int]);
        }
        assert(spec_run(sub, i - pos, cls) == i - pos);
    }
    i
}

/// Scan the maximal run of `cls` characters that starts at `pos`, stated
/// against the whole input rather than its suffix.
pub fn scan_run_abs(input: &str, pos: usize, cls: CharClass) -> (end: usize)
    requires
        pos <= input@.len(),
    ensures
        pos <= end <= input@.len(),
        end as int == spec_run(input@, pos as int, cls),
{
    let e = scan_run(input, pos, cls);
    proof {
        lemma_run_shift(input@, pos as int, 0, cls);
    }
    e
}

// ---------------------------------------------------------------------------
// First occurrence of a stop character
// ---------------------------------------------------------------------------

/// What a plain (escape-unaware) scan stops at.
#[derive(Clone, Copy, PartialEq, Eq, Debug)]
pub enum StopSet {
    /// The delimiters that end a property-name token.
    NameDelim,
    /// The delimiters that end a parameter value.
    ParamDelim,
    /// One specific character.
    Lit(char),
}

pub open spec fn stop_matches(st: StopSet, c: char) -> bool {
    match st {
        StopSet::NameDelim => is_name_delim(c),
        StopSet::ParamDelim => is_param_delim(c),
        StopSet::Lit(d) => c == d,
    }
}

fn stop_matches_exec(st: StopSet, c: char) -> (r: bool)
    ensures
        r == stop_matches(st, c),
{
    match st {
        StopSet::NameDelim => c == ':' || c == '=' || c == ';',
        StopSet::ParamDelim => c == ':' || c == ';',
        StopSet::Lit(d) => c == d,
    }
}

/// Index of the first character at or after `i` that belongs to `st`.
pub open spec fn spec_find(s: Seq<char>, i: int, st: StopSet) -> Option<int>
    decreases s.len() - i,
{
    if i < 0 || i >= s.len() {
        None
    } else if stop_matches(st, s[i]) {
        Some(i)
    } else {
        spec_find(s, i + 1, st)
    }
}

pub proof fn lemma_find_props(s: Seq<char>, i: int, st: StopSet)
    requires
        0 <= i <= s.len(),
    ensures
        match spec_find(s, i, st) {
            Some(j) => i <= j < s.len() && stop_matches(st, s[j]) && forall|k: int|
                i <= k < j ==> !stop_matches(st, #[trigger] s[k]),
            None => forall|k: int| i <= k < s.len() ==> !stop_matches(st, #[trigger] s[k]),
        },
    decreases s.len() - i,
{
    if i < s.len() && !stop_matches(st, s[i]) {
        lemma_find_props(s, i + 1, st);
    }
}

/// The converse characterization of a find: the first index that carries a
/// stop character is what the scan returns.
pub proof fn lemma_find_at(s: Seq<char>, i: int, j: int, st: StopSet)
    requires
        0 <= i <= j < s.len(),
        stop_matches(st, s[j]),
        forall|k: int| i <= k < j ==> !stop_matches(st, #[trigger] s[k]),
    ensures
        spec_find(s, i, st) == Some(j),
    decreases j - i,
{
    if i < j {
        lemma_find_at(s, i + 1, j, st);
    }
}

/// A find over an input without any stop character comes back empty.
pub proof fn lemma_find_none(s: Seq<char>, i: int, st: StopSet)
    requires
        0 <= i <= s.len(),
        forall|k: int| i <= k < s.len() ==> !stop_matches(st, #[trigger] s[k]),
    ensures
        spec_find(s, i, st) is None,
    decreases s.len() - i,
{
    if i < s.len() {
        lemma_find_none(s, i + 1, st);
    }
}

/// A find within the suffix `s.skip(i)` is the find within `s`, shifted.
pub proof fn lemma_find_shift(s: Seq<char>, i: int, k: int, st: StopSet)
    requires
        0 <= i,
        0 <= k,
        i + k <= s.len(),
    ensures
        spec_find(s, i + k, st) == match spec_find(s.skip(i), k, st) {
            Some(j) => Some(i + j),
            None => None::<int>,
        },
    decreases s.len() - i - k,
{
    assert(s.skip(i).len() == s.len() - i);
    if i + k < s.len() {
        assert(s.skip(i)[k] == s[i + k]);
        if !stop_matches(st, s[i + k]) {
            lemma_find_shift(s, i, k + 1, st);
        }
    }
}

/// Find the first character of `st` at or after `pos`; `None` when the input
/// ends first.
pub fn find_stop(input: &str, pos: usize, st: StopSet) -> (r: Option<usize>)
    requires
        pos <= input@.len(),
    ensures
        match r {
            Some(j) => pos <= j < input@.len() && spec_find(input@.skip(pos as int), 0, st)
                == Some(j - pos),
            None => spec_find(input@.skip(pos as int), 0, st) is None,
        },
{
    let ghost sub = input@.skip(pos as int);
    let len = input.unicode_len();
    let mut i = pos;
    while i < len && !stop_matches_exec(st, input.get_char(i))
        invariant
            pos <= i <= len,
            len == input@.len(),
            sub == input@.skip(pos as int),
            spec_find(sub, 0, st) == spec_find(sub, i - pos, st),
        decreases len - i,
    {
        assert(sub[i - pos] == input@[i as int]);
        i = i + 1;
    }
    if i < len {
        proof {
            assert(sub[i - pos] == input@[i as int]);
        }
        Some(i)
    } else {
        None
    }
}

// ---------------------------------------------------------------------------
// Escape-aware scanning
// ---------------------------------------------------------------------------

/// Escape-aware scan for the next unescaped terminator.
///
/// The terminators are the line terminator and, when `stop_comma` is set, the
/// comma. A backslash marks the next character as escaped; a terminator seen
/// while escaped is part of the scanned text and leaves the flag unchanged;
/// any other character clears the flag. Returns the index of the first
/// unescaped terminator at or after `i`, or `None` when the input ends before
/// one is found.
pub open spec fn spec_scan_escaped(s: Seq<char>, i: int, esc: bool, stop_comma: bool) -> Option<
    int,
>
    decreases s.len() - i,
{
    if i < 0 || i >= s.len() {
        None
    } else if s[i] == '\\' {
        spec_scan_escaped(s, i + 1, true, stop_comma)
    } else if s[i] == '\n' || (stop_comma && s[i] == ',') {
        if !esc {
            Some(i)
        } else {
            spec_scan_escaped(s, i + 1, esc, stop_comma)
        }
    } else {
        spec_scan_escaped(s, i + 1, false, stop_comma)
    }
}

pub proof fn lemma_scan_escaped_props(s: Seq<char>, i: int, esc: bool, stop_comma: bool)
    requires
        0 <= i <= s.len(),
    ensures
        match spec_scan_escaped(s, i, esc, stop_comma) {
            Some(j) => i <= j < s.len() && (s[j] == '\n' || (stop_comma && s[j] == ',')),
            None => true,
        },
    decreases s.len() - i,
{
    if i < s.len() {
        if s[i] == '\\' {
            lemma_scan_escaped_props(s, i + 1, true, stop_comma);
        } else if s[i] == '\n' || (stop_comma && s[i] == ',') {
            if esc {
                lemma_scan_escaped_props(s, i + 1, esc, stop_comma);
            }
        } else {
            lemma_scan_escaped_props(s, i + 1, false, stop_comma);
        }
    }
}

/// The scan result depends only on the characters strictly before the found
/// terminator, plus the terminator itself.
pub proof fn lemma_scan_escaped_agree(
    s1: Seq<char>,
    s2: Seq<char>,
    i: int,
    esc: bool,
    stop_comma: bool,
    j: int,
)
    requires
        0 <= i <= s1.len(),
        spec_scan_escaped(s1, i, esc, stop_comma) == Some(j),
        j < s2.len(),
        forall|k: int| i <= k < j ==> s2[k] == s1[k],
        s2[j] == '\n' || (stop_comma && s2[j] == ','),
    ensures
        spec_scan_escaped(s2, i, esc, stop_comma) == Some(j),
    decreases s1.len() - i,
{
    lemma_scan_escaped_props(s1, i, esc, stop_comma);
    if i < j {
        if s1[i] == '\\' {
            lemma_scan_escaped_agree(s1, s2, i + 1, true, stop_comma, j);
        } else if s1[i] == '\n' || (stop_comma && s1[i] == ',') {
            lemma_scan_escaped_agree(s1, s2, i + 1, esc, stop_comma, j);
        } else {
            lemma_scan_escaped_agree(s1, s2, i + 1, false, stop_comma, j);
        }
    } else {
        // i == j: the scan must have stopped right here, so the character is
        // an unescaped terminator; the same holds of s2 by assumption.
        if s1[i] == '\\' {
            lemma_scan_escaped_props(s1, i + 1, true, stop_comma);
            assert(false);
        } else if s1[i] == '\n' || (stop_comma && s1[i] == ',') {
            if esc {
                lemma_scan_escaped_props(s1, i + 1, esc, stop_comma);
                assert(false);
            }
        } else {
            lemma_scan_escaped_props(s1, i + 1, false, stop_comma);
            assert(false);
        }
    }
}

/// An escape-aware scan within the suffix `s.skip(i)` is the scan within
/// `s`, shifted.
pub proof fn lemma_scan_escaped_shift(s: Seq<char>, i: int, k: int, esc: bool, stop_comma: bool)
    requires
        0 <= i,
        0 <= k,
        i + k <= s.len(),
    ensures
        spec_scan_escaped(s, i + k, esc, stop_comma) == match spec_scan_escaped(
            s.skip(i),
            k,
            esc,
            stop_comma,
        ) {
            Some(j) => Some(i + j),
            None => None::<int>,
        },
    decreases s.len() - i - k,
{
    assert(s.skip(i).len() == s.len() - i);
    if i + k < s.len() {
        assert(s.skip(i)[k] == s[i + k]);
        if s[i + k] == '\\' {
            lemma_scan_escaped_shift(s, i, k + 1, true, stop_comma);
        } else if s[i + k] == '\n' || (stop_comma && s[i + k] == ',') {
            if esc {
                lemma_scan_escaped_shift(s, i, k + 1, esc, stop_comma);
            }
        } else {
            lemma_scan_escaped_shift(s, i, k + 1, false, stop_comma);
        }
    }
}

/// Scan for the next unescaped terminator at or after `pos`.
pub fn scan_escaped(input: &str, pos: usize, stop_comma: bool) -> (r: Option<usize>)
    requires
        pos <= input@.len(),
    ensures
        match r {
            Some(j) => pos <= j < input@.len() && spec_scan_escaped(
                input@.skip(pos as int),
                0,
                false,
                stop_comma,
            ) == Some(j - pos),
            None => spec_scan_escaped(input@.skip(pos as int), 0, false, stop_comma) is None,
        },
{
    let ghost sub = input@.skip(pos as int);
    let len = input.unicode_len();
    let mut i = pos;
    let mut esc = false;
    loop
        invariant
            pos <= i <= len,
            len == input@.len(),
            sub == input@.skip(pos as int),
            spec_scan_escaped(sub, 0, false, stop_comma) == spec_scan_escaped(
                sub,
                i - pos,
                esc,
                stop_comma,
            ),
        decreases len - i,
    {
        if i >= len {
            return None;
        }
        let c = input.get_char(i);
        proof {
            assert(sub[i - pos] == input@[i as int]);
        }
        if c == '\\' {
            esc = true;
        } else if c == '\n' || (stop_comma && c == ',') {
            if !esc {
                return Some(i);
            }
        } else {
            esc = false;
        }
        i = i + 1;
    }
}

/// Well-formed scanned text: running the escape-aware scan over the text
/// followed by a line terminator stops exactly at that terminator — the text
/// holds no unescaped terminator and does not end in the middle of an escape.
pub open spec fn wf_text(v: Seq<char>, stop_comma: bool) -> bool {
    spec_scan_escaped(v + seq!['\n'], 0, false, stop_comma) == Some(v.len() as int)
}

/// A well-formed text followed by any terminator scans to exactly the text,
/// whatever comes after the terminator.
pub proof fn lemma_wf_text_scan(v: Seq<char>, d: char, r: Seq<char>, stop_comma: bool)
    requires
        wf_text(v, stop_comma),
        d == '\n' || (stop_comma && d == ','),
    ensures
        spec_scan_escaped(v + seq![d] + r, 0, false, stop_comma) == Some(v.len() as int),
{
    let s1 = v + seq!['\n'];
    let s2 = v + seq![d] + r;
    assert(s2[v.len() as int] == d);
    assert(forall|k: int| 0 <= k < v.len() ==> #[trigger] s2[k] == s1[k]);
    lemma_scan_escaped_agree(s1, s2, 0, false, stop_comma, v.len() as int);
}

/// The parse side of well-formedness: the text before a found terminator is
/// well formed.
pub proof fn lemma_scan_gives_wf(s: Seq<char>, j: int, stop_comma: bool)
    requires
        spec_scan_escaped(s, 0, false, stop_comma) == Some(j),
    ensures
        0 <= j < s.len(),
        wf_text(s.take(j), stop_comma),
{
    lemma_scan_escaped_props(s, 0, false, stop_comma);
    let s2 = s.take(j) + seq!['\n'];
    assert(s2[j] == '\n');
    assert(forall|k: int| 0 <= k < j ==> #[trigger] s2[k] == s[k]);
    lemma_scan_escaped_agree(s, s2, 0, false, stop_comma, j);
}

// ---------------------------------------------------------------------------
// Case-insensitive matching
// ---------------------------------------------------------------------------

/// ASCII upper-casing of one character.
pub open spec fn upper_char(c: char) -> char {
    if c == 'a' {
        'A'
    } else if c == 'b' {
        'B'
    } else if c == 'c' {
        'C'
    } else if c == 'd' {
        'D'
    } else if c == 'e' {
        'E'
    } else if c == 'f' {
        'F'
    } else if c == 'g' {
        'G'
    } else if c == 'h' {
        'H'
    } else if c == 'i' {
        'I'
    } else if c == 'j' {
        'J'
    } else if c == 'k' {
        'K'
    } else if c == 'l' {
        'L'
    } else if c == 'm' {
        'M'
    } else if c == 'n' {
        'N'
    } else if c == 'o' {
        'O'
    } else if c == 'p' {
        'P'
    } else if c == 'q' {
        'Q'
    } else if c == 'r' {
        'R'
    } else if c == 's' {
        'S'
    } else if c == 't' {
        'T'
    } else if c == 'u' {
        'U'
    } else if c == 'v' {
        'V'
    } else if c == 'w' {
        'W'
    } else if c == 'x' {
        'X'
    } else if c == 'y' {
        'Y'
    } else if c == 'z' {
        'Z'
    } else {
        c
    }
}

fn upper_char_exec(c: char) -> (r: char)
    ensures
        r == upper_char(c),
{
    match c {
        'a' => 'A',
        'b' => 'B',
        'c' => 'C',
        'd' => 'D',
        'e' => 'E',
        'f' => 'F',
        'g' => 'G',
        'h' => 'H',
        'i' => 'I',
        'j' => 'J',
        'k' => 'K',
        'l' => 'L',
        'm' => 'M',
        'n' => 'N',
        'o' => 'O',
        'p' => 'P',
        'q' => 'Q',
        'r' => 'R',
        's' => 'S',
        't' => 'T',
        'u' => 'U',
        'v' => 'V',
        'w' => 'W',
        'x' => 'X',
        'y' => 'Y',
        'z' => 'Z',
        _ => c,
    }
}

/// ASCII upper-casing of a character sequence.
pub open spec fn upper_seq(s: Seq<char>) -> Seq<char> {
    s.map_values(|c: char| upper_char(c))
}

/// Two sequences match case-insensitively.
pub open spec fn eq_ignore_case(a: Seq<char>, b: Seq<char>) -> bool {
    upper_seq(a) == upper_seq(b)
}

/// Does `input[pos .. end]` match `kw` case-insensitively?
pub fn region_eq_ignore_case(input: &str, pos: usize, end: usize, kw: &str) -> (r: bool)
    requires
        pos <= end <= input@.len(),
    ensures
        r == eq_ignore_case(input@.subrange(pos as int, end as int), kw@),
{
    let kw_len = kw.unicode_len();
    if end - pos != kw_len {
        proof {
            assert(upper_seq(input@.subrange(pos as int, end as int)).len() == end - pos);
            assert(upper_seq(kw@).len() == kw@.len());
        }
        return false;
    }
    let ghost region = input@.subrange(pos as int, end as int);
    let mut k: usize = 0;
    while k < kw_len
        invariant
            0 <= k <= kw_len,
            kw_len == kw@.len(),
            pos + kw_len == end <= input@.len(),
            region == input@.subrange(pos as int, end as int),
            forall|m: int| 0 <= m < k ==> upper_char(#[trigger] region[m]) == upper_char(kw@[m]),
        decreases kw_len - k,
    {
        let a = upper_char_exec(input.get_char(pos + k));
        let b = upper_char_exec(kw.get_char(k));
        proof {
            assert(region[k as int] == input@[pos + k]);
        }
        if a != b {
            proof {
                assert(upper_seq(region)[k as int] == upper_char(region[k as int]));
                assert(upper_seq(kw@)[k as int] == upper_char(kw@[k as int]));
            }
            return false;
        }
        k = k + 1;
    }
    proof {
        assert(upper_seq(region) =~= upper_seq(kw@));
    }
    true
}

/// Case-insensitive keyword match at `pos`; `Some(end)` gives the index just
/// past the keyword.
pub open spec fn spec_match_ic(s: Seq<char>, kw: Seq<char>) -> bool {
    s.len() >= kw.len() && eq_ignore_case(s.take(kw.len() as int), kw)
}

pub fn match_keyword_ic(input: &str, pos: usize, kw: &str) -> (r: Option<usize>)
    requires
        pos <= input@.len(),
    ensures
        match r {
            Some(end) => spec_match_ic(input@.skip(pos as int), kw@) && end == pos + kw@.len()
                && end <= input@.len(),
            None => !spec_match_ic(input@.skip(pos as int), kw@),
        },
{
    let len = input.unicode_len();
    let kw_len = kw.unicode_len();
    if len - pos < kw_len {
        proof {
            assert(input@.skip(pos as int).len() < kw@.len());
        }
        return None;
    }
    let r = region_eq_ignore_case(input, pos, pos + kw_len, kw);
    proof {
        assert(input@.subrange(pos as int, pos + kw_len) =~= input@.skip(pos as int).take(
            kw@.len() as int,
        ));
    }
    if r {
        Some(pos + kw_len)
    } else {
        None
    }
}

// ---------------------------------------------------------------------------
// Exact (case-sensitive) matching
// ---------------------------------------------------------------------------

/// Does `input[pos .. end]` equal `kw` exactly?
pub fn region_eq(input: &str, pos: usize, end: usize, kw: &str) -> (r: bool)
    requires
        pos <= end <= input@.len(),
    ensures
        r == (input@.subrange(pos as int, end as int) == kw@),
{
    let kw_len = kw.unicode_len();
    if end - pos != kw_len {
        proof {
            assert(input@.subrange(pos as int, end as int).len() == end - pos);
        }
        return false;
    }
    let ghost region = input@.subrange(pos as int, end as int);
    let mut k: usize = 0;
    while k < kw_len
        invariant
            0 <= k <= kw_len,
            kw_len == kw@.len(),
            pos + kw_len == end <= input@.len(),
            region == input@.subrange(pos as int, end as int),
            forall|m: int| 0 <= m < k ==> #[trigger] region[m] == kw@[m],
        decreases kw_len - k,
    {
        let a = input.get_char(pos + k);
        let b = kw.get_char(k);
        proof {
            assert(region[k as int] == input@[pos + k]);
        }
        if a != b {
            return false;
        }
        k = k + 1;
    }
    proof {
        assert(region =~= kw@);
    }
    true
}

/// Case-sensitive keyword match at `pos`.
pub open spec fn spec_match_lit(s: Seq<char>, kw: Seq<char>) -> bool {
    s.len() >= kw.len() && s.take(kw.len() as int) == kw
}

pub fn match_keyword(input: &str, pos: usize, kw: &str) -> (r: Option<usize>)
    requires
        pos <= input@.len(),
    ensures
        match r {
            Some(end) => spec_match_lit(input@.skip(pos as int), kw@) && end == pos + kw@.len()
                && end <= input@.len(),
            None => !spec_match_lit(input@.skip(pos as int), kw@),
        },
{
    let len = input.unicode_len();
    let kw_len = kw.unicode_len();
    if len - pos < kw_len {
        proof {
            assert(input@.skip(pos as int).len() < kw@.len());
        }
        return None;
    }
    let r = region_eq(input, pos, pos + kw_len, kw);
    proof {
        assert(input@.subrange(pos as int, pos + kw_len) =~= input@.skip(pos as int).take(
            kw@.len() as int,
        ));
    }
    if r {
        Some(pos + kw_len)
    } else {
        None
    }
}

/// Copy `input[pos .. end]` into an owned string.
pub fn extract(input: &str, pos: usize, end: usize) -> (r: String)
    requires
        pos <= end <= input@.len(),
    ensures
        r@ == input@.subrange(pos as int, end as int),
{
    input.substring_char(pos, end).to_owned()
}

} // verus!
