//! The URL value: scheme, domain, optional path, optional query parameters.

use vstd::prelude::*;

use crate::parse::{lemma_join_snoc, parse_error, spec_join, ErrorKind, Parse, ParseError, ScanOutcome};
use crate::scan;
use crate::scan::CharClass;

verus! {

/// One query parameter at the specification level.
pub type SpecParam = (Seq<char>, Option<Seq<char>>);

/// Specification-level counterpart of [`Url`].
#[verifier::ext_equal]
pub struct SpecUrl {
    pub schema: Seq<char>,
    pub domain: Seq<char>,
    pub path: Option<Seq<char>>,
    pub params: Seq<SpecParam>,
}

/// A URL: `schema://domain`, an optional `/`-led path, and query parameters.
/// The parameters form a mapping: keys are unique, and on a duplicate key the
/// last write wins while the first position is kept.
#[derive(Debug, PartialEq, Clone)]
pub struct Url {
    pub schema: String,
    pub domain: String,
    pub path: Option<String>,
    pub params: Vec<(String, Option<String>)>,
}

/// The views of a parameter list.
pub open spec fn param_views(v: Seq<(String, Option<String>)>) -> Seq<SpecParam> {
    v.map_values(
        |p: (String, Option<String>)|
            (
                p.0@,
                match p.1 {
                    Option::Some(x) => Option::Some(x@),
                    Option::None => Option::<Seq<char>>::None,
                },
            ),
    )
}

impl View for Url {
    type V = SpecUrl;

    open spec fn view(&self) -> SpecUrl {
        SpecUrl {
            schema: self.schema@,
            domain: self.domain@,
            path: match &self.path {
                Option::Some(p) => Option::Some(p@),
                Option::None => Option::None,
            },
            params: param_views(self.params@),
        }
    }
}

// ---------------------------------------------------------------------------
// Path
// ---------------------------------------------------------------------------

/// Index just past a path starting at the `/` at index `i`: slash-separated
/// non-empty segments of path characters; a slash not followed by a further
/// segment is left unconsumed (a lone `/` is a valid path).
pub open spec fn spec_path_end(s: Seq<char>, i: int) -> int
    decreases s.len() - i,
{
    if i < 0 || i >= s.len() {
        i + 1
    } else {
        let e = scan::spec_run(s, i + 1, CharClass::PathSeg);
        if e <= i + 1 {
            i + 1
        } else if e < s.len() && s[e] == '/' && scan::spec_run(s, e + 1, CharClass::PathSeg) > e
            + 1 {
            spec_path_end(s, e)
        } else {
            e
        }
    }
}

pub proof fn lemma_path_props(s: Seq<char>, i: int)
    requires
        0 <= i < s.len(),
    ensures
        i < spec_path_end(s, i) <= s.len(),
    decreases s.len() - i,
{
    scan::lemma_run_props(s, i + 1, CharClass::Formatted);
    scan::lemma_run_props(s, i + 1, CharClass::PathSeg);
    let e = scan::spec_run(s, i + 1, CharClass::PathSeg);
    if e > i + 1 && e < s.len() && s[e] == '/' && scan::spec_run(s, e + 1, CharClass::PathSeg) > e
        + 1 {
        lemma_path_props(s, e);
    }
}

/// A path scan within the suffix `s.skip(i)` is the scan within `s`, shifted.
pub proof fn lemma_path_shift(s: Seq<char>, i: int, k: int)
    requires
        0 <= i,
        0 <= k,
        i + k < s.len(),
    ensures
        spec_path_end(s, i + k) == i + spec_path_end(s.skip(i), k),
    decreases s.len() - i - k,
{
    let sk = s.skip(i);
    assert(sk[k] == s[i + k]);
    scan::lemma_run_shift(s, i, k + 1, CharClass::PathSeg);
    scan::lemma_run_props(sk, k + 1, CharClass::PathSeg);
    let e = scan::spec_run(sk, k + 1, CharClass::PathSeg);
    if e > k + 1 {
        if e < sk.len() {
            assert(sk[e] == s[i + e]);
            if sk[e] == '/' {
                scan::lemma_run_shift(s, i, e + 1, CharClass::PathSeg);
                if scan::spec_run(sk, e + 1, CharClass::PathSeg) > e + 1 {
                    lemma_path_shift(s, i, e);
                }
            }
        }
    }
}

/// Scan a path whose leading `/` stands at `pos`.
fn scan_path(input: &str, pos: usize) -> (end: usize)
    requires
        pos < input@.len(),
    ensures
        pos < end <= input@.len(),
        end as int == spec_path_end(input@, pos as int),
    decreases input@.len() - pos,
{
    let len = input.unicode_len();
    let e = scan::scan_run_abs(input, pos + 1, CharClass::PathSeg);
    if e <= pos + 1 {
        pos + 1
    } else if e < len && input.get_char(e) == '/' {
        let e2 = scan::scan_run_abs(input, e + 1, CharClass::PathSeg);
        if e2 > e + 1 {
            scan_path(input, e)
        } else {
            e
        }
    } else {
        e
    }
}

// ---------------------------------------------------------------------------
// Query parameters
// ---------------------------------------------------------------------------

/// The raw parameter list starting at `i`: `name[=[value]]` segments of
/// alphabetic names and values, separated by `&`; an `&` not followed by a
/// further parameter is left unconsumed.
pub open spec fn spec_params_list(s: Seq<char>, i: int) -> (Seq<SpecParam>, int)
    decreases s.len() - i,
{
    let e = scan::spec_run(s, i, CharClass::Alpha);
    if e <= i {
        (seq![], i)
    } else {
        let name = s.subrange(i, e);
        let j = if e < s.len() && s[e] == '=' {
            e + 1
        } else {
            e
        };
        let v_end = scan::spec_run(s, j, CharClass::Alpha);
        let value = if v_end > j {
            Option::Some(s.subrange(j, v_end))
        } else {
            Option::<Seq<char>>::None
        };
        if i <= v_end && v_end < s.len() && s[v_end] == '&' && scan::spec_run(
            s,
            v_end + 1,
            CharClass::Alpha,
        ) > v_end + 1 {
            let (rest, end) = spec_params_list(s, v_end + 1);
            (seq![(name, value)] + rest, end)
        } else {
            (seq![(name, value)], if v_end > j {
                v_end
            } else {
                j
            })
        }
    }
}

/// A parameter-list scan within the suffix `s.skip(i)` is the scan within
/// `s`, shifted.
pub proof fn lemma_params_shift(s: Seq<char>, i: int, k: int)
    requires
        0 <= i,
        0 <= k,
        i + k <= s.len(),
    ensures
        spec_params_list(s, i + k).0 == spec_params_list(s.skip(i), k).0,
        spec_params_list(s, i + k).1 == i + spec_params_list(s.skip(i), k).1,
    decreases s.len() - i - k,
{
    let sk = s.skip(i);
    scan::lemma_run_shift(s, i, k, CharClass::Alpha);
    scan::lemma_run_props(sk, k, CharClass::Alpha);
    let e = scan::spec_run(sk, k, CharClass::Alpha);
    if e > k {
        assert(s.subrange(i + k, i + e) =~= sk.subrange(k, e));
        if e < sk.len() {
            assert(sk[e] == s[i + e]);
        }
        let j = if e < sk.len() && sk[e] == '=' {
            e + 1
        } else {
            e
        };
        scan::lemma_run_shift(s, i, j, CharClass::Alpha);
        scan::lemma_run_props(sk, j, CharClass::Alpha);
        let v_end = scan::spec_run(sk, j, CharClass::Alpha);
        if v_end > j {
            assert(s.subrange(i + j, i + v_end) =~= sk.subrange(j, v_end));
        }
        if v_end < sk.len() {
            assert(sk[v_end] == s[i + v_end]);
            if k <= v_end && sk[v_end] == '&' {
                scan::lemma_run_shift(s, i, v_end + 1, CharClass::Alpha);
                if scan::spec_run(sk, v_end + 1, CharClass::Alpha) > v_end + 1 {
                    lemma_params_shift(s, i, v_end + 1);
                }
            }
        }
    }
}

/// Scan the raw parameter list starting at `pos`.
fn parse_params_raw(input: &str, pos: usize) -> (r: (Vec<(String, Option<String>)>, usize))
    requires
        pos <= input@.len(),
    ensures
        pos <= r.1 <= input@.len(),
        param_views(r.0@) == spec_params_list(input@, pos as int).0,
        r.1 as int == spec_params_list(input@, pos as int).1,
    decreases input@.len() - pos,
{
    let len = input.unicode_len();
    let e = scan::scan_run_abs(input, pos, CharClass::Alpha);
    if e <= pos {
        let items: Vec<(String, Option<String>)> = Vec::new();
        proof {
            assert(param_views(items@) =~= spec_params_list(input@, pos as int).0);
        }
        (items, pos)
    } else {
        let name = scan::extract(input, pos, e);
        let j = if e < len && input.get_char(e) == '=' {
            e + 1
        } else {
            e
        };
        let v_end = scan::scan_run_abs(input, j, CharClass::Alpha);
        let value: Option<String> = if v_end > j {
            Some(scan::extract(input, j, v_end))
        } else {
            None
        };
        let stop = if v_end > j {
            v_end
        } else {
            j
        };
        let param = (name, value);
        if v_end < len && input.get_char(v_end) == '&' {
            let e2 = scan::scan_run_abs(input, v_end + 1, CharClass::Alpha);
            if e2 > v_end + 1 {
                let (mut items, end) = parse_params_raw(input, v_end + 1);
                items.insert(0, param);
                proof {
                    assert(param_views(items@) =~= spec_params_list(input@, pos as int).0);
                }
                return (items, end);
            }
            let mut items: Vec<(String, Option<String>)> = Vec::new();
            items.push(param);
            proof {
                assert(param_views(items@) =~= spec_params_list(input@, pos as int).0);
            }
            (items, stop)
        } else {
            let mut items: Vec<(String, Option<String>)> = Vec::new();
            items.push(param);
            proof {
                assert(param_views(items@) =~= spec_params_list(input@, pos as int).0);
            }
            (items, stop)
        }
    }
}

/// Record one parameter in an ordered mapping: a duplicate key replaces the
/// stored value in place, a new key is appended.
pub open spec fn spec_insert_param(ps: Seq<SpecParam>, p: SpecParam) -> Seq<SpecParam>
    decreases ps.len(),
{
    if ps.len() == 0 {
        seq![p]
    } else if ps[0].0 == p.0 {
        seq![p] + ps.skip(1)
    } else {
        seq![ps[0]] + spec_insert_param(ps.skip(1), p)
    }
}

/// The mapping formed by the raw parameter list, processed left to right with
/// last-write-wins on duplicate keys.
pub open spec fn spec_dedup_params(ps: Seq<SpecParam>) -> Seq<SpecParam>
    decreases ps.len(),
{
    if ps.len() == 0 {
        seq![]
    } else {
        spec_insert_param(spec_dedup_params(ps.take(ps.len() - 1)), ps[ps.len() - 1])
    }
}

pub proof fn lemma_insert_param_found(ps: Seq<SpecParam>, p: SpecParam, i: int)
    requires
        0 <= i < ps.len(),
        ps[i].0 == p.0,
        forall|k: int| 0 <= k < i ==> (#[trigger] ps[k]).0 != p.0,
    ensures
        spec_insert_param(ps, p) == ps.update(i, p),
    decreases ps.len(),
{
    if i == 0 {
        assert(spec_insert_param(ps, p) =~= ps.update(0, p));
    } else {
        lemma_insert_param_found(ps.skip(1), p, i - 1);
        assert(spec_insert_param(ps, p) =~= ps.update(i, p));
    }
}

pub proof fn lemma_insert_param_absent(ps: Seq<SpecParam>, p: SpecParam)
    requires
        forall|k: int| 0 <= k < ps.len() ==> (#[trigger] ps[k]).0 != p.0,
    ensures
        spec_insert_param(ps, p) == ps.push(p),
    decreases ps.len(),
{
    if ps.len() == 0 {
        assert(spec_insert_param(ps, p) =~= ps.push(p));
    } else {
        lemma_insert_param_absent(ps.skip(1), p);
        assert(spec_insert_param(ps, p) =~= ps.push(p));
    }
}

/// Recording parameters whose keys are pairwise distinct changes nothing.
pub proof fn lemma_dedup_unique(ps: Seq<SpecParam>)
    requires
        forall|i: int, j: int| 0 <= i < j < ps.len() ==> (#[trigger] ps[i]).0 != (#[trigger] ps[j]).0,
    ensures
        spec_dedup_params(ps) == ps,
    decreases ps.len(),
{
    if ps.len() > 0 {
        let head = ps.take(ps.len() - 1);
        lemma_dedup_unique(head);
        assert(forall|k: int| 0 <= k < head.len() ==> (#[trigger] head[k]).0 != ps[ps.len() - 1].0)
            by {
            assert(forall|k: int| 0 <= k < head.len() ==> head[k] == #[trigger] ps[k]);
        }
        lemma_insert_param_absent(head, ps[ps.len() - 1]);
        assert(head.push(ps[ps.len() - 1]) =~= ps);
    }
}

/// Fold the raw parameter list into the ordered mapping.
fn dedup_params(raw: Vec<(String, Option<String>)>) -> (r: Vec<(String, Option<String>)>)
    ensures
        param_views(r@) == spec_dedup_params(param_views(raw@)),
{
    let mut out: Vec<(String, Option<String>)> = Vec::new();
    let n = raw.len();
    let mut k: usize = 0;
    proof {
        assert(param_views(raw@).take(0) =~= Seq::<SpecParam>::empty());
        assert(param_views(out@) =~= spec_dedup_params(param_views(raw@).take(0)));
    }
    while k < n
        invariant
            0 <= k <= n,
            n == raw@.len(),
            param_views(out@) == spec_dedup_params(param_views(raw@).take(k as int)),
        decreases n - k,
    {
        let ghost out0 = param_views(out@);
        let (name, value) = (raw[k].0.clone(), raw[k].1.clone());
        let ghost p = param_views(raw@)[k as int];
        proof {
            assert(name@ == p.0);
            match raw@[k as int].1 {
                Option::Some(x) => {
                    assert(value matches Option::Some(v) && v@ == x@);
                },
                Option::None => {
                    assert(value is None);
                },
            }
        }
        // look for the key among the stored parameters
        let mut i: usize = 0;
        let m = out.len();
        let mut found = false;
        while i < m && !found
            invariant
                0 <= i <= m,
                m == out@.len(),
                param_views(out@) == out0,
                name@ == p.0,
                !found ==> forall|t: int| 0 <= t < i ==> (#[trigger] out0[t]).0 != p.0,
                found ==> i < m && out0[i as int].0 == p.0 && forall|t: int|
                    0 <= t < i ==> (#[trigger] out0[t]).0 != p.0,
            decreases m - i, if found {
                0int
            } else {
                1int
            },
        {
            if out[i].0 == name {
                found = true;
            } else {
                proof {
                    assert(out0[i as int].0 == out@[i as int].0@);
                }
                i = i + 1;
            }
        }
        if found {
            out.set(i, (name, value));
            proof {
                lemma_insert_param_found(out0, p, i as int);
                assert(param_views(out@) =~= out0.update(i as int, p));
            }
        } else {
            out.push((name, value));
            proof {
                lemma_insert_param_absent(out0, p);
                assert(param_views(out@) =~= out0.push(p));
            }
        }
        proof {
            assert(param_views(raw@).take(k + 1).take(k as int) =~= param_views(raw@).take(
                k as int,
            ));
            assert(param_views(raw@).take(k + 1)[k as int] == p);
            assert(param_views(out@) =~= spec_dedup_params(param_views(raw@).take(k + 1)));
        }
        k = k + 1;
    }
    proof {
        assert(param_views(raw@).take(n as int) =~= param_views(raw@));
    }
    out
}

// ---------------------------------------------------------------------------
// The URL grammar
// ---------------------------------------------------------------------------

/// Grammar: an alphabetic scheme, the literal `://`, a non-empty domain of
/// alphanumeric or `.` characters, an optional path, and optional `?`-led
/// query parameters folded into a last-write-wins mapping.
#[verifier::opaque]
pub open spec fn spec_parse_url(s: Seq<char>) -> ScanOutcome<SpecUrl> {
    let se = scan::spec_run(s, 0, CharClass::Alpha);
    if se <= 0 || !scan::spec_match_lit(s.skip(se), "://"@) {
        ScanOutcome::NoMatch
    } else {
        let ds = se + "://"@.len();
        let de = scan::spec_run(s, ds, CharClass::Domain);
        if de <= ds {
            ScanOutcome::NoMatch
        } else {
            let (path, pe) = if de < s.len() && s[de] == '/' {
                (Option::Some(s.subrange(de, spec_path_end(s, de))), spec_path_end(s, de))
            } else {
                (Option::<Seq<char>>::None, de)
            };
            let (params, qe) = if pe < s.len() && s[pe] == '?' {
                (
                    spec_dedup_params(spec_params_list(s, pe + 1).0),
                    spec_params_list(s, pe + 1).1,
                )
            } else {
                (Seq::<SpecParam>::empty(), pe)
            };
            ScanOutcome::Match {
                value: SpecUrl {
                    schema: s.take(se),
                    domain: s.subrange(ds, de),
                    path,
                    params,
                },
                used: qe,
            }
        }
    }
}

impl Parse for Url {
    open spec fn spec_parse(s: Seq<char>) -> ScanOutcome<SpecUrl> {
        spec_parse_url(s)
    }

    fn parse(input: &str, pos: usize) -> (r: Result<(Self, usize), ParseError>) {
        proof {
            reveal(spec_parse_url);
        }
        let ghost sub = input@.skip(pos as int);
        let len = input.unicode_len();
        let se = scan::scan_run_abs(input, pos, CharClass::Alpha);
        proof {
            scan::lemma_run_shift(input@, pos as int, 0, CharClass::Alpha);
        }
        if se <= pos {
            return Err(parse_error(ErrorKind::Mismatch, pos, "missing URL scheme"));
        }
        let sep = match scan::match_keyword(input, se, "://") {
            Some(end) => end,
            None => {
                proof {
                    assert(sub.skip(se - pos) =~= input@.skip(se as int));
                }
                return Err(parse_error(ErrorKind::Mismatch, pos, "missing URL scheme separator"));
            },
        };
        proof {
            assert(sub.skip(se - pos) =~= input@.skip(se as int));
        }
        let de = scan::scan_run_abs(input, sep, CharClass::Domain);
        proof {
            scan::lemma_run_shift(input@, pos as int, sep - pos, CharClass::Domain);
        }
        if de <= sep {
            return Err(parse_error(ErrorKind::Mismatch, pos, "missing URL domain"));
        }
        let (path, pe): (Option<String>, usize) = if de < len && input.get_char(de) == '/' {
            proof {
                assert(sub[de - pos] == input@[de as int]);
                lemma_path_shift(input@, pos as int, de - pos);
            }
            let p_end = scan_path(input, de);
            (Some(scan::extract(input, de, p_end)), p_end)
        } else {
            proof {
                if de < len {
                    assert(sub[de - pos] == input@[de as int]);
                }
            }
            (None, de)
        };
        let (params, qe): (Vec<(String, Option<String>)>, usize) = if pe < len && input.get_char(
            pe,
        ) == '?' {
            proof {
                assert(sub[pe - pos] == input@[pe as int]);
                lemma_params_shift(input@, pos as int, pe + 1 - pos);
            }
            let (raw, q_end) = parse_params_raw(input, pe + 1);
            (dedup_params(raw), q_end)
        } else {
            proof {
                if pe < len {
                    assert(sub[pe - pos] == input@[pe as int]);
                }
            }
            (Vec::new(), pe)
        };
        let url = Url { schema: scan::extract(input, pos, se), domain: scan::extract(
            input,
            sep,
            de,
        ), path, params };
        proof {
            assert(url.schema@ =~= sub.take(se - pos));
            assert(url.domain@ =~= sub.subrange(sep - pos, de - pos));
            match &url.path {
                Option::Some(p) => {
                    assert(p@ =~= sub.subrange(de - pos, pe - pos));
                },
                Option::None => {},
            }
            assert(spec_parse_url(sub) =~= (ScanOutcome::Match { value: url@, used: qe - pos }));
        }
        Ok((url, qe))
    }
}

// ---------------------------------------------------------------------------
// Rendering
// ---------------------------------------------------------------------------

/// The text of one query parameter.
pub open spec fn spec_param_text(p: SpecParam) -> Seq<char> {
    match p.1 {
        Option::Some(v) => p.0 + "="@ + v,
        Option::None => p.0,
    }
}

/// The text of an optional path, empty when absent.
pub open spec fn spec_opt_path_text(p: Option<Seq<char>>) -> Seq<char> {
    match p {
        Option::Some(v) => v,
        Option::None => Seq::empty(),
    }
}

/// Rendered form of a URL: `schema://domain`, the path, and — when any
/// parameter is present — `?` and the `&`-joined parameters.
pub open spec fn spec_render_url(u: SpecUrl) -> Seq<char> {
    let params_text = if u.params.len() == 0 {
        Seq::<char>::empty()
    } else {
        "?"@ + spec_join(u.params.map_values(|p: SpecParam| spec_param_text(p)), "&"@)
    };
    u.schema + "://"@ + u.domain + spec_opt_path_text(u.path) + params_text
}

/// Render the `&`-joined parameter texts.
fn render_params(params: &Vec<(String, Option<String>)>) -> (r: String)
    ensures
        r@ == spec_join(param_views(params@).map_values(|p: SpecParam| spec_param_text(p)), "&"@),
{
    let ghost texts = param_views(params@).map_values(|p: SpecParam| spec_param_text(p));
    let mut out = String::new();
    let n = params.len();
    let mut k: usize = 0;
    while k < n
        invariant
            0 <= k <= n,
            n == params@.len(),
            texts == param_views(params@).map_values(|p: SpecParam| spec_param_text(p)),
            out@ == spec_join(texts.take(k as int), "&"@),
        decreases n - k,
    {
        if k > 0 {
            out.append("&");
        }
        out.append(params[k].0.as_str());
        match &params[k].1 {
            Some(v) => {
                out.append("=");
                out.append(v.as_str());
            },
            None => {},
        }
        proof {
            let head = texts.take(k + 1);
            assert(head[k as int] == spec_param_text(param_views(params@)[k as int]));
            assert(head.take(k as int) =~= texts.take(k as int));
            if k == 0 {
                assert(spec_join(head, "&"@) == head[0]) by {
                    assert(head.len() == 1);
                }
                assert(out@ =~= spec_join(head, "&"@));
            } else {
                lemma_join_snoc(head, "&"@);
                assert(out@ =~= spec_join(texts.take(k as int), "&"@) + "&"@ + head[k as int]);
            }
        }
        k = k + 1;
    }
    proof {
        assert(texts.take(n as int) =~= texts);
    }
    out
}

impl Url {
    /// Render this URL as value text.
    pub fn render(&self) -> (r: String)
        ensures
            r@ == spec_render_url(self@),
    {
        let mut out = self.schema.clone();
        out.append("://");
        out.append(self.domain.as_str());
        match &self.path {
            Some(p) => out.append(p.as_str()),
            None => {},
        }
        if self.params.len() > 0 {
            out.append("?");
            let ptext = render_params(&self.params);
            out.append(ptext.as_str());
        }
        proof {
            assert(out@ =~= spec_render_url(self@));
        }
        out
    }
}

} // verus!
