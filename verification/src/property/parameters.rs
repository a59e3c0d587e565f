//! The ordered parameter list of a property.

use vstd::prelude::*;

use crate::parse::{err_matches, ErrorKind, Parse, ParseError, ScanOutcome};
use super::parameter::{
    lemma_parameter_shift, parse_parameter, spec_parameter_at, spec_parameter_text, Parameter,
    SpecParameter,
};

verus! {

/// The views of a parameter sequence.
pub open spec fn parameter_views(v: Seq<Parameter>) -> Seq<SpecParameter> {
    v.map_values(|p: Parameter| p@)
}

/// The ordered parameter list of a property; duplicate names are permitted
/// and preserved.
#[derive(Debug, PartialEq, Clone)]
pub struct Parameters(pub Vec<Parameter>);

impl View for Parameters {
    type V = Seq<SpecParameter>;

    open spec fn view(&self) -> Seq<SpecParameter> {
        parameter_views(self.0@)
    }
}

impl Default for Parameters {
    /// An empty parameter list.
    fn default() -> (r: Parameters)
        ensures
            r@.len() == 0,
    {
        Parameters(Vec::new())
    }
}

/// Grammar of a `;`-separated parameter list starting at `i`: parameters
/// separated by single semicolons; a semicolon not followed by a further
/// parameter is left unconsumed, and a first parameter that does not match
/// leaves an empty list. On success `used` is the index in `s` just past the
/// list.
pub open spec fn spec_param_seq(s: Seq<char>, i: int) -> ScanOutcome<Seq<SpecParameter>>
    decreases s.len() - i,
{
    match spec_parameter_at(s, i) {
        ScanOutcome::Incomplete => ScanOutcome::Incomplete,
        ScanOutcome::Match { value: p, used: j } => {
            if i <= j && j < s.len() && s[j] == ';' {
                match spec_parameter_at(s, j + 1) {
                    ScanOutcome::Incomplete => ScanOutcome::Incomplete,
                    ScanOutcome::Match { .. } => match spec_param_seq(s, j + 1) {
                        ScanOutcome::Match { value: rest, used: end } => ScanOutcome::Match {
                            value: seq![p] + rest,
                            used: end,
                        },
                        o => o,
                    },
                    _ => ScanOutcome::Match { value: seq![p], used: j },
                }
            } else {
                ScanOutcome::Match { value: seq![p], used: j }
            }
        },
        _ => ScanOutcome::Match { value: seq![], used: i },
    }
}

/// Grammar of a property's parameter section: an optional leading `;`, then
/// the parameter list. On success `used` counts the consumed characters.
pub open spec fn spec_parameters(s: Seq<char>) -> ScanOutcome<Seq<SpecParameter>> {
    let i0: int = if s.len() > 0 && s[0] == ';' {
        1
    } else {
        0
    };
    spec_param_seq(s, i0)
}

/// A parameter-list scan within the suffix `s.skip(i)` is the scan within
/// `s`, shifted.
pub proof fn lemma_param_seq_shift(s: Seq<char>, i: int, k: int)
    requires
        0 <= i,
        0 <= k,
        i + k <= s.len(),
    ensures
        spec_param_seq(s, i + k) == match spec_param_seq(s.skip(i), k) {
            ScanOutcome::Match { value, used } => ScanOutcome::Match { value, used: i + used },
            o => o,
        },
    decreases s.len() - i - k,
{
    let sk = s.skip(i);
    lemma_parameter_shift(s, i, k);
    match spec_parameter_at(sk, k) {
        ScanOutcome::Incomplete => {},
        ScanOutcome::Match { value: p, used: j } => {
            if k <= j && j < sk.len() && sk[j] == ';' {
                assert(sk[j] == s[i + j]);
                lemma_parameter_shift(s, i, j + 1);
                match spec_parameter_at(sk, j + 1) {
                    ScanOutcome::Incomplete => {},
                    ScanOutcome::Match { .. } => {
                        lemma_param_seq_shift(s, i, j + 1);
                    },
                    _ => {},
                }
            }
        },
        _ => {},
    }
}

/// Parse the `;`-separated parameter list starting at `pos`.
fn parse_param_seq(input: &str, pos: usize) -> (r: Result<(Vec<Parameter>, usize), ParseError>)
    requires
        pos <= input@.len(),
    ensures
        match r {
            Ok((ps, end)) => pos <= end <= input@.len() && spec_param_seq(input@, pos as int)
                == (ScanOutcome::Match { value: parameter_views(ps@), used: end as int }),
            Err(e) => err_matches(spec_param_seq(input@, pos as int), e.kind) && e.trail@.len()
                >= 1,
        },
    decreases input@.len() - pos,
{
    let len = input.unicode_len();
    match parse_parameter(input, pos) {
        Err(e) => {
            if e.kind == ErrorKind::Incomplete {
                Err(e)
            } else {
                let ps: Vec<Parameter> = Vec::new();
                proof {
                    assert(parameter_views(ps@) =~= Seq::<SpecParameter>::empty());
                }
                Ok((ps, pos))
            }
        },
        Ok((p, j)) => {
            if j < len && input.get_char(j) == ';' {
                match parse_parameter(input, j + 1) {
                    Err(e) => {
                        if e.kind == ErrorKind::Incomplete {
                            Err(e)
                        } else {
                            let mut ps: Vec<Parameter> = Vec::new();
                            ps.push(p);
                            proof {
                                assert(parameter_views(ps@) =~= seq![ps@[0]@]);
                            }
                            Ok((ps, j))
                        }
                    },
                    Ok((_, _)) => match parse_param_seq(input, j + 1) {
                        Err(e) => Err(e),
                        Ok((mut rest, end)) => {
                            let ghost rest_views = parameter_views(rest@);
                            rest.insert(0, p);
                            proof {
                                assert(parameter_views(rest@) =~= seq![rest@[0]@] + rest_views);
                            }
                            Ok((rest, end))
                        },
                    },
                }
            } else {
                let mut ps: Vec<Parameter> = Vec::new();
                ps.push(p);
                proof {
                    assert(parameter_views(ps@) =~= seq![ps@[0]@]);
                }
                Ok((ps, j))
            }
        },
    }
}

/// Parse a property's parameter section starting at `pos`: an optional
/// leading `;`, then the parameter list. On success the returned position
/// stands on the value delimiter (not consumed).
pub fn parse_parameters(input: &str, pos: usize) -> (r: Result<(Vec<Parameter>, usize), ParseError>)
    requires
        pos <= input@.len(),
    ensures
        match r {
            Ok((ps, end)) => pos <= end <= input@.len() && spec_parameters(
                input@.skip(pos as int),
            ) == (ScanOutcome::Match { value: parameter_views(ps@), used: end - pos }),
            Err(e) => err_matches(spec_parameters(input@.skip(pos as int)), e.kind)
                && e.trail@.len() >= 1,
        },
{
    let ghost sub = input@.skip(pos as int);
    let len = input.unicode_len();
    let i0 = if pos < len && input.get_char(pos) == ';' {
        proof {
            assert(sub[0] == input@[pos as int]);
        }
        pos + 1
    } else {
        proof {
            if pos < len {
                assert(sub[0] == input@[pos as int]);
            }
        }
        pos
    };
    proof {
        lemma_param_seq_shift(input@, pos as int, i0 - pos);
    }
    match parse_param_seq(input, i0) {
        Ok((ps, end)) => Ok((ps, end)),
        Err(e) => Err(e),
    }
}

impl Parse for Parameters {
    open spec fn spec_parse(s: Seq<char>) -> ScanOutcome<Seq<SpecParameter>> {
        spec_parameters(s)
    }

    fn parse(input: &str, pos: usize) -> (r: Result<(Self, usize), ParseError>) {
        match parse_parameters(input, pos) {
            Ok((ps, end)) => Ok((Parameters(ps), end)),
            Err(e) => Err(e),
        }
    }
}

/// Rendered form of a parameter list: nothing when empty, otherwise each
/// parameter prefixed by `;`.
pub open spec fn spec_render_params(ps: Seq<SpecParameter>) -> Seq<char>
    decreases ps.len(),
{
    if ps.len() == 0 {
        Seq::empty()
    } else {
        ";"@ + spec_parameter_text(ps[0]) + spec_render_params(ps.skip(1))
    }
}

impl Parameters {
    /// Render this parameter list, each entry prefixed by `;`.
    pub fn render(&self) -> (r: String)
        ensures
            r@ == spec_render_params(self@),
    {
        let mut out = String::new();
        let n = self.0.len();
        let mut k: usize = 0;
        proof {
            assert(self@.skip(0) =~= self@);
            assert(out@ + spec_render_params(self@.skip(0)) =~= spec_render_params(self@));
        }
        while k < n
            invariant
                0 <= k <= n,
                n == self.0@.len(),
                out@ + spec_render_params(self@.skip(k as int)) == spec_render_params(self@),
            decreases n - k,
        {
            let ghost out0 = out@;
            out.append(";");
            let text = self.0[k].render();
            out.append(text.as_str());
            proof {
                let tail = self@.skip(k as int);
                assert(tail[0] == self@[k as int]);
                assert(self@[k as int] == self.0@[k as int]@);
                assert(tail.skip(1) =~= self@.skip(k + 1));
                assert(out@ =~= out0 + ";"@ + spec_parameter_text(tail[0]));
                assert(out@ + spec_render_params(self@.skip(k + 1)) =~= out0 + spec_render_params(
                    tail,
                ));
            }
            k = k + 1;
        }
        proof {
            assert(self@.skip(n as int) =~= Seq::<SpecParameter>::empty());
            assert(out@ =~= spec_render_params(self@));
        }
        out
    }
}

} // verus!
