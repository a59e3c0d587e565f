//! One property parameter: a name with an optional value.

use vstd::prelude::*;

use crate::parse::{parse_error, ErrorKind, Parse, ParseError, ScanOutcome};
use crate::scan;
use crate::scan::StopSet;

verus! {

/// Specification-level counterpart of [`Parameter`].
#[verifier::ext_equal]
pub struct SpecParameter {
    pub name: Seq<char>,
    pub value: Option<Seq<char>>,
}

/// A `name[=value]` modifier attached to a property.
#[derive(Debug, PartialEq, Clone)]
pub struct Parameter {
    pub name: String,
    pub value: Option<String>,
}

impl View for Parameter {
    type V = SpecParameter;

    open spec fn view(&self) -> SpecParameter {
        SpecParameter {
            name: self.name@,
            value: match &self.value {
                Option::Some(v) => Option::Some(v@),
                Option::None => Option::None,
            },
        }
    }
}

/// Grammar of one parameter starting at `i`: a non-empty name running to the
/// first of `:`, `=` or `;` (the reserved frame tokens are rejected), then,
/// after `=`, a value running to the first of `:` or `;`. On success `used`
/// is the index in `s` just past the parameter.
pub open spec fn spec_parameter_at(s: Seq<char>, i: int) -> ScanOutcome<SpecParameter> {
    match scan::spec_find(s, i, StopSet::NameDelim) {
        Option::None => ScanOutcome::Incomplete,
        Option::Some(j) => {
            if j <= i {
                ScanOutcome::NoMatch
            } else {
                let name = s.subrange(i, j);
                if name == "BEGIN"@ || name == "END"@ {
                    ScanOutcome::Reserved
                } else if j < s.len() && s[j] == '=' {
                    match scan::spec_find(s, j + 1, StopSet::ParamDelim) {
                        Option::None => ScanOutcome::Incomplete,
                        Option::Some(k) => ScanOutcome::Match {
                            value: SpecParameter {
                                name,
                                value: Option::Some(s.subrange(j + 1, k)),
                            },
                            used: k,
                        },
                    }
                } else {
                    ScanOutcome::Match { value: SpecParameter { name, value: Option::None }, used: j }
                }
            }
        },
    }
}

/// A parameter scan within the suffix `s.skip(i)` is the scan within `s`,
/// shifted.
pub proof fn lemma_parameter_shift(s: Seq<char>, i: int, k: int)
    requires
        0 <= i,
        0 <= k,
        i + k <= s.len(),
    ensures
        spec_parameter_at(s, i + k) == match spec_parameter_at(s.skip(i), k) {
            ScanOutcome::Match { value, used } => ScanOutcome::Match { value, used: i + used },
            o => o,
        },
{
    let sk = s.skip(i);
    scan::lemma_find_shift(s, i, k, StopSet::NameDelim);
    scan::lemma_find_props(sk, k, StopSet::NameDelim);
    match scan::spec_find(sk, k, StopSet::NameDelim) {
        Option::None => {},
        Option::Some(j) => {
            if j > k {
                assert(s.subrange(i + k, i + j) =~= sk.subrange(k, j));
                if j < sk.len() {
                    assert(sk[j] == s[i + j]);
                }
                scan::lemma_find_shift(s, i, j + 1, StopSet::ParamDelim);
                scan::lemma_find_props(sk, j + 1, StopSet::ParamDelim);
                match scan::spec_find(sk, j + 1, StopSet::ParamDelim) {
                    Option::None => {},
                    Option::Some(m) => {
                        assert(s.subrange(i + j + 1, i + m) =~= sk.subrange(j + 1, m));
                    },
                }
            }
        },
    }
}

/// Parse one parameter starting at `pos`; on success the returned position is
/// just past it.
pub fn parse_parameter(input: &str, pos: usize) -> (r: Result<(Parameter, usize), ParseError>)
    requires
        pos <= input@.len(),
    ensures
        match r {
            Ok((p, end)) => pos <= end <= input@.len() && spec_parameter_at(input@, pos as int)
                == (ScanOutcome::Match { value: p@, used: end as int }),
            Err(e) => crate::parse::err_matches(spec_parameter_at(input@, pos as int), e.kind)
                && e.trail@.len() >= 1,
        },
{
    let len = input.unicode_len();
    let ghost whole = input@;
    proof {
        scan::lemma_find_shift(input@, pos as int, 0, StopSet::NameDelim);
    }
    match scan::find_stop(input, pos, StopSet::NameDelim) {
        None => Err(parse_error(ErrorKind::Incomplete, pos, "unterminated parameter name")),
        Some(j) => {
            if j <= pos {
                return Err(parse_error(ErrorKind::Mismatch, pos, "empty parameter name"));
            }
            proof {
                assert(whole.subrange(pos as int, j as int) =~= whole.skip(pos as int).take(
                    j - pos,
                ));
            }
            if scan::region_eq(input, pos, j, "BEGIN") {
                return Err(parse_error(ErrorKind::Reserved, pos, "reserved BEGIN token"));
            }
            if scan::region_eq(input, pos, j, "END") {
                return Err(parse_error(ErrorKind::Reserved, pos, "reserved END token"));
            }
            let name = scan::extract(input, pos, j);
            if j < len && input.get_char(j) == '=' {
                proof {
                    scan::lemma_find_shift(input@, j + 1, 0, StopSet::ParamDelim);
                }
                match scan::find_stop(input, j + 1, StopSet::ParamDelim) {
                    None => Err(
                        parse_error(ErrorKind::Incomplete, j + 1, "unterminated parameter value"),
                    ),
                    Some(k) => {
                        let value = scan::extract(input, j + 1, k);
                        let p = Parameter { name, value: Some(value) };
                        proof {
                            assert(spec_parameter_at(whole, pos as int) =~= (ScanOutcome::Match {
                                value: p@,
                                used: k as int,
                            }));
                        }
                        Ok((p, k))
                    },
                }
            } else {
                let p = Parameter { name, value: None };
                proof {
                    assert(spec_parameter_at(whole, pos as int) =~= (ScanOutcome::Match {
                        value: p@,
                        used: j as int,
                    }));
                }
                Ok((p, j))
            }
        },
    }
}

impl Parse for Parameter {
    open spec fn spec_parse(s: Seq<char>) -> ScanOutcome<SpecParameter> {
        spec_parameter_at(s, 0)
    }

    fn parse(input: &str, pos: usize) -> (r: Result<(Self, usize), ParseError>) {
        proof {
            lemma_parameter_shift(input@, pos as int, 0);
        }
        parse_parameter(input, pos)
    }
}

/// Rendered form of one parameter: `name` or `name=value`.
pub open spec fn spec_parameter_text(p: SpecParameter) -> Seq<char> {
    match p.value {
        Option::Some(v) => p.name + "="@ + v,
        Option::None => p.name,
    }
}

impl Parameter {
    /// Render this parameter, without its leading separator.
    pub fn render(&self) -> (r: String)
        ensures
            r@ == spec_parameter_text(self@),
    {
        let mut out = self.name.clone();
        match &self.value {
            Some(v) => {
                out.append("=");
                out.append(v.as_str());
            },
            None => {},
        }
        proof {
            assert(out@ =~= spec_parameter_text(self@));
        }
        out
    }
}

} // verus!
