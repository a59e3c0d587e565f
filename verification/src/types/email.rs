//! The email value: a user part, `@`, and a domain.

use vstd::prelude::*;

use crate::parse::{parse_error, ErrorKind, Parse, ParseError, ScanOutcome};
use crate::scan;
use crate::scan::{CharClass, StopSet};

verus! {

/// Specification-level counterpart of [`Email`].
#[verifier::ext_equal]
pub struct SpecEmail {
    pub user: Seq<char>,
    pub domain: Seq<char>,
}

/// An email address; no validation beyond the grammar is performed.
#[derive(Debug, PartialEq, Clone)]
pub struct Email {
    pub user: String,
    pub domain: String,
}

impl View for Email {
    type V = SpecEmail;

    open spec fn view(&self) -> SpecEmail {
        SpecEmail { user: self.user@, domain: self.domain@ }
    }
}

/// Grammar: everything up to the first `@` is the user — the `@` must stand
/// before the first line terminator, else the grammar does not match (and the
/// scan is incomplete when the input ends with neither) — then the longest
/// run of alphanumeric or `.` characters is the domain.
#[verifier::opaque]
pub open spec fn spec_parse_email(s: Seq<char>) -> ScanOutcome<SpecEmail> {
    let nl = scan::spec_find(s, 0, StopSet::Lit('\n'));
    match scan::spec_find(s, 0, StopSet::Lit('@')) {
        Option::None => match nl {
            Option::None => ScanOutcome::Incomplete,
            Option::Some(_) => ScanOutcome::NoMatch,
        },
        Option::Some(j) => {
            if match nl {
                Option::Some(n) => n < j,
                Option::None => false,
            } {
                ScanOutcome::NoMatch
            } else {
                let d = scan::spec_run(s, j + 1, CharClass::Domain);
                ScanOutcome::Match {
                    value: SpecEmail { user: s.take(j), domain: s.subrange(j + 1, d) },
                    used: d,
                }
            }
        },
    }
}

impl Parse for Email {
    open spec fn spec_parse(s: Seq<char>) -> ScanOutcome<SpecEmail> {
        spec_parse_email(s)
    }

    fn parse(input: &str, pos: usize) -> (r: Result<(Self, usize), ParseError>) {
        proof {
            reveal(spec_parse_email);
        }
        let ghost sub = input@.skip(pos as int);
        let len = input.unicode_len();
        let nl = scan::find_stop(input, pos, StopSet::Lit('\n'));
        match scan::find_stop(input, pos, StopSet::Lit('@')) {
            None => match nl {
                None => Err(parse_error(ErrorKind::Incomplete, pos, "no @ in email value")),
                Some(_) => Err(
                    parse_error(ErrorKind::Mismatch, pos, "no @ before the end of the line"),
                ),
            },
            Some(j) => {
                proof {
                    assert(j < len);
                }
                let newline_first = match nl {
                    Some(n) => n < j,
                    None => false,
                };
                if newline_first {
                    return Err(
                        parse_error(ErrorKind::Mismatch, pos, "no @ before the end of the line"),
                    );
                }
                let user = scan::extract(input, pos, j);
                let d = scan::scan_run(input, j + 1, CharClass::Domain);
                let domain = scan::extract(input, j + 1, d);
                let email = Email { user, domain };
                proof {
                    let j1 = j + 1 - pos;
                    scan::lemma_run_shift(sub, j1, 0, CharClass::Domain);
                    assert(sub.skip(j1) =~= input@.skip(j + 1));
                    let dspec = scan::spec_run(sub, j1, CharClass::Domain);
                    assert(dspec == d - pos);
                    assert(email.user@ =~= sub.take(j - pos));
                    assert(email.domain@ =~= sub.subrange(j1, dspec));
                    assert(spec_parse_email(sub) =~= (ScanOutcome::Match {
                        value: email@,
                        used: d - pos,
                    }));
                }
                Ok((email, d))
            },
        }
    }
}

/// Rendered form of an email: `user@domain`.
pub open spec fn spec_render_email(e: SpecEmail) -> Seq<char> {
    e.user + "@"@ + e.domain
}

impl Email {
    /// Render this email as value text.
    pub fn render(&self) -> (r: String)
        ensures
            r@ == spec_render_email(self@),
    {
        let mut out = self.user.clone();
        out.append("@");
        out.append(self.domain.as_str());
        proof {
            assert(out@ =~= spec_render_email(self@));
        }
        out
    }
}

} // verus!
