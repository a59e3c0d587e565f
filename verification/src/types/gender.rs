//! The gender value: an optional one-letter sex code plus an optional
//! free-text identity.

use vstd::prelude::*;

use crate::parse::{
    parse_error, spec_value_text, ErrorKind, Parse, ParseError, ScanOutcome,
};
use crate::parse::parse_value;

verus! {

/// The one-letter sex codes.
#[derive(Debug, PartialEq, Eq, Structural, Clone, Copy)]
pub enum Sex {
    Male,
    Female,
    Other,
    NotApplicable,
    Unknown,
}

impl View for Sex {
    type V = Sex;

    open spec fn view(&self) -> Sex {
        *self
    }
}

/// The sex code denoted by `c`, if any.
pub open spec fn spec_sex_of(c: char) -> Option<Sex> {
    if c == 'M' {
        Option::Some(Sex::Male)
    } else if c == 'F' {
        Option::Some(Sex::Female)
    } else if c == 'O' {
        Option::Some(Sex::Other)
    } else if c == 'N' {
        Option::Some(Sex::NotApplicable)
    } else if c == 'U' {
        Option::Some(Sex::Unknown)
    } else {
        Option::None
    }
}

/// Grammar: exactly one of the code letters `M`, `F`, `O`, `N`, `U`.
pub open spec fn spec_parse_sex(s: Seq<char>) -> ScanOutcome<Sex> {
    if s.len() >= 1 {
        match spec_sex_of(s[0]) {
            Option::Some(sex) => ScanOutcome::Match { value: sex, used: 1 },
            Option::None => ScanOutcome::NoMatch,
        }
    } else {
        ScanOutcome::NoMatch
    }
}

impl Parse for Sex {
    open spec fn spec_parse(s: Seq<char>) -> ScanOutcome<Sex> {
        spec_parse_sex(s)
    }

    fn parse(input: &str, pos: usize) -> (r: Result<(Self, usize), ParseError>) {
        let len = input.unicode_len();
        if pos < len {
            let c = input.get_char(pos);
            proof {
                assert(input@.skip(pos as int)[0] == input@[pos as int]);
            }
            let sex = if c == 'M' {
                Some(Sex::Male)
            } else if c == 'F' {
                Some(Sex::Female)
            } else if c == 'O' {
                Some(Sex::Other)
            } else if c == 'N' {
                Some(Sex::NotApplicable)
            } else if c == 'U' {
                Some(Sex::Unknown)
            } else {
                None
            };
            match sex {
                Some(sex) => Ok((sex, pos + 1)),
                None => Err(parse_error(ErrorKind::Mismatch, pos, "unknown sex code")),
            }
        } else {
            Err(parse_error(ErrorKind::Mismatch, pos, "unknown sex code"))
        }
    }
}

/// The code letter of a sex value.
pub open spec fn spec_render_sex(sex: Sex) -> Seq<char> {
    match sex {
        Sex::Male => "M"@,
        Sex::Female => "F"@,
        Sex::Other => "O"@,
        Sex::NotApplicable => "N"@,
        Sex::Unknown => "U"@,
    }
}

impl Sex {
    /// Render the code letter of this sex value.
    pub fn render(&self) -> (r: String)
        ensures
            r@ == spec_render_sex(*self),
    {
        match self {
            Sex::Male => "M".to_owned(),
            Sex::Female => "F".to_owned(),
            Sex::Other => "O".to_owned(),
            Sex::NotApplicable => "N".to_owned(),
            Sex::Unknown => "U".to_owned(),
        }
    }
}

/// Specification-level counterpart of [`Gender`].
#[verifier::ext_equal]
pub struct SpecGender {
    pub sex: Option<Sex>,
    pub identity: Seq<char>,
}

/// A gender: an optional sex code and a free-text identity, which defaults to
/// the empty string when absent.
#[derive(Debug, PartialEq, Clone)]
pub struct Gender {
    pub sex: Option<Sex>,
    pub identity: String,
}

impl View for Gender {
    type V = SpecGender;

    open spec fn view(&self) -> SpecGender {
        SpecGender { sex: self.sex, identity: self.identity@ }
    }
}

/// Grammar: an optional sex code, then an optional `;`-prefixed free-text
/// identity scanned as an unstructured value.
#[verifier::opaque]
pub open spec fn spec_parse_gender(s: Seq<char>) -> ScanOutcome<SpecGender> {
    let (sex, i) = if s.len() >= 1 && spec_sex_of(s[0]) is Some {
        (spec_sex_of(s[0]), 1int)
    } else {
        (Option::<Sex>::None, 0int)
    };
    if i < s.len() && s[i] == ';' {
        match spec_value_text(s.skip(i + 1)) {
            ScanOutcome::Match { value, used } => ScanOutcome::Match {
                value: SpecGender { sex, identity: value },
                used: i + 1 + used,
            },
            _ => ScanOutcome::Incomplete,
        }
    } else {
        ScanOutcome::Match { value: SpecGender { sex, identity: Seq::empty() }, used: i }
    }
}

impl Parse for Gender {
    open spec fn spec_parse(s: Seq<char>) -> ScanOutcome<SpecGender> {
        spec_parse_gender(s)
    }

    fn parse(input: &str, pos: usize) -> (r: Result<(Self, usize), ParseError>) {
        proof {
            reveal(spec_parse_gender);
        }
        let ghost sub = input@.skip(pos as int);
        let len = input.unicode_len();
        let mut i = pos;
        let mut sex: Option<Sex> = None;
        if pos < len {
            proof {
                assert(sub[0] == input@[pos as int]);
            }
            let c = input.get_char(pos);
            if c == 'M' {
                sex = Some(Sex::Male);
                i = pos + 1;
            } else if c == 'F' {
                sex = Some(Sex::Female);
                i = pos + 1;
            } else if c == 'O' {
                sex = Some(Sex::Other);
                i = pos + 1;
            } else if c == 'N' {
                sex = Some(Sex::NotApplicable);
                i = pos + 1;
            } else if c == 'U' {
                sex = Some(Sex::Unknown);
                i = pos + 1;
            }
        }
        if i < len && input.get_char(i) == ';' {
            proof {
                assert(sub[i - pos] == input@[i as int]);
            }
            match parse_value(input, i + 1) {
                Ok((identity, end)) => {
                    let g = Gender { sex, identity };
                    proof {
                        assert(input@.skip(i + 1) =~= sub.skip(i + 1 - pos));
                        assert(spec_parse_gender(sub) =~= (ScanOutcome::Match {
                            value: g@,
                            used: end - pos,
                        }));
                    }
                    Ok((g, end))
                },
                Err(_) => {
                    proof {
                        assert(input@.skip(i + 1) =~= sub.skip(i + 1 - pos));
                    }
                    Err(parse_error(ErrorKind::Incomplete, i + 1, "unterminated gender identity"))
                },
            }
        } else {
            let g = Gender { sex, identity: "".to_owned() };
            proof {
                if i < len {
                    assert(sub[i - pos] == input@[i as int]);
                }
                reveal_strlit("");
                assert(g.identity@ =~= Seq::<char>::empty());
                assert(spec_parse_gender(sub) =~= (ScanOutcome::Match {
                    value: g@,
                    used: i - pos,
                }));
            }
            Ok((g, i))
        }
    }
}

/// Rendered form of a gender: the code letter (or nothing), `;`, the
/// identity.
pub open spec fn spec_render_gender(g: SpecGender) -> Seq<char> {
    let sex_text = match g.sex {
        Option::Some(sex) => spec_render_sex(sex),
        Option::None => Seq::<char>::empty(),
    };
    sex_text + ";"@ + g.identity
}

impl Gender {
    /// Render this gender as value text.
    pub fn render(&self) -> (r: String)
        ensures
            r@ == spec_render_gender(self@),
    {
        let mut out: String = match &self.sex {
            Some(sex) => sex.render(),
            None => String::new(),
        };
        out.append(";");
        out.append(self.identity.as_str());
        proof {
            assert(out@ =~= spec_render_gender(self@));
        }
        out
    }
}

} // verus!
