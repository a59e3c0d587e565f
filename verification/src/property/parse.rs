//! The property grammar: name scanning, the fixed dispatch table from
//! recognized names to value grammars, the generic fallback, and the frame
//! markers.

use vstd::prelude::*;

use crate::parse::{
    err_matches, parse_error, parse_multiple_value, parse_typed_value, parse_value,
    spec_multiple_value, spec_resolve, spec_value_text as spec_unstructured_text, ErrorKind,
    Parse, ParseError, ScanOutcome,
};
use crate::scan;
use crate::scan::StopSet;
use crate::types::{
    Address, Date, Email, FormattedName, Gender, GeoPosition, Image, Kind, Url,
};
use crate::value::{SpecValue, Value};
use super::parameters::{parameter_views, parse_parameters, spec_parameters};
use super::{Parameters, Property, SpecProperty};

verus! {

// ---------------------------------------------------------------------------
// Name scanning
// ---------------------------------------------------------------------------

/// Grammar of a property-name token: a non-empty run up to the first of `:`,
/// `=` or `;` (incomplete when the input ends first); the reserved frame
/// tokens `BEGIN` and `END` are rejected so that frame markers are never
/// taken for properties.
pub open spec fn spec_scan_name(s: Seq<char>) -> ScanOutcome<Seq<char>> {
    match scan::spec_find(s, 0, StopSet::NameDelim) {
        Option::None => ScanOutcome::Incomplete,
        Option::Some(j) => {
            if j <= 0 {
                ScanOutcome::NoMatch
            } else {
                let name = s.take(j);
                if name == "BEGIN"@ || name == "END"@ {
                    ScanOutcome::Reserved
                } else {
                    ScanOutcome::Match { value: name, used: j }
                }
            }
        },
    }
}

/// Scan a property name starting at `pos`; on success the returned position
/// stands on the delimiter that ended the name.
pub fn scan_name_end(input: &str, pos: usize) -> (r: Result<usize, ParseError>)
    requires
        pos <= input@.len(),
    ensures
        match r {
            Ok(j) => pos < j <= input@.len() && spec_scan_name(input@.skip(pos as int))
                == (ScanOutcome::Match {
                value: input@.subrange(pos as int, j as int),
                used: j - pos,
            }),
            Err(e) => err_matches(spec_scan_name(input@.skip(pos as int)), e.kind)
                && e.trail@.len() >= 1,
        },
{
    let ghost sub = input@.skip(pos as int);
    match scan::find_stop(input, pos, StopSet::NameDelim) {
        None => Err(parse_error(ErrorKind::Incomplete, pos, "unterminated property name")),
        Some(j) => {
            if j <= pos {
                return Err(parse_error(ErrorKind::Mismatch, pos, "empty property name"));
            }
            proof {
                assert(input@.subrange(pos as int, j as int) =~= sub.take(j - pos));
            }
            if scan::region_eq(input, pos, j, "BEGIN") {
                return Err(parse_error(ErrorKind::Reserved, pos, "reserved BEGIN token"));
            }
            if scan::region_eq(input, pos, j, "END") {
                return Err(parse_error(ErrorKind::Reserved, pos, "reserved END token"));
            }
            Ok(j)
        },
    }
}

// ---------------------------------------------------------------------------
// The dispatch table
// ---------------------------------------------------------------------------

/// The recognized property names.
#[derive(Clone, Copy, PartialEq, Eq, Structural, Debug)]
pub enum KnownName {
    Source,
    Kind,
    Xml,
    Fn,
    N,
    Nickname,
    Photo,
    Birthday,
    Anniversary,
    Gender,
    Adr,
    Tel,
    Email,
    Impp,
    Lang,
    Timezone,
    Geo,
    Title,
    Role,
    Logo,
    Org,
    Member,
    Related,
    Categories,
    Note,
    ProdID,
    Rev,
    Sound,
    Uid,
    ClientPIDMap,
    Url,
    Version,
    Key,
    FbUrl,
    CalAdrURL,
    CalURL,
}

/// Does the scanned name match the keyword, ignoring case?
pub open spec fn name_is(name: Seq<char>, kw: Seq<char>) -> bool {
    scan::eq_ignore_case(name, kw)
}

/// The dispatch table: the recognized entry of a scanned name, if any.
pub open spec fn spec_recognize(name: Seq<char>) -> Option<KnownName> {
    if name_is(name, "SOURCE"@) {
        Option::Some(KnownName::Source)
    } else if name_is(name, "KIND"@) {
        Option::Some(KnownName::Kind)
    } else if name_is(name, "XML"@) {
        Option::Some(KnownName::Xml)
    } else if name_is(name, "FN"@) {
        Option::Some(KnownName::Fn)
    } else if name_is(name, "N"@) {
        Option::Some(KnownName::N)
    } else if name_is(name, "NICKNAME"@) {
        Option::Some(KnownName::Nickname)
    } else if name_is(name, "PHOTO"@) {
        Option::Some(KnownName::Photo)
    } else if name_is(name, "BDAY"@) {
        Option::Some(KnownName::Birthday)
    } else if name_is(name, "ANNIVERSARY"@) {
        Option::Some(KnownName::Anniversary)
    } else if name_is(name, "GENDER"@) {
        Option::Some(KnownName::Gender)
    } else if name_is(name, "ADR"@) {
        Option::Some(KnownName::Adr)
    } else if name_is(name, "TEL"@) {
        Option::Some(KnownName::Tel)
    } else if name_is(name, "EMAIL"@) {
        Option::Some(KnownName::Email)
    } else if name_is(name, "IMPP"@) {
        Option::Some(KnownName::Impp)
    } else if name_is(name, "LANG"@) {
        Option::Some(KnownName::Lang)
    } else if name_is(name, "TZ"@) {
        Option::Some(KnownName::Timezone)
    } else if name_is(name, "GEO"@) {
        Option::Some(KnownName::Geo)
    } else if name_is(name, "TITLE"@) {
        Option::Some(KnownName::Title)
    } else if name_is(name, "ROLE"@) {
        Option::Some(KnownName::Role)
    } else if name_is(name, "LOGO"@) {
        Option::Some(KnownName::Logo)
    } else if name_is(name, "ORG"@) {
        Option::Some(KnownName::Org)
    } else if name_is(name, "MEMBER"@) {
        Option::Some(KnownName::Member)
    } else if name_is(name, "RELATED"@) {
        Option::Some(KnownName::Related)
    } else if name_is(name, "CATEGORIES"@) {
        Option::Some(KnownName::Categories)
    } else if name_is(name, "NOTE"@) {
        Option::Some(KnownName::Note)
    } else if name_is(name, "PRODID"@) {
        Option::Some(KnownName::ProdID)
    } else if name_is(name, "REV"@) {
        Option::Some(KnownName::Rev)
    } else if name_is(name, "SOUND"@) {
        Option::Some(KnownName::Sound)
    } else if name_is(name, "UID"@) {
        Option::Some(KnownName::Uid)
    } else if name_is(name, "CLIENTPIDMAP"@) {
        Option::Some(KnownName::ClientPIDMap)
    } else if name_is(name, "URL"@) {
        Option::Some(KnownName::Url)
    } else if name_is(name, "VERSION"@) {
        Option::Some(KnownName::Version)
    } else if name_is(name, "KEY"@) {
        Option::Some(KnownName::Key)
    } else if name_is(name, "FBURL"@) {
        Option::Some(KnownName::FbUrl)
    } else if name_is(name, "CALADRURL"@) {
        Option::Some(KnownName::CalAdrURL)
    } else if name_is(name, "CALURL"@) {
        Option::Some(KnownName::CalURL)
    } else {
        Option::None
    }
}

/// Look the name region up in the dispatch table.
fn recognize(input: &str, pos: usize, end: usize) -> (r: Option<KnownName>)
    requires
        pos <= end <= input@.len(),
    ensures
        r == spec_recognize(input@.subrange(pos as int, end as int)),
{
    if scan::region_eq_ignore_case(input, pos, end, "SOURCE") {
        Some(KnownName::Source)
    } else if scan::region_eq_ignore_case(input, pos, end, "KIND") {
        Some(KnownName::Kind)
    } else if scan::region_eq_ignore_case(input, pos, end, "XML") {
        Some(KnownName::Xml)
    } else if scan::region_eq_ignore_case(input, pos, end, "FN") {
        Some(KnownName::Fn)
    } else if scan::region_eq_ignore_case(input, pos, end, "N") {
        Some(KnownName::N)
    } else if scan::region_eq_ignore_case(input, pos, end, "NICKNAME") {
        Some(KnownName::Nickname)
    } else if scan::region_eq_ignore_case(input, pos, end, "PHOTO") {
        Some(KnownName::Photo)
    } else if scan::region_eq_ignore_case(input, pos, end, "BDAY") {
        Some(KnownName::Birthday)
    } else if scan::region_eq_ignore_case(input, pos, end, "ANNIVERSARY") {
        Some(KnownName::Anniversary)
    } else if scan::region_eq_ignore_case(input, pos, end, "GENDER") {
        Some(KnownName::Gender)
    } else if scan::region_eq_ignore_case(input, pos, end, "ADR") {
        Some(KnownName::Adr)
    } else if scan::region_eq_ignore_case(input, pos, end, "TEL") {
        Some(KnownName::Tel)
    } else if scan::region_eq_ignore_case(input, pos, end, "EMAIL") {
        Some(KnownName::Email)
    } else if scan::region_eq_ignore_case(input, pos, end, "IMPP") {
        Some(KnownName::Impp)
    } else if scan::region_eq_ignore_case(input, pos, end, "LANG") {
        Some(KnownName::Lang)
    } else if scan::region_eq_ignore_case(input, pos, end, "TZ") {
        Some(KnownName::Timezone)
    } else if scan::region_eq_ignore_case(input, pos, end, "GEO") {
        Some(KnownName::Geo)
    } else if scan::region_eq_ignore_case(input, pos, end, "TITLE") {
        Some(KnownName::Title)
    } else if scan::region_eq_ignore_case(input, pos, end, "ROLE") {
        Some(KnownName::Role)
    } else if scan::region_eq_ignore_case(input, pos, end, "LOGO") {
        Some(KnownName::Logo)
    } else if scan::region_eq_ignore_case(input, pos, end, "ORG") {
        Some(KnownName::Org)
    } else if scan::region_eq_ignore_case(input, pos, end, "MEMBER") {
        Some(KnownName::Member)
    } else if scan::region_eq_ignore_case(input, pos, end, "RELATED") {
        Some(KnownName::Related)
    } else if scan::region_eq_ignore_case(input, pos, end, "CATEGORIES") {
        Some(KnownName::Categories)
    } else if scan::region_eq_ignore_case(input, pos, end, "NOTE") {
        Some(KnownName::Note)
    } else if scan::region_eq_ignore_case(input, pos, end, "PRODID") {
        Some(KnownName::ProdID)
    } else if scan::region_eq_ignore_case(input, pos, end, "REV") {
        Some(KnownName::Rev)
    } else if scan::region_eq_ignore_case(input, pos, end, "SOUND") {
        Some(KnownName::Sound)
    } else if scan::region_eq_ignore_case(input, pos, end, "UID") {
        Some(KnownName::Uid)
    } else if scan::region_eq_ignore_case(input, pos, end, "CLIENTPIDMAP") {
        Some(KnownName::ClientPIDMap)
    } else if scan::region_eq_ignore_case(input, pos, end, "URL") {
        Some(KnownName::Url)
    } else if scan::region_eq_ignore_case(input, pos, end, "VERSION") {
        Some(KnownName::Version)
    } else if scan::region_eq_ignore_case(input, pos, end, "KEY") {
        Some(KnownName::Key)
    } else if scan::region_eq_ignore_case(input, pos, end, "FBURL") {
        Some(KnownName::FbUrl)
    } else if scan::region_eq_ignore_case(input, pos, end, "CALADRURL") {
        Some(KnownName::CalAdrURL)
    } else if scan::region_eq_ignore_case(input, pos, end, "CALURL") {
        Some(KnownName::CalURL)
    } else {
        None
    }
}

// ---------------------------------------------------------------------------
// Values of recognized names
// ---------------------------------------------------------------------------

/// Map a grammar outcome through a value constructor.
pub open spec fn map_outcome<A, B>(o: ScanOutcome<A>, f: spec_fn(A) -> B) -> ScanOutcome<B> {
    match o {
        ScanOutcome::Match { value, used } => ScanOutcome::Match { value: f(value), used },
        ScanOutcome::NoMatch => ScanOutcome::NoMatch,
        ScanOutcome::Incomplete => ScanOutcome::Incomplete,
        ScanOutcome::Reserved => ScanOutcome::Reserved,
    }
}

/// The value grammar of each recognized name: an unstructured value, a
/// typed-or-raw payload, or a comma-list, wrapped in the name's constructor.
#[verifier::opaque]
pub open spec fn spec_known_value(k: KnownName, s: Seq<char>) -> ScanOutcome<SpecValue> {
    match k {
        KnownName::Source => map_outcome(spec_resolve::<Url>(s), |t| SpecValue::Source(t)),
        KnownName::Kind => map_outcome(spec_resolve::<Kind>(s), |t| SpecValue::Kind(t)),
        KnownName::Xml => map_outcome(spec_unstructured_text(s), |t| SpecValue::Xml(t)),
        KnownName::Fn => map_outcome(spec_unstructured_text(s), |t| SpecValue::Fn(t)),
        KnownName::N => map_outcome(spec_resolve::<FormattedName>(s), |t| SpecValue::N(t)),
        KnownName::Nickname => map_outcome(spec_multiple_value(s), |t| SpecValue::Nickname(t)),
        KnownName::Photo => map_outcome(spec_resolve::<Image>(s), |t| SpecValue::Photo(t)),
        KnownName::Birthday => map_outcome(spec_resolve::<Date>(s), |t| SpecValue::Birthday(t)),
        KnownName::Anniversary => map_outcome(
            spec_resolve::<Date>(s),
            |t| SpecValue::Anniversary(t),
        ),
        KnownName::Gender => map_outcome(spec_resolve::<Gender>(s), |t| SpecValue::Gender(t)),
        KnownName::Adr => map_outcome(spec_resolve::<Address>(s), |t| SpecValue::Adr(t)),
        KnownName::Tel => map_outcome(spec_unstructured_text(s), |t| SpecValue::Tel(t)),
        KnownName::Email => map_outcome(spec_resolve::<Email>(s), |t| SpecValue::Email(t)),
        KnownName::Impp => map_outcome(spec_unstructured_text(s), |t| SpecValue::Impp(t)),
        KnownName::Lang => map_outcome(spec_unstructured_text(s), |t| SpecValue::Lang(t)),
        KnownName::Timezone => map_outcome(spec_unstructured_text(s), |t| SpecValue::Timezone(t)),
        KnownName::Geo => map_outcome(spec_resolve::<GeoPosition>(s), |t| SpecValue::Geo(t)),
        KnownName::Title => map_outcome(spec_unstructured_text(s), |t| SpecValue::Title(t)),
        KnownName::Role => map_outcome(spec_unstructured_text(s), |t| SpecValue::Role(t)),
        KnownName::Logo => map_outcome(spec_resolve::<Image>(s), |t| SpecValue::Logo(t)),
        KnownName::Org => map_outcome(spec_unstructured_text(s), |t| SpecValue::Organization(t)),
        KnownName::Member => map_outcome(spec_unstructured_text(s), |t| SpecValue::Member(t)),
        KnownName::Related => map_outcome(spec_unstructured_text(s), |t| SpecValue::Related(t)),
        KnownName::Categories => map_outcome(
            spec_multiple_value(s),
            |t| SpecValue::Categories(t),
        ),
        KnownName::Note => map_outcome(spec_unstructured_text(s), |t| SpecValue::Note(t)),
        KnownName::ProdID => map_outcome(spec_unstructured_text(s), |t| SpecValue::ProdID(t)),
        KnownName::Rev => map_outcome(spec_unstructured_text(s), |t| SpecValue::Rev(t)),
        KnownName::Sound => map_outcome(spec_unstructured_text(s), |t| SpecValue::Sound(t)),
        KnownName::Uid => map_outcome(spec_unstructured_text(s), |t| SpecValue::Uid(t)),
        KnownName::ClientPIDMap => map_outcome(
            spec_unstructured_text(s),
            |t| SpecValue::ClientPIDMap(t),
        ),
        KnownName::Url => map_outcome(spec_resolve::<Url>(s), |t| SpecValue::Url(t)),
        KnownName::Version => map_outcome(spec_unstructured_text(s), |t| SpecValue::Version(t)),
        KnownName::Key => map_outcome(spec_unstructured_text(s), |t| SpecValue::Key(t)),
        KnownName::FbUrl => map_outcome(spec_unstructured_text(s), |t| SpecValue::FbUrl(t)),
        KnownName::CalAdrURL => map_outcome(
            spec_unstructured_text(s),
            |t| SpecValue::CalAdrURL(t),
        ),
        KnownName::CalURL => map_outcome(spec_unstructured_text(s), |t| SpecValue::CalURL(t)),
    }
}

/// Parse the value payload of a recognized name starting at `pos`.
#[verifier::rlimit(100)]
#[verifier::spinoff_prover]
fn parse_known_value(k: KnownName, input: &str, pos: usize) -> (r: Result<
    (Value, usize),
    ParseError,
>)
    requires
        pos <= input@.len(),
    ensures
        match r {
            Ok((v, end)) => pos <= end <= input@.len() && spec_known_value(
                k,
                input@.skip(pos as int),
            ) == (ScanOutcome::Match { value: v@, used: end - pos }),
            Err(e) => err_matches(spec_known_value(k, input@.skip(pos as int)), e.kind)
                && e.trail@.len() >= 1,
        },
{
    let ghost sub = input@.skip(pos as int);
    proof {
        reveal(spec_known_value);
    }
    match k {
        KnownName::Source => match parse_typed_value::<Url>(input, pos) {
            Ok((t, end)) => {
                let v = Value::Source(t);
                proof {
                    assert(spec_known_value(k, sub) == (ScanOutcome::Match {
                        value: v@,
                        used: end - pos,
                    }));
                }
                Ok((v, end))
            },
            Err(e) => Err(e),
        },
        KnownName::Kind => match parse_typed_value::<Kind>(input, pos) {
            Ok((t, end)) => {
                let v = Value::Kind(t);
                proof {
                    assert(spec_known_value(k, sub) == (ScanOutcome::Match {
                        value: v@,
                        used: end - pos,
                    }));
                }
                Ok((v, end))
            },
            Err(e) => Err(e),
        },
        KnownName::Xml => match parse_value(input, pos) {
            Ok((t, end)) => {
                let v = Value::Xml(t);
                proof {
                    assert(spec_known_value(k, sub) == (ScanOutcome::Match {
                        value: v@,
                        used: end - pos,
                    }));
                }
                Ok((v, end))
            },
            Err(e) => Err(e),
        },
        KnownName::Fn => match parse_value(input, pos) {
            Ok((t, end)) => {
                let v = Value::Fn(t);
                proof {
                    assert(spec_known_value(k, sub) == (ScanOutcome::Match {
                        value: v@,
                        used: end - pos,
                    }));
                }
                Ok((v, end))
            },
            Err(e) => Err(e),
        },
        KnownName::N => match parse_typed_value::<FormattedName>(input, pos) {
            Ok((t, end)) => {
                let v = Value::N(t);
                proof {
                    assert(spec_known_value(k, sub) == (ScanOutcome::Match {
                        value: v@,
                        used: end - pos,
                    }));
                }
                Ok((v, end))
            },
            Err(e) => Err(e),
        },
        KnownName::Nickname => match parse_multiple_value(input, pos) {
            Ok((t, end)) => {
                let v = Value::Nickname(t);
                proof {
                    assert(spec_known_value(k, sub) == (ScanOutcome::Match {
                        value: v@,
                        used: end - pos,
                    }));
                }
                Ok((v, end))
            },
            Err(e) => Err(e),
        },
        KnownName::Photo => match parse_typed_value::<Image>(input, pos) {
            Ok((t, end)) => {
                let v = Value::Photo(t);
                proof {
                    assert(spec_known_value(k, sub) == (ScanOutcome::Match {
                        value: v@,
                        used: end - pos,
                    }));
                }
                Ok((v, end))
            },
            Err(e) => Err(e),
        },
        KnownName::Birthday => match parse_typed_value::<Date>(input, pos) {
            Ok((t, end)) => {
                let v = Value::Birthday(t);
                proof {
                    assert(spec_known_value(k, sub) == (ScanOutcome::Match {
                        value: v@,
                        used: end - pos,
                    }));
                }
                Ok((v, end))
            },
            Err(e) => Err(e),
        },
        KnownName::Anniversary => match parse_typed_value::<Date>(input, pos) {
            Ok((t, end)) => {
                let v = Value::Anniversary(t);
                proof {
                    assert(spec_known_value(k, sub) == (ScanOutcome::Match {
                        value: v@,
                        used: end - pos,
                    }));
                }
                Ok((v, end))
            },
            Err(e) => Err(e),
        },
        KnownName::Gender => match parse_typed_value::<Gender>(input, pos) {
            Ok((t, end)) => {
                let v = Value::Gender(t);
                proof {
                    assert(spec_known_value(k, sub) == (ScanOutcome::Match {
                        value: v@,
                        used: end - pos,
                    }));
                }
                Ok((v, end))
            },
            Err(e) => Err(e),
        },
        KnownName::Adr => match parse_typed_value::<Address>(input, pos) {
            Ok((t, end)) => {
                let v = Value::Adr(t);
                proof {
                    assert(spec_known_value(k, sub) == (ScanOutcome::Match {
                        value: v@,
                        used: end - pos,
                    }));
                }
                Ok((v, end))
            },
            Err(e) => Err(e),
        },
        KnownName::Tel => match parse_value(input, pos) {
            Ok((t, end)) => {
                let v = Value::Tel(t);
                proof {
                    assert(spec_known_value(k, sub) == (ScanOutcome::Match {
                        value: v@,
                        used: end - pos,
                    }));
                }
                Ok((v, end))
            },
            Err(e) => Err(e),
        },
        KnownName::Email => match parse_typed_value::<Email>(input, pos) {
            Ok((t, end)) => {
                let v = Value::Email(t);
                proof {
                    assert(spec_known_value(k, sub) == (ScanOutcome::Match {
                        value: v@,
                        used: end - pos,
                    }));
                }
                Ok((v, end))
            },
            Err(e) => Err(e),
        },
        KnownName::Impp => match parse_value(input, pos) {
            Ok((t, end)) => {
                let v = Value::Impp(t);
                proof {
                    assert(spec_known_value(k, sub) == (ScanOutcome::Match {
                        value: v@,
                        used: end - pos,
                    }));
                }
                Ok((v, end))
            },
            Err(e) => Err(e),
        },
        KnownName::Lang => match parse_value(input, pos) {
            Ok((t, end)) => {
                let v = Value::Lang(t);
                proof {
                    assert(spec_known_value(k, sub) == (ScanOutcome::Match {
                        value: v@,
                        used: end - pos,
                    }));
                }
                Ok((v, end))
            },
            Err(e) => Err(e),
        },
        KnownName::Timezone => match parse_value(input, pos) {
            Ok((t, end)) => {
                let v = Value::Timezone(t);
                proof {
                    assert(spec_known_value(k, sub) == (ScanOutcome::Match {
                        value: v@,
                        used: end - pos,
                    }));
                }
                Ok((v, end))
            },
            Err(e) => Err(e),
        },
        KnownName::Geo => match parse_typed_value::<GeoPosition>(input, pos) {
            Ok((t, end)) => {
                let v = Value::Geo(t);
                proof {
                    assert(spec_known_value(k, sub) == (ScanOutcome::Match {
                        value: v@,
                        used: end - pos,
                    }));
                }
                Ok((v, end))
            },
            Err(e) => Err(e),
        },
        KnownName::Title => match parse_value(input, pos) {
            Ok((t, end)) => {
                let v = Value::Title(t);
                proof {
                    assert(spec_known_value(k, sub) == (ScanOutcome::Match {
                        value: v@,
                        used: end - pos,
                    }));
                }
                Ok((v, end))
            },
            Err(e) => Err(e),
        },
        KnownName::Role => match parse_value(input, pos) {
            Ok((t, end)) => {
                let v = Value::Role(t);
                proof {
                    assert(spec_known_value(k, sub) == (ScanOutcome::Match {
                        value: v@,
                        used: end - pos,
                    }));
                }
                Ok((v, end))
            },
            Err(e) => Err(e),
        },
        KnownName::Logo => match parse_typed_value::<Image>(input, pos) {
            Ok((t, end)) => {
                let v = Value::Logo(t);
                proof {
                    assert(spec_known_value(k, sub) == (ScanOutcome::Match {
                        value: v@,
                        used: end - pos,
                    }));
                }
                Ok((v, end))
            },
            Err(e) => Err(e),
        },
        KnownName::Org => match parse_value(input, pos) {
            Ok((t, end)) => {
                let v = Value::Organization(t);
                proof {
                    assert(spec_known_value(k, sub) == (ScanOutcome::Match {
                        value: v@,
                        used: end - pos,
                    }));
                }
                Ok((v, end))
            },
            Err(e) => Err(e),
        },
        KnownName::Member => match parse_value(input, pos) {
            Ok((t, end)) => {
                let v = Value::Member(t);
                proof {
                    assert(spec_known_value(k, sub) == (ScanOutcome::Match {
                        value: v@,
                        used: end - pos,
                    }));
                }
                Ok((v, end))
            },
            Err(e) => Err(e),
        },
        KnownName::Related => match parse_value(input, pos) {
            Ok((t, end)) => {
                let v = Value::Related(t);
                proof {
                    assert(spec_known_value(k, sub) == (ScanOutcome::Match {
                        value: v@,
                        used: end - pos,
                    }));
                }
                Ok((v, end))
            },
            Err(e) => Err(e),
        },
        KnownName::Categories => match parse_multiple_value(input, pos) {
            Ok((t, end)) => {
                let v = Value::Categories(t);
                proof {
                    assert(spec_known_value(k, sub) == (ScanOutcome::Match {
                        value: v@,
                        used: end - pos,
                    }));
                }
                Ok((v, end))
            },
            Err(e) => Err(e),
        },
        KnownName::Note => match parse_value(input, pos) {
            Ok((t, end)) => {
                let v = Value::Note(t);
                proof {
                    assert(spec_known_value(k, sub) == (ScanOutcome::Match {
                        value: v@,
                        used: end - pos,
                    }));
                }
                Ok((v, end))
            },
            Err(e) => Err(e),
        },
        KnownName::ProdID => match parse_value(input, pos) {
            Ok((t, end)) => {
                let v = Value::ProdID(t);
                proof {
                    assert(spec_known_value(k, sub) == (ScanOutcome::Match {
                        value: v@,
                        used: end - pos,
                    }));
                }
                Ok((v, end))
            },
            Err(e) => Err(e),
        },
        KnownName::Rev => match parse_value(input, pos) {
            Ok((t, end)) => {
                let v = Value::Rev(t);
                proof {
                    assert(spec_known_value(k, sub) == (ScanOutcome::Match {
                        value: v@,
                        used: end - pos,
                    }));
                }
                Ok((v, end))
            },
            Err(e) => Err(e),
        },
        KnownName::Sound => match parse_value(input, pos) {
            Ok((t, end)) => {
                let v = Value::Sound(t);
                proof {
                    assert(spec_known_value(k, sub) == (ScanOutcome::Match {
                        value: v@,
                        used: end - pos,
                    }));
                }
                Ok((v, end))
            },
            Err(e) => Err(e),
        },
        KnownName::Uid => match parse_value(input, pos) {
            Ok((t, end)) => {
                let v = Value::Uid(t);
                proof {
                    assert(spec_known_value(k, sub) == (ScanOutcome::Match {
                        value: v@,
                        used: end - pos,
                    }));
                }
                Ok((v, end))
            },
            Err(e) => Err(e),
        },
        KnownName::ClientPIDMap => match parse_value(input, pos) {
            Ok((t, end)) => {
                let v = Value::ClientPIDMap(t);
                proof {
                    assert(spec_known_value(k, sub) == (ScanOutcome::Match {
                        value: v@,
                        used: end - pos,
                    }));
                }
                Ok((v, end))
            },
            Err(e) => Err(e),
        },
        KnownName::Url => match parse_typed_value::<Url>(input, pos) {
            Ok((t, end)) => {
                let v = Value::Url(t);
                proof {
                    assert(spec_known_value(k, sub) == (ScanOutcome::Match {
                        value: v@,
                        used: end - pos,
                    }));
                }
                Ok((v, end))
            },
            Err(e) => Err(e),
        },
        KnownName::Version => match parse_value(input, pos) {
            Ok((t, end)) => {
                let v = Value::Version(t);
                proof {
                    assert(spec_known_value(k, sub) == (ScanOutcome::Match {
                        value: v@,
                        used: end - pos,
                    }));
                }
                Ok((v, end))
            },
            Err(e) => Err(e),
        },
        KnownName::Key => match parse_value(input, pos) {
            Ok((t, end)) => {
                let v = Value::Key(t);
                proof {
                    assert(spec_known_value(k, sub) == (ScanOutcome::Match {
                        value: v@,
                        used: end - pos,
                    }));
                }
                Ok((v, end))
            },
            Err(e) => Err(e),
        },
        KnownName::FbUrl => match parse_value(input, pos) {
            Ok((t, end)) => {
                let v = Value::FbUrl(t);
                proof {
                    assert(spec_known_value(k, sub) == (ScanOutcome::Match {
                        value: v@,
                        used: end - pos,
                    }));
                }
                Ok((v, end))
            },
            Err(e) => Err(e),
        },
        KnownName::CalAdrURL => match parse_value(input, pos) {
            Ok((t, end)) => {
                let v = Value::CalAdrURL(t);
                proof {
                    assert(spec_known_value(k, sub) == (ScanOutcome::Match {
                        value: v@,
                        used: end - pos,
                    }));
                }
                Ok((v, end))
            },
            Err(e) => Err(e),
        },
        KnownName::CalURL => match parse_value(input, pos) {
            Ok((t, end)) => {
                let v = Value::CalURL(t);
                proof {
                    assert(spec_known_value(k, sub) == (ScanOutcome::Match {
                        value: v@,
                        used: end - pos,
                    }));
                }
                Ok((v, end))
            },
            Err(e) => Err(e),
        },
    }
}

// ---------------------------------------------------------------------------
// The property grammar
// ---------------------------------------------------------------------------

/// Grammar of one property line: a name, the parameter section, `:`, then
/// the value grammar that the dispatch table assigns to the name — or, for an
/// unrecognized name, a raw unstructured value kept with the original-case
/// name. A recognized property also consumes one trailing carriage return.
pub open spec fn spec_parse_property(s: Seq<char>) -> ScanOutcome<SpecProperty> {
    match spec_scan_name(s) {
        ScanOutcome::Match { value: name, used: n_end } => {
            match spec_parameters(s.skip(n_end)) {
                ScanOutcome::Match { value: ps, used: p_used } => {
                    let c = n_end + p_used;
                    if !(0 <= c < s.len() && s[c] == ':') {
                        ScanOutcome::NoMatch
                    } else {
                        match spec_recognize(name) {
                            Option::Some(k) => match spec_known_value(k, s.skip(c + 1)) {
                                ScanOutcome::Match { value: v, used: v_used } => {
                                    let e = c + 1 + v_used;
                                    let e2 = if e < s.len() && s[e] == '\r' {
                                        e + 1
                                    } else {
                                        e
                                    };
                                    ScanOutcome::Match {
                                        value: SpecProperty { params: ps, value: v },
                                        used: e2,
                                    }
                                },
                                o => o_to_property(o),
                            },
                            Option::None => match spec_unstructured_text(s.skip(c + 1)) {
                                ScanOutcome::Match { value: text, used: v_used } => {
                                    ScanOutcome::Match {
                                        value: SpecProperty {
                                            params: ps,
                                            value: SpecValue::Other(name, text),
                                        },
                                        used: c + 1 + v_used,
                                    }
                                },
                                _ => ScanOutcome::Incomplete,
                            },
                        }
                    }
                },
                ScanOutcome::Incomplete => ScanOutcome::Incomplete,
                ScanOutcome::Reserved => ScanOutcome::Reserved,
                ScanOutcome::NoMatch => ScanOutcome::NoMatch,
            }
        },
        ScanOutcome::NoMatch => ScanOutcome::NoMatch,
        ScanOutcome::Incomplete => ScanOutcome::Incomplete,
        ScanOutcome::Reserved => ScanOutcome::Reserved,
    }
}

/// Carry a failed value outcome over to the property outcome.
pub open spec fn o_to_property(o: ScanOutcome<SpecValue>) -> ScanOutcome<SpecProperty> {
    match o {
        ScanOutcome::Match { .. } => ScanOutcome::NoMatch,
        ScanOutcome::NoMatch => ScanOutcome::NoMatch,
        ScanOutcome::Incomplete => ScanOutcome::Incomplete,
        ScanOutcome::Reserved => ScanOutcome::Reserved,
    }
}

/// Parse one property line starting at `pos`.
#[verifier::rlimit(100)]
#[verifier::spinoff_prover]
pub fn parse_property(input: &str, pos: usize) -> (r: Result<(Property, usize), ParseError>)
    requires
        pos <= input@.len(),
    ensures
        match r {
            Ok((p, end)) => pos <= end <= input@.len() && spec_parse_property(
                input@.skip(pos as int),
            ) == (ScanOutcome::Match { value: p@, used: end - pos }),
            Err(e) => err_matches(spec_parse_property(input@.skip(pos as int)), e.kind)
                && e.trail@.len() >= 1,
        },
{
    let ghost sub = input@.skip(pos as int);
    let len = input.unicode_len();
    let n_end = match scan_name_end(input, pos) {
        Ok(j) => j,
        Err(e) => {
            return Err(e);
        },
    };
    let ghost name = sub.take(n_end - pos);
    proof {
        assert(input@.subrange(pos as int, n_end as int) =~= name);
        assert(input@.skip(n_end as int) =~= sub.skip(n_end - pos));
    }
    let (ps, p_end) = match parse_parameters(input, n_end) {
        Ok(r) => r,
        Err(e) => {
            return Err(e.with_context(pos, "in property parameters"));
        },
    };
    if !(p_end < len && input.get_char(p_end) == ':') {
        proof {
            if p_end < len {
                assert(sub[p_end - pos] == input@[p_end as int]);
            }
        }
        return Err(parse_error(ErrorKind::Framing, p_end, "expected value delimiter"));
    }
    proof {
        assert(sub[p_end - pos] == input@[p_end as int]);
        assert(input@.skip(p_end + 1) =~= sub.skip(p_end + 1 - pos));
    }
    match recognize(input, pos, n_end) {
        Some(k) => match parse_known_value(k, input, p_end + 1) {
            Ok((v, v_end)) => {
                let e2 = if v_end < len && input.get_char(v_end) == '\r' {
                    proof {
                        assert(sub[v_end - pos] == input@[v_end as int]);
                    }
                    v_end + 1
                } else {
                    proof {
                        if v_end < len {
                            assert(sub[v_end - pos] == input@[v_end as int]);
                        }
                    }
                    v_end
                };
                let p = Property { params: Parameters(ps), value: v };
                proof {
                    assert(spec_parse_property(sub) == (ScanOutcome::Match {
                        value: p@,
                        used: e2 - pos,
                    }));
                }
                Ok((p, e2))
            },
            Err(e) => Err(e.with_context(pos, "in property value")),
        },
        None => match parse_value(input, p_end + 1) {
            Ok((text, v_end)) => {
                let p = Property {
                    params: Parameters(ps),
                    value: Value::Other(scan::extract(input, pos, n_end), text),
                };
                proof {
                    assert(spec_parse_property(sub) == (ScanOutcome::Match {
                        value: p@,
                        used: v_end - pos,
                    }));
                }
                Ok((p, v_end))
            },
            Err(e) => Err(e.with_context(pos, "in property value")),
        },
    }
}

// ---------------------------------------------------------------------------
// Frame markers
// ---------------------------------------------------------------------------

/// Grammar of a frame marker line: the frame token (case-insensitive), `:`,
/// `VCARD` (case-insensitive), then an optional carriage return and an
/// optional line terminator, both consumed.
pub open spec fn spec_frame_marker(s: Seq<char>, kw: Seq<char>, v: SpecValue) -> ScanOutcome<
    SpecProperty,
> {
    if !scan::spec_match_ic(s, kw) {
        ScanOutcome::NoMatch
    } else {
        let i = kw.len() as int;
        if !(i < s.len() && s[i] == ':') {
            ScanOutcome::NoMatch
        } else if !scan::spec_match_ic(s.skip(i + 1), "VCARD"@) {
            ScanOutcome::NoMatch
        } else {
            let j = i + 1 + "VCARD"@.len();
            let j2 = if j < s.len() && s[j] == '\r' {
                j + 1
            } else {
                j
            };
            let j3 = if j2 < s.len() && s[j2] == '\n' {
                j2 + 1
            } else {
                j2
            };
            ScanOutcome::Match { value: SpecProperty { params: seq![], value: v }, used: j3 }
        }
    }
}

/// Grammar of the opening frame marker.
pub open spec fn spec_parse_begin(s: Seq<char>) -> ScanOutcome<SpecProperty> {
    spec_frame_marker(s, "BEGIN"@, SpecValue::Begin)
}

/// Grammar of the closing frame marker.
pub open spec fn spec_parse_end(s: Seq<char>) -> ScanOutcome<SpecProperty> {
    spec_frame_marker(s, "END"@, SpecValue::End)
}

/// Parse a frame marker line starting at `pos`.
fn parse_frame_marker(input: &str, pos: usize, kw: &str, value: Value) -> (r: Result<
    (Property, usize),
    ParseError,
>)
    requires
        pos <= input@.len(),
    ensures
        match r {
            Ok((p, end)) => pos <= end <= input@.len() && spec_frame_marker(
                input@.skip(pos as int),
                kw@,
                value@,
            ) == (ScanOutcome::Match { value: p@, used: end - pos }) && p@.value == value@,
            Err(e) => spec_frame_marker(input@.skip(pos as int), kw@, value@) is NoMatch && e.kind
                == ErrorKind::Framing && e.trail@.len() >= 1,
        },
{
    let ghost sub = input@.skip(pos as int);
    let len = input.unicode_len();
    let i = match scan::match_keyword_ic(input, pos, kw) {
        Some(i) => i,
        None => {
            return Err(parse_error(ErrorKind::Framing, pos, "expected frame marker"));
        },
    };
    if !(i < len && input.get_char(i) == ':') {
        proof {
            if i < len {
                assert(sub[i - pos] == input@[i as int]);
            }
        }
        return Err(parse_error(ErrorKind::Framing, i, "expected colon in frame marker"));
    }
    proof {
        assert(sub[i - pos] == input@[i as int]);
        assert(input@.skip(i + 1) =~= sub.skip(i + 1 - pos));
    }
    let j = match scan::match_keyword_ic(input, i + 1, "VCARD") {
        Some(j) => j,
        None => {
            return Err(parse_error(ErrorKind::Framing, i + 1, "expected VCARD in frame marker"));
        },
    };
    let j2 = if j < len && input.get_char(j) == '\r' {
        proof {
            assert(sub[j - pos] == input@[j as int]);
        }
        j + 1
    } else {
        proof {
            if j < len {
                assert(sub[j - pos] == input@[j as int]);
            }
        }
        j
    };
    let j3 = if j2 < len && input.get_char(j2) == '\n' {
        proof {
            assert(sub[j2 - pos] == input@[j2 as int]);
        }
        j2 + 1
    } else {
        proof {
            if j2 < len {
                assert(sub[j2 - pos] == input@[j2 as int]);
            }
        }
        j2
    };
    let p = Property { params: Parameters(Vec::new()), value };
    proof {
        assert(p@.params =~= Seq::<super::SpecParameter>::empty());
        assert(spec_frame_marker(sub, kw@, p@.value) =~= (ScanOutcome::Match {
            value: p@,
            used: j3 - pos,
        }));
    }
    Ok((p, j3))
}

/// Parse the opening frame marker `BEGIN:VCARD` (case-insensitive) with its
/// optional trailing carriage return and line terminator.
pub fn parse_begin(input: &str, pos: usize) -> (r: Result<(Property, usize), ParseError>)
    requires
        pos <= input@.len(),
    ensures
        match r {
            Ok((p, end)) => pos <= end <= input@.len() && spec_parse_begin(input@.skip(pos as int))
                == (ScanOutcome::Match { value: p@, used: end - pos }),
            Err(e) => spec_parse_begin(input@.skip(pos as int)) is NoMatch && e.kind
                == ErrorKind::Framing && e.trail@.len() >= 1,
        },
{
    parse_frame_marker(input, pos, "BEGIN", Value::Begin)
}

/// Parse the closing frame marker `END:VCARD` (case-insensitive) with its
/// optional trailing carriage return and line terminator.
pub fn parse_end(input: &str, pos: usize) -> (r: Result<(Property, usize), ParseError>)
    requires
        pos <= input@.len(),
    ensures
        match r {
            Ok((p, end)) => pos <= end <= input@.len() && spec_parse_end(input@.skip(pos as int))
                == (ScanOutcome::Match { value: p@, used: end - pos }),
            Err(e) => spec_parse_end(input@.skip(pos as int)) is NoMatch && e.kind
                == ErrorKind::Framing && e.trail@.len() >= 1,
        },
{
    parse_frame_marker(input, pos, "END", Value::End)
}

} // verus!
