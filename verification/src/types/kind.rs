//! The record-kind label: a closed enumeration of four tokens.

use vstd::prelude::*;

use crate::parse::{parse_error, ErrorKind, Parse, ParseError, ScanOutcome};
use crate::scan;

verus! {

/// The kind of entity a record describes.
#[derive(Debug, PartialEq, Eq, Structural, Clone, Copy)]
pub enum Kind {
    Individual,
    Group,
    Organization,
    Location,
}

impl View for Kind {
    type V = Kind;

    open spec fn view(&self) -> Kind {
        *self
    }
}

/// Grammar: one of the literal tokens `individual`, `group`, `org`,
/// `location`, tried in that order; anything else is a mismatch (the raw
/// fallback happens one level up, in the resolver).
#[verifier::opaque]
pub open spec fn spec_parse_kind(s: Seq<char>) -> ScanOutcome<Kind> {
    if scan::spec_match_lit(s, "individual"@) {
        ScanOutcome::Match { value: Kind::Individual, used: "individual"@.len() as int }
    } else if scan::spec_match_lit(s, "group"@) {
        ScanOutcome::Match { value: Kind::Group, used: "group"@.len() as int }
    } else if scan::spec_match_lit(s, "org"@) {
        ScanOutcome::Match { value: Kind::Organization, used: "org"@.len() as int }
    } else if scan::spec_match_lit(s, "location"@) {
        ScanOutcome::Match { value: Kind::Location, used: "location"@.len() as int }
    } else {
        ScanOutcome::NoMatch
    }
}

impl Parse for Kind {
    open spec fn spec_parse(s: Seq<char>) -> ScanOutcome<Kind> {
        spec_parse_kind(s)
    }

    fn parse(input: &str, pos: usize) -> (r: Result<(Self, usize), ParseError>) {
        proof {
            reveal(spec_parse_kind);
        }
        if let Some(end) = scan::match_keyword(input, pos, "individual") {
            Ok((Kind::Individual, end))
        } else if let Some(end) = scan::match_keyword(input, pos, "group") {
            Ok((Kind::Group, end))
        } else if let Some(end) = scan::match_keyword(input, pos, "org") {
            Ok((Kind::Organization, end))
        } else if let Some(end) = scan::match_keyword(input, pos, "location") {
            Ok((Kind::Location, end))
        } else {
            Err(parse_error(ErrorKind::Mismatch, pos, "unknown record kind"))
        }
    }
}

/// The wire token of a kind.
pub open spec fn spec_render_kind(k: Kind) -> Seq<char> {
    match k {
        Kind::Individual => "individual"@,
        Kind::Group => "group"@,
        Kind::Organization => "org"@,
        Kind::Location => "location"@,
    }
}

impl Kind {
    /// Render the wire token of this kind.
    pub fn render(&self) -> (r: String)
        ensures
            r@ == spec_render_kind(*self),
    {
        match self {
            Kind::Individual => "individual".to_owned(),
            Kind::Group => "group".to_owned(),
            Kind::Organization => "org".to_owned(),
            Kind::Location => "location".to_owned(),
        }
    }
}

} // verus!
