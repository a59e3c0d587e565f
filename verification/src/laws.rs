//! The structural round-trip law: a well-formed record, rendered to text and
//! parsed again, comes back with the same properties.
//!
//! The well-formedness predicates here state the validity that every parsed
//! record has by construction of the grammars: raw texts hold no unescaped
//! line terminator, structured sub-values hold only the characters their
//! grammars admit, and a raw typed payload is one whose structured grammar
//! does not match. The law is proved payload by payload; a typed calendar
//! date is the one payload whose equality cannot be promised, because what
//! the calendar library accepts is not modelled, so its round trip is stated
//! at the variant level only.

use vstd::prelude::*;

use crate::parse::{
    digit_char, spec_comma_items, spec_decimal, spec_multiple_value, spec_value_text, ScanOutcome,
};
use crate::property::parse::{
    name_is, spec_known_value, spec_parse_begin, spec_parse_end, spec_parse_property,
    spec_recognize, spec_scan_name, KnownName,
};
use crate::property::{spec_render_property, SpecProperty};
use crate::vcard::{spec_parse_body, spec_parse_vcard, spec_render_vcard};
use crate::types::date::{
    date_of, spec_parse_date, spec_pad2, spec_render_date, spec_year_text, Date,
};
use crate::value::ty::SpecTypeOrRaw;
use crate::value::{spec_name_raw, SpecValue};
use crate::property::parameter::{spec_parameter_at, spec_parameter_text, SpecParameter};
use crate::property::parameters::{spec_param_seq, spec_parameters, spec_render_params};
use crate::value::at_least::{spec_multiplicity, SpecAtLeastOne};
use crate::scan;
use crate::scan::{CharClass, StopSet};
use crate::types::address::{opt_text, spec_parse_address, spec_render_address, SpecAddress};
use crate::types::email::{spec_parse_email, spec_render_email, SpecEmail};
use crate::types::gender::{
    spec_parse_gender, spec_render_gender, spec_render_sex, spec_sex_of, SpecGender,
};
use crate::types::geo::{
    lemma_number_shift, spec_number_end, spec_parse_geo, spec_render_geo, SpecGeoPosition,
};
use crate::types::image::{spec_parse_image, spec_render_image, SpecImage};
use crate::types::kind::{spec_parse_kind, spec_render_kind, Kind};
use crate::types::name::{
    lemma_fmt_list_shift, spec_fmt_list, spec_parse_fname, spec_render_fname, SpecFormattedName,
};
use crate::parse::spec_join;
use crate::types::url::{
    lemma_dedup_unique, lemma_params_shift, lemma_path_shift, spec_param_text, spec_params_list,
    spec_parse_url, spec_path_end, spec_render_url, SpecParam, SpecUrl,
};

verus! {

// ---------------------------------------------------------------------------
// Raw value texts
// ---------------------------------------------------------------------------

/// A well-formed raw value text, rendered into a line and rescanned, comes
/// back verbatim.
pub proof fn lemma_value_text_round_trip(v: Seq<char>, r: Seq<char>)
    requires
        scan::wf_text(v, false),
        r.len() > 0,
        r[0] == '\n',
    ensures
        spec_value_text(v + r) == (ScanOutcome::Match { value: v, used: v.len() as int }),
{
    assert(v + r =~= v + seq!['\n'] + r.skip(1));
    scan::lemma_wf_text_scan(v, '\n', r.skip(1), false);
    assert((v + r).take(v.len() as int) =~= v);
}

// ---------------------------------------------------------------------------
// Record kinds
// ---------------------------------------------------------------------------

/// A kind token, rendered and reparsed, comes back unchanged.
pub proof fn lemma_kind_round_trip(k: Kind, r: Seq<char>)
    ensures
        spec_parse_kind(spec_render_kind(k) + r) == (ScanOutcome::Match {
            value: k,
            used: spec_render_kind(k).len() as int,
        }),
{
    reveal(spec_parse_kind);
    reveal_strlit("individual");
    reveal_strlit("group");
    reveal_strlit("org");
    reveal_strlit("location");
    let s = spec_render_kind(k) + r;
    match k {
        Kind::Individual => {
            assert(s.take("individual"@.len() as int) =~= "individual"@);
        },
        Kind::Group => {
            assert(!scan::spec_match_lit(s, "individual"@)) by {
                if s.len() >= "individual"@.len() {
                    assert(s.take("individual"@.len() as int)[0] == 'g');
                }
            }
            assert(s.take("group"@.len() as int) =~= "group"@);
        },
        Kind::Organization => {
            assert(!scan::spec_match_lit(s, "individual"@)) by {
                if s.len() >= "individual"@.len() {
                    assert(s.take("individual"@.len() as int)[0] == 'o');
                }
            }
            assert(!scan::spec_match_lit(s, "group"@)) by {
                if s.len() >= "group"@.len() {
                    assert(s.take("group"@.len() as int)[0] == 'o');
                }
            }
            assert(s.take("org"@.len() as int) =~= "org"@);
        },
        Kind::Location => {
            assert(!scan::spec_match_lit(s, "individual"@)) by {
                if s.len() >= "individual"@.len() {
                    assert(s.take("individual"@.len() as int)[0] == 'l');
                }
            }
            assert(!scan::spec_match_lit(s, "group"@)) by {
                if s.len() >= "group"@.len() {
                    assert(s.take("group"@.len() as int)[0] == 'l');
                }
            }
            assert(!scan::spec_match_lit(s, "org"@)) by {
                if s.len() >= "org"@.len() {
                    assert(s.take("org"@.len() as int)[1] == 'o');
                }
            }
            assert(s.take("location"@.len() as int) =~= "location"@);
        },
    }
}

// ---------------------------------------------------------------------------
// Emails
// ---------------------------------------------------------------------------

/// The validity of an email value: the user part holds neither `@` nor a
/// line terminator, and the domain holds only domain characters.
pub open spec fn wf_email(e: SpecEmail) -> bool {
    &&& forall|k: int|
        0 <= k < e.user.len() ==> (#[trigger] e.user[k]) != '@' && e.user[k] != '\n'
    &&& forall|k: int| 0 <= k < e.domain.len() ==> scan::in_class(
        CharClass::Domain,
        #[trigger] e.domain[k],
    )
}

/// A well-formed email, rendered and reparsed, comes back unchanged.
pub proof fn lemma_email_round_trip(e: SpecEmail, r: Seq<char>)
    requires
        wf_email(e),
        r.len() > 0,
        r[0] == '\n',
    ensures
        spec_parse_email(spec_render_email(e) + r) == (ScanOutcome::Match {
            value: e,
            used: spec_render_email(e).len() as int,
        }),
{
    reveal(spec_parse_email);
    reveal_strlit("@");
    let s = spec_render_email(e) + r;
    let ul = e.user.len() as int;
    let rl = spec_render_email(e).len() as int;
    assert(s[ul] == '@');
    assert(forall|k: int| 0 <= k < ul ==> #[trigger] s[k] == e.user[k]);
    assert(forall|k: int| ul + 1 <= k < rl ==> #[trigger] s[k] == e.domain[k - ul - 1]);
    scan::lemma_find_at(s, 0, ul, StopSet::Lit('@'));
    assert(forall|k: int| 0 <= k < rl ==> (#[trigger] s[k]) != '\n') by {
        assert(forall|k: int| 0 <= k < e.domain.len() ==> (#[trigger] e.domain[k]) != '\n');
    }
    assert(s[rl] == '\n');
    scan::lemma_find_at(s, 0, rl, StopSet::Lit('\n'));
    scan::lemma_run_stops(s, ul + 1, rl, CharClass::Domain);
    assert(s.take(ul) =~= e.user);
    assert(s.subrange(ul + 1, rl) =~= e.domain);
}

// ---------------------------------------------------------------------------
// Genders
// ---------------------------------------------------------------------------

/// The validity of a gender value: the identity is a well-formed raw text.
pub open spec fn wf_gender(g: SpecGender) -> bool {
    scan::wf_text(g.identity, false)
}

/// A well-formed gender, rendered and reparsed, comes back unchanged.
pub proof fn lemma_gender_round_trip(g: SpecGender, r: Seq<char>)
    requires
        wf_gender(g),
        r.len() > 0,
        r[0] == '\n',
    ensures
        spec_parse_gender(spec_render_gender(g) + r) == (ScanOutcome::Match {
            value: g,
            used: spec_render_gender(g).len() as int,
        }),
{
    reveal(spec_parse_gender);
    reveal_strlit(";");
    reveal_strlit("M");
    reveal_strlit("F");
    reveal_strlit("O");
    reveal_strlit("N");
    reveal_strlit("U");
    let s = spec_render_gender(g) + r;
    let i: int = match g.sex {
        Some(sex) => {
            assert(s[0] == spec_render_sex(sex)[0]);
            assert(spec_sex_of(s[0]) == Some(sex));
            1
        },
        None => {
            assert(s[0] == ';');
            assert(spec_sex_of(s[0]) is None);
            0
        },
    };
    assert(s[i] == ';');
    assert(s.skip(i + 1) =~= g.identity + r);
    lemma_value_text_round_trip(g.identity, r);
}

// ---------------------------------------------------------------------------
// Geographic positions
// ---------------------------------------------------------------------------

/// A well-formed decimal number text: scanned standalone, the number grammar
/// consumes all of it.
pub open spec fn wf_number(v: Seq<char>) -> bool {
    spec_number_end(v + seq!['\n'], 0) == Some(v.len() as int)
}

/// A well-formed number text followed by anything that cannot extend it
/// still scans to exactly the text.
pub proof fn lemma_number_extend(v: Seq<char>, r: Seq<char>)
    requires
        wf_number(v),
        r.len() > 0,
        !scan::is_digit(r[0]),
        r[0] != '.',
    ensures
        spec_number_end(v + r, 0) == Some(v.len() as int),
{
    let s1 = v + seq!['\n'];
    let s2 = v + r;
    let vl = v.len() as int;
    if v.len() == 0 {
        scan::lemma_run_stops(s1, 0, 0, CharClass::Digit);
        assert(false);
    }
    assert(s1[0] == v[0] && s2[0] == v[0]);
    let start: int = if v[0] == '-' {
        1
    } else {
        0
    };
    if start > vl {
        assert(false);
    }
    scan::lemma_run_props(s1, start, CharClass::Digit);
    let d1 = scan::spec_run(s1, start, CharClass::Digit);
    assert(d1 <= vl) by {
        if d1 > vl {
            assert(scan::in_class(CharClass::Digit, s1[vl]));
        }
    }
    if d1 <= start {
        assert(false);
    }
    assert(forall|k: int| start <= k < d1 ==> scan::in_class(CharClass::Digit, #[trigger] s2[k]))
        by {
        assert(forall|k: int| start <= k < d1 ==> #[trigger] s2[k] == s1[k]);
    }
    assert(d1 < s2.len() ==> !scan::in_class(CharClass::Digit, s2[d1])) by {
        if d1 < vl {
            assert(s2[d1] == s1[d1]);
        } else {
            assert(s2[d1] == r[0]);
        }
    }
    scan::lemma_run_stops(s2, start, d1, CharClass::Digit);
    if d1 < vl {
        assert(s1[d1] == v[d1] && s2[d1] == v[d1]);
        if v[d1] == '.' {
            scan::lemma_run_props(s1, d1 + 1, CharClass::Digit);
            let d2 = scan::spec_run(s1, d1 + 1, CharClass::Digit);
            assert(d2 <= vl) by {
                if d2 > vl {
                    assert(scan::in_class(CharClass::Digit, s1[vl]));
                }
            }
            assert(d2 == vl);
            assert(forall|k: int|
                d1 + 1 <= k < d2 ==> scan::in_class(CharClass::Digit, #[trigger] s2[k])) by {
                assert(forall|k: int| d1 + 1 <= k < d2 ==> #[trigger] s2[k] == s1[k]);
            }
            assert(d2 < s2.len() ==> !scan::in_class(CharClass::Digit, s2[d2])) by {
                assert(s2[d2] == r[0]);
            }
            scan::lemma_run_stops(s2, d1 + 1, d2, CharClass::Digit);
        } else {
            assert(d1 == vl);
            assert(false);
        }
    } else {
        // d1 == v.len(): the number is all digits after the optional sign
        assert(s1[d1] == '\n' && s2[d1] == r[0]);
    }
}

/// The validity of a position: both coordinates are well-formed number
/// texts.
pub open spec fn wf_geo(g: SpecGeoPosition) -> bool {
    wf_number(g.lat) && wf_number(g.lon)
}

/// A well-formed position, rendered and reparsed, comes back unchanged.
pub proof fn lemma_geo_round_trip(g: SpecGeoPosition, r: Seq<char>)
    requires
        wf_geo(g),
        r.len() > 0,
        !scan::is_digit(r[0]),
        r[0] != '.',
        r[0] != ',',
    ensures
        spec_parse_geo(spec_render_geo(g) + r) == (ScanOutcome::Match {
            value: g,
            used: spec_render_geo(g).len() as int,
        }),
{
    reveal(spec_parse_geo);
    reveal_strlit(",");
    let s = spec_render_geo(g) + r;
    let a = g.lat.len() as int;
    let rl = spec_render_geo(g).len() as int;
    assert(s =~= g.lat + (","@ + g.lon + r));
    assert((","@ + g.lon + r)[0] == ',');
    lemma_number_extend(g.lat, ","@ + g.lon + r);
    lemma_number_shift(s, 0, 0);
    assert(s.skip(0) =~= s);
    assert(spec_number_end(s, 0) == Some(a));
    assert(s[a] == ',');
    lemma_number_shift(s, a + 1, 0);
    assert(s.skip(a + 1) =~= g.lon + r);
    lemma_number_extend(g.lon, r);
    assert(spec_number_end(s, a + 1) == Some(rl));
    assert(s.take(a) =~= g.lat);
    assert(s.subrange(a + 1, rl) =~= g.lon);
}

// ---------------------------------------------------------------------------
// Addresses
// ---------------------------------------------------------------------------

/// The validity of one optional formatted field: when present it is
/// non-empty and holds only formatted characters.
pub open spec fn wf_opt_field(o: Option<Seq<char>>) -> bool {
    match o {
        Option::Some(v) => v.len() > 0 && forall|k: int|
            0 <= k < v.len() ==> scan::in_class(CharClass::Formatted, #[trigger] v[k]),
        Option::None => true,
    }
}

/// The validity of an address: every field is a valid optional formatted
/// field.
pub open spec fn wf_address(a: SpecAddress) -> bool {
    &&& wf_opt_field(a.po_box)
    &&& wf_opt_field(a.extended)
    &&& wf_opt_field(a.street)
    &&& wf_opt_field(a.locality)
    &&& wf_opt_field(a.region)
    &&& wf_opt_field(a.code)
    &&& wf_opt_field(a.country)
}

/// A well-formed address, rendered and reparsed, comes back unchanged.
#[verifier::rlimit(100)]
#[verifier::spinoff_prover]
pub proof fn lemma_address_round_trip(a: SpecAddress, r: Seq<char>)
    requires
        wf_address(a),
        r.len() > 0,
        !scan::in_class(CharClass::Formatted, r[0]),
    ensures
        spec_parse_address(spec_render_address(a) + r) == (ScanOutcome::Match {
            value: a,
            used: spec_render_address(a).len() as int,
        }),
{
    reveal(spec_parse_address);
    reveal_strlit(";");
    let t1 = opt_text(a.po_box);
    let t2 = opt_text(a.extended);
    let t3 = opt_text(a.street);
    let t4 = opt_text(a.locality);
    let t5 = opt_text(a.region);
    let t6 = opt_text(a.code);
    let t7 = opt_text(a.country);
    let s = spec_render_address(a) + r;
    let e1 = t1.len() as int;
    let e2 = e1 + 1 + t2.len();
    let e3 = e2 + 1 + t3.len();
    let e4 = e3 + 1 + t4.len();
    let e5 = e4 + 1 + t5.len();
    let e6 = e5 + 1 + t6.len();
    let e7 = e6 + 1 + t7.len();
    assert(s[e1] == ';' && s[e2] == ';' && s[e3] == ';' && s[e4] == ';' && s[e5] == ';' && s[e6]
        == ';');
    assert(e7 < s.len() && s[e7] == r[0]);
    assert(s.subrange(0, e1) =~= t1);
    assert(s.subrange(e1 + 1, e2) =~= t2);
    assert(s.subrange(e2 + 1, e3) =~= t3);
    assert(s.subrange(e3 + 1, e4) =~= t4);
    assert(s.subrange(e4 + 1, e5) =~= t5);
    assert(s.subrange(e5 + 1, e6) =~= t6);
    assert(s.subrange(e6 + 1, e7) =~= t7);
    lemma_run_over_segment(s, 0, e1, t1, CharClass::Formatted);
    lemma_run_over_segment(s, e1 + 1, e2, t2, CharClass::Formatted);
    lemma_run_over_segment(s, e2 + 1, e3, t3, CharClass::Formatted);
    lemma_run_over_segment(s, e3 + 1, e4, t4, CharClass::Formatted);
    lemma_run_over_segment(s, e4 + 1, e5, t5, CharClass::Formatted);
    lemma_run_over_segment(s, e5 + 1, e6, t6, CharClass::Formatted);
    lemma_run_over_segment(s, e6 + 1, e7, t7, CharClass::Formatted);
    assert(spec_parse_address(s) == (ScanOutcome::Match {
        value: a,
        used: spec_render_address(a).len() as int,
    }));
}

/// A run over a stretch known to hold only characters of the class, bounded
/// by a character outside it, ends exactly at the bound.
proof fn lemma_run_over_segment(s: Seq<char>, b: int, e: int, t: Seq<char>, cls: CharClass)
    requires
        0 <= b <= e <= s.len(),
        s.subrange(b, e) == t,
        forall|k: int| 0 <= k < t.len() ==> scan::in_class(cls, #[trigger] t[k]),
        e < s.len() ==> !scan::in_class(cls, s[e]),
    ensures
        scan::spec_run(s, b, cls) == e,
{
    assert(forall|k: int| b <= k < e ==> scan::in_class(cls, #[trigger] s[k])) by {
        assert(forall|k: int| b <= k < e ==> #[trigger] s[k] == s.subrange(b, e)[k - b]);
    }
    scan::lemma_run_stops(s, b, e, cls);
}

// ---------------------------------------------------------------------------
// Structured names
// ---------------------------------------------------------------------------

/// The validity of a comma-list of formatted segments: every item is
/// non-empty and holds only formatted characters.
pub open spec fn wf_fmt_items(items: Seq<Seq<char>>) -> bool {
    forall|i: int|
        0 <= i < items.len() ==> (#[trigger] items[i]).len() > 0 && forall|k: int|
            0 <= k < items[i].len() ==> scan::in_class(CharClass::Formatted, #[trigger] items[i][k])
}

/// A well-formed comma-list, joined with commas and rescanned, comes back as
/// the same items.
pub proof fn lemma_fmt_list_render(items: Seq<Seq<char>>, r: Seq<char>)
    requires
        wf_fmt_items(items),
        r.len() > 0,
        !scan::in_class(CharClass::Formatted, r[0]),
        r[0] != ',',
    ensures
        spec_fmt_list(spec_join(items, ","@) + r, 0) == (items, spec_join(items, ","@).len() as int),
    decreases items.len(),
{
    reveal_strlit(",");
    let s = spec_join(items, ","@) + r;
    if items.len() == 0 {
        scan::lemma_run_stops(s, 0, 0, CharClass::Formatted);
        assert(spec_fmt_list(s, 0).0 =~= items);
    } else if items.len() == 1 {
        let t = items[0];
        let e = t.len() as int;
        assert(forall|k: int| 0 <= k < e ==> #[trigger] s[k] == t[k]);
        assert(s[e] == r[0]);
        scan::lemma_run_stops(s, 0, e, CharClass::Formatted);
        assert(s.subrange(0, e) =~= t);
        assert(spec_fmt_list(s, 0).0 =~= items);
    } else {
        let t = items[0];
        let e = t.len() as int;
        let tail_join = spec_join(items.skip(1), ","@);
        assert(spec_join(items, ","@) == t + ","@ + tail_join);
        assert(forall|k: int| 0 <= k < e ==> #[trigger] s[k] == t[k]);
        assert(s[e] == ',');
        scan::lemma_run_stops(s, 0, e, CharClass::Formatted);
        // the next segment begins right after the comma, so the scan goes on
        assert(items.skip(1)[0].len() > 0);
        assert(tail_join.len() > 0) by {
            if items.skip(1).len() == 1 {
                assert(tail_join == items.skip(1)[0]);
            } else {
                assert(tail_join == items.skip(1)[0] + ","@ + spec_join(
                    items.skip(1).skip(1),
                    ","@,
                ));
            }
        }
        assert(s[e + 1] == tail_join[0]);
        assert(tail_join[0] == items.skip(1)[0][0]) by {
            if items.skip(1).len() == 1 {
                assert(tail_join == items.skip(1)[0]);
            } else {
                assert(tail_join == items.skip(1)[0] + ","@ + spec_join(
                    items.skip(1).skip(1),
                    ","@,
                ));
            }
        }
        assert(scan::in_class(CharClass::Formatted, s[e + 1]));
        scan::lemma_run_props(s, e + 1, CharClass::Formatted);
        assert(scan::spec_run(s, e + 1, CharClass::Formatted) > e + 1);
        lemma_fmt_list_shift(s, e + 1, 0);
        assert(s.skip(e + 1) =~= tail_join + r);
        lemma_fmt_list_render(items.skip(1), r);
        assert(s.subrange(0, e) =~= t);
        assert(spec_fmt_list(s, 0).0 =~= items);
        assert(spec_fmt_list(s, 0).1 == spec_join(items, ","@).len());
    }
}

/// The validity of a structured name: its five lists are valid comma-lists.
pub open spec fn wf_fname(n: SpecFormattedName) -> bool {
    &&& wf_fmt_items(n.surname)
    &&& wf_fmt_items(n.given)
    &&& wf_fmt_items(n.additional)
    &&& wf_fmt_items(n.prefix)
    &&& wf_fmt_items(n.suffix)
}

/// A comma-list standing at `b` within a larger text scans to exactly its
/// items.
proof fn lemma_fmt_list_at(s: Seq<char>, b: int, items: Seq<Seq<char>>, tail: Seq<char>)
    requires
        0 <= b <= s.len(),
        s.skip(b) == spec_join(items, ","@) + tail,
        wf_fmt_items(items),
        tail.len() > 0,
        !scan::in_class(CharClass::Formatted, tail[0]),
        tail[0] != ',',
    ensures
        spec_fmt_list(s, b) == (items, b + spec_join(items, ","@).len()),
{
    lemma_fmt_list_shift(s, b, 0);
    lemma_fmt_list_render(items, tail);
}

/// A well-formed structured name, rendered and reparsed, comes back
/// unchanged.
#[verifier::rlimit(100)]
#[verifier::spinoff_prover]
pub proof fn lemma_fname_round_trip(n: SpecFormattedName, r: Seq<char>)
    requires
        wf_fname(n),
        r.len() > 0,
        !scan::in_class(CharClass::Formatted, r[0]),
        r[0] != ',',
    ensures
        spec_parse_fname(spec_render_fname(n) + r) == (ScanOutcome::Match {
            value: n,
            used: spec_render_fname(n).len() as int,
        }),
{
    reveal(spec_parse_fname);
    reveal_strlit(";");
    let j1 = spec_join(n.surname, ","@);
    let j2 = spec_join(n.given, ","@);
    let j3 = spec_join(n.additional, ","@);
    let j4 = spec_join(n.prefix, ","@);
    let j5 = spec_join(n.suffix, ","@);
    let s = spec_render_fname(n) + r;
    let i1 = j1.len() as int;
    let i2 = i1 + 1 + j2.len();
    let i3 = i2 + 1 + j3.len();
    let i4 = i3 + 1 + j4.len();
    let i6 = i4 + 1 + j5.len();
    let tail1 = ";"@ + j2 + ";"@ + j3 + ";"@ + j4 + ";"@ + j5 + r;
    let tail2 = ";"@ + j3 + ";"@ + j4 + ";"@ + j5 + r;
    let tail3 = ";"@ + j4 + ";"@ + j5 + r;
    let tail4 = ";"@ + j5 + r;
    assert(s[i1] == ';' && s[i2] == ';' && s[i3] == ';' && s[i4] == ';');
    assert(s.skip(0) =~= j1 + tail1);
    lemma_fmt_list_at(s, 0, n.surname, tail1);
    assert(s.skip(i1 + 1) =~= j2 + tail2);
    lemma_fmt_list_at(s, i1 + 1, n.given, tail2);
    assert(s.skip(i2 + 1) =~= j3 + tail3);
    lemma_fmt_list_at(s, i2 + 1, n.additional, tail3);
    assert(s.skip(i3 + 1) =~= j4 + tail4);
    lemma_fmt_list_at(s, i3 + 1, n.prefix, tail4);
    assert(s.skip(i4 + 1) =~= j5 + r);
    lemma_fmt_list_at(s, i4 + 1, n.suffix, r);
    assert(spec_parse_fname(s) == (ScanOutcome::Match {
        value: n,
        used: spec_render_fname(n).len() as int,
    }));
}


// ---------------------------------------------------------------------------
// URLs
// ---------------------------------------------------------------------------

/// The validity of a URL path text: it begins with a slash and the path
/// grammar, scanned standalone, consumes all of it.
pub open spec fn wf_path(p: Seq<char>) -> bool {
    &&& p.len() >= 1
    &&& p[0] == '/'
    &&& spec_path_end(p + seq!['\n'], 0) == p.len() as int
}

/// A well-formed path text followed by anything that cannot extend it still
/// scans to exactly the text.
proof fn lemma_path_end_extend(v: Seq<char>, r: Seq<char>, i: int)
    requires
        0 <= i < v.len(),
        spec_path_end(v + seq!['\n'], i) == v.len() as int,
        r.len() > 0,
        !scan::in_class(CharClass::PathSeg, r[0]),
        r[0] != '/',
    ensures
        spec_path_end(v + r, i) == v.len() as int,
    decreases v.len() - i,
{
    let s1 = v + seq!['\n'];
    let s2 = v + r;
    let vl = v.len() as int;
    scan::lemma_run_props(s1, i + 1, CharClass::PathSeg);
    let e = scan::spec_run(s1, i + 1, CharClass::PathSeg);
    assert(e <= vl) by {
        if e > vl {
            assert(scan::in_class(CharClass::PathSeg, s1[vl]));
        }
    }
    assert(forall|k: int| i + 1 <= k < e ==> scan::in_class(CharClass::PathSeg, #[trigger] s2[k]))
        by {
        assert(forall|k: int| i + 1 <= k < e ==> #[trigger] s2[k] == s1[k]);
    }
    assert(e < s2.len() ==> !scan::in_class(CharClass::PathSeg, s2[e])) by {
        if e < vl {
            assert(s2[e] == s1[e]);
        } else {
            assert(s2[e] == r[0]);
        }
    }
    scan::lemma_run_stops(s2, i + 1, e, CharClass::PathSeg);
    if e <= i + 1 {
        // both sides stop right after the slash
    } else if e < vl {
        assert(s2[e] == s1[e]);
        if s1[e] == '/' {
            scan::lemma_run_props(s1, e + 1, CharClass::PathSeg);
            let e2 = scan::spec_run(s1, e + 1, CharClass::PathSeg);
            assert(e2 <= vl) by {
                if e2 > vl {
                    assert(scan::in_class(CharClass::PathSeg, s1[vl]));
                }
            }
            assert(forall|k: int|
                e + 1 <= k < e2 ==> scan::in_class(CharClass::PathSeg, #[trigger] s2[k])) by {
                assert(forall|k: int| e + 1 <= k < e2 ==> #[trigger] s2[k] == s1[k]);
            }
            assert(e2 < s2.len() ==> !scan::in_class(CharClass::PathSeg, s2[e2])) by {
                if e2 < vl {
                    assert(s2[e2] == s1[e2]);
                } else {
                    assert(s2[e2] == r[0]);
                }
            }
            scan::lemma_run_stops(s2, e + 1, e2, CharClass::PathSeg);
            if e2 > e + 1 {
                lemma_path_end_extend(v, r, e);
            } else {
                assert(false);
            }
        } else {
            assert(false);
        }
    } else {
        // e == v.len(): neither side sees a further slash-led segment
        assert(s1[e] == '\n' && s2[e] == r[0]);
    }
}

/// A path standing at `b` within a larger text scans to exactly its end.
proof fn lemma_path_at(s: Seq<char>, b: int, p: Seq<char>, tail: Seq<char>)
    requires
        0 <= b < s.len(),
        s.skip(b) == p + tail,
        wf_path(p),
        tail.len() > 0,
        !scan::in_class(CharClass::PathSeg, tail[0]),
        tail[0] != '/',
    ensures
        spec_path_end(s, b) == b + p.len(),
{
    lemma_path_shift(s, b, 0);
    lemma_path_end_extend(p, tail, 0);
}

/// The validity of one query parameter: a non-empty alphabetic name, and an
/// absent or non-empty alphabetic value.
pub open spec fn wf_param(p: SpecParam) -> bool {
    &&& p.0.len() > 0
    &&& forall|k: int| 0 <= k < p.0.len() ==> scan::in_class(CharClass::Alpha, #[trigger] p.0[k])
    &&& match p.1 {
        Option::Some(v) => v.len() > 0 && forall|k: int|
            0 <= k < v.len() ==> scan::in_class(CharClass::Alpha, #[trigger] v[k]),
        Option::None => true,
    }
}

/// The `&`-joined text of a parameter list.
pub open spec fn params_text(ps: Seq<SpecParam>) -> Seq<char> {
    spec_join(ps.map_values(|p: SpecParam| spec_param_text(p)), "&"@)
}

/// A list of well-formed parameters, rendered and rescanned, comes back as
/// the same raw list.
#[verifier::rlimit(100)]
#[verifier::spinoff_prover]
proof fn lemma_params_render(ps: Seq<SpecParam>, r: Seq<char>)
    requires
        forall|i: int| 0 <= i < ps.len() ==> wf_param(#[trigger] ps[i]),
        r.len() > 0,
        r[0] == '\n',
    ensures
        spec_params_list(params_text(ps) + r, 0) == (ps, params_text(ps).len() as int),
    decreases ps.len(),
{
    reveal_strlit("=");
    reveal_strlit("&");
    let texts = ps.map_values(|p: SpecParam| spec_param_text(p));
    let s = params_text(ps) + r;
    if ps.len() == 0 {
        scan::lemma_run_stops(s, 0, 0, CharClass::Alpha);
        assert(spec_params_list(s, 0).0 =~= ps);
    } else {
        let p0 = ps[0];
        let t0 = spec_param_text(p0);
        let nl = p0.0.len() as int;
        let t0l = t0.len() as int;
        let tail: Seq<char> = if ps.len() == 1 {
            r
        } else {
            "&"@ + spec_join(ps.skip(1).map_values(|p: SpecParam| spec_param_text(p)), "&"@) + r
        };
        assert(s =~= t0 + tail) by {
            if ps.len() == 1 {
                assert(params_text(ps) == texts[0]);
            } else {
                assert(texts.skip(1) =~= ps.skip(1).map_values(|p: SpecParam| spec_param_text(p)));
                assert(params_text(ps) == texts[0] + "&"@ + spec_join(texts.skip(1), "&"@));
            }
        }
        assert(tail[0] == '\n' || tail[0] == '&');
        assert(s.subrange(0, nl) =~= p0.0);
        lemma_run_over_segment(s, 0, nl, p0.0, CharClass::Alpha);
        let v_stop: int = match p0.1 {
            Option::Some(v) => {
                assert(s[nl] == '=');
                assert(s.subrange(nl + 1, t0l) =~= v);
                lemma_run_over_segment(s, nl + 1, t0l, v, CharClass::Alpha);
                t0l
            },
            Option::None => {
                assert(s[nl] == tail[0]);
                scan::lemma_run_stops(s, nl, nl, CharClass::Alpha);
                nl
            },
        };
        assert(v_stop == t0l);
        if ps.len() == 1 {
            assert(s[t0l] == '\n');
            assert(spec_params_list(s, 0).0 =~= ps);
        } else {
            assert(s[t0l] == '&');
            let tail_join = spec_join(ps.skip(1).map_values(|p: SpecParam| spec_param_text(p)), "&"@);
            // the next parameter name begins right after the separator
            assert(ps.skip(1)[0].0.len() > 0 && scan::in_class(
                CharClass::Alpha,
                ps.skip(1)[0].0[0],
            ));
            assert(s[t0l + 1] == ps.skip(1)[0].0[0]) by {
                if ps.skip(1).len() == 1 {
                    assert(tail_join == spec_param_text(ps.skip(1)[0]));
                } else {
                    assert(tail_join == spec_param_text(ps.skip(1)[0]) + "&"@ + spec_join(
                        ps.skip(1).map_values(|p: SpecParam| spec_param_text(p)).skip(1),
                        "&"@,
                    ));
                }
                match ps.skip(1)[0].1 {
                    Option::Some(_) => {},
                    Option::None => {},
                }
            }
            scan::lemma_run_props(s, t0l + 1, CharClass::Alpha);
            assert(scan::spec_run(s, t0l + 1, CharClass::Alpha) > t0l + 1);
            lemma_params_shift(s, t0l + 1, 0);
            assert(s.skip(t0l + 1) =~= tail_join + r);
            lemma_params_render(ps.skip(1), r);
            assert(spec_params_list(s, 0).0 =~= ps);
            assert(spec_params_list(s, 0).1 == params_text(ps).len());
        }
    }
}

/// The validity of a URL: a non-empty alphabetic scheme, a non-empty domain
/// of domain characters, a valid optional path, and well-formed query
/// parameters with pairwise distinct keys.
pub open spec fn wf_url(u: SpecUrl) -> bool {
    &&& u.schema.len() > 0
    &&& forall|k: int| 0 <= k < u.schema.len() ==> scan::in_class(
        CharClass::Alpha,
        #[trigger] u.schema[k],
    )
    &&& u.domain.len() > 0
    &&& forall|k: int| 0 <= k < u.domain.len() ==> scan::in_class(
        CharClass::Domain,
        #[trigger] u.domain[k],
    )
    &&& match u.path {
        Option::Some(p) => wf_path(p),
        Option::None => true,
    }
    &&& forall|i: int| 0 <= i < u.params.len() ==> wf_param(#[trigger] u.params[i])
    &&& unique_keys(u.params)
}

/// The keys of the parameters are pairwise distinct.
pub open spec fn unique_keys(ps: Seq<SpecParam>) -> bool {
    forall|i: int, j: int|
        0 <= i < j < ps.len() ==> (#[trigger] ps[i]).0 != (#[trigger] ps[j]).0
}

/// The scheme separator text.
pub open spec fn scheme_separator() -> Seq<char> {
    "://"@
}

/// A named scheme separator keeps its literal text.
pub proof fn lemma_scheme_separator()
    ensures
        scheme_separator() == seq![':', '/', '/'],
{
    reveal_strlit("://");
    assert("://"@ =~= seq![':', '/', '/']);
}

/// The outcome of a successful URL reparse.
pub open spec fn url_reparsed(u: SpecUrl) -> ScanOutcome<SpecUrl> {
    ScanOutcome::Match { value: u, used: spec_render_url(u).len() as int }
}

/// A well-formed URL, rendered and reparsed, comes back unchanged.
#[verifier::rlimit(100)]
#[verifier::spinoff_prover]
pub proof fn lemma_url_round_trip(u: SpecUrl, r: Seq<char>)
    requires
        wf_url(u),
        r.len() > 0,
        r[0] == '\n',
    ensures
        spec_parse_url(spec_render_url(u) + r) == url_reparsed(u),
{
    reveal(spec_parse_url);
    reveal_strlit("?");
    let sep = scheme_separator();
    lemma_scheme_separator();
    let s = spec_render_url(u) + r;
    let rl = spec_render_url(u).len() as int;
    let se = u.schema.len() as int;
    let ds = se + 3;
    let pt = crate::types::url::spec_opt_path_text(u.path);
    let de = ds + u.domain.len();
    let pe = de + pt.len();
    let q_text: Seq<char> = if u.params.len() == 0 {
        Seq::empty()
    } else {
        "?"@ + params_text(u.params)
    };
    assert(spec_render_url(u) =~= u.schema + sep + u.domain + pt + q_text) by {
        assert(params_text(u.params) == spec_join(
            u.params.map_values(|p: SpecParam| spec_param_text(p)),
            "&"@,
        ));
    }
    // the scheme
    assert(s.subrange(0, se) =~= u.schema);
    assert(s[se] == ':');
    lemma_run_over_segment(s, 0, se, u.schema, CharClass::Alpha);
    // the scheme separator
    assert(s.skip(se).take(sep.len() as int) =~= sep);
    assert(scan::spec_match_lit(s.skip(se), sep));
    // the domain
    assert(s.subrange(ds, de) =~= u.domain);
    assert(!scan::in_class(CharClass::Domain, s[de])) by {
        match u.path {
            Option::Some(p) => {
                assert(s[de] == p[0]);
            },
            Option::None => {
                if u.params.len() == 0 {
                    assert(s[de] == r[0]);
                } else {
                    assert(s[de] == '?');
                }
            },
        }
    }
    lemma_run_over_segment(s, ds, de, u.domain, CharClass::Domain);
    // the path
    match u.path {
        Option::Some(p) => {
            assert(s[de] == p[0] && p[0] == '/');
            let tail: Seq<char> = if u.params.len() == 0 {
                r
            } else {
                "?"@ + params_text(u.params) + r
            };
            assert(s.skip(de) =~= p + tail);
            assert(tail[0] == '\n' || tail[0] == '?');
            lemma_path_at(s, de, p, tail);
            assert(s.subrange(de, pe) =~= p);
        },
        Option::None => {
            if u.params.len() == 0 {
                assert(s[de] == r[0]);
            } else {
                assert(s[de] == '?');
            }
            assert(s[de] != '/');
        },
    }
    // the query parameters
    if u.params.len() == 0 {
        assert(s[pe] == r[0]);
        assert(s[pe] != '?');
    } else {
        assert(s[pe] == '?');
        lemma_params_shift(s, pe + 1, 0);
        assert(s.skip(pe + 1) =~= params_text(u.params) + r);
        lemma_params_render(u.params, r);
        lemma_dedup_unique(u.params);
        assert(pe + 1 + params_text(u.params).len() == rl);
    }
    assert(spec_parse_url(s) == (ScanOutcome::Match { value: u, used: rl }));
    assert(url_reparsed(u) == (ScanOutcome::Match { value: u, used: rl }));
}

// ---------------------------------------------------------------------------
// Images
// ---------------------------------------------------------------------------

/// The validity of an image reference: a URL form is a well-formed URL whose
/// scheme is not the literal `data` (such a URL would read as an inline data
/// form), and a data form has a type without `;`, an encoding without `,`,
/// neither crossing a line, and a well-formed payload text.
pub open spec fn wf_image(img: SpecImage) -> bool {
    match img {
        SpecImage::Url(u) => wf_url(u) && u.schema != "data"@,
        SpecImage::Data { ty, encoding, data } => {
            &&& forall|k: int| 0 <= k < ty.len() ==> (#[trigger] ty[k]) != ';' && ty[k] != chr_nl()
            &&& forall|k: int|
                0 <= k < encoding.len() ==> (#[trigger] encoding[k]) != ',' && encoding[k]
                    != chr_nl()
            &&& scan::wf_text(data, false)
        },
    }
}

/// The line terminator character.
pub open spec fn chr_nl() -> char {
    '\n'
}

/// A well-formed image reference, rendered and reparsed, comes back
/// unchanged.
#[verifier::rlimit(100)]
#[verifier::spinoff_prover]
pub proof fn lemma_image_round_trip(img: SpecImage, r: Seq<char>)
    requires
        wf_image(img),
        r.len() > 0,
        r[0] == '\n',
    ensures
        spec_parse_image(spec_render_image(img) + r) == (ScanOutcome::Match {
            value: img,
            used: spec_render_image(img).len() as int,
        }),
{
    reveal(spec_parse_image);
    reveal_strlit("data:");
    reveal_strlit("data");
    reveal_strlit(";");
    reveal_strlit(",");
    let s = spec_render_image(img) + r;
    let rl = spec_render_image(img).len() as int;
    match img {
        SpecImage::Data { ty, encoding, data } => {
            let i0 = "data:"@.len() as int;
            let sc = i0 + ty.len();
            let cm = sc + 1 + encoding.len();
            assert(s.take(i0) =~= "data:"@);
            assert(scan::spec_match_lit(s, "data:"@));
            assert(s[sc] == ';' && s[cm] == ',');
            assert(forall|k: int| i0 <= k < sc ==> #[trigger] s[k] == ty[k - i0]);
            scan::lemma_find_at(s, i0, sc, StopSet::Lit(';'));
            match scan::spec_find(s, i0, StopSet::Lit('\n')) {
                Option::None => {},
                Option::Some(n) => {
                    scan::lemma_find_props(s, i0, StopSet::Lit('\n'));
                    if n <= sc {
                        assert(s[n] != '\n');
                    }
                },
            }
            assert(forall|k: int| sc + 1 <= k < cm ==> #[trigger] s[k] == encoding[k - (sc + 1)]);
            scan::lemma_find_at(s, sc + 1, cm, StopSet::Lit(','));
            match scan::spec_find(s, sc + 1, StopSet::Lit('\n')) {
                Option::None => {},
                Option::Some(n) => {
                    scan::lemma_find_props(s, sc + 1, StopSet::Lit('\n'));
                    if n <= cm {
                        assert(s[n] != '\n');
                    }
                },
            }
            assert(s.skip(cm + 1) =~= data + r);
            lemma_value_text_round_trip(data, r);
            assert(s.subrange(i0, sc) =~= ty);
            assert(s.subrange(sc + 1, cm) =~= encoding);
            assert(spec_parse_image(s) == (ScanOutcome::Match { value: img, used: rl }));
        },
        SpecImage::Url(u) => {
            let se = u.schema.len() as int;
            assert(s[se] == ':') by {
                lemma_scheme_separator();
            }
            assert(forall|k: int| 0 <= k < se ==> #[trigger] s[k] == u.schema[k]);
            assert(!scan::spec_match_lit(s, "data:"@)) by {
                if s.len() >= "data:"@.len() {
                    let t = s.take("data:"@.len() as int);
                    if se >= 5 {
                        assert(t[4] == u.schema[4]);
                        assert(scan::in_class(CharClass::Alpha, u.schema[4]));
                    } else if se == 4 {
                        if t == "data:"@ {
                            assert(u.schema =~= "data"@) by {
                                assert(forall|k: int|
                                    0 <= k < 4 ==> #[trigger] u.schema[k] == t[k]);
                            }
                        }
                    } else {
                        assert(t[se] == ':');
                        assert(scan::in_class(CharClass::Alpha, "data:"@[se]));
                    }
                }
            }
            lemma_url_round_trip(u, r);
            assert(spec_parse_image(s) == (ScanOutcome::Match { value: img, used: rl }));
        },
    }
}

// ---------------------------------------------------------------------------
// Plain texts
// ---------------------------------------------------------------------------

/// A text without backslashes and line terminators is well-formed scanned
/// text under either terminator set.
pub proof fn lemma_plain_text_wf(v: Seq<char>, stop_comma: bool)
    requires
        forall|k: int| 0 <= k < v.len() ==> (#[trigger] v[k]) != '\\' && v[k] != '\n',
        stop_comma ==> forall|k: int| 0 <= k < v.len() ==> (#[trigger] v[k]) != ',',
    ensures
        scan::wf_text(v, stop_comma),
{
    lemma_plain_scan(v + seq!['\n'], 0, v.len() as int, stop_comma);
}

proof fn lemma_plain_scan(s: Seq<char>, i: int, e: int, stop_comma: bool)
    requires
        0 <= i <= e < s.len(),
        forall|k: int|
            i <= k < e ==> (#[trigger] s[k]) != '\\' && s[k] != '\n' && (stop_comma ==> s[k]
                != ','),
        s[e] == '\n' || (stop_comma && s[e] == ','),
    ensures
        scan::spec_scan_escaped(s, i, false, stop_comma) == Some(e),
    decreases e - i,
{
    if i < e {
        lemma_plain_scan(s, i + 1, e, stop_comma);
    }
}

// ---------------------------------------------------------------------------
// Comma lists
// ---------------------------------------------------------------------------

/// The validity of comma-list items: every item is well-formed under the
/// comma-stopping scan (no unescaped comma or line terminator inside).
pub open spec fn wf_items(items: Seq<Seq<char>>) -> bool {
    forall|i: int| 0 <= i < items.len() ==> scan::wf_text(#[trigger] items[i], true)
}

/// Well-formed items, joined with commas and rescanned, come back as the same
/// segments.
pub proof fn lemma_comma_items_round_trip(items: Seq<Seq<char>>, r: Seq<char>)
    requires
        wf_items(items),
        items.len() >= 1,
        r.len() > 0,
        r[0] == '\n',
    ensures
        spec_comma_items(spec_join(items, ","@) + r) == (
            items,
            spec_join(items, ","@).len() as int,
        ),
    decreases items.len(),
{
    reveal_strlit(",");
    let s = spec_join(items, ","@) + r;
    let t0 = items[0];
    let l0 = t0.len() as int;
    if items.len() == 1 {
        assert(s =~= t0 + seq!['\n'] + r.skip(1));
        scan::lemma_wf_text_scan(t0, '\n', r.skip(1), true);
        assert(s[l0] == '\n');
        assert(s.take(l0) =~= t0);
        assert(spec_comma_items(s).0 =~= items);
    } else {
        let tail_join = spec_join(items.skip(1), ","@);
        assert(spec_join(items, ","@) == t0 + ","@ + tail_join);
        assert(s =~= t0 + seq![','] + (tail_join + r));
        scan::lemma_wf_text_scan(t0, ',', tail_join + r, true);
        assert(s[l0] == ',');
        assert(s.take(l0) =~= t0);
        assert(s.skip(l0 + 1) =~= tail_join + r);
        lemma_comma_items_round_trip(items.skip(1), r);
        assert(spec_comma_items(s).0 =~= items);
        assert(spec_comma_items(s).1 == spec_join(items, ","@).len());
    }
}

/// A well-formed one-or-many value, rendered as its comma-joined text and
/// reparsed, comes back unchanged.
pub proof fn lemma_multiplicity_round_trip(a: SpecAtLeastOne<Seq<char>>, r: Seq<char>)
    requires
        wf_items(a.items()),
        a.wf(),
        r.len() > 0,
        r[0] == '\n',
    ensures
        spec_multiple_value(crate::value::spec_alo_text(a) + r) == (ScanOutcome::Match {
            value: a,
            used: crate::value::spec_alo_text(a).len() as int,
        }),
{
    let items = a.items();
    assert(crate::value::spec_alo_text(a) =~= spec_join(items, ","@)) by {
        match a {
            SpecAtLeastOne::Single(x) => {
                assert(spec_join(seq![x], ","@) == seq![x][0]);
            },
            SpecAtLeastOne::Multiple(_) => {},
        }
    }
    lemma_comma_items_round_trip(items, r);
    assert(spec_multiplicity(items) == a);
}

// ---------------------------------------------------------------------------
// Parameters
// ---------------------------------------------------------------------------

/// The validity of one parameter: a non-empty name free of the name
/// delimiters that is neither reserved token, and a value, if any, free of
/// the value delimiters.
pub open spec fn wf_parameter(p: SpecParameter) -> bool {
    &&& p.name.len() > 0
    &&& forall|k: int| 0 <= k < p.name.len() ==> !scan::is_name_delim(#[trigger] p.name[k])
    &&& p.name != "BEGIN"@
    &&& p.name != "END"@
    &&& match p.value {
        Option::Some(v) => forall|k: int|
            0 <= k < v.len() ==> !scan::is_param_delim(#[trigger] v[k]),
        Option::None => true,
    }
}

/// A well-formed parameter standing at `i`, followed by `;` or `:`, scans to
/// exactly itself.
proof fn lemma_parameter_render(s: Seq<char>, i: int, p: SpecParameter, tail: Seq<char>)
    requires
        0 <= i <= s.len(),
        s.skip(i) == spec_parameter_text(p) + tail,
        wf_parameter(p),
        tail.len() > 0,
        scan::is_param_delim(tail[0]),
    ensures
        spec_parameter_at(s, i) == (ScanOutcome::Match {
            value: p,
            used: i + spec_parameter_text(p).len(),
        }),
{
    reveal_strlit("=");
    let ss = s.skip(i);
    let nl = p.name.len() as int;
    let tl = spec_parameter_text(p).len() as int;
    assert(forall|k: int| 0 <= k < nl ==> #[trigger] ss[k] == p.name[k]);
    scan::lemma_find_shift(s, i, 0, StopSet::NameDelim);
    match p.value {
        Option::Some(v) => {
            assert(ss[nl] == '=');
            scan::lemma_find_at(ss, 0, nl, StopSet::NameDelim);
            assert(s[i + nl] == ss[nl]);
            assert(forall|k: int| nl + 1 <= k < tl ==> #[trigger] ss[k] == v[k - (nl + 1)]);
            assert(ss[tl] == tail[0]);
            scan::lemma_find_at(ss, nl + 1, tl, StopSet::ParamDelim);
            scan::lemma_find_shift(s, i, nl + 1, StopSet::ParamDelim);
            assert(ss.subrange(0, nl) =~= p.name);
            assert(s.subrange(i, i + nl) =~= ss.subrange(0, nl));
            assert(ss.subrange(nl + 1, tl) =~= v);
            assert(s.subrange(i + nl + 1, i + tl) =~= ss.subrange(nl + 1, tl));
        },
        Option::None => {
            assert(ss[nl] == tail[0]);
            scan::lemma_find_at(ss, 0, nl, StopSet::NameDelim);
            assert(s[i + nl] == ss[nl]);
            assert(ss.subrange(0, nl) =~= p.name);
            assert(s.subrange(i, i + nl) =~= ss.subrange(0, nl));
        },
    }
}

/// The validity of a parameter list: every entry is a well-formed parameter.
pub open spec fn wf_parameters(ps: Seq<SpecParameter>) -> bool {
    forall|i: int| 0 <= i < ps.len() ==> wf_parameter(#[trigger] ps[i])
}

/// A rendered parameter list, rescanned from its leading separator, comes
/// back as the same parameters; the scan stops on the value delimiter.
pub proof fn lemma_parameters_round_trip(ps: Seq<SpecParameter>, r: Seq<char>)
    requires
        wf_parameters(ps),
        r.len() > 0,
        r[0] == ':',
    ensures
        spec_parameters(spec_render_params(ps) + r) == (ScanOutcome::Match {
            value: ps,
            used: spec_render_params(ps).len() as int,
        }),
    decreases ps.len(),
{
    reveal_strlit(";");
    reveal_strlit(":");
    let s = spec_render_params(ps) + r;
    if ps.len() == 0 {
        assert(s[0] == ':');
        scan::lemma_find_at(s, 0, 0, StopSet::NameDelim);
        assert(spec_param_seq(s, 0) == (ScanOutcome::Match {
            value: Seq::<SpecParameter>::empty(),
            used: 0int,
        }));
        assert(spec_parameters(s)->Match_value =~= ps);
    } else {
        lemma_render_params_shape(ps);
        assert(s[0] == ';');
        assert(s.skip(1) =~= tail_params_text(ps) + r);
        lemma_param_seq_render(s, 1, ps, r);
    }
}

/// A rendered parameter sequence standing at `i` (just after its leading
/// separator) scans to exactly its parameters.
proof fn lemma_param_seq_render(s: Seq<char>, i: int, ps: Seq<SpecParameter>, r: Seq<char>)
    requires
        0 <= i <= s.len(),
        ps.len() >= 1,
        wf_parameters(ps),
        s.skip(i) == tail_params_text(ps) + r,
        r.len() > 0,
        r[0] == ':',
    ensures
        spec_param_seq(s, i) == (ScanOutcome::Match {
            value: ps,
            used: i + tail_params_text(ps).len(),
        }),
    decreases ps.len(),
{
    reveal_strlit(";");
    reveal_strlit(":");
    let p0 = ps[0];
    let t0 = spec_parameter_text(p0);
    let l0 = t0.len() as int;
    if ps.len() == 1 {
        assert(tail_params_text(ps) =~= t0);
        assert(s.skip(i) =~= t0 + r);
        lemma_parameter_render(s, i, p0, r);
        assert(s.skip(i).len() == l0 + r.len());
        assert(s[i + l0] == s.skip(i)[l0]);
        assert(s[i + l0] == ':');
        assert(spec_param_seq(s, i)->Match_value =~= ps);
    } else {
        let rest_text = tail_params_text(ps.skip(1));
        assert(tail_params_text(ps) =~= t0 + ";"@ + rest_text);
        assert(s.skip(i) =~= t0 + (";"@ + rest_text + r));
        assert((";"@ + rest_text + r)[0] == ';');
        lemma_parameter_render(s, i, p0, ";"@ + rest_text + r);
        assert(s.skip(i).len() == l0 + 1 + rest_text.len() + r.len());
        assert(s[i + l0] == s.skip(i)[l0]);
        assert(s[i + l0] == ';');
        assert(s.skip(i).skip(l0 + 1) =~= rest_text + r);
        assert(s.skip(i + l0 + 1) =~= s.skip(i).skip(l0 + 1));
        lemma_param_seq_render(s, i + l0 + 1, ps.skip(1), r);
        // the element after the separator does parse, so the list goes on
        let p1 = ps.skip(1)[0];
        let t1 = spec_parameter_text(p1);
        let next_tail: Seq<char> = if ps.skip(1).len() == 1 {
            r
        } else {
            ";"@ + tail_params_text(ps.skip(1).skip(1)) + r
        };
        assert(rest_text + r =~= t1 + next_tail) by {
            if ps.skip(1).len() == 1 {
                assert(rest_text =~= t1);
            } else {
                assert(tail_params_text(ps.skip(1)) =~= t1 + ";"@ + tail_params_text(
                    ps.skip(1).skip(1),
                ));
            }
        }
        assert(scan::is_param_delim(next_tail[0]));
        lemma_parameter_render(s, i + l0 + 1, p1, next_tail);
        assert(spec_param_seq(s, i)->Match_value =~= ps);
    }
}

/// The text of a parameter sequence without its leading separator: the
/// parameters joined by `;`.
pub open spec fn tail_params_text(ps: Seq<SpecParameter>) -> Seq<char>
    decreases ps.len(),
{
    if ps.len() == 0 {
        Seq::empty()
    } else if ps.len() == 1 {
        spec_parameter_text(ps[0])
    } else {
        spec_parameter_text(ps[0]) + ";"@ + tail_params_text(ps.skip(1))
    }
}

/// The rendered parameter list is the leading separator plus the joined
/// texts.
pub proof fn lemma_render_params_shape(ps: Seq<SpecParameter>)
    requires
        ps.len() >= 1,
    ensures
        spec_render_params(ps) == ";"@ + tail_params_text(ps),
    decreases ps.len(),
{
    if ps.len() == 1 {
        assert(spec_render_params(ps.skip(1)) =~= Seq::<char>::empty());
        assert(spec_render_params(ps) =~= ";"@ + tail_params_text(ps));
    } else {
        lemma_render_params_shape(ps.skip(1));
        assert(spec_render_params(ps) =~= ";"@ + tail_params_text(ps));
    }
}

// ---------------------------------------------------------------------------
// Names
// ---------------------------------------------------------------------------

/// The validity of a property-name text: non-empty, free of the name
/// delimiters, and not a reserved frame token.
pub open spec fn wf_name_text(n: Seq<char>) -> bool {
    &&& n.len() > 0
    &&& forall|k: int| 0 <= k < n.len() ==> !scan::is_name_delim(#[trigger] n[k])
    &&& n != "BEGIN"@
    &&& n != "END"@
}

/// A well-formed name followed by a name delimiter scans back verbatim.
pub proof fn lemma_scan_name_render(n: Seq<char>, rest: Seq<char>)
    requires
        wf_name_text(n),
        rest.len() > 0,
        scan::is_name_delim(rest[0]),
    ensures
        spec_scan_name(n + rest) == (ScanOutcome::Match { value: n, used: n.len() as int }),
{
    let s = n + rest;
    assert(forall|k: int| 0 <= k < n.len() ==> #[trigger] s[k] == n[k]);
    assert(s[n.len() as int] == rest[0]);
    scan::lemma_find_at(s, 0, n.len() as int, StopSet::NameDelim);
    assert(s.take(n.len() as int) =~= n);
}

/// Upper-casing keeps the length.
pub broadcast proof fn lemma_upper_seq_len(s: Seq<char>)
    ensures
        (#[trigger] scan::upper_seq(s)).len() == s.len(),
{
}

/// Two names whose upper-cased forms differ at one index never match.
proof fn lemma_not_name_is(a: Seq<char>, b: Seq<char>, i: int)
    requires
        0 <= i < a.len(),
        i < b.len(),
        scan::upper_char(a[i]) != scan::upper_char(b[i]),
    ensures
        !name_is(a, b),
{
    if name_is(a, b) {
        assert(scan::upper_seq(a)[i] == scan::upper_char(a[i]));
        assert(scan::upper_seq(b)[i] == scan::upper_char(b[i]));
    }
}

/// The dispatch-table entry that renders and reparses each recognized value
/// kind; the frame markers and the catch-all have none.
pub open spec fn known_of(v: SpecValue) -> Option<KnownName> {
    match v {
        SpecValue::Begin => Option::None,
        SpecValue::End => Option::None,
        SpecValue::Source(_) => Option::Some(KnownName::Source),
        SpecValue::Kind(_) => Option::Some(KnownName::Kind),
        SpecValue::Xml(_) => Option::Some(KnownName::Xml),
        SpecValue::Fn(_) => Option::Some(KnownName::Fn),
        SpecValue::N(_) => Option::Some(KnownName::N),
        SpecValue::Nickname(_) => Option::Some(KnownName::Nickname),
        SpecValue::Photo(_) => Option::Some(KnownName::Photo),
        SpecValue::Birthday(_) => Option::Some(KnownName::Birthday),
        SpecValue::Anniversary(_) => Option::Some(KnownName::Anniversary),
        SpecValue::Gender(_) => Option::Some(KnownName::Gender),
        SpecValue::Adr(_) => Option::Some(KnownName::Adr),
        SpecValue::Tel(_) => Option::Some(KnownName::Tel),
        SpecValue::Email(_) => Option::Some(KnownName::Email),
        SpecValue::Impp(_) => Option::Some(KnownName::Impp),
        SpecValue::Lang(_) => Option::Some(KnownName::Lang),
        SpecValue::Timezone(_) => Option::Some(KnownName::Timezone),
        SpecValue::Geo(_) => Option::Some(KnownName::Geo),
        SpecValue::Title(_) => Option::Some(KnownName::Title),
        SpecValue::Role(_) => Option::Some(KnownName::Role),
        SpecValue::Logo(_) => Option::Some(KnownName::Logo),
        SpecValue::Organization(_) => Option::Some(KnownName::Org),
        SpecValue::Member(_) => Option::Some(KnownName::Member),
        SpecValue::Related(_) => Option::Some(KnownName::Related),
        SpecValue::Categories(_) => Option::Some(KnownName::Categories),
        SpecValue::Note(_) => Option::Some(KnownName::Note),
        SpecValue::ProdID(_) => Option::Some(KnownName::ProdID),
        SpecValue::Rev(_) => Option::Some(KnownName::Rev),
        SpecValue::Sound(_) => Option::Some(KnownName::Sound),
        SpecValue::Uid(_) => Option::Some(KnownName::Uid),
        SpecValue::ClientPIDMap(_) => Option::Some(KnownName::ClientPIDMap),
        SpecValue::Url(_) => Option::Some(KnownName::Url),
        SpecValue::Version(_) => Option::Some(KnownName::Version),
        SpecValue::Key(_) => Option::Some(KnownName::Key),
        SpecValue::FbUrl(_) => Option::Some(KnownName::FbUrl),
        SpecValue::CalAdrURL(_) => Option::Some(KnownName::CalAdrURL),
        SpecValue::CalURL(_) => Option::Some(KnownName::CalURL),
        SpecValue::Other(_, _) => Option::None,
    }
}

/// The canonical name of every recognized kind is a valid property name, and
/// the dispatch table recognizes it as that kind.
#[verifier::rlimit(100)]
#[verifier::spinoff_prover]
pub proof fn lemma_canonical_name(v: SpecValue)
    requires
        known_of(v) is Some,
    ensures
        wf_name_text(spec_name_raw(v)),
        spec_recognize(spec_name_raw(v)) == known_of(v),
{
    broadcast use lemma_upper_seq_len;

    reveal_strlit("SOURCE");
    reveal_strlit("KIND");
    reveal_strlit("XML");
    reveal_strlit("FN");
    reveal_strlit("N");
    reveal_strlit("NICKNAME");
    reveal_strlit("PHOTO");
    reveal_strlit("BDAY");
    reveal_strlit("ANNIVERSARY");
    reveal_strlit("GENDER");
    reveal_strlit("ADR");
    reveal_strlit("TEL");
    reveal_strlit("EMAIL");
    reveal_strlit("IMPP");
    reveal_strlit("LANG");
    reveal_strlit("TZ");
    reveal_strlit("GEO");
    reveal_strlit("TITLE");
    reveal_strlit("ROLE");
    reveal_strlit("LOGO");
    reveal_strlit("ORG");
    reveal_strlit("MEMBER");
    reveal_strlit("RELATED");
    reveal_strlit("CATEGORIES");
    reveal_strlit("NOTE");
    reveal_strlit("PRODID");
    reveal_strlit("REV");
    reveal_strlit("SOUND");
    reveal_strlit("UID");
    reveal_strlit("CLIENTPIDMAP");
    reveal_strlit("URL");
    reveal_strlit("VERSION");
    reveal_strlit("KEY");
    reveal_strlit("FBURL");
    reveal_strlit("CALADRURL");
    reveal_strlit("CALURL");
    reveal_strlit("BEGIN");
    reveal_strlit("END");
    let n = spec_name_raw(v);
    match v {
        SpecValue::Begin => {
            assert(false);
        },
        SpecValue::End => {
            assert(false);
        },
        SpecValue::Other(_, _) => {
            assert(false);
        },
        SpecValue::Source(_) => {
            assert(n.len() == 6);
            assert(n[0] == 'S');
            assert(forall|k: int| 0 <= k < n.len() ==> !scan::is_name_delim(#[trigger] n[k]));
        },
        SpecValue::Kind(_) => {
            assert(n.len() == 4);
            assert(n[0] == 'K');
            assert(forall|k: int| 0 <= k < n.len() ==> !scan::is_name_delim(#[trigger] n[k]));
        },
        SpecValue::Xml(_) => {
            assert(n.len() == 3);
            assert(n[0] == 'X');
            assert(forall|k: int| 0 <= k < n.len() ==> !scan::is_name_delim(#[trigger] n[k]));
        },
        SpecValue::Fn(_) => {
            assert(n.len() == 2);
            assert(n[0] == 'F');
            assert(forall|k: int| 0 <= k < n.len() ==> !scan::is_name_delim(#[trigger] n[k]));
        },
        SpecValue::N(_) => {
            assert(n.len() == 1);
            assert(n[0] == 'N');
            assert(forall|k: int| 0 <= k < n.len() ==> !scan::is_name_delim(#[trigger] n[k]));
        },
        SpecValue::Nickname(_) => {
            assert(n.len() == 8);
            assert(n[0] == 'N');
            assert(forall|k: int| 0 <= k < n.len() ==> !scan::is_name_delim(#[trigger] n[k]));
        },
        SpecValue::Photo(_) => {
            assert(n.len() == 5);
            assert(n[0] == 'P');
            assert(forall|k: int| 0 <= k < n.len() ==> !scan::is_name_delim(#[trigger] n[k]));
        },
        SpecValue::Birthday(_) => {
            assert(n.len() == 4);
            assert(n[0] == 'B');
            assert(forall|k: int| 0 <= k < n.len() ==> !scan::is_name_delim(#[trigger] n[k]));
            lemma_not_name_is("BDAY"@, "KIND"@, 0);
        },
        SpecValue::Anniversary(_) => {
            assert(n.len() == 11);
            assert(n[0] == 'A');
            assert(forall|k: int| 0 <= k < n.len() ==> !scan::is_name_delim(#[trigger] n[k]));
        },
        SpecValue::Gender(_) => {
            assert(n.len() == 6);
            assert(n[0] == 'G');
            assert(forall|k: int| 0 <= k < n.len() ==> !scan::is_name_delim(#[trigger] n[k]));
            lemma_not_name_is("GENDER"@, "SOURCE"@, 0);
        },
        SpecValue::Adr(_) => {
            assert(n.len() == 3);
            assert(n[0] == 'A');
            assert(forall|k: int| 0 <= k < n.len() ==> !scan::is_name_delim(#[trigger] n[k]));
            lemma_not_name_is("ADR"@, "XML"@, 0);
        },
        SpecValue::Tel(_) => {
            assert(n.len() == 3);
            assert(n[0] == 'T');
            assert(forall|k: int| 0 <= k < n.len() ==> !scan::is_name_delim(#[trigger] n[k]));
            lemma_not_name_is("TEL"@, "XML"@, 0);
            lemma_not_name_is("TEL"@, "ADR"@, 0);
        },
        SpecValue::Email(_) => {
            assert(n.len() == 5);
            assert(n[0] == 'E');
            assert(forall|k: int| 0 <= k < n.len() ==> !scan::is_name_delim(#[trigger] n[k]));
            lemma_not_name_is("EMAIL"@, "PHOTO"@, 0);
        },
        SpecValue::Impp(_) => {
            assert(n.len() == 4);
            assert(n[0] == 'I');
            assert(forall|k: int| 0 <= k < n.len() ==> !scan::is_name_delim(#[trigger] n[k]));
            lemma_not_name_is("IMPP"@, "KIND"@, 0);
            lemma_not_name_is("IMPP"@, "BDAY"@, 0);
        },
        SpecValue::Lang(_) => {
            assert(n.len() == 4);
            assert(n[0] == 'L');
            assert(forall|k: int| 0 <= k < n.len() ==> !scan::is_name_delim(#[trigger] n[k]));
            lemma_not_name_is("LANG"@, "KIND"@, 0);
            lemma_not_name_is("LANG"@, "BDAY"@, 0);
            lemma_not_name_is("LANG"@, "IMPP"@, 0);
        },
        SpecValue::Timezone(_) => {
            assert(n.len() == 2);
            assert(n[0] == 'T');
            assert(forall|k: int| 0 <= k < n.len() ==> !scan::is_name_delim(#[trigger] n[k]));
            lemma_not_name_is("TZ"@, "FN"@, 0);
        },
        SpecValue::Geo(_) => {
            assert(n.len() == 3);
            assert(n[0] == 'G');
            assert(forall|k: int| 0 <= k < n.len() ==> !scan::is_name_delim(#[trigger] n[k]));
            lemma_not_name_is("GEO"@, "XML"@, 0);
            lemma_not_name_is("GEO"@, "ADR"@, 0);
            lemma_not_name_is("GEO"@, "TEL"@, 0);
        },
        SpecValue::Title(_) => {
            assert(n.len() == 5);
            assert(n[0] == 'T');
            assert(forall|k: int| 0 <= k < n.len() ==> !scan::is_name_delim(#[trigger] n[k]));
            lemma_not_name_is("TITLE"@, "PHOTO"@, 0);
            lemma_not_name_is("TITLE"@, "EMAIL"@, 0);
        },
        SpecValue::Role(_) => {
            assert(n.len() == 4);
            assert(n[0] == 'R');
            assert(forall|k: int| 0 <= k < n.len() ==> !scan::is_name_delim(#[trigger] n[k]));
            lemma_not_name_is("ROLE"@, "KIND"@, 0);
            lemma_not_name_is("ROLE"@, "BDAY"@, 0);
            lemma_not_name_is("ROLE"@, "IMPP"@, 0);
            lemma_not_name_is("ROLE"@, "LANG"@, 0);
        },
        SpecValue::Logo(_) => {
            assert(n.len() == 4);
            assert(n[0] == 'L');
            assert(forall|k: int| 0 <= k < n.len() ==> !scan::is_name_delim(#[trigger] n[k]));
            lemma_not_name_is("LOGO"@, "KIND"@, 0);
            lemma_not_name_is("LOGO"@, "BDAY"@, 0);
            lemma_not_name_is("LOGO"@, "IMPP"@, 0);
            lemma_not_name_is("LOGO"@, "LANG"@, 1);
            lemma_not_name_is("LOGO"@, "ROLE"@, 0);
        },
        SpecValue::Organization(_) => {
            assert(n.len() == 3);
            assert(n[0] == 'O');
            assert(forall|k: int| 0 <= k < n.len() ==> !scan::is_name_delim(#[trigger] n[k]));
            lemma_not_name_is("ORG"@, "XML"@, 0);
            lemma_not_name_is("ORG"@, "ADR"@, 0);
            lemma_not_name_is("ORG"@, "TEL"@, 0);
            lemma_not_name_is("ORG"@, "GEO"@, 0);
        },
        SpecValue::Member(_) => {
            assert(n.len() == 6);
            assert(n[0] == 'M');
            assert(forall|k: int| 0 <= k < n.len() ==> !scan::is_name_delim(#[trigger] n[k]));
            lemma_not_name_is("MEMBER"@, "SOURCE"@, 0);
            lemma_not_name_is("MEMBER"@, "GENDER"@, 0);
        },
        SpecValue::Related(_) => {
            assert(n.len() == 7);
            assert(n[0] == 'R');
            assert(forall|k: int| 0 <= k < n.len() ==> !scan::is_name_delim(#[trigger] n[k]));
        },
        SpecValue::Categories(_) => {
            assert(n.len() == 10);
            assert(n[0] == 'C');
            assert(forall|k: int| 0 <= k < n.len() ==> !scan::is_name_delim(#[trigger] n[k]));
        },
        SpecValue::Note(_) => {
            assert(n.len() == 4);
            assert(n[0] == 'N');
            assert(forall|k: int| 0 <= k < n.len() ==> !scan::is_name_delim(#[trigger] n[k]));
            lemma_not_name_is("NOTE"@, "KIND"@, 0);
            lemma_not_name_is("NOTE"@, "BDAY"@, 0);
            lemma_not_name_is("NOTE"@, "IMPP"@, 0);
            lemma_not_name_is("NOTE"@, "LANG"@, 0);
            lemma_not_name_is("NOTE"@, "ROLE"@, 0);
            lemma_not_name_is("NOTE"@, "LOGO"@, 0);
        },
        SpecValue::ProdID(_) => {
            assert(n.len() == 6);
            assert(n[0] == 'P');
            assert(forall|k: int| 0 <= k < n.len() ==> !scan::is_name_delim(#[trigger] n[k]));
            lemma_not_name_is("PRODID"@, "SOURCE"@, 0);
            lemma_not_name_is("PRODID"@, "GENDER"@, 0);
            lemma_not_name_is("PRODID"@, "MEMBER"@, 0);
        },
        SpecValue::Rev(_) => {
            assert(n.len() == 3);
            assert(n[0] == 'R');
            assert(forall|k: int| 0 <= k < n.len() ==> !scan::is_name_delim(#[trigger] n[k]));
            lemma_not_name_is("REV"@, "XML"@, 0);
            lemma_not_name_is("REV"@, "ADR"@, 0);
            lemma_not_name_is("REV"@, "TEL"@, 0);
            lemma_not_name_is("REV"@, "GEO"@, 0);
            lemma_not_name_is("REV"@, "ORG"@, 0);
        },
        SpecValue::Sound(_) => {
            assert(n.len() == 5);
            assert(n[0] == 'S');
            assert(forall|k: int| 0 <= k < n.len() ==> !scan::is_name_delim(#[trigger] n[k]));
            lemma_not_name_is("SOUND"@, "PHOTO"@, 0);
            lemma_not_name_is("SOUND"@, "EMAIL"@, 0);
            lemma_not_name_is("SOUND"@, "TITLE"@, 0);
        },
        SpecValue::Uid(_) => {
            assert(n.len() == 3);
            assert(n[0] == 'U');
            assert(forall|k: int| 0 <= k < n.len() ==> !scan::is_name_delim(#[trigger] n[k]));
            lemma_not_name_is("UID"@, "XML"@, 0);
            lemma_not_name_is("UID"@, "ADR"@, 0);
            lemma_not_name_is("UID"@, "TEL"@, 0);
            lemma_not_name_is("UID"@, "GEO"@, 0);
            lemma_not_name_is("UID"@, "ORG"@, 0);
            lemma_not_name_is("UID"@, "REV"@, 0);
        },
        SpecValue::ClientPIDMap(_) => {
            assert(n.len() == 12);
            assert(n[0] == 'C');
            assert(forall|k: int| 0 <= k < n.len() ==> !scan::is_name_delim(#[trigger] n[k]));
        },
        SpecValue::Url(_) => {
            assert(n.len() == 3);
            assert(n[0] == 'U');
            assert(forall|k: int| 0 <= k < n.len() ==> !scan::is_name_delim(#[trigger] n[k]));
            lemma_not_name_is("URL"@, "XML"@, 0);
            lemma_not_name_is("URL"@, "ADR"@, 0);
            lemma_not_name_is("URL"@, "TEL"@, 0);
            lemma_not_name_is("URL"@, "GEO"@, 0);
            lemma_not_name_is("URL"@, "ORG"@, 0);
            lemma_not_name_is("URL"@, "REV"@, 0);
            lemma_not_name_is("URL"@, "UID"@, 1);
        },
        SpecValue::Version(_) => {
            assert(n.len() == 7);
            assert(n[0] == 'V');
            assert(forall|k: int| 0 <= k < n.len() ==> !scan::is_name_delim(#[trigger] n[k]));
            lemma_not_name_is("VERSION"@, "RELATED"@, 0);
        },
        SpecValue::Key(_) => {
            assert(n.len() == 3);
            assert(n[0] == 'K');
            assert(forall|k: int| 0 <= k < n.len() ==> !scan::is_name_delim(#[trigger] n[k]));
            lemma_not_name_is("KEY"@, "XML"@, 0);
            lemma_not_name_is("KEY"@, "ADR"@, 0);
            lemma_not_name_is("KEY"@, "TEL"@, 0);
            lemma_not_name_is("KEY"@, "GEO"@, 0);
            lemma_not_name_is("KEY"@, "ORG"@, 0);
            lemma_not_name_is("KEY"@, "REV"@, 0);
            lemma_not_name_is("KEY"@, "UID"@, 0);
            lemma_not_name_is("KEY"@, "URL"@, 0);
        },
        SpecValue::FbUrl(_) => {
            assert(n.len() == 5);
            assert(n[0] == 'F');
            assert(forall|k: int| 0 <= k < n.len() ==> !scan::is_name_delim(#[trigger] n[k]));
            lemma_not_name_is("FBURL"@, "PHOTO"@, 0);
            lemma_not_name_is("FBURL"@, "EMAIL"@, 0);
            lemma_not_name_is("FBURL"@, "TITLE"@, 0);
            lemma_not_name_is("FBURL"@, "SOUND"@, 0);
        },
        SpecValue::CalAdrURL(_) => {
            assert(n.len() == 9);
            assert(n[0] == 'C');
            assert(forall|k: int| 0 <= k < n.len() ==> !scan::is_name_delim(#[trigger] n[k]));
        },
        SpecValue::CalURL(_) => {
            assert(n.len() == 6);
            assert(n[0] == 'C');
            assert(forall|k: int| 0 <= k < n.len() ==> !scan::is_name_delim(#[trigger] n[k]));
            lemma_not_name_is("CALURL"@, "SOURCE"@, 0);
            lemma_not_name_is("CALURL"@, "GENDER"@, 0);
            lemma_not_name_is("CALURL"@, "MEMBER"@, 0);
            lemma_not_name_is("CALURL"@, "PRODID"@, 0);
        },
    }
}

// ---------------------------------------------------------------------------
// Values
// ---------------------------------------------------------------------------

/// The grammar reports a mismatch on this raw text however the line goes on.
pub open spec fn never_matches_url(s: Seq<char>) -> bool {
    forall|r: Seq<char>|
        r.len() > 0 && r[0] == '\n' ==> (#[trigger] spec_parse_url(s + r)) is NoMatch
}

/// The grammar reports a mismatch on this raw text however the line goes on.
pub open spec fn never_matches_kind(s: Seq<char>) -> bool {
    forall|r: Seq<char>|
        r.len() > 0 && r[0] == '\n' ==> (#[trigger] spec_parse_kind(s + r)) is NoMatch
}

/// The grammar reports a mismatch on this raw text however the line goes on.
pub open spec fn never_matches_fname(s: Seq<char>) -> bool {
    forall|r: Seq<char>|
        r.len() > 0 && r[0] == '\n' ==> (#[trigger] spec_parse_fname(s + r)) is NoMatch
}

/// The grammar reports a mismatch on this raw text however the line goes on.
pub open spec fn never_matches_image(s: Seq<char>) -> bool {
    forall|r: Seq<char>|
        r.len() > 0 && r[0] == '\n' ==> (#[trigger] spec_parse_image(s + r)) is NoMatch
}

/// The grammar reports a mismatch on this raw text however the line goes on.
pub open spec fn never_matches_gender(s: Seq<char>) -> bool {
    forall|r: Seq<char>|
        r.len() > 0 && r[0] == '\n' ==> (#[trigger] spec_parse_gender(s + r)) is NoMatch
}

/// The grammar reports a mismatch on this raw text however the line goes on.
pub open spec fn never_matches_address(s: Seq<char>) -> bool {
    forall|r: Seq<char>|
        r.len() > 0 && r[0] == '\n' ==> (#[trigger] spec_parse_address(s + r)) is NoMatch
}

/// The grammar reports a mismatch on this raw text however the line goes on.
pub open spec fn never_matches_email(s: Seq<char>) -> bool {
    forall|r: Seq<char>|
        r.len() > 0 && r[0] == '\n' ==> (#[trigger] spec_parse_email(s + r)) is NoMatch
}

/// The grammar reports a mismatch on this raw text however the line goes on.
pub open spec fn never_matches_geo(s: Seq<char>) -> bool {
    forall|r: Seq<char>|
        r.len() > 0 && r[0] == '\n' ==> (#[trigger] spec_parse_geo(s + r)) is NoMatch
}

/// The validity of a body property value: what every value parsed out of a
/// record satisfies by construction of its grammar. Frame markers never stand
/// in a record body.
pub open spec fn wf_value(v: SpecValue) -> bool {
    match v {
        SpecValue::Begin => false,
        SpecValue::End => false,
        SpecValue::Xml(s) => scan::wf_text(s, false),
        SpecValue::Fn(s) => scan::wf_text(s, false),
        SpecValue::Tel(s) => scan::wf_text(s, false),
        SpecValue::Impp(s) => scan::wf_text(s, false),
        SpecValue::Lang(s) => scan::wf_text(s, false),
        SpecValue::Timezone(s) => scan::wf_text(s, false),
        SpecValue::Title(s) => scan::wf_text(s, false),
        SpecValue::Role(s) => scan::wf_text(s, false),
        SpecValue::Organization(s) => scan::wf_text(s, false),
        SpecValue::Member(s) => scan::wf_text(s, false),
        SpecValue::Related(s) => scan::wf_text(s, false),
        SpecValue::Note(s) => scan::wf_text(s, false),
        SpecValue::ProdID(s) => scan::wf_text(s, false),
        SpecValue::Rev(s) => scan::wf_text(s, false),
        SpecValue::Sound(s) => scan::wf_text(s, false),
        SpecValue::Uid(s) => scan::wf_text(s, false),
        SpecValue::ClientPIDMap(s) => scan::wf_text(s, false),
        SpecValue::Version(s) => scan::wf_text(s, false),
        SpecValue::Key(s) => scan::wf_text(s, false),
        SpecValue::FbUrl(s) => scan::wf_text(s, false),
        SpecValue::CalAdrURL(s) => scan::wf_text(s, false),
        SpecValue::CalURL(s) => scan::wf_text(s, false),
        SpecValue::Source(t) => match t {
            SpecTypeOrRaw::Type(x) => wf_url(x),
            SpecTypeOrRaw::Raw(s) => scan::wf_text(s, false) && never_matches_url(s),
        },
        SpecValue::Kind(t) => match t {
            SpecTypeOrRaw::Type(x) => true,
            SpecTypeOrRaw::Raw(s) => scan::wf_text(s, false) && never_matches_kind(s),
        },
        SpecValue::N(t) => match t {
            SpecTypeOrRaw::Type(x) => wf_fname(x),
            SpecTypeOrRaw::Raw(s) => scan::wf_text(s, false) && never_matches_fname(s),
        },
        SpecValue::Photo(t) => match t {
            SpecTypeOrRaw::Type(x) => wf_image(x),
            SpecTypeOrRaw::Raw(s) => scan::wf_text(s, false) && never_matches_image(s),
        },
        SpecValue::Gender(t) => match t {
            SpecTypeOrRaw::Type(x) => wf_gender(x),
            SpecTypeOrRaw::Raw(s) => scan::wf_text(s, false) && never_matches_gender(s),
        },
        SpecValue::Adr(t) => match t {
            SpecTypeOrRaw::Type(x) => wf_address(x),
            SpecTypeOrRaw::Raw(s) => scan::wf_text(s, false) && never_matches_address(s),
        },
        SpecValue::Email(t) => match t {
            SpecTypeOrRaw::Type(x) => wf_email(x),
            SpecTypeOrRaw::Raw(s) => scan::wf_text(s, false) && never_matches_email(s),
        },
        SpecValue::Geo(t) => match t {
            SpecTypeOrRaw::Type(x) => wf_geo(x),
            SpecTypeOrRaw::Raw(s) => scan::wf_text(s, false) && never_matches_geo(s),
        },
        SpecValue::Logo(t) => match t {
            SpecTypeOrRaw::Type(x) => wf_image(x),
            SpecTypeOrRaw::Raw(s) => scan::wf_text(s, false) && never_matches_image(s),
        },
        SpecValue::Url(t) => match t {
            SpecTypeOrRaw::Type(x) => wf_url(x),
            SpecTypeOrRaw::Raw(s) => scan::wf_text(s, false) && never_matches_url(s),
        },
        SpecValue::Birthday(t) => match t {
            SpecTypeOrRaw::Type(_) => true,
            SpecTypeOrRaw::Raw(s) => scan::wf_text(s, false) && date_of(s) is None,
        },
        SpecValue::Anniversary(t) => match t {
            SpecTypeOrRaw::Type(_) => true,
            SpecTypeOrRaw::Raw(s) => scan::wf_text(s, false) && date_of(s) is None,
        },
        SpecValue::Nickname(a) => a.wf() && wf_items(a.items()),
        SpecValue::Categories(a) => a.wf() && wf_items(a.items()),
        SpecValue::Other(name, s) => wf_name_text(name) && spec_recognize(name) is None
            && scan::wf_text(s, false),
    }
}

/// The reparsed value against the original: equal, except that a typed
/// calendar date promises only its kind, because what the calendar library
/// accepts again is not modelled.
pub open spec fn value_matches(a: SpecValue, b: SpecValue) -> bool {
    match b {
        SpecValue::Birthday(t) => match t {
            SpecTypeOrRaw::Type(_) => a is Birthday,
            SpecTypeOrRaw::Raw(_) => a == b,
        },
        SpecValue::Anniversary(t) => match t {
            SpecTypeOrRaw::Type(_) => a is Anniversary,
            SpecTypeOrRaw::Raw(_) => a == b,
        },
        _ => a == b,
    }
}

/// A well-formed raw text inside a line scans back verbatim.
proof fn lemma_raw_value(s: Seq<char>, r: Seq<char>)
    requires
        scan::wf_text(s, false),
        r.len() > 0,
        r[0] == '\n',
    ensures
        scan::spec_scan_escaped(s + r, 0, false, false) == Some(s.len() as int),
        (s + r).take(s.len() as int) == s,
{
    assert(s + r =~= s + seq!['\n'] + r.skip(1));
    scan::lemma_wf_text_scan(s, '\n', r.skip(1), false);
    assert((s + r).take(s.len() as int) =~= s);
}

/// All characters of a decimal rendering are digits.
proof fn lemma_decimal_digits(n: int)
    ensures
        forall|k: int|
            0 <= k < spec_decimal(n).len() ==> scan::is_digit(#[trigger] spec_decimal(n)[k]),
    decreases n,
{
    if n < 10 {
        assert(scan::is_digit(digit_char(n)));
        assert forall|k: int| 0 <= k < spec_decimal(n).len() implies scan::is_digit(
            spec_decimal(n)[k],
        ) by {
            assert(spec_decimal(n)[k] == digit_char(n));
        }
    } else {
        lemma_decimal_digits(n / 10);
        assert forall|k: int| 0 <= k < spec_decimal(n).len() implies scan::is_digit(
            spec_decimal(n)[k],
        ) by {
            if k < spec_decimal(n / 10).len() {
                assert(spec_decimal(n)[k] == spec_decimal(n / 10)[k]);
            } else {
                assert(spec_decimal(n)[k] == digit_char(n % 10));
            }
        }
    }
}

/// The characters a text may hold so that the escape-aware scan passes it
/// through: no backslash, no line terminator.
pub open spec fn plain_chars(v: Seq<char>) -> bool {
    forall|k: int| 0 <= k < v.len() ==> (#[trigger] v[k]) != '\\' && v[k] != '\n'
}

proof fn lemma_plain_concat(a: Seq<char>, b: Seq<char>)
    requires
        plain_chars(a),
        plain_chars(b),
    ensures
        plain_chars(a + b),
{
    assert forall|k: int| 0 <= k < (a + b).len() implies ((#[trigger] (a + b)[k]) != '\\' && (a
        + b)[k] != '\n') by {
        if k < a.len() {
            assert((a + b)[k] == a[k]);
        } else {
            assert((a + b)[k] == b[k - a.len()]);
        }
    }
}

proof fn lemma_decimal_plain(n: int)
    ensures
        plain_chars(spec_decimal(n)),
{
    lemma_decimal_digits(n);
}

/// The compact date rendering holds only plain characters.
proof fn lemma_render_date_plain(d: Date)
    ensures
        plain_chars(spec_render_date(d)),
        scan::wf_text(spec_render_date(d), false),
{
    reveal_strlit("-");
    reveal_strlit("0");
    reveal_strlit("00");
    reveal_strlit("000");
    let y = d.year as int;
    lemma_decimal_plain(if y < 0 { -y } else { y });
    lemma_decimal_plain(d.month as int);
    lemma_decimal_plain(d.day as int);
    assert(plain_chars("-"@) && plain_chars("0"@) && plain_chars("00"@) && plain_chars("000"@));
    assert(plain_chars(crate::types::date::spec_pad4(if y < 0 { -y } else { y }))) by {
        lemma_plain_concat("000"@, spec_decimal(if y < 0 { -y } else { y }));
        lemma_plain_concat("00"@, spec_decimal(if y < 0 { -y } else { y }));
        lemma_plain_concat("0"@, spec_decimal(if y < 0 { -y } else { y }));
    }
    assert(plain_chars(spec_year_text(y))) by {
        if y < 0 {
            lemma_plain_concat("-"@, crate::types::date::spec_pad4(-y));
        }
    }
    assert(plain_chars(spec_pad2(d.month as int))) by {
        lemma_plain_concat("0"@, spec_decimal(d.month as int));
    }
    assert(plain_chars(spec_pad2(d.day as int))) by {
        lemma_plain_concat("0"@, spec_decimal(d.day as int));
    }
    lemma_plain_concat(spec_year_text(y), spec_pad2(d.month as int));
    lemma_plain_concat(spec_year_text(y) + spec_pad2(d.month as int), spec_pad2(d.day as int));
    lemma_plain_text_wf(spec_render_date(d), false);
}

/// A well-formed body value, rendered as its value text and reparsed through
/// its kind's grammar, comes back matching — equal but for a typed calendar
/// date, which keeps its kind.
#[verifier::rlimit(100)]
#[verifier::spinoff_prover]
pub proof fn lemma_value_round_trip(v: SpecValue, r: Seq<char>)
    requires
        wf_value(v),
        known_of(v) is Some,
        r.len() > 0,
        r[0] == '\n',
    ensures
        ({
            let text = crate::value::spec_value_text(v);
            let out = spec_known_value(known_of(v)->Some_0, text + r);
            &&& out matches ScanOutcome::Match { value: v2, used }
            &&& out->Match_used == text.len()
            &&& value_matches(out->Match_value, v)
        }),
{
    reveal(spec_known_value);
    match v {
        SpecValue::Xml(s) => {
            lemma_value_text_round_trip(s, r);
        },
        SpecValue::Fn(s) => {
            lemma_value_text_round_trip(s, r);
        },
        SpecValue::Tel(s) => {
            lemma_value_text_round_trip(s, r);
        },
        SpecValue::Impp(s) => {
            lemma_value_text_round_trip(s, r);
        },
        SpecValue::Lang(s) => {
            lemma_value_text_round_trip(s, r);
        },
        SpecValue::Timezone(s) => {
            lemma_value_text_round_trip(s, r);
        },
        SpecValue::Title(s) => {
            lemma_value_text_round_trip(s, r);
        },
        SpecValue::Role(s) => {
            lemma_value_text_round_trip(s, r);
        },
        SpecValue::Organization(s) => {
            lemma_value_text_round_trip(s, r);
        },
        SpecValue::Member(s) => {
            lemma_value_text_round_trip(s, r);
        },
        SpecValue::Related(s) => {
            lemma_value_text_round_trip(s, r);
        },
        SpecValue::Note(s) => {
            lemma_value_text_round_trip(s, r);
        },
        SpecValue::ProdID(s) => {
            lemma_value_text_round_trip(s, r);
        },
        SpecValue::Rev(s) => {
            lemma_value_text_round_trip(s, r);
        },
        SpecValue::Sound(s) => {
            lemma_value_text_round_trip(s, r);
        },
        SpecValue::Uid(s) => {
            lemma_value_text_round_trip(s, r);
        },
        SpecValue::ClientPIDMap(s) => {
            lemma_value_text_round_trip(s, r);
        },
        SpecValue::Version(s) => {
            lemma_value_text_round_trip(s, r);
        },
        SpecValue::Key(s) => {
            lemma_value_text_round_trip(s, r);
        },
        SpecValue::FbUrl(s) => {
            lemma_value_text_round_trip(s, r);
        },
        SpecValue::CalAdrURL(s) => {
            lemma_value_text_round_trip(s, r);
        },
        SpecValue::CalURL(s) => {
            lemma_value_text_round_trip(s, r);
        },
        SpecValue::Source(t) => match t {
            SpecTypeOrRaw::Type(x) => {
                lemma_url_round_trip(x, r);
            },
            SpecTypeOrRaw::Raw(s) => {
                assert(spec_parse_url(s + r) is NoMatch);
                lemma_raw_value(s, r);
            },
        },
        SpecValue::Kind(t) => match t {
            SpecTypeOrRaw::Type(x) => {
                lemma_kind_round_trip(x, r);
            },
            SpecTypeOrRaw::Raw(s) => {
                assert(spec_parse_kind(s + r) is NoMatch);
                lemma_raw_value(s, r);
            },
        },
        SpecValue::N(t) => match t {
            SpecTypeOrRaw::Type(x) => {
                lemma_fname_round_trip(x, r);
            },
            SpecTypeOrRaw::Raw(s) => {
                assert(spec_parse_fname(s + r) is NoMatch);
                lemma_raw_value(s, r);
            },
        },
        SpecValue::Photo(t) => match t {
            SpecTypeOrRaw::Type(x) => {
                lemma_image_round_trip(x, r);
            },
            SpecTypeOrRaw::Raw(s) => {
                assert(spec_parse_image(s + r) is NoMatch);
                lemma_raw_value(s, r);
            },
        },
        SpecValue::Gender(t) => match t {
            SpecTypeOrRaw::Type(x) => {
                lemma_gender_round_trip(x, r);
            },
            SpecTypeOrRaw::Raw(s) => {
                assert(spec_parse_gender(s + r) is NoMatch);
                lemma_raw_value(s, r);
            },
        },
        SpecValue::Adr(t) => match t {
            SpecTypeOrRaw::Type(x) => {
                lemma_address_round_trip(x, r);
            },
            SpecTypeOrRaw::Raw(s) => {
                assert(spec_parse_address(s + r) is NoMatch);
                lemma_raw_value(s, r);
            },
        },
        SpecValue::Email(t) => match t {
            SpecTypeOrRaw::Type(x) => {
                lemma_email_round_trip(x, r);
            },
            SpecTypeOrRaw::Raw(s) => {
                assert(spec_parse_email(s + r) is NoMatch);
                lemma_raw_value(s, r);
            },
        },
        SpecValue::Geo(t) => match t {
            SpecTypeOrRaw::Type(x) => {
                lemma_geo_round_trip(x, r);
            },
            SpecTypeOrRaw::Raw(s) => {
                assert(spec_parse_geo(s + r) is NoMatch);
                lemma_raw_value(s, r);
            },
        },
        SpecValue::Logo(t) => match t {
            SpecTypeOrRaw::Type(x) => {
                lemma_image_round_trip(x, r);
            },
            SpecTypeOrRaw::Raw(s) => {
                assert(spec_parse_image(s + r) is NoMatch);
                lemma_raw_value(s, r);
            },
        },
        SpecValue::Url(t) => match t {
            SpecTypeOrRaw::Type(x) => {
                lemma_url_round_trip(x, r);
            },
            SpecTypeOrRaw::Raw(s) => {
                assert(spec_parse_url(s + r) is NoMatch);
                lemma_raw_value(s, r);
            },
        },
        SpecValue::Birthday(t) => match t {
            SpecTypeOrRaw::Type(d) => {
                reveal(spec_parse_date);
                lemma_render_date_plain(d);
                lemma_raw_value(spec_render_date(d), r);
            },
            SpecTypeOrRaw::Raw(s) => {
                reveal(spec_parse_date);
                lemma_raw_value(s, r);
            },
        },
        SpecValue::Anniversary(t) => match t {
            SpecTypeOrRaw::Type(d) => {
                reveal(spec_parse_date);
                lemma_render_date_plain(d);
                lemma_raw_value(spec_render_date(d), r);
            },
            SpecTypeOrRaw::Raw(s) => {
                reveal(spec_parse_date);
                lemma_raw_value(s, r);
            },
        },
        SpecValue::Nickname(a) => {
            lemma_multiplicity_round_trip(a, r);
        },
        SpecValue::Categories(a) => {
            lemma_multiplicity_round_trip(a, r);
        },
        SpecValue::Begin => {
            assert(false);
        },
        SpecValue::End => {
            assert(false);
        },
        SpecValue::Other(_, _) => {
            assert(false);
        },
    }
}

// ---------------------------------------------------------------------------
// Properties
// ---------------------------------------------------------------------------

/// The validity of a body property: well-formed parameters and a well-formed
/// value (the frame markers are no body values).
pub open spec fn wf_property(p: SpecProperty) -> bool {
    wf_parameters(p.params) && wf_value(p.value)
}

/// The reparsed property against the original: the same parameters and a
/// matching value.
pub open spec fn property_matches(a: SpecProperty, b: SpecProperty) -> bool {
    a.params == b.params && value_matches(a.value, b.value)
}

/// A well-formed property line, rendered and reparsed, comes back matching,
/// consuming exactly its own text.
#[verifier::rlimit(100)]
#[verifier::spinoff_prover]
pub proof fn lemma_property_round_trip(p: SpecProperty, r: Seq<char>)
    requires
        wf_property(p),
        r.len() > 0,
        r[0] == '\n',
    ensures
        ({
            let text = spec_render_property(p);
            let out = spec_parse_property(text + r);
            &&& out is Match
            &&& out->Match_used == text.len()
            &&& property_matches(out->Match_value, p)
        }),
{
    reveal_strlit(":");
    let name = spec_name_raw(p.value);
    let ptext = spec_render_params(p.params);
    let vtext = crate::value::spec_value_text(p.value);
    let s = spec_render_property(p) + r;
    let nl = name.len() as int;
    let c = nl + ptext.len();
    if known_of(p.value) is Some {
        lemma_canonical_name(p.value);
    }
    let after_name = ptext + (":"@ + vtext + r);
    assert(s =~= name + after_name);
    assert(scan::is_name_delim(after_name[0])) by {
        if p.params.len() > 0 {
            lemma_render_params_shape(p.params);
            reveal_strlit(";");
            assert(after_name[0] == ';');
        } else {
            assert(ptext =~= Seq::<char>::empty());
            assert(after_name[0] == ':');
        }
    }
    lemma_scan_name_render(name, after_name);
    assert(spec_scan_name(s) == (ScanOutcome::Match { value: name, used: nl }));
    assert(s.skip(nl) =~= ptext + (":"@ + vtext + r));
    lemma_parameters_round_trip(p.params, ":"@ + vtext + r);
    assert(spec_parameters(s.skip(nl)) == (ScanOutcome::Match {
        value: p.params,
        used: ptext.len() as int,
    }));
    assert(s.skip(nl).len() == ptext.len() + 1 + vtext.len() + r.len());
    assert(s[c] == s.skip(nl)[ptext.len() as int]);
    assert(s[c] == ':');
    assert(s.skip(c + 1) =~= vtext + r);
    let e = c + 1 + vtext.len();
    assert(s[e] == s.skip(c + 1)[vtext.len() as int]);
    assert(s[e] == '\n');
    match known_of(p.value) {
        Option::Some(k) => {
            assert(spec_recognize(name) == Some(k));
            lemma_value_round_trip(p.value, r);
            let out_v = spec_known_value(k, vtext + r);
            assert(spec_known_value(k, s.skip(c + 1)) == out_v);
            assert(spec_parse_property(s) is Match);
            assert(spec_parse_property(s)->Match_used == spec_render_property(p).len());
            assert(property_matches(spec_parse_property(s)->Match_value, p));
        },
        Option::None => {
            match p.value {
                SpecValue::Other(name0, txt) => {
                    assert(name == name0 && vtext == txt);
                    assert(spec_recognize(name) is None);
                    lemma_value_text_round_trip(txt, r);
                    assert(spec_parse_property(s) is Match);
                    assert(spec_parse_property(s)->Match_used == spec_render_property(p).len());
                    assert(property_matches(spec_parse_property(s)->Match_value, p));
                },
                _ => {
                    assert(false);
                },
            }
        },
    }
}

// ---------------------------------------------------------------------------
// Records
// ---------------------------------------------------------------------------

/// The opening frame-marker property.
pub open spec fn begin_prop() -> SpecProperty {
    SpecProperty { params: seq![], value: SpecValue::Begin }
}

/// The closing frame-marker property.
pub open spec fn end_prop() -> SpecProperty {
    SpecProperty { params: seq![], value: SpecValue::End }
}

/// The record text written line by line: each property, then a line
/// terminator before the next.
pub open spec fn lines_text(ps: Seq<SpecProperty>) -> Seq<char>
    decreases ps.len(),
{
    if ps.len() == 0 {
        Seq::empty()
    } else if ps.len() == 1 {
        spec_render_property(ps[0])
    } else {
        spec_render_property(ps[0]) + "\n"@ + lines_text(ps.skip(1))
    }
}

/// The joined record rendering is the line-by-line text.
pub proof fn lemma_lines_text(ps: Seq<SpecProperty>)
    requires
        ps.len() >= 1,
    ensures
        lines_text(ps) == spec_render_vcard(ps),
    decreases ps.len(),
{
    let texts = ps.map_values(|q: SpecProperty| spec_render_property(q));
    if ps.len() == 1 {
        assert(spec_join(texts, "\n"@) == texts[0]);
    } else {
        lemma_lines_text(ps.skip(1));
        assert(texts.skip(1) =~= ps.skip(1).map_values(|q: SpecProperty| spec_render_property(q)));
        assert(spec_join(texts, "\n"@) == texts[0] + "\n"@ + spec_join(texts.skip(1), "\n"@));
        assert(lines_text(ps) =~= spec_render_vcard(ps));
    }
}

/// The opening frame line followed by a line terminator parses as the frame
/// marker, the terminator consumed.
proof fn lemma_begin_frame(rest: Seq<char>)
    ensures
        spec_parse_begin(spec_render_property(begin_prop()) + seq!['\n'] + rest)
            == (ScanOutcome::Match {
            value: begin_prop(),
            used: spec_render_property(begin_prop()).len() + 1int,
        }),
{
    reveal_strlit("BEGIN");
    reveal_strlit("VCARD");
    reveal_strlit(":");
    let s = spec_render_property(begin_prop()) + seq!['\n'] + rest;
    assert(spec_render_params(begin_prop().params) =~= Seq::<char>::empty());
    assert(s =~= "BEGIN"@ + ":"@ + "VCARD"@ + seq!['\n'] + rest);
    assert(s.take(5) =~= "BEGIN"@);
    assert(scan::spec_match_ic(s, "BEGIN"@));
    assert(s[5] == ':');
    assert(s.skip(6).take(5) =~= "VCARD"@);
    assert(scan::spec_match_ic(s.skip(6), "VCARD"@));
    assert(s[11] == '\n');
}

/// The closing frame line standing alone at the end of the text parses as the
/// frame marker.
proof fn lemma_end_frame()
    ensures
        spec_parse_end(spec_render_property(end_prop())) == (ScanOutcome::Match {
            value: end_prop(),
            used: spec_render_property(end_prop()).len() as int,
        }),
{
    reveal_strlit("END");
    reveal_strlit("VCARD");
    reveal_strlit(":");
    let s = spec_render_property(end_prop());
    assert(spec_render_params(end_prop().params) =~= Seq::<char>::empty());
    assert(s =~= "END"@ + ":"@ + "VCARD"@);
    assert(s.take(3) =~= "END"@);
    assert(scan::spec_match_ic(s, "END"@));
    assert(s[3] == ':');
    assert(s.skip(4).take(5) =~= "VCARD"@);
    assert(scan::spec_match_ic(s.skip(4), "VCARD"@));
}

/// The closing frame line stops the generic property scan with the reserved
/// token.
proof fn lemma_end_line_reserved(s: Seq<char>, i: int)
    requires
        0 <= i <= s.len(),
        s.skip(i) == spec_render_property(end_prop()),
    ensures
        spec_parse_property(s.skip(i)) is Reserved,
{
    reveal_strlit("END");
    reveal_strlit("VCARD");
    reveal_strlit(":");
    let ss = s.skip(i);
    assert(spec_render_params(end_prop().params) =~= Seq::<char>::empty());
    assert(ss =~= "END"@ + ":"@ + "VCARD"@);
    assert(forall|k: int| 0 <= k < 3 ==> !scan::is_name_delim(#[trigger] ss[k]));
    assert(ss[3] == ':');
    scan::lemma_find_at(ss, 0, 3, StopSet::NameDelim);
    assert(ss.take(3) =~= "END"@);
}

/// The body lines — the middle properties, each on its own line, then the
/// closing frame line — parse back as the matching middle properties, the
/// scan stopping at the frame line.
pub proof fn lemma_body_round_trip(rest: Seq<SpecProperty>, s: Seq<char>, i: int)
    requires
        0 <= i <= s.len(),
        rest.len() >= 1,
        rest[rest.len() - 1] == end_prop(),
        forall|j: int| 0 <= j < rest.len() - 1 ==> wf_property(#[trigger] rest[j]),
        s.skip(i) == lines_text(rest),
    ensures
        ({
            let (got, bend) = spec_parse_body(s, i);
            &&& got.len() == rest.len() - 1
            &&& forall|j: int|
                0 <= j < got.len() ==> property_matches(#[trigger] got[j], rest[j])
            &&& bend + spec_render_property(end_prop()).len() == i + lines_text(rest).len()
            &&& s.skip(bend) == spec_render_property(end_prop())
        }),
    decreases rest.len(),
{
    if rest.len() == 1 {
        lemma_end_line_reserved(s, i);
        assert(spec_parse_body(s, i).0 =~= Seq::<SpecProperty>::empty());
    } else {
        let p = rest[0];
        let ptext = spec_render_property(p);
        let plen = ptext.len() as int;
        let r = "\n"@ + lines_text(rest.skip(1));
        reveal_strlit("\n");
        assert(r[0] == '\n');
        assert(s.skip(i) =~= ptext + r);
        assert(lines_text(rest.skip(1)).len() >= 1) by {
            if rest.skip(1).len() == 1 {
                lemma_end_frame_len();
            } else {
                lemma_end_frame_len();
            }
            lemma_lines_len(rest.skip(1));
        }
        lemma_property_round_trip(p, r);
        assert(spec_parse_property(s.skip(i)) is Match);
        let j = i + plen;
        assert(s.skip(i).len() == plen + r.len());
        assert(s[j] == s.skip(i)[plen]);
        assert(s[j] == '\n');
        let j2 = j + 1;
        assert(s.skip(j2) =~= s.skip(i).skip(plen + 1));
        assert(s.skip(i).skip(plen + 1) =~= lines_text(rest.skip(1)));
        lemma_body_round_trip(rest.skip(1), s, j2);
        let (got_rest, bend) = spec_parse_body(s, j2);
        let (got, bend2) = spec_parse_body(s, i);
        assert(got =~= seq![spec_parse_property(s.skip(i))->Match_value] + got_rest);
        assert(forall|j: int| 0 <= j < got.len() ==> property_matches(#[trigger] got[j], rest[j]))
            by {
            assert(forall|j: int|
                1 <= j < got.len() ==> got[j] == got_rest[j - 1] && rest[j] == rest.skip(1)[j
                    - 1]);
        }
    }
}

/// Every line's text is non-empty.
proof fn lemma_lines_len(ps: Seq<SpecProperty>)
    requires
        ps.len() >= 1,
    ensures
        lines_text(ps).len() >= 1,
    decreases ps.len(),
{
    if ps.len() == 1 {
        lemma_line_len(ps[0]);
    } else {
        lemma_lines_len(ps.skip(1));
    }
}

/// A rendered property line is non-empty.
proof fn lemma_line_len(p: SpecProperty)
    ensures
        spec_render_property(p).len() >= 1,
{
    reveal_strlit(":");
}

/// The opening frame line has its literal length.
proof fn lemma_begin_frame_len()
    ensures
        spec_render_property(begin_prop()).len() == 11,
{
    reveal_strlit("BEGIN");
    reveal_strlit("VCARD");
    reveal_strlit(":");
    assert(spec_render_params(begin_prop().params) =~= Seq::<char>::empty());
    assert(spec_render_property(begin_prop()) =~= "BEGIN"@ + ":"@ + "VCARD"@);
}

/// The closing frame line has its literal length.
proof fn lemma_end_frame_len()
    ensures
        spec_render_property(end_prop()).len() == 9,
{
    reveal_strlit("END");
    reveal_strlit("VCARD");
    reveal_strlit(":");
    assert(spec_render_params(end_prop().params) =~= Seq::<char>::empty());
    assert(spec_render_property(end_prop()) =~= "END"@ + ":"@ + "VCARD"@);
}

/// The validity of a whole record: framed by the begin and end markers, with
/// well-formed body properties between them.
pub open spec fn wf_record(ps: Seq<SpecProperty>) -> bool {
    &&& ps.len() >= 2
    &&& ps[0] == begin_prop()
    &&& ps[ps.len() - 1] == end_prop()
    &&& forall|i: int| 1 <= i < ps.len() - 1 ==> wf_property(#[trigger] ps[i])
}

/// The reparsed record against the original: the same number of properties,
/// each matching in order.
pub open spec fn record_matches(a: Seq<SpecProperty>, b: Seq<SpecProperty>) -> bool {
    a.len() == b.len() && forall|i: int|
        0 <= i < a.len() ==> property_matches(#[trigger] a[i], b[i])
}

/// The structural round-trip law: rendering a well-formed record and parsing
/// the rendering again consumes the whole text and yields a record that
/// matches the original property for property — equal but for a typed
/// calendar date, which keeps its kind.
#[verifier::rlimit(100)]
#[verifier::spinoff_prover]
pub proof fn lemma_record_round_trip(ps: Seq<SpecProperty>)
    requires
        wf_record(ps),
    ensures
        ({
            let out = spec_parse_vcard(spec_render_vcard(ps));
            &&& out is Match
            &&& out->Match_used == spec_render_vcard(ps).len()
            &&& record_matches(out->Match_value, ps)
        }),
{
    reveal_strlit("\n");
    let s = spec_render_vcard(ps);
    lemma_lines_text(ps);
    let tail = ps.skip(1);
    assert(tail[tail.len() - 1] == end_prop());
    assert(lines_text(ps) =~= spec_render_property(begin_prop()) + "\n"@ + lines_text(tail));
    assert(s =~= spec_render_property(begin_prop()) + seq!['\n'] + lines_text(tail)) by {
        assert("\n"@ =~= seq!['\n']);
    }
    lemma_begin_frame(lines_text(tail));
    let u0: int = spec_render_property(begin_prop()).len() + 1int;
    assert(spec_parse_begin(s) == (ScanOutcome::Match { value: begin_prop(), used: u0 }));
    assert(s.skip(u0) =~= lines_text(tail));
    assert(forall|j: int| 0 <= j < tail.len() - 1 ==> wf_property(#[trigger] tail[j])) by {
        assert(forall|j: int| 0 <= j < tail.len() - 1 ==> tail[j] == ps[j + 1]);
    }
    lemma_begin_frame_len();
    lemma_lines_len(tail);
    lemma_end_frame_len();
    assert(s.len() == u0 + lines_text(tail).len());
    lemma_body_round_trip(tail, s, u0);
    let (got_mid, bend) = spec_parse_body(s, u0);
    assert(bend == s.len() - 9);
    assert(0 <= bend <= s.len());
    lemma_end_frame();
    assert(spec_parse_end(s.skip(bend)) == (ScanOutcome::Match {
        value: end_prop(),
        used: spec_render_property(end_prop()).len() as int,
    }));
    let out = spec_parse_vcard(s);
    assert(out is Match);
    let got = out->Match_value;
    assert(got =~= seq![begin_prop()] + got_mid + seq![end_prop()]);
    assert(got.len() == ps.len());
    assert(forall|i: int| 0 <= i < got.len() ==> property_matches(#[trigger] got[i], ps[i])) by {
        assert(property_matches(got[0], ps[0]));
        assert(property_matches(got[got.len() - 1], ps[ps.len() - 1]));
        assert(forall|i: int|
            1 <= i < got.len() - 1 ==> got[i] == got_mid[i - 1] && ps.skip(1)[i - 1] == ps[i]);
    }
}

} // verus!
