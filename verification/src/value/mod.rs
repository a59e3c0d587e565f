//! The property value model: the typed-or-raw wrapper, the one-or-many
//! wrapper, and the closed union of recognized property kinds.

pub mod at_least;
pub mod ty;

use vstd::prelude::*;

use crate::parse::{join_strings, spec_join, views_of};
use crate::types::{
    Address, Date, Email, FormattedName, Gender, GeoPosition, Image, Kind, SpecAddress,
    SpecEmail, SpecFormattedName, SpecGender, SpecGeoPosition, SpecImage, SpecUrl, Url,
};
use crate::types::{
    spec_render_address, spec_render_date, spec_render_email, spec_render_fname,
    spec_render_gender, spec_render_geo, spec_render_image, spec_render_kind, spec_render_url,
};
use self::at_least::{AtLeastOne, SpecAtLeastOne};
use self::ty::{SpecTypeOrRaw, TypeOrRaw};

verus! {

/// Specification-level counterpart of [`Value`].
#[verifier::ext_equal]
pub enum SpecValue {
    Begin,
    End,
    Source(SpecTypeOrRaw<SpecUrl>),
    Kind(SpecTypeOrRaw<Kind>),
    Xml(Seq<char>),
    Fn(Seq<char>),
    N(SpecTypeOrRaw<SpecFormattedName>),
    Nickname(SpecAtLeastOne<Seq<char>>),
    Photo(SpecTypeOrRaw<SpecImage>),
    Birthday(SpecTypeOrRaw<Date>),
    Anniversary(SpecTypeOrRaw<Date>),
    Gender(SpecTypeOrRaw<SpecGender>),
    Adr(SpecTypeOrRaw<SpecAddress>),
    Tel(Seq<char>),
    Email(SpecTypeOrRaw<SpecEmail>),
    Impp(Seq<char>),
    Lang(Seq<char>),
    Timezone(Seq<char>),
    Geo(SpecTypeOrRaw<SpecGeoPosition>),
    Title(Seq<char>),
    Role(Seq<char>),
    Logo(SpecTypeOrRaw<SpecImage>),
    Organization(Seq<char>),
    Member(Seq<char>),
    Related(Seq<char>),
    Categories(SpecAtLeastOne<Seq<char>>),
    Note(Seq<char>),
    ProdID(Seq<char>),
    Rev(Seq<char>),
    Sound(Seq<char>),
    Uid(Seq<char>),
    ClientPIDMap(Seq<char>),
    Url(SpecTypeOrRaw<SpecUrl>),
    Version(Seq<char>),
    Key(Seq<char>),
    FbUrl(Seq<char>),
    CalAdrURL(Seq<char>),
    CalURL(Seq<char>),
    Other(Seq<char>, Seq<char>),
}

/// The closed union of recognized property kinds, plus a catch-all for
/// unrecognized names.
#[derive(Debug, PartialEq, Clone)]
pub enum Value {
    Begin,
    End,
    Source(TypeOrRaw<Url>),
    Kind(TypeOrRaw<Kind>),
    Xml(String),
    Fn(String),
    N(TypeOrRaw<FormattedName>),
    Nickname(AtLeastOne<String>),
    Photo(TypeOrRaw<Image>),
    Birthday(TypeOrRaw<Date>),
    Anniversary(TypeOrRaw<Date>),
    Gender(TypeOrRaw<Gender>),
    Adr(TypeOrRaw<Address>),
    Tel(String),
    Email(TypeOrRaw<Email>),
    Impp(String),
    Lang(String),
    Timezone(String),
    Geo(TypeOrRaw<GeoPosition>),
    Title(String),
    Role(String),
    Logo(TypeOrRaw<Image>),
    Organization(String),
    Member(String),
    Related(String),
    Categories(AtLeastOne<String>),
    Note(String),
    ProdID(String),
    Rev(String),
    Sound(String),
    Uid(String),
    ClientPIDMap(String),
    Url(TypeOrRaw<Url>),
    Version(String),
    Key(String),
    FbUrl(String),
    CalAdrURL(String),
    CalURL(String),
    Other(String, String),
}

impl View for Value {
    type V = SpecValue;

    open spec fn view(&self) -> SpecValue {
        match self {
            Value::Begin => SpecValue::Begin,
            Value::End => SpecValue::End,
            Value::Source(v) => SpecValue::Source(v@),
            Value::Kind(v) => SpecValue::Kind(v@),
            Value::Xml(v) => SpecValue::Xml(v@),
            Value::Fn(v) => SpecValue::Fn(v@),
            Value::N(v) => SpecValue::N(v@),
            Value::Nickname(v) => SpecValue::Nickname(v@),
            Value::Photo(v) => SpecValue::Photo(v@),
            Value::Birthday(v) => SpecValue::Birthday(v@),
            Value::Anniversary(v) => SpecValue::Anniversary(v@),
            Value::Gender(v) => SpecValue::Gender(v@),
            Value::Adr(v) => SpecValue::Adr(v@),
            Value::Tel(v) => SpecValue::Tel(v@),
            Value::Email(v) => SpecValue::Email(v@),
            Value::Impp(v) => SpecValue::Impp(v@),
            Value::Lang(v) => SpecValue::Lang(v@),
            Value::Timezone(v) => SpecValue::Timezone(v@),
            Value::Geo(v) => SpecValue::Geo(v@),
            Value::Title(v) => SpecValue::Title(v@),
            Value::Role(v) => SpecValue::Role(v@),
            Value::Logo(v) => SpecValue::Logo(v@),
            Value::Organization(v) => SpecValue::Organization(v@),
            Value::Member(v) => SpecValue::Member(v@),
            Value::Related(v) => SpecValue::Related(v@),
            Value::Categories(v) => SpecValue::Categories(v@),
            Value::Note(v) => SpecValue::Note(v@),
            Value::ProdID(v) => SpecValue::ProdID(v@),
            Value::Rev(v) => SpecValue::Rev(v@),
            Value::Sound(v) => SpecValue::Sound(v@),
            Value::Uid(v) => SpecValue::Uid(v@),
            Value::ClientPIDMap(v) => SpecValue::ClientPIDMap(v@),
            Value::Url(v) => SpecValue::Url(v@),
            Value::Version(v) => SpecValue::Version(v@),
            Value::Key(v) => SpecValue::Key(v@),
            Value::FbUrl(v) => SpecValue::FbUrl(v@),
            Value::CalAdrURL(v) => SpecValue::CalAdrURL(v@),
            Value::CalURL(v) => SpecValue::CalURL(v@),
            Value::Other(n, v) => SpecValue::Other(n@, v@),
        }
    }
}

/// The canonical upper-case wire token of each value kind. The catch-all
/// carries its stored original-case name.
pub open spec fn spec_name_raw(v: SpecValue) -> Seq<char> {
    match v {
        SpecValue::Begin => "BEGIN"@,
        SpecValue::End => "END"@,
        SpecValue::Source(_) => "SOURCE"@,
        SpecValue::Kind(_) => "KIND"@,
        SpecValue::Xml(_) => "XML"@,
        SpecValue::Fn(_) => "FN"@,
        SpecValue::N(_) => "N"@,
        SpecValue::Nickname(_) => "NICKNAME"@,
        SpecValue::Photo(_) => "PHOTO"@,
        SpecValue::Birthday(_) => "BDAY"@,
        SpecValue::Anniversary(_) => "ANNIVERSARY"@,
        SpecValue::Gender(_) => "GENDER"@,
        SpecValue::Adr(_) => "ADR"@,
        SpecValue::Tel(_) => "TEL"@,
        SpecValue::Email(_) => "EMAIL"@,
        SpecValue::Impp(_) => "IMPP"@,
        SpecValue::Lang(_) => "LANG"@,
        SpecValue::Timezone(_) => "TZ"@,
        SpecValue::Geo(_) => "GEO"@,
        SpecValue::Title(_) => "TITLE"@,
        SpecValue::Role(_) => "ROLE"@,
        SpecValue::Logo(_) => "LOGO"@,
        SpecValue::Organization(_) => "ORG"@,
        SpecValue::Member(_) => "MEMBER"@,
        SpecValue::Related(_) => "RELATED"@,
        SpecValue::Categories(_) => "CATEGORIES"@,
        SpecValue::Note(_) => "NOTE"@,
        SpecValue::ProdID(_) => "PRODID"@,
        SpecValue::Rev(_) => "REV"@,
        SpecValue::Sound(_) => "SOUND"@,
        SpecValue::Uid(_) => "UID"@,
        SpecValue::ClientPIDMap(_) => "CLIENTPIDMAP"@,
        SpecValue::Url(_) => "URL"@,
        SpecValue::Version(_) => "VERSION"@,
        SpecValue::Key(_) => "KEY"@,
        SpecValue::FbUrl(_) => "FBURL"@,
        SpecValue::CalAdrURL(_) => "CALADRURL"@,
        SpecValue::CalURL(_) => "CALURL"@,
        SpecValue::Other(n, _) => n,
    }
}

/// The human-readable label of each value kind.
pub open spec fn spec_name_label(v: SpecValue) -> Seq<char> {
    match v {
        SpecValue::Begin => "Begin"@,
        SpecValue::End => "End"@,
        SpecValue::Source(_) => "Source"@,
        SpecValue::Kind(_) => "Kind"@,
        SpecValue::Xml(_) => "Xml"@,
        SpecValue::Fn(_) => "Formatted Name"@,
        SpecValue::N(_) => "Name"@,
        SpecValue::Nickname(_) => "Nickname"@,
        SpecValue::Photo(_) => "Photo"@,
        SpecValue::Birthday(_) => "Birthday"@,
        SpecValue::Anniversary(_) => "Anniversary"@,
        SpecValue::Gender(_) => "Gender"@,
        SpecValue::Adr(_) => "Address"@,
        SpecValue::Tel(_) => "Phone"@,
        SpecValue::Email(_) => "Email"@,
        SpecValue::Impp(_) => "Impp"@,
        SpecValue::Lang(_) => "Language"@,
        SpecValue::Timezone(_) => "Timezone"@,
        SpecValue::Geo(_) => "Location"@,
        SpecValue::Title(_) => "Title"@,
        SpecValue::Role(_) => "Role"@,
        SpecValue::Logo(_) => "Logo"@,
        SpecValue::Organization(_) => "Organization"@,
        SpecValue::Member(_) => "Member"@,
        SpecValue::Related(_) => "Related"@,
        SpecValue::Categories(_) => "Categories"@,
        SpecValue::Note(_) => "Note"@,
        SpecValue::ProdID(_) => "Production Id"@,
        SpecValue::Rev(_) => "Revision"@,
        SpecValue::Sound(_) => "Sound"@,
        SpecValue::Uid(_) => "Uid"@,
        SpecValue::ClientPIDMap(_) => "Client PID Map"@,
        SpecValue::Url(_) => "Url"@,
        SpecValue::Version(_) => "Version"@,
        SpecValue::Key(_) => "Key"@,
        SpecValue::FbUrl(_) => "FBURL"@,
        SpecValue::CalAdrURL(_) => "Calendar Address URL"@,
        SpecValue::CalURL(_) => "Calendar URL"@,
        SpecValue::Other(n, _) => n,
    }
}

/// The text of a typed-or-raw payload, given the renderer of the typed form.
pub open spec fn spec_tr_text<V>(t: SpecTypeOrRaw<V>, f: spec_fn(V) -> Seq<char>) -> Seq<char> {
    match t {
        SpecTypeOrRaw::Type(x) => f(x),
        SpecTypeOrRaw::Raw(s) => s,
    }
}

/// The text of a one-or-many payload: the single item, or the items joined by
/// commas.
pub open spec fn spec_alo_text(a: SpecAtLeastOne<Seq<char>>) -> Seq<char> {
    match a {
        SpecAtLeastOne::Single(x) => x,
        SpecAtLeastOne::Multiple(xs) => spec_join(xs, ","@),
    }
}

/// The value text of each kind: the frame markers carry the literal frame
/// body, raw payloads their text, typed payloads their canonical rendering,
/// lists their comma-joined items.
pub open spec fn spec_value_text(v: SpecValue) -> Seq<char> {
    match v {
        SpecValue::Begin => "VCARD"@,
        SpecValue::End => "VCARD"@,
        SpecValue::Source(t) => spec_tr_text(t, |u: SpecUrl| spec_render_url(u)),
        SpecValue::Kind(t) => spec_tr_text(t, |k: Kind| spec_render_kind(k)),
        SpecValue::Xml(s) => s,
        SpecValue::Fn(s) => s,
        SpecValue::N(t) => spec_tr_text(t, |n: SpecFormattedName| spec_render_fname(n)),
        SpecValue::Nickname(a) => spec_alo_text(a),
        SpecValue::Photo(t) => spec_tr_text(t, |i: SpecImage| spec_render_image(i)),
        SpecValue::Birthday(t) => spec_tr_text(t, |d: Date| spec_render_date(d)),
        SpecValue::Anniversary(t) => spec_tr_text(t, |d: Date| spec_render_date(d)),
        SpecValue::Gender(t) => spec_tr_text(t, |g: SpecGender| spec_render_gender(g)),
        SpecValue::Adr(t) => spec_tr_text(t, |a: SpecAddress| spec_render_address(a)),
        SpecValue::Tel(s) => s,
        SpecValue::Email(t) => spec_tr_text(t, |e: SpecEmail| spec_render_email(e)),
        SpecValue::Impp(s) => s,
        SpecValue::Lang(s) => s,
        SpecValue::Timezone(s) => s,
        SpecValue::Geo(t) => spec_tr_text(t, |g: SpecGeoPosition| spec_render_geo(g)),
        SpecValue::Title(s) => s,
        SpecValue::Role(s) => s,
        SpecValue::Logo(t) => spec_tr_text(t, |i: SpecImage| spec_render_image(i)),
        SpecValue::Organization(s) => s,
        SpecValue::Member(s) => s,
        SpecValue::Related(s) => s,
        SpecValue::Categories(a) => spec_alo_text(a),
        SpecValue::Note(s) => s,
        SpecValue::ProdID(s) => s,
        SpecValue::Rev(s) => s,
        SpecValue::Sound(s) => s,
        SpecValue::Uid(s) => s,
        SpecValue::ClientPIDMap(s) => s,
        SpecValue::Url(t) => spec_tr_text(t, |u: SpecUrl| spec_render_url(u)),
        SpecValue::Version(s) => s,
        SpecValue::Key(s) => s,
        SpecValue::FbUrl(s) => s,
        SpecValue::CalAdrURL(s) => s,
        SpecValue::CalURL(s) => s,
        SpecValue::Other(_, s) => s,
    }
}

/// The text of a one-or-many payload of strings.
fn alo_text(a: &AtLeastOne<String>) -> (r: String)
    ensures
        r@ == spec_alo_text(a@),
{
    match a {
        AtLeastOne::Single(x) => x.clone(),
        AtLeastOne::Multiple(xs) => {
            let r = join_strings(xs, ",");
            proof {
                assert(views_of(xs@) == xs@.map_values(|t: String| t@));
            }
            r
        },
    }
}

impl Value {
    /// The canonical upper-case wire token of this value kind; the catch-all
    /// uses its stored original-case name.
    pub fn name_raw(&self) -> (r: &str)
        ensures
            r@ == spec_name_raw(self@),
    {
        match self {
            Value::Begin => "BEGIN",
            Value::End => "END",
            Value::Source(_) => "SOURCE",
            Value::Kind(_) => "KIND",
            Value::Xml(_) => "XML",
            Value::Fn(_) => "FN",
            Value::N(_) => "N",
            Value::Nickname(_) => "NICKNAME",
            Value::Photo(_) => "PHOTO",
            Value::Birthday(_) => "BDAY",
            Value::Anniversary(_) => "ANNIVERSARY",
            Value::Gender(_) => "GENDER",
            Value::Adr(_) => "ADR",
            Value::Tel(_) => "TEL",
            Value::Email(_) => "EMAIL",
            Value::Impp(_) => "IMPP",
            Value::Lang(_) => "LANG",
            Value::Timezone(_) => "TZ",
            Value::Geo(_) => "GEO",
            Value::Title(_) => "TITLE",
            Value::Role(_) => "ROLE",
            Value::Logo(_) => "LOGO",
            Value::Organization(_) => "ORG",
            Value::Member(_) => "MEMBER",
            Value::Related(_) => "RELATED",
            Value::Categories(_) => "CATEGORIES",
            Value::Note(_) => "NOTE",
            Value::ProdID(_) => "PRODID",
            Value::Rev(_) => "REV",
            Value::Sound(_) => "SOUND",
            Value::Uid(_) => "UID",
            Value::ClientPIDMap(_) => "CLIENTPIDMAP",
            Value::Url(_) => "URL",
            Value::Version(_) => "VERSION",
            Value::Key(_) => "KEY",
            Value::FbUrl(_) => "FBURL",
            Value::CalAdrURL(_) => "CALADRURL",
            Value::CalURL(_) => "CALURL",
            Value::Other(name, _) => name.as_str(),
        }
    }

    /// The human-readable label of this value kind.
    pub fn name_label(&self) -> (r: &str)
        ensures
            r@ == spec_name_label(self@),
    {
        match self {
            Value::Begin => "Begin",
            Value::End => "End",
            Value::Source(_) => "Source",
            Value::Kind(_) => "Kind",
            Value::Xml(_) => "Xml",
            Value::Fn(_) => "Formatted Name",
            Value::N(_) => "Name",
            Value::Nickname(_) => "Nickname",
            Value::Photo(_) => "Photo",
            Value::Birthday(_) => "Birthday",
            Value::Anniversary(_) => "Anniversary",
            Value::Gender(_) => "Gender",
            Value::Adr(_) => "Address",
            Value::Tel(_) => "Phone",
            Value::Email(_) => "Email",
            Value::Impp(_) => "Impp",
            Value::Lang(_) => "Language",
            Value::Timezone(_) => "Timezone",
            Value::Geo(_) => "Location",
            Value::Title(_) => "Title",
            Value::Role(_) => "Role",
            Value::Logo(_) => "Logo",
            Value::Organization(_) => "Organization",
            Value::Member(_) => "Member",
            Value::Related(_) => "Related",
            Value::Categories(_) => "Categories",
            Value::Note(_) => "Note",
            Value::ProdID(_) => "Production Id",
            Value::Rev(_) => "Revision",
            Value::Sound(_) => "Sound",
            Value::Uid(_) => "Uid",
            Value::ClientPIDMap(_) => "Client PID Map",
            Value::Url(_) => "Url",
            Value::Version(_) => "Version",
            Value::Key(_) => "Key",
            Value::FbUrl(_) => "FBURL",
            Value::CalAdrURL(_) => "Calendar Address URL",
            Value::CalURL(_) => "Calendar URL",
            Value::Other(name, _) => name.as_str(),
        }
    }

    /// Render the value text of this value.
    pub fn render_value_text(&self) -> (r: String)
        ensures
            r@ == spec_value_text(self@),
    {
        match self {
            Value::Begin => "VCARD".to_owned(),
            Value::End => "VCARD".to_owned(),
            Value::Source(t) => match t {
                TypeOrRaw::Type(u) => u.render(),
                TypeOrRaw::Raw(s) => s.clone(),
            },
            Value::Kind(t) => match t {
                TypeOrRaw::Type(k) => k.render(),
                TypeOrRaw::Raw(s) => s.clone(),
            },
            Value::Xml(s) => s.clone(),
            Value::Fn(s) => s.clone(),
            Value::N(t) => match t {
                TypeOrRaw::Type(n) => n.render(),
                TypeOrRaw::Raw(s) => s.clone(),
            },
            Value::Nickname(a) => alo_text(a),
            Value::Photo(t) => match t {
                TypeOrRaw::Type(i) => i.render(),
                TypeOrRaw::Raw(s) => s.clone(),
            },
            Value::Birthday(t) => match t {
                TypeOrRaw::Type(d) => d.render(),
                TypeOrRaw::Raw(s) => s.clone(),
            },
            Value::Anniversary(t) => match t {
                TypeOrRaw::Type(d) => d.render(),
                TypeOrRaw::Raw(s) => s.clone(),
            },
            Value::Gender(t) => match t {
                TypeOrRaw::Type(g) => g.render(),
                TypeOrRaw::Raw(s) => s.clone(),
            },
            Value::Adr(t) => match t {
                TypeOrRaw::Type(a) => a.render(),
                TypeOrRaw::Raw(s) => s.clone(),
            },
            Value::Tel(s) => s.clone(),
            Value::Email(t) => match t {
                TypeOrRaw::Type(e) => e.render(),
                TypeOrRaw::Raw(s) => s.clone(),
            },
            Value::Impp(s) => s.clone(),
            Value::Lang(s) => s.clone(),
            Value::Timezone(s) => s.clone(),
            Value::Geo(t) => match t {
                TypeOrRaw::Type(g) => g.render(),
                TypeOrRaw::Raw(s) => s.clone(),
            },
            Value::Title(s) => s.clone(),
            Value::Role(s) => s.clone(),
            Value::Logo(t) => match t {
                TypeOrRaw::Type(i) => i.render(),
                TypeOrRaw::Raw(s) => s.clone(),
            },
            Value::Organization(s) => s.clone(),
            Value::Member(s) => s.clone(),
            Value::Related(s) => s.clone(),
            Value::Categories(a) => alo_text(a),
            Value::Note(s) => s.clone(),
            Value::ProdID(s) => s.clone(),
            Value::Rev(s) => s.clone(),
            Value::Sound(s) => s.clone(),
            Value::Uid(s) => s.clone(),
            Value::ClientPIDMap(s) => s.clone(),
            Value::Url(t) => match t {
                TypeOrRaw::Type(u) => u.render(),
                TypeOrRaw::Raw(s) => s.clone(),
            },
            Value::Version(s) => s.clone(),
            Value::Key(s) => s.clone(),
            Value::FbUrl(s) => s.clone(),
            Value::CalAdrURL(s) => s.clone(),
            Value::CalURL(s) => s.clone(),
            Value::Other(_, s) => s.clone(),
        }
    }
}

} // verus!
