//! A line-oriented contact-record (vCard) parser and renderer.
//!
//! A record is a sequence of properties framed by `BEGIN:VCARD` / `END:VCARD`
//! markers; each property carries an ordered parameter list and a value whose
//! shape depends on the recognized property name. Structured values degrade
//! gracefully to verbatim raw text when their grammar does not match, and a
//! parsed record can be rendered back to text.

pub mod scan;

pub mod parse;
pub use self::parse::{Parsable, Parse, ParseError, PropertyValue};

pub mod value;
pub use self::value::{at_least::AtLeastOne, ty::TypeOrRaw, Value};

pub mod types;

pub mod property;
pub use self::property::{Parameter, Parameters, Property};

pub mod vcard;
pub use self::vcard::VCard;

pub mod vcf;
pub use self::vcf::Vcf;

pub mod laws;
