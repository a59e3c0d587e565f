//! The structured sub-value types and their grammars.

pub mod geo;
pub use self::geo::{spec_parse_geo, spec_render_geo, GeoPosition, SpecGeoPosition};

pub mod name;
pub use self::name::{spec_parse_fname, spec_render_fname, FormattedName, SpecFormattedName};

pub mod address;
pub use self::address::{spec_parse_address, spec_render_address, Address, SpecAddress};

pub mod email;
pub use self::email::{spec_parse_email, spec_render_email, Email, SpecEmail};

pub mod url;
pub use self::url::{spec_parse_url, spec_render_url, SpecUrl, Url};

pub mod image;
pub use self::image::{spec_parse_image, spec_render_image, Image, SpecImage};

pub mod date;
pub use self::date::{date_of, spec_parse_date, spec_render_date, Date};

pub mod kind;
pub use self::kind::{spec_parse_kind, spec_render_kind, Kind};

pub mod gender;
pub use self::gender::{spec_parse_gender, spec_render_gender, Gender, Sex, SpecGender};
