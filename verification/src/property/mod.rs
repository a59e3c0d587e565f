//! Properties: one parsed line of a record, with its parameters and value.

pub mod parameter;
pub use self::parameter::{
    parse_parameter, spec_parameter_at, spec_parameter_text, Parameter, SpecParameter,
};

pub mod parameters;
pub use self::parameters::{
    parameter_views, parse_parameters, spec_parameters, spec_render_params, Parameters,
};

pub mod parse;
pub use self::parse::{
    parse_begin, parse_end, parse_property, spec_parse_begin, spec_parse_end,
    spec_parse_property, spec_recognize, KnownName,
};

use vstd::prelude::*;

use crate::parse::{agrees_with, Parse, ParseError, ScanOutcome};
use crate::value::{spec_name_raw, spec_value_text, SpecValue, Value};

verus! {

/// Specification-level counterpart of [`Property`].
#[verifier::ext_equal]
pub struct SpecProperty {
    pub params: Seq<SpecParameter>,
    pub value: SpecValue,
}

/// One line's worth of parsed data: an ordered parameter list and a typed
/// value.
#[derive(Debug, PartialEq, Clone)]
pub struct Property {
    pub params: Parameters,
    pub value: Value,
}

impl View for Property {
    type V = SpecProperty;

    open spec fn view(&self) -> SpecProperty {
        SpecProperty { params: self.params@, value: self.value@ }
    }
}

impl Property {
    /// Build a property around a value, with no parameters.
    pub fn from(value: Value) -> (p: Property)
        ensures
            p@.value == value@,
            p@.params.len() == 0,
    {
        Property { value, params: Parameters(Vec::new()) }
    }
}

impl Parse for Property {
    open spec fn spec_parse(s: Seq<char>) -> ScanOutcome<SpecProperty> {
        spec_parse_property(s)
    }

    fn parse(input: &str, pos: usize) -> (r: Result<(Self, usize), ParseError>) {
        parse_property(input, pos)
    }
}

/// Rendered form of a property: the canonical name, the `;`-prefixed
/// parameters, `:`, and the value text.
pub open spec fn spec_render_property(p: SpecProperty) -> Seq<char> {
    spec_name_raw(p.value) + spec_render_params(p.params) + ":"@ + spec_value_text(p.value)
}

impl Property {
    /// Render this property as one line of record text, without a line
    /// terminator.
    pub fn render(&self) -> (r: String)
        ensures
            r@ == spec_render_property(self@),
    {
        let mut out = self.value.name_raw().to_owned();
        let ps = self.params.render();
        out.append(ps.as_str());
        out.append(":");
        let vt = self.value.render_value_text();
        out.append(vt.as_str());
        proof {
            assert(out@ =~= spec_render_property(self@));
        }
        out
    }
}

} // verus!
