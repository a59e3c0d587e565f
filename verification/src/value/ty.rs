//! A value that is either a parsed structured type or the verbatim raw text.

use vstd::prelude::*;

use crate::parse::PropertyValue;

verus! {

/// Specification-level counterpart of [`TypeOrRaw`].
#[verifier::ext_equal]
pub enum SpecTypeOrRaw<V> {
    Type(V),
    Raw(Seq<char>),
}

/// Either a structured value or the raw value text read from the record data.
///
/// `Raw` holds the exact verbatim value text precisely when the structured
/// grammar did not match; it is never produced when the structured parse
/// succeeded.
#[derive(Debug, PartialEq, Clone)]
pub enum TypeOrRaw<T: PropertyValue> {
    Type(T),
    Raw(String),
}

impl<T: PropertyValue + View> View for TypeOrRaw<T> {
    type V = SpecTypeOrRaw<T::V>;

    open spec fn view(&self) -> Self::V {
        match self {
            TypeOrRaw::Type(t) => SpecTypeOrRaw::Type(t@),
            TypeOrRaw::Raw(s) => SpecTypeOrRaw::Raw(s@),
        }
    }
}

impl<T: PropertyValue + View> TypeOrRaw<T> {
    /// Check whether this is the `Type` variant.
    pub fn is_type(&self) -> (r: bool)
        ensures
            r == (self@ is Type),
    {
        matches!(self, TypeOrRaw::Type(_))
    }

    /// Check whether this is the `Raw` variant.
    pub fn is_raw(&self) -> (r: bool)
        ensures
            r == (self@ is Raw),
    {
        matches!(self, TypeOrRaw::Raw(_))
    }
}

} // verus!
