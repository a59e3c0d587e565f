//! A value that is either one item or a list of at least two items.

use vstd::prelude::*;

use crate::parse::PropertyValue;

verus! {

/// Specification-level counterpart of [`AtLeastOne`].
#[verifier::ext_equal]
pub enum SpecAtLeastOne<V> {
    Single(V),
    Multiple(Seq<V>),
}

impl<V> SpecAtLeastOne<V> {
    /// The items held, as a sequence.
    pub open spec fn items(self) -> Seq<V> {
        match self {
            SpecAtLeastOne::Single(v) => seq![v],
            SpecAtLeastOne::Multiple(vs) => vs,
        }
    }

    /// A list is only ever used for two or more items.
    pub open spec fn wf(self) -> bool {
        match self {
            SpecAtLeastOne::Single(_) => true,
            SpecAtLeastOne::Multiple(vs) => vs.len() >= 2,
        }
    }
}

/// Wrap a non-empty segment list: exactly one segment stays a scalar, any
/// other count keeps the full ordered list.
pub open spec fn spec_multiplicity<V>(items: Seq<V>) -> SpecAtLeastOne<V> {
    if items.len() == 1 {
        SpecAtLeastOne::Single(items[0])
    } else {
        SpecAtLeastOne::Multiple(items)
    }
}

/// Multiplicity law: resolving one segment yields that segment as a scalar,
/// and a resolved list never has fewer than two items.
pub proof fn lemma_multiplicity_wf<V>(items: Seq<V>)
    requires
        items.len() >= 1,
    ensures
        spec_multiplicity(items).wf(),
        items.len() == 1 ==> spec_multiplicity(items) == SpecAtLeastOne::Single(items[0]),
        items.len() >= 2 ==> spec_multiplicity(items) == SpecAtLeastOne::Multiple(items),
        spec_multiplicity(items).items() =~= items,
{
}

/// A value built once from a comma-segmented source: either a single item or
/// an ordered list of at least two.
#[derive(Debug, PartialEq, Clone)]
pub enum AtLeastOne<T: PropertyValue> {
    Single(T),
    Multiple(Vec<T>),
}

impl<T: PropertyValue + View> View for AtLeastOne<T> {
    type V = SpecAtLeastOne<T::V>;

    open spec fn view(&self) -> Self::V {
        match self {
            AtLeastOne::Single(t) => SpecAtLeastOne::Single(t@),
            AtLeastOne::Multiple(ts) => SpecAtLeastOne::Multiple(
                ts@.map_values(|t: T| t@),
            ),
        }
    }
}

impl<T: PropertyValue + View> AtLeastOne<T> {
    /// The items held, in order, as a vector.
    pub fn into_iterator(self) -> (r: Vec<T>)
        ensures
            r@.map_values(|t: T| t@) =~= self@.items(),
    {
        match self {
            AtLeastOne::Single(item) => {
                let mut v: Vec<T> = Vec::new();
                v.push(item);
                v
            },
            AtLeastOne::Multiple(multi) => multi,
        }
    }
}

} // verus!
