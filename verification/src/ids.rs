//! Surrogate keys tagged with the entity kind they identify.

use vstd::prelude::*;

verus! {

/// Marker for the identifier space of stored documents.
pub struct Document;

/// Marker for the identifier space of importable dictionaries.
pub struct Dict;

/// A 64-bit surrogate key carrying a zero-size marker that distinguishes the
/// identifier spaces of the different entity kinds at compile time. An
/// `Id<Dict>` can never be passed where an `Id<Document>` is expected.
#[verifier::reject_recursive_types(Kind)]
pub struct Id<Kind> {
    id: u64,
    kind: core::marker::PhantomData<Kind>,
}

impl<Kind> View for Id<Kind> {
    type V = u64;

    closed spec fn view(&self) -> u64 {
        self.id
    }
}

impl<Kind> Id<Kind> {
    /// Wraps a raw key value.
    pub fn new(id: u64) -> (r: Self)
        ensures
            r@ == id,
    {
        Id { id, kind: core::marker::PhantomData }
    }

    /// Returns the raw key value.
    pub fn get(self) -> (r: u64)
        ensures
            r == self@,
    {
        self.id
    }
}

impl<Kind> PartialEq for Id<Kind> {
    /// Two ids are equal exactly when their raw values are equal.
    fn eq(&self, other: &Self) -> (r: bool)
    {
        self.id == other.id
    }
}

impl<Kind> Eq for Id<Kind> {}

impl<Kind> vstd::std_specs::cmp::PartialEqSpecImpl for Id<Kind> {
    open spec fn obeys_eq_spec() -> bool {
        true
    }

    open spec fn eq_spec(&self, other: &Self) -> bool {
        self@ == other@
    }
}

impl<Kind> PartialOrd for Id<Kind> {
    /// Ids are ordered by their raw values.
    fn partial_cmp(&self, other: &Self) -> (r: Option<core::cmp::Ordering>)
    {
        if self.id < other.id {
            Some(core::cmp::Ordering::Less)
        } else if self.id == other.id {
            Some(core::cmp::Ordering::Equal)
        } else {
            Some(core::cmp::Ordering::Greater)
        }
    }
}

impl<Kind> vstd::std_specs::cmp::PartialOrdSpecImpl for Id<Kind> {
    open spec fn obeys_partial_cmp_spec() -> bool {
        true
    }

    open spec fn partial_cmp_spec(&self, other: &Self) -> Option<core::cmp::Ordering> {
        if self@ < other@ {
            Some(core::cmp::Ordering::Less)
        } else if self@ == other@ {
            Some(core::cmp::Ordering::Equal)
        } else {
            Some(core::cmp::Ordering::Greater)
        }
    }
}

} // verus!
