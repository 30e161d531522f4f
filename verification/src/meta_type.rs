use vstd::prelude::*;

use core::any::TypeId;

verus! {

/// `TypeId` of the standard library, carried through as an opaque value.
#[verifier::external_type_specification]
#[verifier::external_body]
pub struct ExTypeId(core::any::TypeId);

/// Calls `TypeId::of::<T>()`. Nothing is stated of the identifier it
/// gives back, beyond that it is a value of `TypeId`.
#[verifier::external_body]
fn type_id_of<T: ?Sized + 'static>() -> TypeId {
    TypeId::of::<T>()
}

/// Calls `PartialEq::eq` of `TypeId`, which compares the identifiers' own
/// data: the result is claimed to be `true` exactly when both are the same
/// value.
#[verifier::external_body]
pub(crate) fn type_id_eq(a: &TypeId, b: &TypeId) -> (r: bool)
    ensures
        r == (*a == *b),
{
    *a == *b
}

/// A Rust type, as the identifier by which a registry tells types apart.
#[derive(PartialEq, Eq, PartialOrd, Ord, Clone, Copy, Debug)]
pub struct MetaType {
    type_id: TypeId,
}

impl MetaType {
    /// The identifier of the type.
    pub closed spec fn id(&self) -> TypeId {
        self.type_id
    }

    /// Creates the meta type of `T`.
    pub fn new<T: ?Sized + 'static>() -> MetaType {
        MetaType { type_id: type_id_of::<T>() }
    }

    /// Creates the meta type with the given identifier.
    pub fn from_type_id(type_id: TypeId) -> (r: MetaType)
        ensures
            r.id() == type_id,
    {
        MetaType { type_id }
    }

    /// Returns the identifier of the type.
    pub fn type_id(&self) -> (r: TypeId)
        ensures
            r == self.id(),
    {
        self.type_id
    }
}

} // verus!
