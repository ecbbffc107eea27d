use std::any::TypeId;
use std::sync::Arc;
use vstd::prelude::*;

verus! {

/// Makes `std::any::TypeId` usable in signatures and fields; its contents stay opaque.
#[verifier::external_type_specification]
#[verifier::external_body]
pub struct ExTypeId(TypeId);

/// Calls `TypeId::of::<T>()`. Nothing is claimed of the identifier it returns: it is a function
/// of the type argument alone, and no spec function of this crate can take a type argument.
#[verifier::external_body]
pub(crate) fn type_id_of<T: ?Sized + 'static>() -> TypeId {
    TypeId::of::<T>()
}

/// Whether two type identifiers are the same.
pub open spec fn same_type(a: TypeId, b: TypeId) -> bool {
    a == b
}

/// Calls `<TypeId as PartialEq>::eq`. Claims that two identifiers compare equal exactly when
/// they are the same value.
#[verifier::external_body]
pub(crate) fn type_ids_equal(a: &TypeId, b: &TypeId) -> (r: bool)
    ensures
        r == (*a == *b),
{
    *a == *b
}

/// Calls `Arc::clone`. Claims that the clone points at the same value.
#[verifier::external_body]
pub(crate) fn share_arc<T>(shared: &Arc<T>) -> (r: Arc<T>)
    ensures
        r == *shared,
{
    Arc::clone(shared)
}

/// Calls `Arc::strong_count`. Claims only that the count is at least 1 (the marker given is one
/// of the holders); beyond that it depends on how many clones of the marker other parts of the
/// program hold at the moment of the call.
#[verifier::external_body]
pub(crate) fn marker_holders(marker: &Arc<()>) -> (r: usize)
    ensures
        r >= 1,
{
    Arc::strong_count(marker)
}

} // verus!
