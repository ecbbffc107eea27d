//! Generational handles to assets: weak and strong, typed and type-erased.
use std::any::TypeId;
use std::cmp::Ordering;
use std::hash::{Hash, Hasher};
use std::marker::PhantomData;
use std::sync::Arc;
use vstd::prelude::*;
use crate::typeid::{same_type, share_arc, type_id_of, type_ids_equal};

verus! {

/// Specifies `<u32 as Hash>::hash`, which feeds the value to the hasher. Nothing is claimed of the
/// hasher's state afterwards.
pub assume_specification<H: Hasher>[ <u32 as Hash>::hash::<H> ](data: &u32, state: &mut H);

/// Orders two (index, generation) pairs by index, then by generation.
pub open spec fn slot_order(a: (u32, u32), b: (u32, u32)) -> Ordering {
    if a.0 < b.0 {
        Ordering::Less
    } else if a.0 > b.0 {
        Ordering::Greater
    } else if a.1 < b.1 {
        Ordering::Less
    } else if a.1 > b.1 {
        Ordering::Greater
    } else {
        Ordering::Equal
    }
}

/// Handles compare equal exactly when they name the same slot and generation, swapping the
/// operands reverses the order, and the order is transitive.
pub proof fn lemma_slot_order(a: (u32, u32), b: (u32, u32), c: (u32, u32))
    ensures
        (slot_order(a, b) == Ordering::Equal) == (a == b),
        slot_order(a, b) == Ordering::Less <==> slot_order(b, a) == Ordering::Greater,
        slot_order(a, b) == Ordering::Less && slot_order(b, c) == Ordering::Less ==> slot_order(a, c)
            == Ordering::Less,
{
}

fn order_slots(a: (u32, u32), b: (u32, u32)) -> (r: Ordering)
    ensures
        r == slot_order(a, b),
{
    if a.0 < b.0 {
        Ordering::Less
    } else if a.0 > b.0 {
        Ordering::Greater
    } else if a.1 < b.1 {
        Ordering::Less
    } else if a.1 > b.1 {
        Ordering::Greater
    } else {
        Ordering::Equal
    }
}

/// A type stored in an asset storage.
pub trait Asset: Send + Sync + 'static {}

/// A type-erased, non-owning handle: slot index, slot generation and the asset type's identity.
#[derive(Copy, Clone, Debug, Hash)]
pub struct WeakGenericHandle {
    pub index: u32,
    pub generation: u32,
    pub type_id: TypeId,
}

impl PartialEq for WeakGenericHandle {
    fn eq(&self, other: &Self) -> (r: bool) {
        self.index == other.index && self.generation == other.generation
            && type_ids_equal(&self.type_id, &other.type_id)
    }
}

impl vstd::std_specs::cmp::PartialEqSpecImpl for WeakGenericHandle {
    open spec fn obeys_eq_spec() -> bool {
        true
    }

    open spec fn eq_spec(&self, other: &Self) -> bool {
        *self == *other
    }
}

impl Eq for WeakGenericHandle {}

impl WeakGenericHandle {
    /// Turns this handle into a typed weak handle when its type identity is `expected`.
    pub fn checked_handle<A: Asset>(self, expected: TypeId) -> (r: Result<WeakHandle<A>, ()>)
        ensures
            r is Ok <==> self.type_id == expected,
            r matches Ok(h) ==> h@ == (self.index, self.generation),
    {
        if type_ids_equal(&expected, &self.type_id) {
            Ok(WeakHandle::new(self.index, self.generation))
        } else {
            Err(())
        }
    }

    /// Converts into a typed weak handle; fails when the stored type identity is not that of `A`.
    pub fn try_into_handle<A: Asset>(self) -> (r: Result<WeakHandle<A>, ()>)
        ensures
            r matches Ok(h) ==> h@ == (self.index, self.generation),
            exists|expected: TypeId| (r is Ok <==> #[trigger] same_type(self.type_id, expected)),
    {
        let expected = type_id_of::<A>();
        let r = self.checked_handle(expected);
        assert(r is Ok <==> same_type(self.type_id, expected));
        r
    }
}

/// A typed, non-owning handle. It does not keep the asset alive.
#[derive(Debug)]
pub struct WeakHandle<A: Asset> {
    index: u32,
    generation: u32,
    _phantom: PhantomData<A>,
}

impl<A: Asset> View for WeakHandle<A> {
    type V = (u32, u32);

    closed spec fn view(&self) -> (u32, u32) {
        (self.index, self.generation)
    }
}

impl<A: Asset> Clone for WeakHandle<A> {
    fn clone(&self) -> (r: Self)
        ensures
            r@ == self@,
    {
        WeakHandle { index: self.index, generation: self.generation, _phantom: PhantomData }
    }
}

impl<A: Asset> Copy for WeakHandle<A> {}

impl<A: Asset> WeakHandle<A> {
    pub(crate) fn new(index: u32, generation: u32) -> (r: Self)
        ensures
            r@ == (index, generation),
    {
        WeakHandle { index, generation, _phantom: PhantomData }
    }

    pub(crate) fn index(&self) -> (r: u32)
        ensures
            r == self@.0,
    {
        self.index
    }

    pub(crate) fn generation(&self) -> (r: u32)
        ensures
            r == self@.1,
    {
        self.generation
    }
}

impl<A: Asset> WeakHandle<A> {
    /// Type-erases this handle, recording the identity of `A`.
    pub fn into_generic(self) -> (r: WeakGenericHandle)
        ensures
            (r.index, r.generation) == self@,
    {
        WeakGenericHandle { index: self.index, generation: self.generation, type_id: type_id_of::<A>() }
    }
}

impl<A: Asset> PartialEq for WeakHandle<A> {
    fn eq(&self, other: &Self) -> (r: bool) {
        self.index == other.index && self.generation == other.generation
    }
}

impl<A: Asset> vstd::std_specs::cmp::PartialEqSpecImpl for WeakHandle<A> {
    open spec fn obeys_eq_spec() -> bool {
        true
    }

    open spec fn eq_spec(&self, other: &Self) -> bool {
        self@ == other@
    }
}

impl<A: Asset> Eq for WeakHandle<A> {}

impl<A: Asset> Hash for WeakHandle<A> {
    /// Hashes the slot index and generation.
    fn hash<H: Hasher>(&self, state: &mut H) {
        self.index.hash(state);
        self.generation.hash(state);
    }
}

impl<A: Asset> PartialOrd for WeakHandle<A> {
    fn partial_cmp(&self, other: &Self) -> (r: Option<Ordering>) {
        Some(order_slots((self.index, self.generation), (other.index, other.generation)))
    }
}

impl<A: Asset> vstd::std_specs::cmp::PartialOrdSpecImpl for WeakHandle<A> {
    open spec fn obeys_partial_cmp_spec() -> bool {
        true
    }

    open spec fn partial_cmp_spec(&self, other: &Self) -> Option<Ordering> {
        Some(slot_order(self@, other@))
    }
}

/// A typed, owning handle. Every clone shares one reference-count marker with the slot it was
/// issued from; while any clone lives, the asset is not off-loaded.
#[derive(Debug)]
pub struct Handle<A: Asset> {
    index: u32,
    generation: u32,
    marker: Arc<()>,
    _phantom: PhantomData<A>,
}

impl<A: Asset> View for Handle<A> {
    type V = (u32, u32);

    closed spec fn view(&self) -> (u32, u32) {
        (self.index, self.generation)
    }
}

impl<A: Asset> Handle<A> {
    pub(crate) fn new(index: u32, generation: u32, marker: Arc<()>) -> (r: Self)
        ensures
            r@ == (index, generation),
    {
        Handle { index, generation, marker, _phantom: PhantomData }
    }

    /// A weak handle to the same slot and generation. It does not keep the asset alive.
    pub fn weak(&self) -> (r: WeakHandle<A>)
        ensures
            r@ == self@,
    {
        WeakHandle::new(self.index, self.generation)
    }

    /// Type-erases this handle, keeping it owning.
    pub fn into_generic(self) -> (r: GenericHandle)
        ensures
            (r@.index, r@.generation) == self@,
    {
        GenericHandle {
            index: self.index,
            generation: self.generation,
            type_id: type_id_of::<A>(),
            marker: self.marker,
        }
    }
}

impl<A: Asset> Clone for Handle<A> {
    fn clone(&self) -> (r: Self)
        ensures
            r@ == self@,
    {
        Handle {
            index: self.index,
            generation: self.generation,
            marker: share_arc(&self.marker),
            _phantom: PhantomData,
        }
    }
}

impl<A: Asset> PartialEq for Handle<A> {
    fn eq(&self, other: &Self) -> (r: bool) {
        self.index == other.index && self.generation == other.generation
    }
}

impl<A: Asset> vstd::std_specs::cmp::PartialEqSpecImpl for Handle<A> {
    open spec fn obeys_eq_spec() -> bool {
        true
    }

    open spec fn eq_spec(&self, other: &Self) -> bool {
        self@ == other@
    }
}

impl<A: Asset> Eq for Handle<A> {}

impl<A: Asset> Hash for Handle<A> {
    /// Hashes the slot index and generation.
    fn hash<H: Hasher>(&self, state: &mut H) {
        self.index.hash(state);
        self.generation.hash(state);
    }
}

impl<A: Asset> PartialOrd for Handle<A> {
    fn partial_cmp(&self, other: &Self) -> (r: Option<Ordering>) {
        Some(order_slots((self.index, self.generation), (other.index, other.generation)))
    }
}

impl<A: Asset> vstd::std_specs::cmp::PartialOrdSpecImpl for Handle<A> {
    open spec fn obeys_partial_cmp_spec() -> bool {
        true
    }

    open spec fn partial_cmp_spec(&self, other: &Self) -> Option<Ordering> {
        Some(slot_order(self@, other@))
    }
}

/// A type-erased, owning handle: the owning counterpart of [`WeakGenericHandle`].
#[derive(Debug, Hash)]
pub struct GenericHandle {
    pub index: u32,
    pub generation: u32,
    pub type_id: TypeId,
    marker: Arc<()>,
}

impl View for GenericHandle {
    type V = WeakGenericHandle;

    closed spec fn view(&self) -> WeakGenericHandle {
        WeakGenericHandle { index: self.index, generation: self.generation, type_id: self.type_id }
    }
}

impl GenericHandle {
    /// Turns this handle into a typed owning handle when its type identity is `expected`.
    pub fn checked_handle<A: Asset>(self, expected: TypeId) -> (r: Result<Handle<A>, ()>)
        ensures
            r is Ok <==> self@.type_id == expected,
            r matches Ok(h) ==> h@ == (self@.index, self@.generation),
    {
        if type_ids_equal(&expected, &self.type_id) {
            Ok(Handle::new(self.index, self.generation, self.marker))
        } else {
            Err(())
        }
    }

    /// Converts into a typed owning handle; fails when the stored type identity is not that of `A`.
    pub fn try_into_handle<A: Asset>(self) -> (r: Result<Handle<A>, ()>)
        ensures
            r matches Ok(h) ==> h@ == (self@.index, self@.generation),
    {
        let expected = type_id_of::<A>();
        self.checked_handle(expected)
    }

    /// A weak handle to the same slot, generation and type.
    pub fn weak(&self) -> (r: WeakGenericHandle)
        ensures
            r == self@,
    {
        WeakGenericHandle { index: self.index, generation: self.generation, type_id: self.type_id }
    }
}

impl Clone for GenericHandle {
    fn clone(&self) -> (r: Self)
        ensures
            r@ == self@,
    {
        GenericHandle {
            index: self.index,
            generation: self.generation,
            type_id: self.type_id,
            marker: share_arc(&self.marker),
        }
    }
}

impl PartialEq for GenericHandle {
    fn eq(&self, other: &Self) -> (r: bool) {
        self.index == other.index && self.generation == other.generation
            && type_ids_equal(&self.type_id, &other.type_id)
    }
}

impl vstd::std_specs::cmp::PartialEqSpecImpl for GenericHandle {
    open spec fn obeys_eq_spec() -> bool {
        true
    }

    open spec fn eq_spec(&self, other: &Self) -> bool {
        self@ == other@
    }
}

impl Eq for GenericHandle {}

} // verus!
