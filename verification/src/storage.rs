//! Generational slot storage for one asset type.
//!
//! Every slot carries a generation. A handle names a slot index and the generation the slot had
//! when the handle was issued; once the slot is recycled its generation moves on and the handle
//! stops resolving. Recycled slots form a free list (most recently freed first) that new
//! reservations draw from before the storage grows.
use std::sync::Arc;
use vstd::prelude::*;
use crate::error::AssetError;
use crate::handle::{Asset, Handle, WeakHandle};
use crate::typeid::{marker_holders, share_arc};

verus! {

/// What a slot currently holds.
pub enum SlotState<A> {
    /// A load into this slot is in flight.
    Loading,
    /// The asset is available.
    Ready(A),
    /// The load into this slot failed.
    Failed(AssetError),
    /// The slot is unused and on the free list.
    Empty,
}

/// The state of an asset as seen through a handle.
pub enum AssetState<'a, A> {
    /// Asset is being loaded.
    Loading,
    /// Asset is ready and available.
    Ready(&'a A),
    /// Asset loading failed. The slot keeps this state (and its generation) so the caller can
    /// tell "load failed" from "handle invalid".
    Failed(AssetError),
    /// Slot is empty or the handle is stale (generation mismatch).
    Empty,
}

impl<'a, A> AssetState<'a, A> {
    /// The asset, when it is ready.
    pub fn get(&self) -> (r: Option<&A>)
        ensures
            match *self {
                AssetState::Ready(a) => r == Some(a),
                _ => r is None,
            },
    {
        match self {
            AssetState::Ready(asset) => Some(*asset),
            _ => None,
        }
    }
}

/// The state of an asset as seen through a handle, with mutable access to a ready asset.
pub enum AssetMutState<'a, A> {
    /// Asset is being loaded.
    Loading,
    /// Asset is ready and available.
    Ready(&'a mut A),
    /// Asset loading failed.
    Failed(AssetError),
    /// Slot is empty or the handle is stale (generation mismatch).
    Empty,
}

impl<'a, A> AssetMutState<'a, A> {
    /// Mutable access to the asset, when it is ready.
    pub fn get_mut(&mut self) -> (r: Option<&mut A>)
        ensures
            match *old(self) {
                AssetMutState::Ready(a) => {
                    &&& r matches Some(x) && *x == *a
                    &&& *final(self) matches AssetMutState::Ready(b)
                    &&& r matches Some(x) && *final(self) matches AssetMutState::Ready(b) && *b
                        == *final(x)
                },
                _ => r is None && *final(self) == *old(self),
            },
    {
        match self {
            AssetMutState::Ready(asset) => Some(&mut **asset),
            _ => None,
        }
    }
}

/// Whether the answer `r` of a lookup reports the slot state `s`.
pub open spec fn reports<A>(r: AssetState<'_, A>, s: SlotState<A>) -> bool {
    match s {
        SlotState::Loading => r is Loading,
        SlotState::Ready(a) => r matches AssetState::Ready(x) && *x == a,
        SlotState::Failed(e) => r matches AssetState::Failed(x) && x == e,
        SlotState::Empty => r is Empty,
    }
}

/// The abstract content of one slot.
pub struct SlotView<A> {
    pub generation: u32,
    pub state: SlotState<A>,
}

/// The abstract content of a storage: its slots, and the free list (head first).
pub struct StorageView<A> {
    pub slots: Seq<SlotView<A>>,
    pub free: Seq<u32>,
}

/// The generation a slot takes when it is recycled (wrapping at `u32::MAX`).
pub open spec fn next_generation(g: u32) -> u32 {
    if g == u32::MAX {
        0
    } else {
        (g + 1) as u32
    }
}

impl<A> StorageView<A> {
    /// What a handle to (`index`, `generation`) resolves to.
    pub open spec fn state_of(self, index: u32, generation: u32) -> SlotState<A> {
        if index < self.slots.len() && self.slots[index as int].generation == generation {
            self.slots[index as int].state
        } else {
            SlotState::Empty
        }
    }

    /// `after` is `before` with one slot taken into use in `state`, and `h` names that slot with
    /// its generation: the free-list head if there was one, else a new slot (generation 0).
    pub open spec fn reserved(before: Self, after: Self, h: (u32, u32), state: SlotState<A>) -> bool {
        if before.free.len() > 0 {
            let i = before.free[0];
            &&& h == (i, before.slots[i as int].generation)
            &&& after.slots == before.slots.update(
                i as int,
                SlotView { generation: h.1, state },
            )
            &&& after.free == before.free.drop_first()
        } else {
            &&& h == (before.slots.len() as u32, 0u32)
            &&& after.slots == before.slots.push(SlotView { generation: 0, state })
            &&& after.free == before.free
        }
    }

    /// The free list names distinct slots, and exactly the empty ones.
    pub open spec fn consistent(self) -> bool {
        &&& self.free.no_duplicates()
        &&& forall|k: int| 0 <= k < self.free.len() ==> self.free[k] < self.slots.len()
        &&& forall|i: int|
            0 <= i < self.slots.len() ==> ((self.slots[i].state is Empty) <==> self.free.contains(
                i as u32,
            ))
    }
}

/// A reservation takes a slot that no handle resolved to anything but `Empty`, and from then on
/// the handle it returns resolves to the state it was made with; every handle that resolved to
/// something other than `Empty` still resolves as before.
pub proof fn lemma_reserved_resolves<A>(
    before: StorageView<A>,
    after: StorageView<A>,
    h: (u32, u32),
    state: SlotState<A>,
)
    requires
        before.consistent(),
        before.free.len() > 0 || before.slots.len() <= u32::MAX,
        StorageView::reserved(before, after, h, state),
    ensures
        before.state_of(h.0, h.1) is Empty,
        after.state_of(h.0, h.1) == state,
        forall|i: u32, g: u32|
            !(before.state_of(i, g) is Empty) ==> #[trigger] after.state_of(i, g)
                == before.state_of(i, g),
{
    if before.free.len() > 0 {
        assert(before.free.contains(before.free[0]));
    }
}

/// Recycling slot `i` makes every handle to it resolve to `Empty`, old generation and new, and
/// leaves every other handle resolving as before.
pub proof fn lemma_recycled_resolves_empty<A>(before: StorageView<A>, after: StorageView<A>, i: u32)
    requires
        i < before.slots.len(),
        after.slots == before.slots.update(
            i as int,
            SlotView {
                generation: next_generation(before.slots[i as int].generation),
                state: SlotState::Empty,
            },
        ),
    ensures
        forall|g: u32| #[trigger] after.state_of(i, g) is Empty,
        forall|j: u32, g: u32|
            j != i ==> #[trigger] after.state_of(j, g) == before.state_of(j, g),
{
}

/// The slots that a sweep over the first `n` slots recycled, in the order they end up at the
/// front of the free list (the last recycled first).
pub open spec fn recycled_front<A>(before: Seq<SlotView<A>>, after: Seq<SlotView<A>>, n: nat) -> Seq<u32>
    decreases n,
{
    if n == 0 {
        Seq::empty()
    } else {
        let rest = recycled_front(before, after, (n - 1) as nat);
        if !(before[n - 1].state is Empty) && after[n - 1].state is Empty {
            seq![(n - 1) as u32] + rest
        } else {
            rest
        }
    }
}

struct Slot<A> {
    next_empty: Option<u32>,
    generation: u32,
    state: SlotState<A>,
    /// Shared reference-count marker, cloned into every owning handle issued from this slot.
    /// Present exactly while the slot is in use.
    ref_marker: Option<Arc<()>>,
}

/// Generational storage of assets of type `A`.
pub struct AssetStorage<A: Asset> {
    storage: Vec<Slot<A>>,
    empty_slot: Option<u32>,
    free: Ghost<Seq<u32>>,
}

impl<A: Asset> View for AssetStorage<A> {
    type V = StorageView<A>;

    closed spec fn view(&self) -> StorageView<A> {
        StorageView {
            slots: self.storage@.map_values(
                |s: Slot<A>| SlotView { generation: s.generation, state: s.state },
            ),
            free: self.free@,
        }
    }
}

impl<A: Asset> AssetStorage<A> {
    /// The storage's internal invariant.
    pub closed spec fn wf(&self) -> bool {
        let slots = self.storage@;
        let free = self.free@;
        &&& slots.len() <= u32::MAX as int + 1
        &&& free.no_duplicates()
        &&& forall|k: int| 0 <= k < free.len() ==> free[k] < slots.len()
        &&& self.empty_slot == (if free.len() == 0 {
            None
        } else {
            Some(free[0])
        })
        &&& forall|k: int|
            0 <= k < free.len() ==> #[trigger] slots[free[k] as int].next_empty == (if k + 1
                < free.len() {
                Some(free[k + 1])
            } else {
                None
            })
        &&& forall|i: int|
            0 <= i < slots.len() ==> ((slots[i].state is Empty) <==> free.contains(i as u32))
        &&& forall|i: int| 0 <= i < slots.len() && !(slots[i].state is Empty) ==> (
            #[trigger] slots[i]).next_empty is None
        &&& forall|i: int|
            0 <= i < slots.len() ==> ((#[trigger] slots[i]).ref_marker is Some <==> !(
            slots[i].state is Empty))
    }

    /// A well-formed storage has a consistent view.
    pub proof fn lemma_consistent(&self)
        requires
            self.wf(),
        ensures
            self@.consistent(),
            self@.slots.len() <= u32::MAX as int + 1,
    {
        assert forall|i: int|
            0 <= i < self@.slots.len() implies ((self@.slots[i].state is Empty) <==> self@.free.contains(
            i as u32,
        )) by {
            assert(self@.slots[i].state == self.storage@[i].state);
        }
    }

    /// An empty storage.
    pub fn new() -> (r: Self)
        ensures
            r.wf(),
            r@.slots.len() == 0,
            r@.free.len() == 0,
    {
        AssetStorage { storage: Vec::new(), empty_slot: None, free: Ghost(Seq::empty()) }
    }

    /// Whether a slot can be reserved: a recycled slot is free, or a new slot still gets a `u32`
    /// index. The test callers make before [`insert`](Self::insert) and
    /// [`reserve_for_load`](Self::reserve_for_load).
    pub fn can_reserve(&self) -> (r: bool)
        requires
            self.wf(),
        ensures
            r == (self@.free.len() > 0 || self@.slots.len() <= u32::MAX),
    {
        self.empty_slot.is_some() || self.storage.len() <= u32::MAX as usize
    }

    /// Reserves a slot for an asset that is still loading: the head of the free list when there
    /// is one, else a new slot at the end. The slot is `Loading`; the returned owning handle names
    /// it with its current generation.
    pub fn reserve_for_load(&mut self) -> (r: Handle<A>)
        requires
            old(self).wf(),
            old(self)@.free.len() > 0 || old(self)@.slots.len() <= u32::MAX,
        ensures
            final(self).wf(),
            StorageView::reserved(old(self)@, final(self)@, r@, SlotState::Loading),
            final(self)@.state_of(r@.0, r@.1) is Loading,
            forall|i: u32, g: u32|
                !(old(self)@.state_of(i, g) is Empty) ==> #[trigger] final(self)@.state_of(i, g)
                    == old(self)@.state_of(i, g),
    {
        self.reserve_with(SlotState::Loading)
    }

    /// Inserts a ready asset, in the slot that [`reserve_for_load`](Self::reserve_for_load)
    /// would pick.
    pub fn insert(&mut self, asset: A) -> (r: Handle<A>)
        requires
            old(self).wf(),
            old(self)@.free.len() > 0 || old(self)@.slots.len() <= u32::MAX,
        ensures
            final(self).wf(),
            StorageView::reserved(old(self)@, final(self)@, r@, SlotState::Ready(asset)),
            final(self)@.state_of(r@.0, r@.1) == SlotState::Ready(asset),
            forall|i: u32, g: u32|
                !(old(self)@.state_of(i, g) is Empty) ==> #[trigger] final(self)@.state_of(i, g)
                    == old(self)@.state_of(i, g),
    {
        self.reserve_with(SlotState::Ready(asset))
    }

    fn reserve_with(&mut self, state: SlotState<A>) -> (r: Handle<A>)
        requires
            old(self).wf(),
            !(state is Empty),
            old(self)@.free.len() > 0 || old(self)@.slots.len() <= u32::MAX,
        ensures
            final(self).wf(),
            StorageView::reserved(old(self)@, final(self)@, r@, state),
            final(self)@.state_of(r@.0, r@.1) == state,
            forall|i: u32, g: u32|
                !(old(self)@.state_of(i, g) is Empty) ==> #[trigger] final(self)@.state_of(i, g)
                    == old(self)@.state_of(i, g),
    {
        let ghost before = self@;
        let ghost st = state;
        proof {
            self.lemma_consistent();
        }
        let marker = Arc::new(());
        match self.empty_slot {
            Some(index) => {
                let ghost free = self.free@;
                assert(free[0] == index);
                let idx = index as usize;
                let generation = self.storage[idx].generation;
                let next_empty = self.storage[idx].next_empty;
                let slot = Slot {
                    next_empty: None,
                    generation,
                    state,
                    ref_marker: Some(share_arc(&marker)),
                };
                self.storage.set(idx, slot);
                self.empty_slot = next_empty;
                proof {
                    self.free@ = free.drop_first();
                    assert forall|i: int|
                        0 <= i < self.storage@.len() implies ((self.storage@[i].state is Empty)
                        <==> self.free@.contains(i as u32)) by {
                        if i == idx as int {
                            assert(!self.free@.contains(i as u32)) by {
                                if self.free@.contains(i as u32) {
                                    let k = choose|k: int|
                                        0 <= k < self.free@.len() && self.free@[k] == i as u32;
                                    assert(free[k + 1] == free[0]);
                                }
                            }
                        } else {
                            if free.contains(i as u32) {
                                let k = choose|k: int| 0 <= k < free.len() && free[k] == i as u32;
                                assert(k != 0);
                                assert(self.free@[k - 1] == i as u32);
                            }
                            if self.free@.contains(i as u32) {
                                let k = choose|k: int|
                                    0 <= k < self.free@.len() && self.free@[k] == i as u32;
                                assert(free[k + 1] == i as u32);
                            }
                        }
                    }
                    assert forall|k: int|
                        0 <= k < self.free@.len() implies #[trigger] self.storage@[self.free@[k] as int].next_empty
                        == (if k + 1 < self.free@.len() {
                        Some(self.free@[k + 1])
                    } else {
                        None
                    }) by {
                        assert(free[k + 1] == self.free@[k]);
                        assert(free[k + 1] != free[0]);
                    }
                    assert(self@.slots =~= before.slots.update(
                        idx as int,
                        SlotView { generation, state },
                    ));
                }
                let r = Handle::new(index, generation, marker);
                proof {
                    lemma_reserved_resolves(before, self@, r@, st);
                }
                r
            },
            None => {
                let index = self.storage.len() as u32;
                let slot = Slot {
                    next_empty: None,
                    generation: 0,
                    state,
                    ref_marker: Some(share_arc(&marker)),
                };
                self.storage.push(slot);
                proof {
                    assert forall|i: int|
                        0 <= i < self.storage@.len() implies ((self.storage@[i].state is Empty)
                        <==> self.free@.contains(i as u32)) by {
                        if i == index as int {
                            assert(!self.free@.contains(i as u32));
                        }
                    }
                    assert(self@.slots =~= before.slots.push(SlotView { generation: 0, state }));
                }
                let r = Handle::new(index, 0, marker);
                proof {
                    lemma_reserved_resolves(before, self@, r@, st);
                }
                r
            },
        }
    }

    /// Looks a weak handle up: the slot's state when the generation matches, else `Empty`.
    pub fn get(&self, handle: WeakHandle<A>) -> (r: AssetState<'_, A>)
        requires
            self.wf(),
        ensures
            reports(r, self@.state_of(handle@.0, handle@.1)),
    {
        let index = handle.index() as usize;
        if index >= self.storage.len() {
            return AssetState::Empty;
        }
        let slot = &self.storage[index];
        if slot.generation == handle.generation() {
            match &slot.state {
                SlotState::Loading => AssetState::Loading,
                SlotState::Ready(asset) => AssetState::Ready(asset),
                SlotState::Failed(error) => AssetState::Failed(error.clone()),
                SlotState::Empty => AssetState::Empty,
            }
        } else {
            AssetState::Empty
        }
    }

    /// Looks a weak handle up with mutable access to a ready asset. The storage changes only
    /// through that access.
    pub fn get_mut(&mut self, handle: WeakHandle<A>) -> (r: AssetMutState<'_, A>)
        requires
            old(self).wf(),
        ensures
            match r {
                AssetMutState::Ready(a) => {
                    &&& old(self)@.state_of(handle@.0, handle@.1) == SlotState::Ready(*a)
                    &&& final(self)@.slots =~= old(self)@.slots.update(
                        handle@.0 as int,
                        SlotView { generation: handle@.1, state: SlotState::Ready(*final(a)) },
                    )
                    &&& final(self)@.free == old(self)@.free
                },
                AssetMutState::Loading => {
                    &&& old(self)@.state_of(handle@.0, handle@.1) is Loading
                    &&& final(self)@.slots =~= old(self)@.slots
                    &&& final(self)@.free == old(self)@.free
                },
                AssetMutState::Failed(e) => {
                    &&& old(self)@.state_of(handle@.0, handle@.1) == SlotState::<A>::Failed(e)
                    &&& final(self)@.slots =~= old(self)@.slots
                    &&& final(self)@.free == old(self)@.free
                },
                AssetMutState::Empty => {
                    &&& old(self)@.state_of(handle@.0, handle@.1) is Empty
                    &&& final(self)@.slots =~= old(self)@.slots
                    &&& final(self)@.free == old(self)@.free
                },
            },
            final(self).wf(),
    {
        let index = handle.index() as usize;
        if index >= self.storage.len() {
            return AssetMutState::Empty;
        }
        if self.storage[index].generation != handle.generation() {
            return AssetMutState::Empty;
        }
        let slot = &mut self.storage[index];
        match &mut slot.state {
            SlotState::Loading => AssetMutState::Loading,
            SlotState::Ready(asset) => AssetMutState::Ready(asset),
            SlotState::Failed(error) => AssetMutState::Failed(error.clone()),
            SlotState::Empty => AssetMutState::Empty,
        }
    }

    /// Completes a load: a `Loading` slot with this index and generation becomes `Ready(asset)`.
    /// Returns whether that happened; otherwise nothing changes.
    pub fn complete_load(&mut self, index: u32, generation: u32, asset: A) -> (r: bool)
        requires
            old(self).wf(),
        ensures
            final(self).wf(),
            r == (old(self)@.state_of(index, generation) is Loading),
            r ==> final(self)@.slots == old(self)@.slots.update(
                index as int,
                SlotView { generation, state: SlotState::Ready(asset) },
            ),
            r ==> final(self)@.state_of(index, generation) == SlotState::Ready(asset),
            !r ==> final(self)@.slots == old(self)@.slots,
            final(self)@.free == old(self)@.free,
    {
        self.finish_load(index, generation, SlotState::Ready(asset))
    }

    /// Marks a load as failed: a `Loading` slot with this index and generation becomes
    /// `Failed(error)` and keeps its generation. Returns whether that happened; otherwise nothing
    /// changes.
    pub fn set_failed(&mut self, index: u32, generation: u32, error: AssetError) -> (r: bool)
        requires
            old(self).wf(),
        ensures
            final(self).wf(),
            r == (old(self)@.state_of(index, generation) is Loading),
            r ==> final(self)@.slots == old(self)@.slots.update(
                index as int,
                SlotView { generation, state: SlotState::Failed(error) },
            ),
            r ==> final(self)@.state_of(index, generation) == SlotState::<A>::Failed(error),
            !r ==> final(self)@.slots == old(self)@.slots,
            final(self)@.free == old(self)@.free,
    {
        self.finish_load(index, generation, SlotState::Failed(error))
    }

    fn finish_load(&mut self, index: u32, generation: u32, state: SlotState<A>) -> (r: bool)
        requires
            old(self).wf(),
            !(state is Empty),
        ensures
            final(self).wf(),
            r == (old(self)@.state_of(index, generation) is Loading),
            r ==> final(self)@.slots == old(self)@.slots.update(
                index as int,
                SlotView { generation, state },
            ),
            !r ==> final(self)@.slots == old(self)@.slots,
            final(self)@.free == old(self)@.free,
    {
        let ghost before = self@;
        let idx = index as usize;
        if idx >= self.storage.len() {
            return false;
        }
        let is_loading = match &self.storage[idx].state {
            SlotState::Loading => true,
            _ => false,
        };
        if self.storage[idx].generation != generation || !is_loading {
            return false;
        }
        let marker = match &self.storage[idx].ref_marker {
            Some(m) => Some(share_arc(m)),
            None => None,
        };
        let slot = Slot { next_empty: None, generation, state, ref_marker: marker };
        self.storage.set(idx, slot);
        proof {
            assert forall|i: int|
                0 <= i < self.storage@.len() implies ((self.storage@[i].state is Empty)
                <==> self.free@.contains(i as u32)) by {
                if i == idx as int {
                    assert(old(self).storage@[i].state is Loading);
                }
            }
            assert forall|k: int|
                0 <= k < self.free@.len() implies #[trigger] self.storage@[self.free@[k] as int].next_empty
                == (if k + 1 < self.free@.len() {
                Some(self.free@[k + 1])
            } else {
                None
            }) by {
                assert(old(self).storage@[self.free@[k] as int].next_empty == (if k + 1
                    < self.free@.len() {
                    Some(self.free@[k + 1])
                } else {
                    None
                }));
                if self.free@[k] as int == idx as int {
                    assert(self.free@.contains(index));
                    assert(old(self).storage@[idx as int].state is Empty);
                }
            }
            assert(self@.slots =~= before.slots.update(
                idx as int,
                SlotView { generation, state },
            ));
        }
        true
    }

    /// Recycles slot `i`: the generation moves on, the state becomes `Empty` and the slot goes to
    /// the front of the free list.
    fn recycle(&mut self, i: usize)
        requires
            old(self).wf(),
            i < old(self)@.slots.len(),
            !(old(self)@.slots[i as int].state is Empty),
        ensures
            final(self).wf(),
            final(self)@.slots == old(self)@.slots.update(
                i as int,
                SlotView {
                    generation: next_generation(old(self)@.slots[i as int].generation),
                    state: SlotState::Empty,
                },
            ),
            final(self)@.free == seq![i as u32] + old(self)@.free,
    {
        let ghost before = self@;
        let ghost free = self.free@;
        assert(self.storage@[i as int].state == before.slots[i as int].state);
        let generation = self.storage[i].generation.wrapping_add(1);
        let slot = Slot {
            next_empty: self.empty_slot,
            generation,
            state: SlotState::Empty,
            ref_marker: None,
        };
        self.storage.set(i, slot);
        self.empty_slot = Some(i as u32);
        proof {
            let new_free = seq![i as u32] + free;
            assert(!free.contains(i as u32));
            self.free@ = new_free;
            assert forall|k: int| 0 <= k < new_free.len() implies new_free[k] < self.storage@.len() by {
                if k > 0 {
                    assert(new_free[k] == free[k - 1]);
                }
            }
            assert(new_free.no_duplicates()) by {
                assert forall|a: int, b: int|
                    0 <= a < b < new_free.len() implies new_free[a] != new_free[b] by {
                    if a == 0 {
                        assert(new_free[b] == free[b - 1]);
                    } else {
                        assert(new_free[a] == free[a - 1]);
                        assert(new_free[b] == free[b - 1]);
                    }
                }
            }
            assert forall|j: int|
                0 <= j < self.storage@.len() implies ((self.storage@[j].state is Empty)
                <==> self.free@.contains(j as u32)) by {
                if j != i as int {
                    if free.contains(j as u32) {
                        let k = choose|k: int| 0 <= k < free.len() && free[k] == j as u32;
                        assert(new_free[k + 1] == j as u32);
                    }
                    if new_free.contains(j as u32) {
                        let k = choose|k: int| 0 <= k < new_free.len() && new_free[k] == j as u32;
                        assert(k != 0);
                        assert(free[k - 1] == j as u32);
                    }
                } else {
                    assert(new_free[0] == i as u32);
                }
            }
            assert forall|k: int|
                0 <= k < new_free.len() implies #[trigger] self.storage@[new_free[k] as int].next_empty
                == (if k + 1 < new_free.len() {
                Some(new_free[k + 1])
            } else {
                None
            }) by {
                if k > 0 {
                    assert(new_free[k] == free[k - 1]);
                    assert(old(self).storage@[free[k - 1] as int].next_empty == (if k < free.len() {
                        Some(free[k])
                    } else {
                        None
                    }));
                    assert(free[k - 1] != i as u32);
                } else {
                    if free.len() > 0 {
                        assert(new_free[1] == free[0]);
                    }
                }
            }
            assert(self@.slots =~= before.slots.update(
                i as int,
                SlotView { generation, state: SlotState::Empty },
            ));
        }
    }

    /// Off-loads every `Ready` asset whose reference-count marker has `holders[j] == 1` holder
    /// (only the slot itself): each such slot is recycled (its generation moves on, its asset is
    /// dropped and it goes to the front of the free list, the last one recycled first), so stale
    /// handles to it stop resolving. `Loading`, `Failed` and `Empty` slots, and `Ready` slots
    /// with other counts, are left alone. Returns the number of assets off-loaded.
    pub fn offload_unreferenced(&mut self, holders: &[usize]) -> (r: usize)
        requires
            old(self).wf(),
            holders@.len() == old(self)@.slots.len(),
        ensures
            final(self).wf(),
            final(self)@.slots == offloaded(old(self)@.slots, holders@),
            final(self)@.free == recycled_front(
                old(self)@.slots,
                final(self)@.slots,
                old(self)@.slots.len(),
            ) + old(self)@.free,
            r == recycled_front(old(self)@.slots, final(self)@.slots, old(self)@.slots.len()).len(),
            forall|i: u32, g: u32|
                #[trigger] final(self)@.state_of(i, g) == old(self)@.state_of(i, g) || (old(
                    self,
                )@.state_of(i, g) is Ready && final(self)@.state_of(i, g) is Empty),
    {
        let ghost before = self@;
        let ghost target = offloaded(before.slots, holders@);
        let n = self.storage.len();
        let mut removed: usize = 0;
        let mut i: usize = 0;
        while i < n
            invariant
                self.wf(),
                self@.slots.len() == n,
                n == before.slots.len(),
                n == holders@.len(),
                target == offloaded(before.slots, holders@),
                i <= n,
                forall|j: int| 0 <= j < i ==> #[trigger] self@.slots[j] == target[j],
                forall|j: int| i <= j < n ==> #[trigger] self@.slots[j] == before.slots[j],
                self@.free == recycled_front(before.slots, self@.slots, i as nat) + before.free,
                removed == recycled_front(before.slots, self@.slots, i as nat).len(),
                removed <= i,
            decreases n - i,
        {
            let ghost cur = self@;
            let is_ready = match &self.storage[i].state {
                SlotState::Ready(_) => true,
                _ => false,
            };
            assert(self@.slots[i as int].state == self.storage@[i as int].state);
            if is_ready && holders[i] == 1 {
                self.recycle(i);
                removed = removed + 1;
                proof {
                    lemma_recycled_front_prefix(before.slots, cur.slots, self@.slots, i as nat);
                    assert(self@.slots[i as int].state is Empty);
                    assert(!(before.slots[i as int].state is Empty));
                }
            } else {
                proof {
                    lemma_recycled_front_prefix(before.slots, cur.slots, self@.slots, i as nat);
                }
            }
            i = i + 1;
        }
        assert(self@.slots =~= target);
        removed
    }

    /// Off-loads every `Ready` asset that no owning handle refers to any more: the reference
    /// counts of the slots' markers are read (0 for a slot without one) and handed to
    /// [`offload_unreferenced`](Self::offload_unreferenced).
    pub fn cleanup_offloaded(&mut self) -> (r: usize)
        requires
            old(self).wf(),
        ensures
            final(self).wf(),
            exists|holders: Seq<usize>|
                holders.len() == old(self)@.slots.len() && final(self)@.slots == offloaded(
                    old(self)@.slots,
                    holders,
                ),
            final(self)@.free == recycled_front(
                old(self)@.slots,
                final(self)@.slots,
                old(self)@.slots.len(),
            ) + old(self)@.free,
            r == recycled_front(old(self)@.slots, final(self)@.slots, old(self)@.slots.len()).len(),
            forall|i: u32, g: u32|
                #[trigger] final(self)@.state_of(i, g) == old(self)@.state_of(i, g) || (old(
                    self,
                )@.state_of(i, g) is Ready && final(self)@.state_of(i, g) is Empty),
    {
        let mut holders: Vec<usize> = Vec::new();
        let n = self.storage.len();
        let mut i: usize = 0;
        while i < n
            invariant
                n == self.storage@.len(),
                i <= n,
                holders@.len() == i,
            decreases n - i,
        {
            let count = match &self.storage[i].ref_marker {
                Some(marker) => marker_holders(marker),
                None => 0,
            };
            holders.push(count);
            i = i + 1;
        }
        self.offload_unreferenced(holders.as_slice())
    }
}

/// The slots after off-loading with `holders[j]` holders of slot `j`'s marker: a `Ready` slot
/// held only by itself becomes `Empty` with the next generation; every other slot stays.
pub open spec fn offloaded<A>(slots: Seq<SlotView<A>>, holders: Seq<usize>) -> Seq<SlotView<A>> {
    Seq::new(
        slots.len(),
        |j: int|
            if slots[j].state is Ready && holders[j] == 1 {
                SlotView { generation: next_generation(slots[j].generation), state: SlotState::Empty }
            } else {
                slots[j]
            },
    )
}

/// The sweep's record of the first `n` slots only reads those slots.
proof fn lemma_recycled_front_prefix<A>(
    before: Seq<SlotView<A>>,
    a: Seq<SlotView<A>>,
    b: Seq<SlotView<A>>,
    n: nat,
)
    requires
        a.len() == b.len(),
        n <= a.len(),
        forall|j: int| 0 <= j < n ==> a[j] == b[j],
    ensures
        recycled_front(before, a, n) == recycled_front(before, b, n),
    decreases n,
{
    if n > 0 {
        lemma_recycled_front_prefix(before, a, b, (n - 1) as nat);
    }
}

/// The slots a sweep over the first `n` slots recycled are slots below `n`, named once each, in
/// decreasing order (the last recycled first), and they are exactly the slots that were in use
/// and ended up `Empty`.
pub proof fn lemma_recycled_front_order<A>(before: Seq<SlotView<A>>, after: Seq<SlotView<A>>, n: nat)
    requires
        n <= before.len(),
        n <= after.len(),
        n <= u32::MAX as int + 1,
    ensures
        forall|a: int, b: int|
            0 <= a < b < recycled_front(before, after, n).len() ==> #[trigger] recycled_front(
                before,
                after,
                n,
            )[a] > #[trigger] recycled_front(before, after, n)[b],
        forall|a: int|
            0 <= a < recycled_front(before, after, n).len() ==> #[trigger] recycled_front(
                before,
                after,
                n,
            )[a] < n,
        forall|j: int|
            0 <= j < n ==> (recycled_front(before, after, n).contains(j as u32) <==> (!(
            before[j].state is Empty) && after[j].state is Empty)),
    decreases n,
{
    if n > 0 {
        let m = (n - 1) as nat;
        lemma_recycled_front_order(before, after, m);
        let rest = recycled_front(before, after, m);
        let all = recycled_front(before, after, n);
        if !(before[m as int].state is Empty) && after[m as int].state is Empty {
            assert(all == seq![m as u32] + rest);
            assert forall|a: int| 0 <= a < all.len() implies #[trigger] all[a] < n by {
                if a > 0 {
                    assert(all[a] == rest[a - 1]);
                }
            }
            assert forall|a: int, b: int| 0 <= a < b < all.len() implies #[trigger] all[a]
                > #[trigger] all[b] by {
                assert(all[b] == rest[b - 1]);
                if a > 0 {
                    assert(all[a] == rest[a - 1]);
                }
            }
            assert forall|j: int| 0 <= j < n implies (all.contains(j as u32) <==> (!(
            before[j].state is Empty) && after[j].state is Empty)) by {
                if j == m as int {
                    assert(all[0] == m as u32);
                } else {
                    if all.contains(j as u32) {
                        let a = choose|a: int| 0 <= a < all.len() && all[a] == j as u32;
                        assert(a > 0);
                        assert(rest[a - 1] == j as u32);
                    }
                    if rest.contains(j as u32) {
                        let a = choose|a: int| 0 <= a < rest.len() && rest[a] == j as u32;
                        assert(all[a + 1] == j as u32);
                    }
                }
            }
        } else {
            assert(all == rest);
            assert forall|j: int| 0 <= j < n implies (all.contains(j as u32) <==> (!(
            before[j].state is Empty) && after[j].state is Empty)) by {
                if j == m as int && all.contains(j as u32) {
                    let a = choose|a: int| 0 <= a < all.len() && all[a] == j as u32;
                    assert(rest[a] < m);
                }
            }
        }
    }
}

/// Slots freed by a sweep are reused before the storage grows, the last one freed first: after
/// off-loading from a storage with no free slot, the first reservation takes the slot that the
/// sweep freed last, with its moved-on generation, and the second the one freed before it; with
/// one slot freed the second reservation adds a new slot (index the storage's length,
/// generation 0), and with none the first one does.
pub proof fn lemma_sweep_then_reserve<A>(
    before: StorageView<A>,
    holders: Seq<usize>,
    swept: StorageView<A>,
    first: StorageView<A>,
    h1: (u32, u32),
    s1: SlotState<A>,
    second: StorageView<A>,
    h2: (u32, u32),
    s2: SlotState<A>,
)
    requires
        before.consistent(),
        before.slots.len() <= u32::MAX,
        before.free.len() == 0,
        holders.len() == before.slots.len(),
        swept.slots == offloaded(before.slots, holders),
        swept.free == recycled_front(before.slots, swept.slots, before.slots.len()) + before.free,
        StorageView::reserved(swept, first, h1, s1),
        StorageView::reserved(first, second, h2, s2),
    ensures
        ({
            let freed = recycled_front(before.slots, swept.slots, before.slots.len());
            &&& freed.len() >= 1 ==> h1 == (freed[0], next_generation(
                before.slots[freed[0] as int].generation,
            ))
            &&& freed.len() >= 2 ==> h2 == (freed[1], next_generation(
                before.slots[freed[1] as int].generation,
            )) && freed[1] < freed[0]
            &&& freed.len() == 1 ==> h2 == (before.slots.len() as u32, 0u32)
            &&& freed.len() == 0 ==> h1 == (before.slots.len() as u32, 0u32)
        }),
{
    let n = before.slots.len();
    let freed = recycled_front(before.slots, swept.slots, n);
    lemma_recycled_front_order(before.slots, swept.slots, n);
    assert(swept.free =~= freed);
    if freed.len() >= 1 {
        let i0 = freed[0];
        assert(swept.slots[i0 as int].state is Empty);
        assert(!(before.slots[i0 as int].state is Empty));
        assert(swept.slots[i0 as int].generation == next_generation(
            before.slots[i0 as int].generation,
        ));
        assert(first.free =~= freed.drop_first());
        if freed.len() >= 2 {
            let i1 = freed[1];
            assert(first.free[0] == i1);
            assert(swept.slots[i1 as int].state is Empty);
            assert(!(before.slots[i1 as int].state is Empty));
            assert(first.slots[i1 as int] == swept.slots[i1 as int]);
        }
    }
}

/// Off-loading twice with the same counts off-loads nothing the second time: the slots stay as
/// the first pass left them and the second sweep recycles no slot (so it returns 0).
pub proof fn lemma_offload_twice<A>(slots: Seq<SlotView<A>>, holders: Seq<usize>)
    requires
        holders.len() == slots.len(),
    ensures
        offloaded(offloaded(slots, holders), holders) == offloaded(slots, holders),
        recycled_front(
            offloaded(slots, holders),
            offloaded(offloaded(slots, holders), holders),
            slots.len(),
        ).len() == 0,
{
    let once = offloaded(slots, holders);
    assert(offloaded(once, holders) =~= once);
    lemma_nothing_recycled(once, slots.len());
}

/// A sweep that changes no slot recycles none.
proof fn lemma_nothing_recycled<A>(slots: Seq<SlotView<A>>, n: nat)
    requires
        n <= slots.len(),
    ensures
        recycled_front(slots, slots, n).len() == 0,
    decreases n,
{
    if n > 0 {
        lemma_nothing_recycled(slots, (n - 1) as nat);
    }
}

} // verus!