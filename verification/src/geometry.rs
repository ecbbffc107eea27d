//! Shared, persistent geometry: vertex and index data uploaded once to an append-only buffer and
//! drawn by reference from any number of batches.
use std::collections::HashMap;
use vstd::prelude::*;
use crate::buffer::{extended_state, DynamicBuffer, DynamicBufferView, ExtendPlan, Offset};

verus! {

broadcast use vstd::std_specs::hash::group_hash_axioms;

/// Calls `bytemuck::cast_slice` to view `u16` indices as bytes. Claims the length: two bytes per
/// index (their order is the machine's byte order, which is not stated).
#[verifier::external_body]
pub(crate) fn index_bytes(indices: &[u16]) -> (r: &[u8])
    ensures
        r@.len() == 2 * indices@.len(),
{
    bytemuck::cast_slice(indices)
}

/// A reference to geometry in the [`GeometryPool`]: a cheap, copyable id.
#[derive(Clone, Copy, Debug, PartialEq, Eq, Hash)]
pub struct GeometryRef {
    id: u64,
}

impl View for GeometryRef {
    type V = u64;

    closed spec fn view(&self) -> u64 {
        self.id
    }
}

/// Where one piece of shared geometry lives in the pool's buffer.
#[derive(Clone, Copy, Debug)]
pub struct GeometryEntry {
    pub vertex_offset: Offset,
    pub index_offset: Offset,
    /// Total bytes this entry occupies in the buffer.
    pub total_size: u64,
}

/// What inserting geometry takes: the reference it gets and the two appends to the pool's
/// buffer (vertex bytes, then index bytes).
#[derive(Clone, Copy, Debug)]
pub struct GeometryUpload {
    pub geometry: GeometryRef,
    pub vertex: ExtendPlan,
    pub index: ExtendPlan,
}

/// The total bytes of the entries named by `ids`.
pub open spec fn live_total(ids: Seq<u64>, entries: Map<u64, GeometryEntry>) -> int
    decreases ids.len(),
{
    if ids.len() == 0 {
        0
    } else {
        live_total(ids.drop_last(), entries) + entries[ids.last()].total_size
    }
}

proof fn lemma_live_total_frame(ids: Seq<u64>, a: Map<u64, GeometryEntry>, b: Map<u64, GeometryEntry>)
    requires
        forall|k: int| 0 <= k < ids.len() ==> a[ids[k]] == b[ids[k]],
    ensures
        live_total(ids, a) == live_total(ids, b),
    decreases ids.len(),
{
    if ids.len() > 0 {
        lemma_live_total_frame(ids.drop_last(), a, b);
    }
}

proof fn lemma_live_total_remove(ids: Seq<u64>, entries: Map<u64, GeometryEntry>, k: int)
    requires
        0 <= k < ids.len(),
    ensures
        live_total(ids, entries) == live_total(ids.remove(k), entries)
            + entries[ids[k]].total_size,
    decreases ids.len(),
{
    if k == ids.len() - 1 {
        assert(ids.remove(k) =~= ids.drop_last());
    } else {
        lemma_live_total_remove(ids.drop_last(), entries, k);
        assert(ids.drop_last().remove(k) =~= ids.remove(k).drop_last());
        assert(ids.remove(k).last() == ids.last());
    }
}

/// Persistent, append-only storage for shared geometry. Removing geometry leaves its bytes in
/// the buffer and counts them as wasted.
pub struct GeometryPool {
    buffer: DynamicBuffer,
    entries: HashMap<u64, GeometryEntry>,
    next_id: u64,
    wasted_bytes: u64,
    live: Ghost<Seq<u64>>,
}

/// The abstract content of a [`GeometryPool`].
pub struct GeometryPoolView {
    pub buffer: DynamicBufferView,
    pub entries: Map<u64, GeometryEntry>,
    pub next_id: u64,
    pub wasted_bytes: u64,
}

impl View for GeometryPool {
    type V = GeometryPoolView;

    closed spec fn view(&self) -> GeometryPoolView {
        GeometryPoolView {
            buffer: self.buffer@,
            entries: self.entries@,
            next_id: self.next_id,
            wasted_bytes: self.wasted_bytes,
        }
    }
}

impl GeometryPoolView {
    /// Every entry's vertex bytes are directly followed by its index bytes, inside the bytes in
    /// use of the buffer.
    pub open spec fn entries_in_buffer(self) -> bool {
        forall|id: u64|
            #[trigger] self.entries.contains_key(id) ==> {
                let e = self.entries[id];
                &&& id < self.next_id
                &&& e.total_size == e.vertex_offset.size + e.index_offset.size
                &&& e.index_offset.offset == e.vertex_offset.offset + e.vertex_offset.size
                &&& e.index_offset.offset + e.index_offset.size <= self.buffer.length
            }
    }

    /// Geometry inserted earlier lies wholly before geometry inserted later.
    pub open spec fn entries_ordered(self) -> bool {
        forall|a: u64, b: u64|
            #[trigger] self.entries.contains_key(a) && #[trigger] self.entries.contains_key(b) && a
                < b ==> self.entries[a].index_offset.offset + self.entries[a].index_offset.size
                <= self.entries[b].vertex_offset.offset
    }

    /// Whether inserting `vertex_len` vertex bytes and `index_len` index bytes needs no
    /// arithmetic beyond `u64`.
    pub open spec fn can_insert(self, vertex_len: u64, index_len: u64) -> bool {
        &&& self.next_id < u64::MAX
        &&& self.buffer.can_extend(vertex_len)
        &&& self.buffer.extended(vertex_len).can_extend(index_len)
    }
}

impl GeometryPool {
    pub closed spec fn wf(&self) -> bool {
        &&& self.buffer.wf()
        &&& self@.entries_in_buffer()
        &&& self@.entries_ordered()
        &&& self.live@.no_duplicates()
        &&& forall|id: u64| self.entries@.contains_key(id) <==> self.live@.contains(id)
        &&& self.wasted_bytes + live_total(self.live@, self.entries@) == self.buffer@.length
    }

    /// An empty pool with a small buffer that grows on demand.
    pub fn new() -> (r: Self)
        ensures
            r.wf(),
            r@.entries == Map::<u64, GeometryEntry>::empty(),
            r@.next_id == 0,
            r@.wasted_bytes == 0,
            r@.buffer == (DynamicBufferView { length: 0, size: 1024 }),
    {
        let r = GeometryPool {
            buffer: DynamicBuffer::new("GeometryPool buffer", 1024),
            entries: HashMap::new(),
            next_id: 0,
            wasted_bytes: 0,
            live: Ghost(Seq::empty()),
        };
        assert(r.entries@ =~= Map::<u64, GeometryEntry>::empty());
        r
    }

    /// Whether inserting `vertex_len` vertex bytes and `index_len` index bytes needs no arithmetic
    /// beyond `u64`: the test callers make before [`insert`](Self::insert).
    pub fn can_insert(&self, vertex_len: u64, index_len: u64) -> (r: bool)
        ensures
            r == self@.can_insert(vertex_len, index_len),
    {
        if self.next_id == u64::MAX {
            return false;
        }
        match extended_state(self.buffer.len(), self.buffer.size(), vertex_len) {
            Some((length, size)) => extended_state(length, size, index_len).is_some(),
            None => false,
        }
    }

    /// Inserts shared geometry: the vertex bytes and then the index bytes are appended to the
    /// buffer, and the new id names the two ranges. Returns the reference and the appends the
    /// caller performs on the GPU buffer.
    pub fn insert(&mut self, vertices: &[u8], indices: &[u16]) -> (r: GeometryUpload)
        requires
            old(self).wf(),
            old(self)@.can_insert(vertices@.len() as u64, (2 * indices@.len()) as u64),
            vertices@.len() <= u64::MAX,
            2 * indices@.len() <= u64::MAX,
        ensures
            final(self).wf(),
            r.geometry@ == old(self)@.next_id,
            r.vertex == old(self)@.buffer.extend_plan(vertices@.len() as u64),
            r.index == old(self)@.buffer.extended(vertices@.len() as u64).extend_plan(
                (2 * indices@.len()) as u64,
            ),
            final(self)@ == (GeometryPoolView {
                buffer: old(self)@.buffer.extended(vertices@.len() as u64).extended(
                    (2 * indices@.len()) as u64,
                ),
                entries: old(self)@.entries.insert(
                    old(self)@.next_id,
                    GeometryEntry {
                        vertex_offset: r.vertex.offset,
                        index_offset: r.index.offset,
                        total_size: (vertices@.len() + 2 * indices@.len()) as u64,
                    },
                ),
                next_id: (old(self)@.next_id + 1) as u64,
                wasted_bytes: old(self)@.wasted_bytes,
            }),
    {
        let ghost before = self@;
        let ghost live = self.live@;
        let id = self.next_id;
        self.next_id = self.next_id + 1;
        let vertex = self.buffer.extend(vertices.len() as u64);
        let index_len = index_bytes(indices).len() as u64;
        let index = self.buffer.extend(index_len);
        let total_size = vertex.offset.size + index.offset.size;
        let entry = GeometryEntry { vertex_offset: vertex.offset, index_offset: index.offset, total_size };
        self.entries.insert(id, entry);
        proof {
            assert(!live.contains(id)) by {
                if live.contains(id) {
                    assert(before.entries.contains_key(id));
                }
            }
            self.live@ = live.push(id);
            lemma_live_total_frame(live, before.entries, self.entries@);
            assert(live_total(self.live@, self.entries@) == live_total(live, self.entries@)
                + total_size) by {
                assert(self.live@.drop_last() =~= live);
            }
            assert forall|k: u64| self.entries@.contains_key(k) <==> self.live@.contains(k) by {
                if live.contains(k) {
                    let j = choose|j: int| 0 <= j < live.len() && live[j] == k;
                    assert(self.live@[j] == k);
                }
                if self.live@.contains(k) && k != id {
                    let j = choose|j: int| 0 <= j < self.live@.len() && self.live@[j] == k;
                    assert(live[j] == k);
                }
                if k == id {
                    assert(self.live@[live.len() as int] == k);
                }
            }
        }
        GeometryUpload { geometry: GeometryRef { id }, vertex, index }
    }

    /// The vertex and index ranges of `geo`; `None` when it was removed or never inserted.
    pub fn offsets(&self, geo: GeometryRef) -> (r: Option<(Offset, Offset)>)
        requires
            self.wf(),
        ensures
            match r {
                Some((v, i)) => self@.entries.contains_key(geo@) && v
                    == self@.entries[geo@].vertex_offset && i
                    == self@.entries[geo@].index_offset,
                None => !self@.entries.contains_key(geo@),
            },
    {
        match self.entries.get(&geo.id) {
            Some(e) => Some((e.vertex_offset, e.index_offset)),
            None => None,
        }
    }

    /// Removes `geo`; its bytes stay in the buffer and are counted as wasted.
    pub fn remove(&mut self, geo: GeometryRef)
        requires
            old(self).wf(),
        ensures
            final(self).wf(),
            final(self)@.buffer == old(self)@.buffer,
            final(self)@.next_id == old(self)@.next_id,
            final(self)@.entries == old(self)@.entries.remove(geo@),
            final(self)@.wasted_bytes == if old(self)@.entries.contains_key(geo@) {
                old(self)@.wasted_bytes + old(self)@.entries[geo@].total_size
            } else {
                old(self)@.wasted_bytes as int
            },
    {
        let ghost before = self@;
        let ghost live = self.live@;
        match self.entries.remove(&geo.id) {
            Some(entry) => {
                proof {
                    assert(live.contains(geo.id));
                    let k = choose|k: int| 0 <= k < live.len() && live[k] == geo.id;
                    lemma_live_total_remove(live, before.entries, k);
                    let rest = live.remove(k);
                    lemma_live_total_frame(rest, before.entries, self.entries@);
                    assert(live_total(rest, before.entries) >= 0) by {
                        lemma_live_total_nonneg(rest, before.entries);
                    }
                    self.live@ = rest;
                    assert(rest.no_duplicates()) by {
                        assert forall|a: int, b: int| 0 <= a < b < rest.len() implies rest[a] != rest[b] by {
                            let a2 = if a < k { a } else { a + 1 };
                            let b2 = if b < k { b } else { b + 1 };
                            assert(rest[a] == live[a2]);
                            assert(rest[b] == live[b2]);
                        }
                    }
                    assert forall|x: u64| self.entries@.contains_key(x) <==> self.live@.contains(x) by {
                        if self.live@.contains(x) {
                            let j = choose|j: int| 0 <= j < rest.len() && rest[j] == x;
                            let j2 = if j < k { j } else { j + 1 };
                            assert(live[j2] == x);
                            assert(live[j2] != live[k]);
                            assert(live.contains(x));
                            assert(before.entries.contains_key(x));
                        }
                        if self.entries@.contains_key(x) {
                            assert(live.contains(x));
                            let j = choose|j: int| 0 <= j < live.len() && live[j] == x;
                            assert(j != k);
                            if j < k {
                                assert(rest[j] == x);
                            } else {
                                assert(rest[j - 1] == x);
                            }
                        }
                    }
                }
                self.wasted_bytes = self.wasted_bytes + entry.total_size;
            },
            None => {
                proof {
                    assert(self.entries@ =~= before.entries);
                }
            },
        }
    }

    /// Whether the wasted bytes exceed `threshold`.
    pub fn needs_compaction(&self, threshold: u64) -> (r: bool)
        ensures
            r == (self@.wasted_bytes > threshold),
    {
        self.wasted_bytes > threshold
    }

    /// No two pieces of geometry in the pool share a byte: each one's vertex and index bytes lie
    /// wholly before or wholly after every other one's, and inside the bytes in use.
    pub proof fn lemma_entries_disjoint(&self, a: GeometryRef, b: GeometryRef)
        requires
            self.wf(),
            self@.entries.contains_key(a@),
            self@.entries.contains_key(b@),
            a@ != b@,
        ensures
            ({
                let ea = self@.entries[a@];
                let eb = self@.entries[b@];
                ||| ea.index_offset.offset + ea.index_offset.size <= eb.vertex_offset.offset
                ||| eb.index_offset.offset + eb.index_offset.size <= ea.vertex_offset.offset
            }),
            self@.entries[a@].vertex_offset.offset + self@.entries[a@].vertex_offset.size
                == self@.entries[a@].index_offset.offset,
            self@.entries[a@].index_offset.offset + self@.entries[a@].index_offset.size
                <= self@.buffer.length,
    {
    }

    /// The buffer's bookkeeping.
    pub fn buffer(&self) -> (r: &DynamicBuffer)
        ensures
            r@ == self@.buffer,
    {
        &self.buffer
    }
}

proof fn lemma_live_total_nonneg(ids: Seq<u64>, entries: Map<u64, GeometryEntry>)
    ensures
        live_total(ids, entries) >= 0,
    decreases ids.len(),
{
    if ids.len() > 0 {
        lemma_live_total_nonneg(ids.drop_last(), entries);
    }
}

/// Insertion is append-only and ids are fresh. An insert into a pool names its geometry with the
/// pool's next id, which no entry holds and which is above every id handed out before (the next
/// id only ever grows); the vertex bytes start where the bytes in use ended and the index bytes
/// right after them; and every entry already in the pool keeps exactly the ranges it had.
pub proof fn lemma_insert_is_append_only(
    before: GeometryPoolView,
    after: GeometryPoolView,
    vertex_len: u64,
    index_len: u64,
    total_size: u64,
)
    requires
        before.entries_in_buffer(),
        after.next_id == before.next_id + 1,
        after.entries == before.entries.insert(
            before.next_id,
            GeometryEntry {
                vertex_offset: before.buffer.extend_plan(vertex_len).offset,
                index_offset: before.buffer.extended(vertex_len).extend_plan(index_len).offset,
                total_size,
            },
        ),
    ensures
        !before.entries.contains_key(before.next_id),
        forall|g: u64| #[trigger] before.entries.contains_key(g) ==> g < before.next_id,
        before.next_id < after.next_id,
        after.entries[before.next_id].vertex_offset == (Offset {
            offset: before.buffer.length,
            size: vertex_len,
        }),
        after.entries[before.next_id].index_offset == (Offset {
            offset: (before.buffer.length + vertex_len) as u64,
            size: index_len,
        }),
        forall|g: u64|
            #[trigger] before.entries.contains_key(g) ==> after.entries.contains_key(g)
                && after.entries[g] == before.entries[g],
{
}

} // verus!