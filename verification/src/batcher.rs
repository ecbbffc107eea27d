//! Batching of 2D shape instances by z-index and material.
//!
//! Instances are grouped in layers, one per z-index, kept in increasing z order. Within a layer,
//! instances are grouped per material, in the order the materials first appear. Each group
//! becomes one instanced draw batch over shared geometry.
use vstd::prelude::*;
use crate::draw_batch::{DrawBatch, DrawBatchView, GeometryView};
use crate::geometry::GeometryRef;
use crate::handle::WeakGenericHandle;

verus! {

/// The shared base quad geometry, set once at init.
pub struct QuadGeometry {
    geometry: Option<GeometryRef>,
}

impl View for QuadGeometry {
    type V = Option<GeometryRef>;

    closed spec fn view(&self) -> Option<GeometryRef> {
        self.geometry
    }
}

impl QuadGeometry {
    /// Not set yet.
    pub fn new() -> (r: Self)
        ensures
            r@ is None,
    {
        QuadGeometry { geometry: None }
    }

    /// Sets the shared base quad geometry. Only the first call has an effect.
    pub fn set_quad_geometry(&mut self, geo: GeometryRef)
        ensures
            final(self)@ == (match old(self)@ {
                Some(g) => Some(g),
                None => Some(geo),
            }),
    {
        if self.geometry.is_none() {
            self.geometry = Some(geo);
        }
    }

    /// The shared base quad geometry.
    pub fn quad_geometry(&self) -> (r: GeometryRef)
        requires
            self@ is Some,
        ensures
            Some(r) == self@,
    {
        self.geometry.unwrap()
    }
}

/// The instances of one material within a layer: bytes, stride and the geometry to draw.
pub struct RawBatchView {
    pub material: WeakGenericHandle,
    pub stride: u32,
    pub geometry: GeometryRef,
    pub bytes: Seq<u8>,
}

struct InstanceBatchRaw {
    bytes: Vec<u8>,
    stride: u32,
    geometry: GeometryRef,
}

struct BatchLayer {
    batches: Vec<(WeakGenericHandle, InstanceBatchRaw)>,
    capacity_hint: usize,
}

/// Groups shape instances by z-index and material.
pub struct Batcher2D {
    layers: Vec<(u32, BatchLayer)>,
    capacity_hint: usize,
}

/// The group of `material` in `batches`, if there is one.
pub open spec fn group_of(batches: Seq<RawBatchView>, material: WeakGenericHandle) -> Option<int> {
    if exists|i: int| 0 <= i < batches.len() && batches[i].material == material {
        Some(choose|i: int| 0 <= i < batches.len() && batches[i].material == material)
    } else {
        None
    }
}

/// A layer after adding `data` for `material`: appended to that material's group, or a new
/// group at the end (whose stride and geometry are the ones given now).
pub open spec fn layer_added(
    batches: Seq<RawBatchView>,
    material: WeakGenericHandle,
    stride: u32,
    geometry: GeometryRef,
    data: Seq<u8>,
) -> Seq<RawBatchView> {
    match group_of(batches, material) {
        Some(i) => batches.update(i, RawBatchView { bytes: batches[i].bytes + data, ..batches[i] }),
        None => batches.push(RawBatchView { material, stride, geometry, bytes: data }),
    }
}

/// The layer at `z_index`, if there is one.
pub open spec fn layer_of(layers: Seq<(u32, Seq<RawBatchView>)>, z_index: u32) -> Option<int> {
    if exists|i: int| 0 <= i < layers.len() && layers[i].0 == z_index {
        Some(choose|i: int| 0 <= i < layers.len() && layers[i].0 == z_index)
    } else {
        None
    }
}

/// Whether position `q` lies after every layer below `z_index` and before every layer above it.
pub open spec fn is_slot(layers: Seq<(u32, Seq<RawBatchView>)>, z_index: u32, q: int) -> bool {
    &&& 0 <= q <= layers.len()
    &&& forall|i: int| 0 <= i < q ==> layers[i].0 < z_index
    &&& forall|i: int| q <= i < layers.len() ==> layers[i].0 > z_index
}

/// Where a layer at `z_index` goes: after every layer below it.
pub open spec fn layer_slot(layers: Seq<(u32, Seq<RawBatchView>)>, z_index: u32) -> int {
    choose|q: int| #[trigger] is_slot(layers, z_index, q)
}

/// The layers after adding `data` for `material` at `z_index`.
pub open spec fn layers_added(
    layers: Seq<(u32, Seq<RawBatchView>)>,
    material: WeakGenericHandle,
    stride: u32,
    geometry: GeometryRef,
    data: Seq<u8>,
    z_index: u32,
) -> Seq<(u32, Seq<RawBatchView>)> {
    match layer_of(layers, z_index) {
        Some(p) => layers.update(
            p,
            (z_index, layer_added(layers[p].1, material, stride, geometry, data)),
        ),
        None => layers.insert(
            layer_slot(layers, z_index),
            (z_index, seq![RawBatchView { material, stride, geometry, bytes: data }]),
        ),
    }
}

/// No two groups of a layer share a material.
pub open spec fn distinct_materials(batches: Seq<RawBatchView>) -> bool {
    forall|i: int, j: int| 0 <= i < j < batches.len() ==> batches[i].material != batches[j].material
}

/// Layers in strictly increasing z order, each with distinct materials.
pub open spec fn layers_ordered(layers: Seq<(u32, Seq<RawBatchView>)>) -> bool {
    &&& forall|i: int, j: int| 0 <= i < j < layers.len() ==> layers[i].0 < layers[j].0
    &&& forall|p: int| 0 <= p < layers.len() ==> distinct_materials(#[trigger] layers[p].1)
}

/// Whether adding for `material` at `z_index` starts a new group.
pub open spec fn creates_group(layers: Seq<(u32, Seq<RawBatchView>)>, material: WeakGenericHandle, z_index: u32) -> bool {
    match layer_of(layers, z_index) {
        Some(p) => group_of(layers[p].1, material) is None,
        None => true,
    }
}

/// The draw batch for one group: shared geometry drawn once per instance.
pub open spec fn batch_of(raw: RawBatchView) -> DrawBatchView {
    DrawBatchView {
        material: raw.material,
        geometry: GeometryView::Shared(raw.geometry),
        instances: Some((raw.bytes, raw.stride)),
    }
}

/// The draw batches of the layers, layer by layer, each layer's groups in order.
pub open spec fn flatten(layers: Seq<(u32, Seq<RawBatchView>)>) -> Seq<DrawBatchView>
    decreases layers.len(),
{
    if layers.len() == 0 {
        Seq::empty()
    } else {
        flatten(layers.drop_last()) + layers.last().1.map_values(|raw: RawBatchView| batch_of(raw))
    }
}

/// The z-index of each batch of [`flatten`], position by position.
pub open spec fn flatten_z(layers: Seq<(u32, Seq<RawBatchView>)>) -> Seq<u32>
    decreases layers.len(),
{
    if layers.len() == 0 {
        Seq::empty()
    } else {
        flatten_z(layers.drop_last()) + Seq::new(layers.last().1.len(), |i: int| layers.last().0)
    }
}

impl BatchLayer {
    spec fn view_batches(&self) -> Seq<RawBatchView> {
        self.batches@.map_values(
            |b: (WeakGenericHandle, InstanceBatchRaw)|
                RawBatchView {
                    material: b.0,
                    stride: b.1.stride,
                    geometry: b.1.geometry,
                    bytes: b.1.bytes@,
                },
        )
    }

    spec fn distinct(&self) -> bool {
        forall|i: int, j: int|
            0 <= i < j < self.batches@.len() ==> self.batches@[i].0 != self.batches@[j].0
    }

    fn new(capacity_hint: usize) -> (r: Self)
        ensures
            r.view_batches() == Seq::<RawBatchView>::empty(),
            r.capacity_hint == capacity_hint,
            r.distinct(),
    {
        let r = BatchLayer { batches: Vec::new(), capacity_hint };
        assert(r.view_batches() =~= Seq::<RawBatchView>::empty());
        r
    }

    fn add(&mut self, material: WeakGenericHandle, stride: u32, geometry: GeometryRef, data: &[u8])
        requires
            old(self).distinct(),
            group_of(old(self).view_batches(), material) is None ==> old(self).capacity_hint
                * stride <= usize::MAX,
        ensures
            final(self).distinct(),
            final(self).capacity_hint == old(self).capacity_hint,
            final(self).view_batches() == layer_added(
                old(self).view_batches(),
                material,
                stride,
                geometry,
                data@,
            ),
    {
        let ghost before = self.view_batches();
        let n = self.batches.len();
        let mut i: usize = 0;
        while i < n
            invariant
                n == self.batches@.len(),
                i <= n,
                forall|j: int| 0 <= j < i ==> self.batches@[j].0 != material,
            ensures
                i <= n,
                i < n ==> self.batches@[i as int].0 == material,
                forall|j: int| 0 <= j < i ==> self.batches@[j].0 != material,
            decreases n - i,
        {
            if self.batches[i].0 == material {
                break;
            }
            i = i + 1;
        }
        if i < n {
            assert(self.batches@[i as int].0 == material);
            proof {
                assert(before[i as int].material == material);
                let c = choose|c: int| 0 <= c < before.len() && before[c].material == material;
                assert(c == i as int) by {
                    if c != i as int {
                        assert(self.batches@[c].0 == material);
                    }
                }
            }
            let entry = &mut self.batches[i];
            let mut k: usize = 0;
            let ghost bytes0 = entry.1.bytes@;
            while k < data.len()
                invariant
                    k <= data@.len(),
                    entry.1.bytes@ == bytes0 + data@.take(k as int),
                    entry.1.stride == old(self).batches@[i as int].1.stride,
                    entry.1.geometry == old(self).batches@[i as int].1.geometry,
                    entry.0 == old(self).batches@[i as int].0,
                decreases data@.len() - k,
            {
                entry.1.bytes.push(data[k]);
                proof {
                    assert(data@.take(k as int + 1) =~= data@.take(k as int).push(data@[k as int]));
                }
                k = k + 1;
            }
            assert(data@.take(data@.len() as int) =~= data@);
            proof {
                assert(self.view_batches() =~= layer_added(before, material, stride, geometry, data@));
            }
        } else {
            proof {
                assert(group_of(before, material) is None) by {
                    if exists|c: int| 0 <= c < before.len() && before[c].material == material {
                        let c = choose|c: int| 0 <= c < before.len() && before[c].material == material;
                        assert(self.batches@[c].0 == material);
                    }
                }
            }
            let mut bytes: Vec<u8> = Vec::new();
            if self.capacity_hint > 0 {
                bytes.reserve(self.capacity_hint * stride as usize);
            }
            let mut k: usize = 0;
            while k < data.len()
                invariant
                    k <= data@.len(),
                    bytes@ == data@.take(k as int),
                decreases data@.len() - k,
            {
                bytes.push(data[k]);
                proof {
                    assert(data@.take(k as int + 1) =~= data@.take(k as int).push(data@[k as int]));
                }
                k = k + 1;
            }
            assert(data@.take(data@.len() as int) =~= data@);
            self.batches.push((material, InstanceBatchRaw { bytes, stride, geometry }));
            proof {
                assert(self.view_batches() =~= layer_added(before, material, stride, geometry, data@));
            }
        }
    }
}

impl Batcher2D {
    /// The layers (z-index and groups), in increasing z order.
    pub closed spec fn layers(&self) -> Seq<(u32, Seq<RawBatchView>)> {
        self.layers@.map_values(|l: (u32, BatchLayer)| (l.0, l.1.view_batches()))
    }

    /// The instances reserved for per material group.
    pub closed spec fn capacity_hint(&self) -> usize {
        self.capacity_hint
    }

    pub closed spec fn wf(&self) -> bool {
        &&& layers_ordered(self.layers())
        &&& forall|p: int|
            0 <= p < self.layers@.len() ==> #[trigger] self.layers@[p].1.capacity_hint
                == self.capacity_hint
        &&& forall|p: int| 0 <= p < self.layers@.len() ==> (#[trigger] self.layers@[p]).1.distinct()
    }

    /// A well-formed batcher keeps its layers in strictly increasing z order, with no material
    /// twice in a layer.
    pub proof fn lemma_wf_ordered(&self)
        requires
            self.wf(),
        ensures
            layers_ordered(self.layers()),
    {
    }

    /// An empty batcher.
    pub fn new() -> (r: Self)
        ensures
            r.wf(),
            r.layers() == Seq::<(u32, Seq<RawBatchView>)>::empty(),
            r.capacity_hint() == 0,
    {
        let r = Batcher2D { layers: Vec::new(), capacity_hint: 0 };
        assert(r.layers() =~= Seq::<(u32, Seq<RawBatchView>)>::empty());
        r
    }

    /// Pre-allocates capacity for `hint` instances per material group created from now on.
    pub fn reserve(&mut self, hint: usize)
        requires
            old(self).wf(),
        ensures
            final(self).layers() == old(self).layers(),
            final(self).capacity_hint() == hint,
    {
        self.capacity_hint = hint;
    }

    /// Adds the bytes of one shape instance for `material` at `z_index`. `stride` (the size of
    /// the shape's instance data) and `geometry` (the shape's shared geometry) are recorded when
    /// the material's group in that layer is created.
    pub fn add(&mut self, material: WeakGenericHandle, stride: u32, geometry: GeometryRef, data: &[u8], z_index: u32)
        requires
            old(self).wf(),
            creates_group(old(self).layers(), material, z_index) ==> old(self).capacity_hint()
                * stride <= usize::MAX,
        ensures
            final(self).wf(),
            final(self).capacity_hint() == old(self).capacity_hint(),
            final(self).layers() == layers_added(
                old(self).layers(),
                material,
                stride,
                geometry,
                data@,
                z_index,
            ),
            group_at(final(self).layers(), z_index, material) == Some(
                match group_at(old(self).layers(), z_index, material) {
                    Some(g) => RawBatchView { bytes: g.bytes + data@, ..g },
                    None => RawBatchView { material, stride, geometry, bytes: data@ },
                },
            ),
            forall|z: u32, m: WeakGenericHandle|
                z != z_index || m != material ==> #[trigger] group_at(final(self).layers(), z, m)
                    == group_at(old(self).layers(), z, m),
    {
        let ghost before = self.layers();
        let n = self.layers.len();
        let mut i: usize = 0;
        while i < n
            invariant
                n == self.layers@.len(),
                i <= n,
                forall|j: int| 0 <= j < i ==> self.layers@[j].0 < z_index,
            ensures
                i <= n,
                i < n ==> self.layers@[i as int].0 >= z_index,
                forall|j: int| 0 <= j < i ==> self.layers@[j].0 < z_index,
            decreases n - i,
        {
            if self.layers[i].0 >= z_index {
                break;
            }
            i = i + 1;
        }
        if i < n && self.layers[i].0 == z_index {
            proof {
                assert(before[i as int].0 == z_index);
                let c = choose|c: int| 0 <= c < before.len() && before[c].0 == z_index;
                assert(c == i as int) by {
                    if c < i as int {
                        assert(before[c].0 < before[i as int].0);
                    } else if c > i as int {
                        assert(before[i as int].0 < before[c].0);
                    }
                }
                assert(self.layers@[i as int].1.view_batches() == before[i as int].1);
            }
            let layer = &mut self.layers[i];
            layer.1.add(material, stride, geometry, data);
            proof {
                let after = self.layers();
                assert(after =~= before.update(
                    i as int,
                    (z_index, layer_added(before[i as int].1, material, stride, geometry, data@)),
                ));
                assert forall|a: int, b: int| 0 <= a < b < after.len() implies after[a].0 < after[b].0 by {
                    assert(before[a].0 < before[b].0);
                }
                assert forall|p: int| 0 <= p < after.len() implies distinct_materials(#[trigger] after[p].1) by {
                    if p != i as int {
                        assert(after[p] == before[p]);
                        assert(self.layers@[p] == old(self).layers@[p]);
                    }
                    assert(self.layers@[p].1.distinct());
                    assert forall|x: int, y: int| 0 <= x < y < after[p].1.len() implies after[p].1[x].material != after[p].1[y].material by {
                        assert(after[p].1[x].material == self.layers@[p].1.batches@[x].0);
                        assert(after[p].1[y].material == self.layers@[p].1.batches@[y].0);
                    }
                }
            }
        } else {
            proof {
                assert(layer_of(before, z_index) is None) by {
                    if exists|c: int| 0 <= c < before.len() && before[c].0 == z_index {
                        let c = choose|c: int| 0 <= c < before.len() && before[c].0 == z_index;
                        if c < i as int {
                        } else {
                            assert(before[i as int].0 <= before[c].0);
                        }
                    }
                }
                assert(forall|j: int| i <= j < before.len() ==> before[j].0 > z_index) by {
                    assert forall|j: int| i <= j < before.len() implies before[j].0 > z_index by {
                        if j > i as int {
                            assert(before[i as int].0 < before[j].0);
                        }
                    }
                }
                assert(is_slot(before, z_index, i as int));
                let q = layer_slot(before, z_index);
                assert(q == i as int) by {
                    if q < i as int {
                        assert(before[q].0 < z_index);
                    } else if q > i as int {
                        assert(before[i as int].0 < z_index);
                    }
                }
            }
            let mut layer = BatchLayer::new(self.capacity_hint);
            layer.add(material, stride, geometry, data);
            self.layers.insert(i, (z_index, layer));
            proof {
                let after = self.layers();
                let one = seq![RawBatchView { material, stride, geometry, bytes: data@ }];
                assert(layer_added(Seq::empty(), material, stride, geometry, data@) =~= one);
                assert(after =~= before.insert(i as int, (z_index, one)));
                assert forall|a: int, b: int| 0 <= a < b < after.len() implies after[a].0 < after[b].0 by {
                    let a2 = if a < i as int { a } else { a - 1 };
                    let b2 = if b <= i as int { b } else { b - 1 };
                    if a != i as int && b != i as int {
                        assert(before[a2].0 < before[b2].0 || a2 == b2);
                    }
                }
                assert forall|p: int| 0 <= p < after.len() implies distinct_materials(#[trigger] after[p].1) by {
                    assert(self.layers@[p].1.distinct());
                    assert forall|x: int, y: int| 0 <= x < y < after[p].1.len() implies after[p].1[x].material != after[p].1[y].material by {
                        assert(after[p].1[x].material == self.layers@[p].1.batches@[x].0);
                        assert(after[p].1[y].material == self.layers@[p].1.batches@[y].0);
                    }
                }
            }
        }
        proof {
            assert(self.layers() == layers_added(before, material, stride, geometry, data@, z_index));
            lemma_add_appends_to_its_group(before, material, stride, geometry, data@, z_index);
        }
    }

    /// The draw batches, one per group: layers in increasing z order, within a layer the groups
    /// in the order their materials first appeared. Each batch draws the group's shared geometry
    /// once per instance, with the group's bytes as instance data.
    pub fn into_iter(self) -> (r: Vec<DrawBatch>)
        requires
            self.wf(),
        ensures
            r@.map_values(|b: DrawBatch| b@) == flatten(self.layers()),
    {
        let ghost layers = self.layers();
        let mut out: Vec<DrawBatch> = Vec::new();
        let n = self.layers.len();
        let mut p: usize = 0;
        while p < n
            invariant
                n == layers.len(),
                layers == self.layers(),
                p <= n,
                out@.map_values(|b: DrawBatch| b@) == flatten(layers.take(p as int)),
            decreases n - p,
        {
            let layer = &self.layers[p].1;
            let ghost start = out@.map_values(|b: DrawBatch| b@);
            let ghost groups = layers[p as int].1;
            assert(groups == layer.view_batches());
            let m = layer.batches.len();
            let mut k: usize = 0;
            while k < m
                invariant
                    m == groups.len(),
                    groups == layer.view_batches(),
                    k <= m,
                    out@.map_values(|b: DrawBatch| b@) == start + groups.take(k as int).map_values(
                        |raw: RawBatchView| batch_of(raw),
                    ),
                decreases m - k,
            {
                let entry = &layer.batches[k];
                let batch = DrawBatch::with_shared_geometry(entry.0, entry.1.geometry).with_instances(
                    entry.1.bytes.as_slice(),
                    entry.1.stride,
                );
                let ghost bv = batch@;
                let ghost before_push = out@;
                out.push(batch);
                proof {
                    assert(out@.map_values(|b: DrawBatch| b@) =~= before_push.map_values(|b: DrawBatch| b@).push(bv));
                    assert(groups[k as int] == RawBatchView {
                        material: entry.0,
                        stride: entry.1.stride,
                        geometry: entry.1.geometry,
                        bytes: entry.1.bytes@,
                    });
                    assert(bv == batch_of(groups[k as int]));
                    assert(groups.take(k as int + 1).map_values(|raw: RawBatchView| batch_of(raw))
                        =~= groups.take(k as int).map_values(|raw: RawBatchView| batch_of(raw)).push(
                        batch_of(groups[k as int]),
                    ));
                    assert(out@.map_values(|b: DrawBatch| b@) =~= start + groups.take(k as int
                        + 1).map_values(|raw: RawBatchView| batch_of(raw)));
                }
                k = k + 1;
            }
            proof {
                assert(groups.take(m as int) =~= groups);
                assert(layers.take(p as int + 1).drop_last() =~= layers.take(p as int));
                assert(layers.take(p as int + 1).last() == layers[p as int]);
            }
            p = p + 1;
        }
        assert(layers.take(n as int) =~= layers);
        out
    }
}

/// Every draw batch that [`Batcher2D::into_iter`] yields comes from a layer at or above the
/// layer of every batch before it: batches come out in z-index order.
pub proof fn lemma_batches_in_z_order(layers: Seq<(u32, Seq<RawBatchView>)>)
    requires
        layers_ordered(layers),
    ensures
        flatten_z(layers).len() == flatten(layers).len(),
        forall|i: int, j: int|
            0 <= i <= j < flatten_z(layers).len() ==> flatten_z(layers)[i] <= flatten_z(layers)[j],
    decreases layers.len(),
{
    if layers.len() > 0 {
        let rest = layers.drop_last();
        assert(layers_ordered(rest)) by {
            assert forall|p: int| 0 <= p < rest.len() implies distinct_materials(#[trigger] rest[p].1) by {
                assert(rest[p] == layers[p]);
            }
        }
        lemma_batches_in_z_order(rest);
        lemma_flatten_z_bound(rest, layers.last().0);
        let zs = flatten_z(layers);
        let head = flatten_z(rest);
        assert forall|i: int, j: int| 0 <= i <= j < zs.len() implies zs[i] <= zs[j] by {
            if j < head.len() {
                assert(zs[i] == head[i] && zs[j] == head[j]);
            } else if i >= head.len() {
                assert(zs[i] == layers.last().0 && zs[j] == layers.last().0);
            } else {
                assert(zs[i] == head[i]);
                assert(zs[j] == layers.last().0);
            }
        }
    }
}

/// No two draw batches that [`Batcher2D::into_iter`] yields share both their z-index and their
/// material: each (z-index, material) group is drawn by exactly one batch.
pub proof fn lemma_one_batch_per_group(layers: Seq<(u32, Seq<RawBatchView>)>)
    requires
        layers_ordered(layers),
    ensures
        flatten_z(layers).len() == flatten(layers).len(),
        forall|i: int, j: int|
            0 <= i < j < flatten(layers).len() ==> flatten_z(layers)[i] != flatten_z(layers)[j]
                || flatten(layers)[i].material != flatten(layers)[j].material,
    decreases layers.len(),
{
    lemma_batches_in_z_order(layers);
    if layers.len() > 0 {
        let rest = layers.drop_last();
        let last = layers.last();
        assert(layers_ordered(rest)) by {
            assert forall|p: int| 0 <= p < rest.len() implies distinct_materials(#[trigger] rest[p].1) by {
                assert(rest[p] == layers[p]);
            }
        }
        lemma_one_batch_per_group(rest);
        lemma_flatten_z_bound(rest, last.0);
        assert(distinct_materials(layers[layers.len() - 1].1));
        let bs = flatten(layers);
        let zs = flatten_z(layers);
        let h = flatten(rest).len();
        assert forall|i: int, j: int| 0 <= i < j < bs.len() implies zs[i] != zs[j]
            || bs[i].material != bs[j].material by {
            if j < h {
                assert(zs[i] == flatten_z(rest)[i] && zs[j] == flatten_z(rest)[j]);
                assert(bs[i] == flatten(rest)[i] && bs[j] == flatten(rest)[j]);
            } else if i >= h {
                assert(bs[i] == batch_of(last.1[i - h]));
                assert(bs[j] == batch_of(last.1[j - h]));
            } else {
                assert(zs[i] == flatten_z(rest)[i]);
                assert(zs[j] == last.0);
            }
        }
    }
}

/// The group of `material` in the layer at `z_index` (its material, stride, geometry and bytes),
/// if there is such a group.
pub open spec fn group_at(
    layers: Seq<(u32, Seq<RawBatchView>)>,
    z_index: u32,
    material: WeakGenericHandle,
) -> Option<RawBatchView> {
    match layer_of(layers, z_index) {
        Some(p) => match group_of(layers[p].1, material) {
            Some(i) => Some(layers[p].1[i]),
            None => None,
        },
        None => None,
    }
}

/// The bytes of the group of `material` in the layer at `z_index`, if there is such a group.
pub open spec fn group_bytes(
    layers: Seq<(u32, Seq<RawBatchView>)>,
    z_index: u32,
    material: WeakGenericHandle,
) -> Option<Seq<u8>> {
    match group_at(layers, z_index, material) {
        Some(g) => Some(g.bytes),
        None => None,
    }
}

/// In ordered layers, the layer at a z-index is the one that has it.
proof fn lemma_layer_of_unique(layers: Seq<(u32, Seq<RawBatchView>)>, z_index: u32, p: int)
    requires
        layers_ordered(layers),
        0 <= p < layers.len(),
        layers[p].0 == z_index,
    ensures
        layer_of(layers, z_index) == Some(p),
{
    let c = choose|c: int| 0 <= c < layers.len() && layers[c].0 == z_index;
    if c < p {
        assert(layers[c].0 < layers[p].0);
    } else if c > p {
        assert(layers[p].0 < layers[c].0);
    }
}

/// In a layer with distinct materials, the group of a material is the one that has it.
proof fn lemma_group_of_unique(batches: Seq<RawBatchView>, material: WeakGenericHandle, i: int)
    requires
        distinct_materials(batches),
        0 <= i < batches.len(),
        batches[i].material == material,
    ensures
        group_of(batches, material) == Some(i),
{
    let c = choose|c: int| 0 <= c < batches.len() && batches[c].material == material;
    if c < i {
        assert(batches[c].material != batches[i].material);
    } else if c > i {
        assert(batches[i].material != batches[c].material);
    }
}

/// Ordered layers without a layer at `z_index` have a place for one.
proof fn lemma_slot_exists(layers: Seq<(u32, Seq<RawBatchView>)>, z_index: u32)
    requires
        forall|i: int, j: int| 0 <= i < j < layers.len() ==> layers[i].0 < layers[j].0,
        forall|i: int| 0 <= i < layers.len() ==> layers[i].0 != z_index,
    ensures
        exists|q: int| #[trigger] is_slot(layers, z_index, q),
    decreases layers.len(),
{
    if layers.len() == 0 {
        assert(is_slot(layers, z_index, 0));
    } else {
        let n = layers.len() as int;
        if layers[n - 1].0 < z_index {
            assert(is_slot(layers, z_index, n));
        } else {
            let rest = layers.drop_last();
            lemma_slot_exists(rest, z_index);
            let q = choose|q: int| #[trigger] is_slot(rest, z_index, q);
            assert(layers[n - 1].0 != z_index);
            assert forall|i: int| 0 <= i < q implies layers[i].0 < z_index by {
                assert(rest[i] == layers[i]);
            }
            assert forall|i: int| q <= i < layers.len() implies layers[i].0 > z_index by {
                if i < n - 1 {
                    assert(rest[i] == layers[i]);
                }
            }
            assert(is_slot(layers, z_index, q));
        }
    }
}

/// A layer after adding `data` for `material` has distinct materials again, keeps every other
/// group as it was, and gives `material` its bytes followed by `data`.
proof fn lemma_layer_added(
    batches: Seq<RawBatchView>,
    material: WeakGenericHandle,
    stride: u32,
    geometry: GeometryRef,
    data: Seq<u8>,
)
    requires
        distinct_materials(batches),
    ensures
        ({
            let after = layer_added(batches, material, stride, geometry, data);
            &&& distinct_materials(after)
            &&& group_of(after, material) matches Some(i) && after[i] == match group_of(
                batches,
                material,
            ) {
                Some(j) => RawBatchView { bytes: batches[j].bytes + data, ..batches[j] },
                None => RawBatchView { material, stride, geometry, bytes: data },
            }
            &&& forall|m: WeakGenericHandle|
                m != material ==> match #[trigger] group_of(after, m) {
                    Some(i) => group_of(batches, m) matches Some(j) && after[i] == batches[j],
                    None => group_of(batches, m) is None,
                }
        }),
{
    let after = layer_added(batches, material, stride, geometry, data);
    match group_of(batches, material) {
        Some(j) => {
            assert(0 <= j < batches.len() && batches[j].material == material);
            assert(distinct_materials(after)) by {
                assert forall|a: int, b: int| 0 <= a < b < after.len() implies after[a].material
                    != after[b].material by {
                    assert(after[a].material == batches[a].material);
                    assert(after[b].material == batches[b].material);
                }
            }
            lemma_group_of_unique(after, material, j);
            assert forall|m: WeakGenericHandle| m != material implies match #[trigger] group_of(
                after,
                m,
            ) {
                Some(i) => group_of(batches, m) matches Some(k) && after[i] == batches[k],
                None => group_of(batches, m) is None,
            } by {
                if exists|c: int| 0 <= c < batches.len() && batches[c].material == m {
                    let c = choose|c: int| 0 <= c < batches.len() && batches[c].material == m;
                    lemma_group_of_unique(batches, m, c);
                    assert(c != j);
                    assert(after[c] == batches[c]);
                    lemma_group_of_unique(after, m, c);
                } else {
                    if exists|c: int| 0 <= c < after.len() && after[c].material == m {
                        let c = choose|c: int| 0 <= c < after.len() && after[c].material == m;
                        assert(batches[c].material == m);
                    }
                }
            }
        },
        None => {
            assert(!exists|c: int| 0 <= c < batches.len() && batches[c].material == material);
            let n = batches.len() as int;
            assert(distinct_materials(after)) by {
                assert forall|a: int, b: int| 0 <= a < b < after.len() implies after[a].material
                    != after[b].material by {
                    if b == n {
                        assert(after[a] == batches[a]);
                    } else {
                        assert(after[a] == batches[a]);
                        assert(after[b] == batches[b]);
                    }
                }
            }
            lemma_group_of_unique(after, material, n);
            assert forall|m: WeakGenericHandle| m != material implies match #[trigger] group_of(
                after,
                m,
            ) {
                Some(i) => group_of(batches, m) matches Some(k) && after[i] == batches[k],
                None => group_of(batches, m) is None,
            } by {
                if exists|c: int| 0 <= c < batches.len() && batches[c].material == m {
                    let c = choose|c: int| 0 <= c < batches.len() && batches[c].material == m;
                    lemma_group_of_unique(batches, m, c);
                    assert(after[c] == batches[c]);
                    lemma_group_of_unique(after, m, c);
                } else {
                    if exists|c: int| 0 <= c < after.len() && after[c].material == m {
                        let c = choose|c: int| 0 <= c < after.len() && after[c].material == m;
                        assert(c != n);
                        assert(batches[c].material == m);
                    }
                }
            }
        },
    }
}

/// Adding the bytes of one instance (as [`Batcher2D::add`] does) appends them to the group of its
/// material in the layer of its z-index, starting the group, and the layer, when there is none
/// yet; every other (z-index, material) group keeps its bytes, and the layers stay ordered.
pub proof fn lemma_add_appends_to_its_group(
    layers: Seq<(u32, Seq<RawBatchView>)>,
    material: WeakGenericHandle,
    stride: u32,
    geometry: GeometryRef,
    data: Seq<u8>,
    z_index: u32,
)
    requires
        layers_ordered(layers),
    ensures
        ({
            let after = layers_added(layers, material, stride, geometry, data, z_index);
            &&& layers_ordered(after)
            &&& group_bytes(after, z_index, material) == Some(
                match group_bytes(layers, z_index, material) {
                    Some(b) => b + data,
                    None => data,
                },
            )
            &&& forall|z: u32, m: WeakGenericHandle|
                z != z_index || m != material ==> #[trigger] group_bytes(after, z, m)
                    == group_bytes(layers, z, m)
            &&& group_at(after, z_index, material) == Some(
                match group_at(layers, z_index, material) {
                    Some(g) => RawBatchView { bytes: g.bytes + data, ..g },
                    None => RawBatchView { material, stride, geometry, bytes: data },
                },
            )
            &&& forall|z: u32, m: WeakGenericHandle|
                z != z_index || m != material ==> #[trigger] group_at(after, z, m)
                    == group_at(layers, z, m)
        }),
{
    let after = layers_added(layers, material, stride, geometry, data, z_index);
    match layer_of(layers, z_index) {
        Some(p) => {
            assert(0 <= p < layers.len() && layers[p].0 == z_index);
            let batches = layers[p].1;
            assert(distinct_materials(layers[p].1));
            lemma_layer_added(batches, material, stride, geometry, data);
            let added = layer_added(batches, material, stride, geometry, data);
            assert(after == layers.update(p, (z_index, added)));
            assert(layers_ordered(after)) by {
                assert forall|i: int, j: int| 0 <= i < j < after.len() implies after[i].0
                    < after[j].0 by {
                    assert(after[i].0 == layers[i].0);
                    assert(after[j].0 == layers[j].0);
                }
                assert forall|q: int| 0 <= q < after.len() implies distinct_materials(
                    #[trigger] after[q].1,
                ) by {
                    if q != p {
                        assert(after[q] == layers[q]);
                    }
                }
            }
            lemma_layer_of_unique(after, z_index, p);
            assert forall|z: u32, m: WeakGenericHandle|
                z != z_index || m != material implies #[trigger] group_at(after, z, m)
                == group_at(layers, z, m) by {
                if z == z_index {
                    assert(group_of(added, m) matches Some(i) ==> group_of(batches, m) is Some);
                } else {
                    if exists|c: int| 0 <= c < layers.len() && layers[c].0 == z {
                        let c = choose|c: int| 0 <= c < layers.len() && layers[c].0 == z;
                        lemma_layer_of_unique(layers, z, c);
                        assert(after[c] == layers[c]);
                        lemma_layer_of_unique(after, z, c);
                    } else {
                        if exists|c: int| 0 <= c < after.len() && after[c].0 == z {
                            let c = choose|c: int| 0 <= c < after.len() && after[c].0 == z;
                            assert(layers[c].0 == z);
                        }
                    }
                }
            }
        },
        None => {
            assert(forall|i: int| 0 <= i < layers.len() ==> layers[i].0 != z_index);
            lemma_slot_exists(layers, z_index);
            let q = layer_slot(layers, z_index);
            assert(is_slot(layers, z_index, q));
            let one = seq![RawBatchView { material, stride, geometry, bytes: data }];
            assert(after == layers.insert(q, (z_index, one)));
            assert(layers_ordered(after)) by {
                assert forall|i: int, j: int| 0 <= i < j < after.len() implies after[i].0
                    < after[j].0 by {
                    let i2 = if i < q { i } else { i - 1 };
                    let j2 = if j <= q { j } else { j - 1 };
                    if i != q && j != q {
                        assert(after[i] == layers[i2]);
                        assert(after[j] == layers[j2]);
                        assert(i2 < j2);
                    } else if i == q {
                        assert(after[j] == layers[j2]);
                    } else {
                        assert(after[i] == layers[i2]);
                    }
                }
                assert forall|k: int| 0 <= k < after.len() implies distinct_materials(
                    #[trigger] after[k].1,
                ) by {
                    if k < q {
                        assert(after[k] == layers[k]);
                    } else if k > q {
                        assert(after[k] == layers[k - 1]);
                    }
                }
            }
            lemma_layer_of_unique(after, z_index, q);
            lemma_group_of_unique(one, material, 0);
            assert forall|z: u32, m: WeakGenericHandle|
                z != z_index || m != material implies #[trigger] group_at(after, z, m)
                == group_at(layers, z, m) by {
                if z == z_index {
                    assert(!exists|c: int| 0 <= c < one.len() && one[c].material == m);
                } else {
                    if exists|c: int| 0 <= c < layers.len() && layers[c].0 == z {
                        let c = choose|c: int| 0 <= c < layers.len() && layers[c].0 == z;
                        lemma_layer_of_unique(layers, z, c);
                        let c2 = if c < q { c } else { c + 1 };
                        assert(after[c2] == layers[c]);
                        lemma_layer_of_unique(after, z, c2);
                    } else {
                        if exists|c: int| 0 <= c < after.len() && after[c].0 == z {
                            let c = choose|c: int| 0 <= c < after.len() && after[c].0 == z;
                            assert(c != q);
                            let c2 = if c < q { c } else { c - 1 };
                            assert(layers[c2].0 == z);
                        }
                    }
                }
            }
        },
    }
    assert forall|z: u32, m: WeakGenericHandle|
        z != z_index || m != material implies #[trigger] group_bytes(after, z, m) == group_bytes(
        layers,
        z,
        m,
    ) by {
        assert(group_at(after, z, m) == group_at(layers, z, m));
    }
}

/// The layers after adding, in order, each instance of `adds` (material, stride, geometry, bytes,
/// z-index) to `layers`.
pub open spec fn apply_adds(
    layers: Seq<(u32, Seq<RawBatchView>)>,
    adds: Seq<(WeakGenericHandle, u32, GeometryRef, Seq<u8>, u32)>,
) -> Seq<(u32, Seq<RawBatchView>)>
    decreases adds.len(),
{
    if adds.len() == 0 {
        layers
    } else {
        let last = adds.last();
        layers_added(apply_adds(layers, adds.drop_last()), last.0, last.1, last.2, last.3, last.4)
    }
}

/// Whether some instance of `adds` was added for `material` at `z_index`.
pub open spec fn any_added(
    adds: Seq<(WeakGenericHandle, u32, GeometryRef, Seq<u8>, u32)>,
    z_index: u32,
    material: WeakGenericHandle,
) -> bool {
    exists|i: int| 0 <= i < adds.len() && adds[i].4 == z_index && adds[i].0 == material
}

/// The bytes of the instances of `adds` added for `material` at `z_index`, in order.
pub open spec fn bytes_added(
    adds: Seq<(WeakGenericHandle, u32, GeometryRef, Seq<u8>, u32)>,
    z_index: u32,
    material: WeakGenericHandle,
) -> Seq<u8>
    decreases adds.len(),
{
    if adds.len() == 0 {
        Seq::empty()
    } else {
        let last = adds.last();
        bytes_added(adds.drop_last(), z_index, material) + if last.4 == z_index && last.0
            == material {
            last.3
        } else {
            Seq::empty()
        }
    }
}

proof fn lemma_nothing_added(
    adds: Seq<(WeakGenericHandle, u32, GeometryRef, Seq<u8>, u32)>,
    z_index: u32,
    material: WeakGenericHandle,
)
    requires
        !any_added(adds, z_index, material),
    ensures
        bytes_added(adds, z_index, material) == Seq::<u8>::empty(),
    decreases adds.len(),
{
    if adds.len() > 0 {
        let rest = adds.drop_last();
        assert(!any_added(rest, z_index, material)) by {
            if any_added(rest, z_index, material) {
                let i = choose|i: int|
                    0 <= i < rest.len() && rest[i].4 == z_index && rest[i].0 == material;
                assert(adds[i] == rest[i]);
            }
        }
        lemma_nothing_added(rest, z_index, material);
        assert(!(adds.last().4 == z_index && adds.last().0 == material)) by {
            if adds.last().4 == z_index && adds.last().0 == material {
                assert(adds[adds.len() - 1] == adds.last());
            }
        }
        assert(bytes_added(adds, z_index, material) =~= Seq::<u8>::empty());
    }
}

/// Batching loses, duplicates and reorders no instance: after adding instances one by one to an
/// empty batcher, the (z-index, material) groups are exactly those that instances were added for,
/// and each group holds the bytes of the instances added for it, in the order they were added.
pub proof fn lemma_batches_keep_every_instance(
    adds: Seq<(WeakGenericHandle, u32, GeometryRef, Seq<u8>, u32)>,
)
    ensures
        layers_ordered(apply_adds(Seq::empty(), adds)),
        forall|z: u32, m: WeakGenericHandle|
            #[trigger] group_bytes(apply_adds(Seq::empty(), adds), z, m) == if any_added(
                adds,
                z,
                m,
            ) {
                Some(bytes_added(adds, z, m))
            } else {
                None
            },
    decreases adds.len(),
{
    let empty = Seq::<(u32, Seq<RawBatchView>)>::empty();
    if adds.len() == 0 {
        assert forall|z: u32, m: WeakGenericHandle| #[trigger] group_bytes(
            apply_adds(empty, adds),
            z,
            m,
        ) == if any_added(adds, z, m) {
            Some(bytes_added(adds, z, m))
        } else {
            None
        } by {}
    } else {
        let rest = adds.drop_last();
        let last = adds.last();
        lemma_batches_keep_every_instance(rest);
        let before = apply_adds(empty, rest);
        lemma_add_appends_to_its_group(before, last.0, last.1, last.2, last.3, last.4);
        assert forall|z: u32, m: WeakGenericHandle| #[trigger] group_bytes(
            apply_adds(empty, adds),
            z,
            m,
        ) == if any_added(adds, z, m) {
            Some(bytes_added(adds, z, m))
        } else {
            None
        } by {
            let n = adds.len() - 1;
            assert(adds[n] == last);
            assert(any_added(rest, z, m) ==> any_added(adds, z, m)) by {
                if any_added(rest, z, m) {
                    let i = choose|i: int| 0 <= i < rest.len() && rest[i].4 == z && rest[i].0 == m;
                    assert(adds[i] == rest[i]);
                }
            }
            if z == last.4 && m == last.0 {
                assert(any_added(adds, z, m));
                if !any_added(rest, z, m) {
                    lemma_nothing_added(rest, z, m);
                    assert(Seq::<u8>::empty() + last.3 =~= last.3);
                }
            } else {
                assert(any_added(adds, z, m) ==> any_added(rest, z, m)) by {
                    if any_added(adds, z, m) {
                        let i = choose|i: int| 0 <= i < adds.len() && adds[i].4 == z && adds[i].0 == m;
                        assert(i != n);
                        assert(rest[i] == adds[i]);
                    }
                }
                assert(bytes_added(adds, z, m) =~= bytes_added(rest, z, m));
            }
        }
    }
}

/// Every batch of layers strictly below `z` has a z-index below `z`.
proof fn lemma_flatten_z_bound(layers: Seq<(u32, Seq<RawBatchView>)>, z: u32)
    requires
        forall|i: int| 0 <= i < layers.len() ==> layers[i].0 < z,
    ensures
        forall|i: int| 0 <= i < flatten_z(layers).len() ==> flatten_z(layers)[i] < z,
    decreases layers.len(),
{
    if layers.len() > 0 {
        lemma_flatten_z_bound(layers.drop_last(), z);
        let head = flatten_z(layers.drop_last());
        assert forall|i: int| 0 <= i < flatten_z(layers).len() implies flatten_z(layers)[i] < z by {
            if i < head.len() {
                assert(flatten_z(layers)[i] == head[i]);
            }
        }
    }
}

/// Whether, among the instances of `adds` at `z_index`, one for `a` comes before every one for
/// `b`.
pub open spec fn added_first(
    adds: Seq<(WeakGenericHandle, u32, GeometryRef, Seq<u8>, u32)>,
    z_index: u32,
    a: WeakGenericHandle,
    b: WeakGenericHandle,
) -> bool {
    forall|k: int|
        0 <= k < adds.len() && (#[trigger] adds[k]).4 == z_index && adds[k].0 == b ==> exists|
            k2: int,
        |
            0 <= k2 < k && (#[trigger] adds[k2]).4 == z_index && adds[k2].0 == a
}

/// Every group of the layers built from `adds` is for a material that some instance was added
/// for at that layer's z-index.
proof fn lemma_groups_were_added(adds: Seq<(WeakGenericHandle, u32, GeometryRef, Seq<u8>, u32)>)
    ensures
        ({
            let layers = apply_adds(Seq::empty(), adds);
            forall|p: int, i: int|
                0 <= p < layers.len() && 0 <= i < layers[p].1.len() ==> #[trigger] any_added(
                    adds,
                    layers[p].0,
                    layers[p].1[i].material,
                )
        }),
{
    let layers = apply_adds(Seq::empty(), adds);
    lemma_batches_keep_every_instance(adds);
    assert forall|p: int, i: int|
        0 <= p < layers.len() && 0 <= i < layers[p].1.len() implies #[trigger] any_added(
        adds,
        layers[p].0,
        layers[p].1[i].material,
    ) by {
        let z = layers[p].0;
        let m = layers[p].1[i].material;
        lemma_layer_of_unique(layers, z, p);
        assert(distinct_materials(layers[p].1));
        lemma_group_of_unique(layers[p].1, m, i);
        assert(group_bytes(layers, z, m) is Some);
    }
}

/// An instance for `a` at `z_index` that came before the last one keeps coming first.
proof fn lemma_added_first_extend(
    adds: Seq<(WeakGenericHandle, u32, GeometryRef, Seq<u8>, u32)>,
    z_index: u32,
    a: WeakGenericHandle,
    b: WeakGenericHandle,
)
    requires
        adds.len() > 0,
        added_first(adds.drop_last(), z_index, a, b),
        any_added(adds.drop_last(), z_index, a),
    ensures
        added_first(adds, z_index, a, b),
{
    let rest = adds.drop_last();
    assert forall|k: int|
        0 <= k < adds.len() && (#[trigger] adds[k]).4 == z_index && adds[k].0 == b implies exists|
        k2: int,
    | 0 <= k2 < k && (#[trigger] adds[k2]).4 == z_index && adds[k2].0 == a by {
        if k < rest.len() {
            assert(rest[k] == adds[k]);
            let k2 = choose|k2: int| 0 <= k2 < k && (#[trigger] rest[k2]).4 == z_index && rest[k2].0 == a;
            assert(adds[k2] == rest[k2]);
        } else {
            let k2 = choose|k2: int| 0 <= k2 < rest.len() && rest[k2].4 == z_index && rest[k2].0 == a;
            assert(adds[k2] == rest[k2]);
        }
    }
}

/// Within a layer, groups come in the order their materials were first added at that z-index:
/// after adding instances one by one to an empty batcher, of any two groups of a layer, the
/// earlier one's material had an instance added at that z-index before every instance of the
/// later one's.
pub proof fn lemma_groups_in_order_of_first_add(
    adds: Seq<(WeakGenericHandle, u32, GeometryRef, Seq<u8>, u32)>,
)
    ensures
        ({
            let layers = apply_adds(Seq::empty(), adds);
            forall|p: int, i: int, j: int|
                0 <= p < layers.len() && 0 <= i < j < layers[p].1.len() ==> #[trigger] added_first(
                    adds,
                    layers[p].0,
                    layers[p].1[i].material,
                    layers[p].1[j].material,
                )
        }),
    decreases adds.len(),
{
    let empty = Seq::<(u32, Seq<RawBatchView>)>::empty();
    let layers = apply_adds(empty, adds);
    if adds.len() > 0 {
        let rest = adds.drop_last();
        let last = adds.last();
        let before = apply_adds(empty, rest);
        lemma_groups_in_order_of_first_add(rest);
        lemma_groups_were_added(rest);
        lemma_batches_keep_every_instance(rest);
        assert(layers == layers_added(before, last.0, last.1, last.2, last.3, last.4));
        let (m, z) = (last.0, last.4);
        assert forall|p: int, i: int, j: int|
            0 <= p < layers.len() && 0 <= i < j < layers[p].1.len() implies #[trigger] added_first(
            adds,
            layers[p].0,
            layers[p].1[i].material,
            layers[p].1[j].material,
        ) by {
            match layer_of(before, z) {
                Some(q) => {
                    assert(0 <= q < before.len() && before[q].0 == z);
                    if p != q {
                        assert(layers[p] == before[p]);
                        lemma_added_first_extend(
                            adds,
                            layers[p].0,
                            layers[p].1[i].material,
                            layers[p].1[j].material,
                        );
                    } else {
                        let old_groups = before[q].1;
                        match group_of(old_groups, m) {
                            Some(g) => {
                                assert(layers[p].1[i].material == old_groups[i].material);
                                assert(layers[p].1[j].material == old_groups[j].material);
                                lemma_added_first_extend(
                                    adds,
                                    z,
                                    old_groups[i].material,
                                    old_groups[j].material,
                                );
                            },
                            None => {
                                assert(layers[p].1[i] == old_groups[i]);
                                if j < old_groups.len() {
                                    assert(layers[p].1[j] == old_groups[j]);
                                    lemma_added_first_extend(
                                        adds,
                                        z,
                                        old_groups[i].material,
                                        old_groups[j].material,
                                    );
                                } else {
                                    assert(layers[p].1[j].material == m);
                                    assert(group_bytes(before, z, m) is None) by {
                                        lemma_layer_of_unique(before, z, q);
                                    }
                                    assert(!any_added(rest, z, m));
                                    let mi = old_groups[i].material;
                                    assert(any_added(rest, z, mi));
                                    assert forall|k: int|
                                        0 <= k < adds.len() && (#[trigger] adds[k]).4 == z
                                            && adds[k].0 == m implies exists|k2: int|
                                        0 <= k2 < k && (#[trigger] adds[k2]).4 == z && adds[k2].0
                                            == mi by {
                                        if k < rest.len() {
                                            assert(rest[k] == adds[k]);
                                        }
                                        let k2 = choose|k2: int|
                                            0 <= k2 < rest.len() && rest[k2].4 == z && rest[k2].0
                                                == mi;
                                        assert(adds[k2] == rest[k2]);
                                    }
                                }
                            },
                        }
                    }
                },
                None => {
                    let q = layer_slot(before, z);
                    assert(layers == before.insert(
                        q,
                        (z, seq![RawBatchView { material: m, stride: last.1, geometry: last.2, bytes: last.3 }]),
                    ));
                    assert(is_slot(before, z, q)) by {
                        lemma_slot_exists(before, z);
                    }
                    if p < q {
                        assert(layers[p] == before[p]);
                        lemma_added_first_extend(
                            adds,
                            layers[p].0,
                            layers[p].1[i].material,
                            layers[p].1[j].material,
                        );
                    } else if p > q {
                        assert(layers[p] == before[p - 1]);
                        lemma_added_first_extend(
                            adds,
                            layers[p].0,
                            layers[p].1[i].material,
                            layers[p].1[j].material,
                        );
                    }
                },
            }
        }
    }
}

/// Adding instances in two runs gives the layers that adding them in one run gives: what a
/// batcher holds depends only on the instances added and their order, so a
/// [`reserve`](Batcher2D::reserve) between the runs changes no batch.
pub proof fn lemma_adds_compose(
    layers: Seq<(u32, Seq<RawBatchView>)>,
    first: Seq<(WeakGenericHandle, u32, GeometryRef, Seq<u8>, u32)>,
    second: Seq<(WeakGenericHandle, u32, GeometryRef, Seq<u8>, u32)>,
)
    ensures
        apply_adds(apply_adds(layers, first), second) == apply_adds(layers, first + second),
    decreases second.len(),
{
    if second.len() > 0 {
        lemma_adds_compose(layers, first, second.drop_last());
        assert((first + second).drop_last() =~= first + second.drop_last());
        assert((first + second).last() == second.last());
    } else {
        assert(first + second =~= first);
    }
}

/// Whether `k` is the first of `adds` made for `material` at `z_index`.
pub open spec fn first_add_at(
    adds: Seq<(WeakGenericHandle, u32, GeometryRef, Seq<u8>, u32)>,
    k: int,
    z_index: u32,
    material: WeakGenericHandle,
) -> bool {
    &&& 0 <= k < adds.len()
    &&& adds[k].4 == z_index
    &&& adds[k].0 == material
    &&& forall|k2: int| 0 <= k2 < k ==> !((#[trigger] adds[k2]).4 == z_index && adds[k2].0 == material)
}

/// Each group keeps the shape it was created with: after adding instances one by one to an
/// empty batcher, the group of a material at a z-index has that material, and the stride and
/// geometry given with the first instance added for it there.
pub proof fn lemma_groups_keep_first_add_shape(
    adds: Seq<(WeakGenericHandle, u32, GeometryRef, Seq<u8>, u32)>,
)
    ensures
        forall|z: u32, m: WeakGenericHandle|
            (#[trigger] group_at(apply_adds(Seq::empty(), adds), z, m)) is Some ==> exists|k: int|
                first_add_at(adds, k, z, m) && group_at(apply_adds(Seq::empty(), adds), z, m)->0
                    == (RawBatchView { material: m, stride: adds[k].1, geometry: adds[k].2, ..group_at(apply_adds(Seq::empty(), adds), z, m)->0 }),
    decreases adds.len(),
{
    let empty = Seq::<(u32, Seq<RawBatchView>)>::empty();
    if adds.len() > 0 {
        let rest = adds.drop_last();
        let last = adds.last();
        let n = adds.len() - 1;
        let before = apply_adds(empty, rest);
        lemma_groups_keep_first_add_shape(rest);
        lemma_batches_keep_every_instance(rest);
        lemma_add_appends_to_its_group(before, last.0, last.1, last.2, last.3, last.4);
        assert forall|z: u32, m: WeakGenericHandle|
            (#[trigger] group_at(apply_adds(empty, adds), z, m)) is Some implies exists|k: int|
            first_add_at(adds, k, z, m) && group_at(apply_adds(empty, adds), z, m)->0
                == (RawBatchView { material: m, stride: adds[k].1, geometry: adds[k].2, ..group_at(apply_adds(empty, adds), z, m)->0 }) by {
            let g = group_at(apply_adds(empty, adds), z, m)->0;
            if z == last.4 && m == last.0 && group_at(before, z, m) is None {
                assert(group_bytes(before, z, m) is None);
                assert(!any_added(rest, z, m));
                assert(adds[n] == last);
                assert forall|k2: int| 0 <= k2 < n implies !((#[trigger] adds[k2]).4 == z
                    && adds[k2].0 == m) by {
                    assert(adds[k2] == rest[k2]);
                }
                assert(first_add_at(adds, n, z, m));
            } else {
                assert(group_at(before, z, m) is Some);
                let g0 = group_at(before, z, m)->0;
                assert(g.material == g0.material && g.stride == g0.stride && g.geometry
                    == g0.geometry);
                let k = choose|k: int|
                    first_add_at(rest, k, z, m) && g0 == (RawBatchView { material: m, stride: rest[k].1, geometry: rest[k].2, ..g0 });
                assert(adds[k] == rest[k]);
                assert forall|k2: int| 0 <= k2 < k implies !((#[trigger] adds[k2]).4 == z
                    && adds[k2].0 == m) by {
                    assert(adds[k2] == rest[k2]);
                }
                assert(first_add_at(adds, k, z, m));
            }
        }
    }
}

} // verus!