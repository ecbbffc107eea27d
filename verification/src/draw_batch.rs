//! Draw batches: a material plus owned or shared geometry, and optional instance data.
//!
//! A batch is pure data. Vertex and instance data are held as bytes; indices are `u16` and,
//! when vertices are appended, are shifted by the number of vertices already in the batch.
use vstd::prelude::*;
use crate::geometry::GeometryRef;
use crate::handle::WeakGenericHandle;

verus! {

/// Owned vertex bytes with their stride, and `u16` indices into them.
#[derive(Debug)]
pub struct VertexBatch {
    vertices: Vec<u8>,
    vertex_stride: u32,
    indices: Vec<u16>,
}

/// The abstract content of a [`VertexBatch`].
pub struct VertexBatchView {
    pub vertices: Seq<u8>,
    pub vertex_stride: u32,
    pub indices: Seq<u16>,
}

impl View for VertexBatch {
    type V = VertexBatchView;

    closed spec fn view(&self) -> VertexBatchView {
        VertexBatchView {
            vertices: self.vertices@,
            vertex_stride: self.vertex_stride,
            indices: self.indices@,
        }
    }
}

impl VertexBatchView {
    /// The number of whole vertices held (the byte count is taken as a `u32`, as the batch does).
    pub open spec fn vertex_count(self) -> u32 {
        ((self.vertices.len() as u32) / self.vertex_stride) as u32
    }

    /// Whether appending `indices` after the vertices already held stays within `u16`.
    pub open spec fn can_add(self, indices: Seq<u16>) -> bool {
        &&& self.vertex_stride > 0
        &&& forall|i: int|
            0 <= i < indices.len() ==> indices[i] + (self.vertex_count() as u16) <= u16::MAX
    }

    /// The batch after appending `vertices` and `indices` (shifted past the vertices held).
    pub open spec fn added(self, vertices: Seq<u8>, indices: Seq<u16>) -> VertexBatchView {
        VertexBatchView {
            vertices: self.vertices + vertices,
            vertex_stride: self.vertex_stride,
            indices: self.indices + Seq::new(
                indices.len(),
                |i: int| (indices[i] + (self.vertex_count() as u16)) as u16,
            ),
        }
    }
}

/// Appending keeps what was held and makes each appended index name the vertex it named in
/// the appended data: the vertex bytes are appended as given, the indices held stay as they
/// were, and appended index `i` becomes `indices[i]` plus the number of whole vertices held
/// before the append (vertex bytes over the stride, taken as a `u16` as the indices are).
pub proof fn lemma_added_shifts_past_held_vertices(
    batch: VertexBatchView,
    vertices: Seq<u8>,
    indices: Seq<u16>,
)
    requires
        batch.can_add(indices),
    ensures
        ({
            let after = batch.added(vertices, indices);
            &&& after.vertex_stride == batch.vertex_stride
            &&& after.vertices == batch.vertices + vertices
            &&& after.indices.len() == batch.indices.len() + indices.len()
            &&& forall|i: int|
                0 <= i < batch.indices.len() ==> #[trigger] after.indices[i] == batch.indices[i]
            &&& forall|i: int|
                0 <= i < indices.len() ==> #[trigger] after.indices[batch.indices.len() + i]
                    == indices[i] + (((batch.vertices.len() as u32) / batch.vertex_stride) as u16)
        }),
{
    let after = batch.added(vertices, indices);
    assert forall|i: int|
        0 <= i < indices.len() implies #[trigger] after.indices[batch.indices.len() + i]
        == indices[i] + (((batch.vertices.len() as u32) / batch.vertex_stride) as u16) by {
        assert(indices[i] + (batch.vertex_count() as u16) <= u16::MAX);
    }
}

impl VertexBatch {
    /// An empty batch of vertices of `vertex_stride` bytes.
    pub fn new(vertex_stride: u32) -> (r: Self)
        ensures
            r@ == (VertexBatchView { vertices: Seq::empty(), vertex_stride, indices: Seq::empty() }),
    {
        VertexBatch { vertices: Vec::new(), vertex_stride, indices: Vec::new() }
    }

    /// Appends vertex bytes and indices; the indices are shifted by the number of vertices that
    /// were already in the batch, so they keep pointing at the appended vertices.
    pub fn add_vertices(&mut self, vertices: &[u8], indices: &[u16])
        requires
            old(self)@.can_add(indices@),
        ensures
            final(self)@ == old(self)@.added(vertices@, indices@),
            final(self)@.vertex_stride == old(self)@.vertex_stride,
            final(self)@.vertices == old(self)@.vertices + vertices@,
            final(self)@.indices.len() == old(self)@.indices.len() + indices@.len(),
            forall|i: int|
                0 <= i < old(self)@.indices.len() ==> #[trigger] final(self)@.indices[i] == old(
                    self,
                )@.indices[i],
            forall|i: int|
                0 <= i < indices@.len() ==> #[trigger] final(self)@.indices[old(
                    self,
                )@.indices.len() + i] == indices@[i] + (((old(self)@.vertices.len() as u32)
                    / old(self)@.vertex_stride) as u16),
    {
        proof {
            lemma_added_shifts_past_held_vertices(self@, vertices@, indices@);
        }
        let ghost before = self@;
        let offset = self.vertex_count();
        let offset16 = offset as u16;
        let mut k: usize = 0;
        while k < vertices.len()
            invariant
                k <= vertices@.len(),
                self.vertices@ == before.vertices + vertices@.take(k as int),
                self.indices@ == before.indices,
                self.vertex_stride == before.vertex_stride,
            decreases vertices@.len() - k,
        {
            self.vertices.push(vertices[k]);
            proof {
                assert(vertices@.take(k as int + 1) =~= vertices@.take(k as int).push(vertices@[k as int]));
            }
            k = k + 1;
        }
        let mut j: usize = 0;
        while j < indices.len()
            invariant
                j <= indices@.len(),
                self.vertices@ == before.vertices + vertices@.take(vertices@.len() as int),
                self.vertex_stride == before.vertex_stride,
                offset16 == before.vertex_count() as u16,
                forall|i: int|
                    0 <= i < indices@.len() ==> indices@[i] + offset16 <= u16::MAX,
                self.indices@ == before.indices + Seq::new(
                    j as nat,
                    |i: int| (indices@[i] + offset16) as u16,
                ),
            decreases indices@.len() - j,
        {
            let shifted = indices[j] + offset16;
            self.indices.push(shifted);
            proof {
                assert(Seq::new((j + 1) as nat, |i: int| (indices@[i] + offset16) as u16)
                    =~= Seq::new(j as nat, |i: int| (indices@[i] + offset16) as u16).push(shifted));
            }
            j = j + 1;
        }
        assert(vertices@.take(vertices@.len() as int) =~= vertices@);
        assert(self@.indices =~= before.added(vertices@, indices@).indices);
    }

    /// The number of whole vertices held.
    pub fn vertex_count(&self) -> (r: u32)
        requires
            self@.vertex_stride > 0,
        ensures
            r == self@.vertex_count(),
    {
        self.vertices.len() as u32 / self.vertex_stride
    }

    /// The number of indices held (as a `u32`).
    pub fn index_count(&self) -> (r: u32)
        ensures
            r == self@.indices.len() as u32,
    {
        self.indices.len() as u32
    }

    /// The vertex bytes.
    pub fn vertices(&self) -> (r: &[u8])
        ensures
            r@ == self@.vertices,
    {
        self.vertices.as_slice()
    }

    /// The indices.
    pub fn indices(&self) -> (r: &[u16])
        ensures
            r@ == self@.indices,
    {
        self.indices.as_slice()
    }
}

/// Instance bytes with their stride.
#[derive(Debug)]
pub struct InstanceBatch {
    instances: Vec<u8>,
    instance_stride: u32,
}

impl View for InstanceBatch {
    type V = (Seq<u8>, u32);

    closed spec fn view(&self) -> (Seq<u8>, u32) {
        (self.instances@, self.instance_stride)
    }
}

impl InstanceBatch {
    /// An empty batch of instances of `instance_stride` bytes.
    pub fn new(instance_stride: u32) -> (r: Self)
        ensures
            r@ == (Seq::<u8>::empty(), instance_stride),
    {
        InstanceBatch { instances: Vec::new(), instance_stride }
    }

    /// Appends the bytes of instances whose type has `instance_size` bytes, which must be the
    /// batch's stride.
    pub fn add_instances(&mut self, instances: &[u8], instance_size: u32)
        requires
            instance_size == old(self)@.1,
        ensures
            final(self)@ == (old(self)@.0 + instances@, old(self)@.1),
    {
        let ghost before = self@;
        let mut k: usize = 0;
        while k < instances.len()
            invariant
                k <= instances@.len(),
                self.instances@ == before.0 + instances@.take(k as int),
                self.instance_stride == before.1,
            decreases instances@.len() - k,
        {
            self.instances.push(instances[k]);
            proof {
                assert(instances@.take(k as int + 1) =~= instances@.take(k as int).push(instances@[k as int]));
            }
            k = k + 1;
        }
        assert(instances@.take(instances@.len() as int) =~= instances@);
    }

    /// The number of whole instances held (the byte count is taken as a `u32`).
    pub fn len(&self) -> (r: u32)
        requires
            self@.1 > 0,
        ensures
            r == (self@.0.len() as u32) / self@.1,
    {
        self.instances.len() as u32 / self.instance_stride
    }

    /// The instance bytes.
    pub fn instances(&self) -> (r: &[u8])
        ensures
            r@ == self@.0,
    {
        self.instances.as_slice()
    }
}

/// The geometry source for a [`DrawBatch`].
#[derive(Debug)]
pub enum BatchGeometry {
    /// Owned vertex/index data, uploaded each frame.
    Owned(VertexBatch),
    /// Shared, persistent geometry in the geometry pool.
    Shared(GeometryRef),
}

/// The abstract geometry of a batch.
pub enum GeometryView {
    Owned(VertexBatchView),
    Shared(GeometryRef),
}

/// A single draw: a material, geometry (owned or shared) and optional instance data.
#[derive(Debug)]
pub struct DrawBatch {
    pub material: WeakGenericHandle,
    geometry: BatchGeometry,
    instance_batch: Option<InstanceBatch>,
}

/// The abstract content of a [`DrawBatch`].
pub struct DrawBatchView {
    pub material: WeakGenericHandle,
    pub geometry: GeometryView,
    pub instances: Option<(Seq<u8>, u32)>,
}

impl View for DrawBatch {
    type V = DrawBatchView;

    closed spec fn view(&self) -> DrawBatchView {
        DrawBatchView {
            material: self.material,
            geometry: match self.geometry {
                BatchGeometry::Owned(vb) => GeometryView::Owned(vb@),
                BatchGeometry::Shared(g) => GeometryView::Shared(g),
            },
            instances: match self.instance_batch {
                Some(ib) => Some(ib@),
                None => None,
            },
        }
    }
}

impl DrawBatch {
    /// A batch with owned, still empty geometry of vertices of `vertex_stride` bytes.
    pub fn new(material: WeakGenericHandle, vertex_stride: u32) -> (r: Self)
        ensures
            r@ == (DrawBatchView {
                material,
                geometry: GeometryView::Owned(
                    VertexBatchView { vertices: Seq::empty(), vertex_stride, indices: Seq::empty() },
                ),
                instances: None,
            }),
    {
        DrawBatch {
            material,
            geometry: BatchGeometry::Owned(VertexBatch::new(vertex_stride)),
            instance_batch: None,
        }
    }

    /// A batch with owned geometry built from `vertices` and `indices`.
    pub fn with_vertices(material: WeakGenericHandle, vertices: &[u8], vertex_stride: u32, indices: &[u16]) -> (r: Self)
        requires
            vertex_stride > 0,
        ensures
            r@ == (DrawBatchView {
                material,
                geometry: GeometryView::Owned(
                    VertexBatchView { vertices: vertices@, vertex_stride, indices: indices@ },
                ),
                instances: None,
            }),
    {
        let mut slf = Self::new(material, vertex_stride);
        let ghost empty = VertexBatchView {
            vertices: Seq::<u8>::empty(),
            vertex_stride,
            indices: Seq::<u16>::empty(),
        };
        assert(empty.vertex_count() == 0) by {
            assert((0u32 / vertex_stride) == 0) by (nonlinear_arith)
                requires
                    vertex_stride > 0,
            ;
        }
        slf.add_vertices(vertices, indices);
        assert(empty.added(vertices@, indices@).indices =~= indices@);
        assert(empty.added(vertices@, indices@).vertices =~= vertices@);
        slf
    }

    /// A batch drawing shared geometry from the geometry pool.
    pub fn with_shared_geometry(material: WeakGenericHandle, geometry: GeometryRef) -> (r: Self)
        ensures
            r@ == (DrawBatchView { material, geometry: GeometryView::Shared(geometry), instances: None }),
    {
        DrawBatch { material, geometry: BatchGeometry::Shared(geometry), instance_batch: None }
    }

    /// Sets the instance data (enables instanced drawing): `instances` holds instances of
    /// `instance_stride` bytes.
    pub fn with_instances(self, instances: &[u8], instance_stride: u32) -> (r: Self)
        ensures
            r@ == (DrawBatchView { instances: Some((instances@, instance_stride)), ..self@ }),
    {
        let mut instance_batch = InstanceBatch::new(instance_stride);
        instance_batch.add_instances(instances, instance_stride);
        DrawBatch { material: self.material, geometry: self.geometry, instance_batch: Some(instance_batch) }
    }

    /// Appends the bytes of instances whose type has `instance_size` bytes. The first call sets
    /// the stride to that size; later calls must use the same size.
    pub fn add_instances(&mut self, instances: &[u8], instance_size: u32)
        requires
            old(self)@.instances matches Some((_, stride)) ==> stride == instance_size,
        ensures
            final(self)@.material == old(self)@.material,
            final(self)@.geometry == old(self)@.geometry,
            final(self)@.instances == Some((
                match old(self)@.instances {
                    Some((bytes, _)) => bytes,
                    None => Seq::empty(),
                } + instances@,
                instance_size,
            )),
    {
        if self.instance_batch.is_none() {
            self.instance_batch = Some(InstanceBatch::new(instance_size));
        }
        match &mut self.instance_batch {
            Some(instance_batch) => instance_batch.add_instances(instances, instance_size),
            None => {},
        }
    }

    /// Appends vertices to owned geometry.
    pub fn add_vertices(&mut self, vertices: &[u8], indices: &[u16])
        requires
            old(self)@.geometry matches GeometryView::Owned(vb) && vb.can_add(indices@),
        ensures
            final(self)@ == (DrawBatchView {
                geometry: GeometryView::Owned(
                    old(self)@.geometry->Owned_0.added(vertices@, indices@),
                ),
                ..old(self)@
            }),
    {
        match &mut self.geometry {
            BatchGeometry::Owned(vb) => vb.add_vertices(vertices, indices),
            BatchGeometry::Shared(_) => {},
        }
    }

    /// The vertex bytes of owned geometry; `None` for shared geometry.
    pub fn vertices(&self) -> (r: Option<&[u8]>)
        ensures
            match self@.geometry {
                GeometryView::Owned(vb) => r matches Some(v) && v@ == vb.vertices,
                GeometryView::Shared(_) => r is None,
            },
    {
        match &self.geometry {
            BatchGeometry::Owned(vb) => Some(vb.vertices()),
            BatchGeometry::Shared(_) => None,
        }
    }

    /// The indices of owned geometry; `None` for shared geometry.
    pub fn indices(&self) -> (r: Option<&[u16]>)
        ensures
            match self@.geometry {
                GeometryView::Owned(vb) => r matches Some(v) && v@ == vb.indices,
                GeometryView::Shared(_) => r is None,
            },
    {
        match &self.geometry {
            BatchGeometry::Owned(vb) => Some(vb.indices()),
            BatchGeometry::Shared(_) => None,
        }
    }

    /// The shared geometry, when the batch uses it.
    pub fn shared_geometry(&self) -> (r: Option<GeometryRef>)
        ensures
            match self@.geometry {
                GeometryView::Shared(g) => r == Some(g),
                GeometryView::Owned(_) => r is None,
            },
    {
        match &self.geometry {
            BatchGeometry::Shared(geo) => Some(*geo),
            BatchGeometry::Owned(_) => None,
        }
    }

    /// The instance bytes, when instance data was given.
    pub fn instances(&self) -> (r: Option<&[u8]>)
        ensures
            match self@.instances {
                Some((bytes, _)) => r matches Some(v) && v@ == bytes,
                None => r is None,
            },
    {
        match &self.instance_batch {
            Some(instance_batch) => Some(instance_batch.instances()),
            None => None,
        }
    }

    /// The instance count: 1 without instance data.
    pub fn instance_count(&self) -> (r: u32)
        requires
            self@.instances matches Some((_, stride)) ==> stride > 0,
        ensures
            match self@.instances {
                Some((bytes, stride)) => r == (bytes.len() as u32) / stride,
                None => r == 1,
            },
    {
        match &self.instance_batch {
            Some(instance_batch) => instance_batch.len(),
            None => 1,
        }
    }

    /// The index count of owned geometry; 0 for shared geometry (its count is looked up in the
    /// geometry pool at draw time).
    pub fn index_count(&self) -> (r: u32)
        ensures
            match self@.geometry {
                GeometryView::Owned(vb) => r == vb.indices.len() as u32,
                GeometryView::Shared(_) => r == 0,
            },
    {
        match &self.geometry {
            BatchGeometry::Owned(vb) => vb.index_count(),
            BatchGeometry::Shared(_) => 0,
        }
    }

    /// The material this batch is drawn with.
    pub fn material(&self) -> (r: WeakGenericHandle)
        ensures
            r == self@.material,
    {
        self.material
    }

    /// Whether this batch uses shared geometry.
    pub fn is_shared(&self) -> (r: bool)
        ensures
            r == (self@.geometry is Shared),
    {
        match &self.geometry {
            BatchGeometry::Shared(_) => true,
            BatchGeometry::Owned(_) => false,
        }
    }
}

} // verus!
