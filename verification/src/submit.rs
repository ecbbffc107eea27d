//! Preparing draw batches for submission: where each batch's vertex, index and instance bytes
//! come from, what has to be appended to the per-frame staging buffer, and the arguments of each
//! batch's draw call.
//!
//! Owned geometry and instance data are appended to the staging buffer (vertex bytes, then
//! index bytes, then instance bytes); shared geometry is drawn from the geometry pool's buffer
//! where it already lies. A batch whose shared geometry is no longer in the pool is skipped.
use std::any::TypeId;
use vstd::prelude::*;
use crate::buffer::{extended_state, DynamicBufferView, ExtendPlan, Offset, StagingBufferPool};
use crate::draw_batch::{DrawBatch, DrawBatchView, GeometryView};
use crate::geometry::{index_bytes, GeometryPool, GeometryPoolView};
use crate::typeid::type_ids_equal;
use crate::handle::WeakGenericHandle;

verus! {

/// Which buffer a byte range lies in.
#[derive(Clone, Copy, Debug, PartialEq, Eq)]
pub enum BufferSource {
    /// The per-frame staging buffer.
    Dynamic(Offset),
    /// The persistent shared geometry buffer.
    Shared(Offset),
}

/// Where a batch's vertex, index and instance bytes are.
#[derive(Clone, Copy, Debug, PartialEq, Eq)]
pub struct BatchStagingBufferOffsets {
    pub vertex_offset: BufferSource,
    pub index_offset: BufferSource,
    pub instance_offset: Option<Offset>,
}

/// The appends to the staging buffer that preparing a batch made: vertex bytes, index bytes and
/// instance bytes, each `None` when the batch has none to append.
#[derive(Clone, Copy, Debug, PartialEq, Eq)]
pub struct StagingUploads {
    pub vertices: Option<ExtendPlan>,
    pub indices: Option<ExtendPlan>,
    pub instances: Option<ExtendPlan>,
}

/// Preparing `batch` against `pool`, with the staging buffer in state `buf`: the offsets, the
/// appends made and the staging buffer's state afterwards; `None` when the batch's shared
/// geometry is not in the pool (nothing is appended then).
pub open spec fn prepared(buf: DynamicBufferView, batch: DrawBatchView, pool: GeometryPoolView) -> Option<
    (BatchStagingBufferOffsets, StagingUploads, DynamicBufferView),
> {
    let geometry: Option<(BufferSource, BufferSource, Option<ExtendPlan>, Option<ExtendPlan>, DynamicBufferView)> =
        match batch.geometry {
        GeometryView::Shared(g) => if pool.entries.contains_key(g@) {
            let e = pool.entries[g@];
            Some(
                (
                    BufferSource::Shared(e.vertex_offset),
                    BufferSource::Shared(e.index_offset),
                    None,
                    None,
                    buf,
                ),
            )
        } else {
            None
        },
        GeometryView::Owned(vb) => {
            let vertex_len = vb.vertices.len() as u64;
            let index_len = (2 * vb.indices.len()) as u64;
            let vertex_plan = buf.extend_plan(vertex_len);
            let after_vertices = buf.extended(vertex_len);
            let index_plan = after_vertices.extend_plan(index_len);
            Some(
                (
                    BufferSource::Dynamic(vertex_plan.offset),
                    BufferSource::Dynamic(index_plan.offset),
                    Some(vertex_plan),
                    Some(index_plan),
                    after_vertices.extended(index_len),
                ),
            )
        },
    };
    match geometry {
        None => None,
        Some((v, i, vertex_plan, index_plan, after)) => match batch.instances {
            Some((bytes, _)) => {
                let instance_plan = after.extend_plan(bytes.len() as u64);
                Some(
                    (
                        BatchStagingBufferOffsets {
                            vertex_offset: v,
                            index_offset: i,
                            instance_offset: Some(instance_plan.offset),
                        },
                        StagingUploads {
                            vertices: vertex_plan,
                            indices: index_plan,
                            instances: Some(instance_plan),
                        },
                        after.extended(bytes.len() as u64),
                    ),
                )
            },
            None => Some(
                (
                    BatchStagingBufferOffsets { vertex_offset: v, index_offset: i, instance_offset: None },
                    StagingUploads { vertices: vertex_plan, indices: index_plan, instances: None },
                    after,
                ),
            ),
        },
    }
}

/// Whether the appends of preparing `batch` need no arithmetic beyond `u64`.
pub open spec fn prepare_fits(buf: DynamicBufferView, batch: DrawBatchView, pool: GeometryPoolView) -> bool {
    let after: Option<DynamicBufferView> = match batch.geometry {
        GeometryView::Shared(g) => if pool.entries.contains_key(g@) {
            Some(buf)
        } else {
            None
        },
        GeometryView::Owned(vb) => {
            let vertex_len = vb.vertices.len() as u64;
            let index_len = (2 * vb.indices.len()) as u64;
            if buf.can_extend(vertex_len) && buf.extended(vertex_len).can_extend(index_len) {
                Some(buf.extended(vertex_len).extended(index_len))
            } else {
                None
            }
        },
    };
    match after {
        None => match batch.geometry {
            GeometryView::Shared(g) => !pool.entries.contains_key(g@),
            GeometryView::Owned(_) => false,
        },
        Some(b) => match batch.instances {
            Some((bytes, _)) => b.can_extend(bytes.len() as u64),
            None => true,
        },
    }
}

/// Whether the range `source` names lies within the bytes in use: `staged` bytes of the staging
/// buffer, `shared` bytes of the shared geometry buffer.
pub open spec fn within(source: BufferSource, staged: u64, shared: u64) -> bool {
    match source {
        BufferSource::Dynamic(o) => o.offset + o.size <= staged,
        BufferSource::Shared(o) => o.offset + o.size <= shared,
    }
}

/// Every range that preparing a batch yields lies within the bytes in use of the buffer it
/// names: staged ranges within the staging buffer after the appends, shared ranges within the
/// geometry pool's buffer.
pub proof fn lemma_prepared_within_buffers(
    buf: DynamicBufferView,
    batch: DrawBatchView,
    pool: GeometryPoolView,
)
    requires
        pool.entries_in_buffer(),
        prepare_fits(buf, batch, pool),
    ensures
        prepared(buf, batch, pool) matches Some((offsets, _, after)) ==> {
            &&& within(offsets.vertex_offset, after.length, pool.buffer.length)
            &&& within(offsets.index_offset, after.length, pool.buffer.length)
            &&& offsets.instance_offset matches Some(o) ==> o.offset + o.size <= after.length
        },
{
    if let GeometryView::Shared(g) = batch.geometry {
        if pool.entries.contains_key(g@) {
            assert(pool.entries.contains_key(g@));
        }
    }
}

/// The state of the staging buffer being filled.
pub open spec fn filling(staging: StagingBufferPool) -> DynamicBufferView {
    staging.buffers().0[staging.buffers().1 as int]@
}

/// Whether the appends of preparing `batch` fit: the test callers make before
/// [`prepare_batch`].
pub fn prepare_fits_exec(batch: &DrawBatch, pool: &GeometryPool, staging: &StagingBufferPool) -> (r: bool)
    requires
        pool.wf(),
        staging.wf(),
    ensures
        r == prepare_fits(filling(*staging), batch@, pool@),
{
    let buffer = staging.current_buffer();
    prepare_fits_from(batch, pool, buffer.len(), buffer.size()).is_some()
}

/// The staging buffer's state after preparing `batch` from state `buf`: unchanged when the
/// batch is skipped.
pub open spec fn state_after(buf: DynamicBufferView, batch: DrawBatchView, pool: GeometryPoolView) -> DynamicBufferView {
    match prepared(buf, batch, pool) {
        Some((_, _, after)) => after,
        None => buf,
    }
}

/// Whether preparing `batch` from the state (`length`, `size`) fits, and the state after it.
fn prepare_fits_from(batch: &DrawBatch, pool: &GeometryPool, length: u64, size: u64) -> (r: Option<(u64, u64)>)
    requires
        pool.wf(),
    ensures
        r is Some <==> prepare_fits(DynamicBufferView { length, size }, batch@, pool@),
        r matches Some((l, s)) ==> (DynamicBufferView { length: l, size: s }) == state_after(
            DynamicBufferView { length, size },
            batch@,
            pool@,
        ),
{
    let after: Option<(u64, u64)> = match batch.shared_geometry() {
        Some(g) => match pool.offsets(g) {
            Some(_) => Some((length, size)),
            None => {
                return Some((length, size));
            },
        },
        None => {
            let vertex_len = match batch.vertices() {
                Some(v) => v.len() as u64,
                None => 0,
            };
            let index_len = match batch.indices() {
                Some(i) => index_bytes(i).len() as u64,
                None => 0,
            };
            match extended_state(length, size, vertex_len) {
                None => None,
                Some((l1, s1)) => extended_state(l1, s1, index_len),
            }
        },
    };
    match after {
        None => None,
        Some((l, s)) => match batch.instances() {
            Some(bytes) => extended_state(l, s, bytes.len() as u64),
            None => Some((l, s)),
        },
    }
}

/// Preparing `batches` in order from staging state `buf`: for each batch that is not skipped
/// and whose material resolves (`resolved[k]`), its position, offsets and appends; and the
/// staging state afterwards. A batch whose material does not resolve still has its bytes
/// appended, as they are appended before the material is looked up.
pub open spec fn prepared_all(
    buf: DynamicBufferView,
    batches: Seq<DrawBatchView>,
    resolved: Seq<bool>,
    pool: GeometryPoolView,
) -> (Seq<(usize, BatchStagingBufferOffsets, StagingUploads)>, DynamicBufferView)
    decreases batches.len(),
{
    if batches.len() == 0 {
        (Seq::empty(), buf)
    } else {
        let k = batches.len() - 1;
        let (out, b) = prepared_all(buf, batches.drop_last(), resolved, pool);
        match prepared(b, batches.last(), pool) {
            None => (out, b),
            Some((offsets, uploads, after)) => (
                if resolved[k] {
                    out.push((k as usize, offsets, uploads))
                } else {
                    out
                },
                after,
            ),
        }
    }
}

/// Whether preparing every batch of `batches` in order from staging state `buf` fits.
pub open spec fn prepare_all_fits(
    buf: DynamicBufferView,
    batches: Seq<DrawBatchView>,
    pool: GeometryPoolView,
) -> bool
    decreases batches.len(),
{
    if batches.len() == 0 {
        true
    } else {
        &&& prepare_all_fits(buf, batches.drop_last(), pool)
        &&& prepare_fits(
            prepared_all(buf, batches.drop_last(), Seq::empty(), pool).1,
            batches.last(),
            pool,
        )
    }
}

proof fn lemma_state_ignores_resolved(
    buf: DynamicBufferView,
    batches: Seq<DrawBatchView>,
    a: Seq<bool>,
    b: Seq<bool>,
    pool: GeometryPoolView,
)
    ensures
        prepared_all(buf, batches, a, pool).1 == prepared_all(buf, batches, b, pool).1,
    decreases batches.len(),
{
    if batches.len() > 0 {
        lemma_state_ignores_resolved(buf, batches.drop_last(), a, b, pool);
    }
}

/// The views of `batches`.
pub open spec fn views_of(batches: Seq<DrawBatch>) -> Seq<DrawBatchView> {
    batches.map_values(|b: DrawBatch| b@)
}

/// Whether preparing all of `batches` fits in the staging buffer being filled: the test callers
/// make before [`prepare_batches`].
pub fn prepare_batches_fit(batches: &[DrawBatch], pool: &GeometryPool, staging: &StagingBufferPool) -> (r:
    bool)
    requires
        pool.wf(),
        staging.wf(),
    ensures
        r == prepare_all_fits(filling(*staging), views_of(batches@), pool@),
{
    let ghost buf = filling(*staging);
    let ghost views = views_of(batches@);
    let mut length = staging.current_buffer().len();
    let mut size = staging.current_buffer().size();
    let n = batches.len();
    let mut k: usize = 0;
    while k < n
        invariant
            n == batches@.len(),
            views == views_of(batches@),
            buf == filling(*staging),
            pool.wf(),
            k <= n,
            prepare_all_fits(buf, views.take(k as int), pool@),
            (DynamicBufferView { length, size }) == prepared_all(
                buf,
                views.take(k as int),
                Seq::empty(),
                pool@,
            ).1,
        decreases n - k,
    {
        proof {
            assert(views.take(k as int + 1).drop_last() =~= views.take(k as int));
            assert(views.take(k as int + 1).last() == batches@[k as int]@);
        }
        match prepare_fits_from(&batches[k], pool, length, size) {
            Some((l, s)) => {
                length = l;
                size = s;
            },
            None => {
                proof {
                    assert(!prepare_all_fits(buf, views.take(k as int + 1), pool@));
                    lemma_fits_prefix(buf, views, pool@, (k + 1) as nat);
                    assert(views.take(n as int) =~= views);
                }
                return false;
            },
        }
        k = k + 1;
    }
    assert(views.take(n as int) =~= views);
    true
}

/// A prefix of batches that do not all fit does not let the whole sequence fit.
proof fn lemma_fits_prefix(
    buf: DynamicBufferView,
    batches: Seq<DrawBatchView>,
    pool: GeometryPoolView,
    k: nat,
)
    requires
        k <= batches.len(),
        !prepare_all_fits(buf, batches.take(k as int), pool),
    ensures
        !prepare_all_fits(buf, batches, pool),
    decreases batches.len() - k,
{
    if k < batches.len() {
        assert(batches.take(k as int + 1).drop_last() =~= batches.take(k as int));
        lemma_fits_prefix(buf, batches, pool, k + 1);
    } else {
        assert(batches.take(k as int) =~= batches);
    }
}

/// Prepares `batches` in order, as [`prepare_batch`] does each one, and keeps those that are
/// not skipped and whose material resolves (`resolved[k]`, found by the caller in its material
/// registry), with their positions.
pub fn prepare_batches(
    batches: &[DrawBatch],
    resolved: &[bool],
    pool: &GeometryPool,
    staging: &mut StagingBufferPool,
) -> (r: Vec<(usize, BatchStagingBufferOffsets, StagingUploads)>)
    requires
        pool.wf(),
        old(staging).wf(),
        resolved@.len() == batches@.len(),
        prepare_all_fits(filling(*old(staging)), views_of(batches@), pool@),
    ensures
        final(staging).wf(),
        final(staging).buffers().1 == old(staging).buffers().1,
        final(staging).buffers().0[1 - old(staging).buffers().1] == old(staging).buffers().0[1
            - old(staging).buffers().1],
        r@ == prepared_all(filling(*old(staging)), views_of(batches@), resolved@, pool@).0,
        filling(*final(staging)) == prepared_all(
            filling(*old(staging)),
            views_of(batches@),
            resolved@,
            pool@,
        ).1,
{
    let ghost buf = filling(*staging);
    let ghost views = views_of(batches@);
    let ghost cur = staging.buffers().1;
    let ghost other = staging.buffers().0[1 - cur];
    let mut out: Vec<(usize, BatchStagingBufferOffsets, StagingUploads)> = Vec::new();
    let n = batches.len();
    let mut k: usize = 0;
    proof {
        lemma_fits_all_prefixes(buf, views, pool@, n as nat);
    }
    while k < n
        invariant
            n == batches@.len(),
            n == resolved@.len(),
            views == views_of(batches@),
            pool.wf(),
            staging.wf(),
            staging.buffers().1 == cur,
            staging.buffers().0[1 - cur] == other,
            k <= n,
            forall|j: nat| j <= n ==> #[trigger] prepare_all_fits(buf, views.take(j as int), pool@),
            out@ == prepared_all(buf, views.take(k as int), resolved@, pool@).0,
            filling(*staging) == prepared_all(buf, views.take(k as int), resolved@, pool@).1,
        decreases n - k,
    {
        proof {
            assert(views.take(k as int + 1).drop_last() =~= views.take(k as int));
            assert(views.take(k as int + 1).last() == batches@[k as int]@);
            assert(prepare_all_fits(buf, views.take(k as int + 1), pool@));
            lemma_state_ignores_resolved(buf, views.take(k as int), resolved@, Seq::empty(), pool@);
        }
        match prepare_batch(&batches[k], pool, staging) {
            Some((offsets, uploads)) => {
                if resolved[k] {
                    out.push((k, offsets, uploads));
                }
            },
            None => {},
        }
        k = k + 1;
    }
    proof {
        assert(views.take(n as int) =~= views);
    }
    out
}

proof fn lemma_fits_all_prefixes(
    buf: DynamicBufferView,
    batches: Seq<DrawBatchView>,
    pool: GeometryPoolView,
    n: nat,
)
    requires
        n == batches.len(),
        prepare_all_fits(buf, batches, pool),
    ensures
        forall|j: nat| j <= n ==> #[trigger] prepare_all_fits(buf, batches.take(j as int), pool),
    decreases n,
{
    assert(batches.take(n as int) =~= batches);
    if n > 0 {
        let rest = batches.drop_last();
        lemma_fits_all_prefixes(buf, rest, pool, (n - 1) as nat);
        assert forall|j: nat| j <= n implies #[trigger] prepare_all_fits(buf, batches.take(j as int), pool) by {
            if j < n {
                assert(batches.take(j as int) =~= rest.take(j as int));
            }
        }
    }
}

/// Prepares one batch for submission: shared geometry is looked up in the pool (the batch is
/// skipped, with nothing appended, when it is gone); owned vertex and index bytes are appended
/// to the staging buffer being filled, then instance bytes if the batch has any.
pub fn prepare_batch(batch: &DrawBatch, pool: &GeometryPool, staging: &mut StagingBufferPool) -> (r:
    Option<(BatchStagingBufferOffsets, StagingUploads)>)
    requires
        pool.wf(),
        old(staging).wf(),
        prepare_fits(filling(*old(staging)), batch@, pool@),
    ensures
        final(staging).wf(),
        final(staging).buffers().1 == old(staging).buffers().1,
        final(staging).buffers().0[1 - old(staging).buffers().1] == old(staging).buffers().0[1
            - old(staging).buffers().1],
        match prepared(filling(*old(staging)), batch@, pool@) {
            None => r is None && filling(*final(staging)) == filling(*old(staging)),
            Some((offsets, uploads, after)) => r == Some((offsets, uploads)) && filling(*final(staging)) == after,
        },
{
    let ghost b0 = filling(*staging);
    let ghost cur = staging.buffers().1;
    let (vertex_offset, index_offset, vertices, indices) = match batch.shared_geometry() {
        Some(g) => match pool.offsets(g) {
            Some((v, i)) => (BufferSource::Shared(v), BufferSource::Shared(i), None, None),
            None => {
                return None;
            },
        },
        None => {
            let vertex_bytes = match batch.vertices() {
                Some(v) => v,
                None => {
                    return None;
                },
            };
            let index_len = match batch.indices() {
                Some(i) => index_bytes(i).len(),
                None => {
                    return None;
                },
            };
            let vertex_plan = staging.upload(vertex_bytes.len() as u64);
            let index_plan = staging.upload(index_len as u64);
            (
                BufferSource::Dynamic(vertex_plan.offset),
                BufferSource::Dynamic(index_plan.offset),
                Some(vertex_plan),
                Some(index_plan),
            )
        },
    };
    let instances = match batch.instances() {
        Some(bytes) => Some(staging.upload(bytes.len() as u64)),
        None => None,
    };
    let instance_offset = match instances {
        Some(plan) => Some(plan.offset),
        None => None,
    };
    Some(
        (
            BatchStagingBufferOffsets { vertex_offset, index_offset, instance_offset },
            StagingUploads { vertices, indices, instances },
        ),
    )
}

/// A byte range of one of the two buffers a draw reads from.
#[derive(Clone, Copy, Debug, PartialEq, Eq)]
pub struct BufferRange {
    /// In the shared geometry buffer (else in the staging buffer).
    pub shared: bool,
    pub start: u64,
    pub end: u64,
}

/// The arguments of one indexed, instanced draw.
#[derive(Clone, Copy, Debug, PartialEq, Eq)]
pub struct DrawCall {
    pub vertices: BufferRange,
    /// 16-bit indices.
    pub indices: BufferRange,
    /// Always in the staging buffer.
    pub instances: Option<BufferRange>,
    pub index_count: u32,
    pub instance_count: u32,
}

/// The range a source names.
pub open spec fn range_of(source: BufferSource) -> BufferRange {
    match source {
        BufferSource::Dynamic(o) => BufferRange {
            shared: false,
            start: o.offset,
            end: (o.offset + o.size) as u64,
        },
        BufferSource::Shared(o) => BufferRange {
            shared: true,
            start: o.offset,
            end: (o.offset + o.size) as u64,
        },
    }
}

/// Whether the range a source names ends within `u64`.
pub open spec fn source_fits(source: BufferSource) -> bool {
    match source {
        BufferSource::Dynamic(o) => o.offset + o.size <= u64::MAX,
        BufferSource::Shared(o) => o.offset + o.size <= u64::MAX,
    }
}

fn range(source: BufferSource) -> (r: BufferRange)
    requires
        source_fits(source),
    ensures
        r == range_of(source),
{
    match source {
        BufferSource::Dynamic(o) => BufferRange { shared: false, start: o.offset, end: o.offset + o.size },
        BufferSource::Shared(o) => BufferRange { shared: true, start: o.offset, end: o.offset + o.size },
    }
}

/// Whether the draw of a batch with `offsets` needs no arithmetic beyond `u64` and has an
/// instance stride to divide by.
pub open spec fn draw_fits(offsets: BatchStagingBufferOffsets, batch: DrawBatchView) -> bool {
    &&& source_fits(offsets.vertex_offset)
    &&& source_fits(offsets.index_offset)
    &&& offsets.instance_offset matches Some(o) ==> o.offset + o.size <= u64::MAX
    &&& batch.instances matches Some((_, stride)) ==> stride > 0
}

/// The draw of a batch with `offsets`: see [`draw_call`].
pub open spec fn draw_call_spec(offsets: BatchStagingBufferOffsets, batch: DrawBatchView) -> DrawCall {
    DrawCall {
        vertices: range_of(offsets.vertex_offset),
        indices: range_of(offsets.index_offset),
        instances: match offsets.instance_offset {
            Some(o) => Some(range_of(BufferSource::Dynamic(o))),
            None => None,
        },
        index_count: match offsets.index_offset {
            BufferSource::Shared(o) => (o.size / 2) as u32,
            BufferSource::Dynamic(_) => match batch.geometry {
                GeometryView::Owned(vb) => vb.indices.len() as u32,
                GeometryView::Shared(_) => 0u32,
            },
        },
        instance_count: match batch.instances {
            Some((bytes, stride)) => (bytes.len() as u32) / stride,
            None => 1u32,
        },
    }
}

/// The draw of a prepared batch: vertex and index bytes from where they were placed, instance
/// bytes from the staging buffer, all indices and all instances. Shared geometry's index count
/// is its index bytes over two; owned geometry's is the batch's own.
pub fn draw_call(offsets: &BatchStagingBufferOffsets, batch: &DrawBatch) -> (r: DrawCall)
    requires
        draw_fits(*offsets, batch@),
    ensures
        r == draw_call_spec(*offsets, batch@),
{
    let index_count = match offsets.index_offset {
        BufferSource::Shared(o) => (o.size / 2) as u32,
        BufferSource::Dynamic(_) => batch.index_count(),
    };
    let instances = match offsets.instance_offset {
        Some(o) => Some(range(BufferSource::Dynamic(o))),
        None => None,
    };
    DrawCall {
        vertices: range(offsets.vertex_offset),
        indices: range(offsets.index_offset),
        instances,
        index_count,
        instance_count: batch.instance_count(),
    }
}

/// For each batch of a pass, in order, whether the pipeline is set before drawing it: for the
/// first batch, and whenever the material type differs from the previous batch's.
pub fn pipeline_switches(material_types: &[TypeId]) -> (r: Vec<bool>)
    ensures
        r@.len() == material_types@.len(),
        forall|i: int|
            0 <= i < r@.len() ==> #[trigger] r@[i] == (i == 0 || material_types@[i]
                != material_types@[i - 1]),
{
    let mut switches: Vec<bool> = Vec::new();
    let n = material_types.len();
    let mut i: usize = 0;
    while i < n
        invariant
            n == material_types@.len(),
            i <= n,
            switches@.len() == i,
            forall|j: int|
                0 <= j < i ==> #[trigger] switches@[j] == (j == 0 || material_types@[j]
                    != material_types@[j - 1]),
        decreases n - i,
    {
        if i == 0 {
            switches.push(true);
        } else {
            let same = type_ids_equal(&material_types[i], &material_types[i - 1]);
            switches.push(!same);
        }
        i = i + 1;
    }
    switches
}

/// One draw of a pass: the prepared batch it draws, whether the pipeline is set before it, and
/// its draw call.
#[derive(Clone, Copy, Debug, PartialEq, Eq)]
pub struct DrawCommand {
    pub batch: usize,
    pub set_pipeline: bool,
    pub call: DrawCall,
}

/// The draws of a pass over prepared batches, in order: each prepared batch is drawn once, with
/// the pipeline set before the first and whenever the material type differs from the previous
/// draw's.
pub fn submission_plan(
    batches: &[DrawBatch],
    prepared: &[(usize, BatchStagingBufferOffsets, StagingUploads)],
) -> (r: Vec<DrawCommand>)
    requires
        forall|i: int|
            0 <= i < prepared@.len() ==> {
                &&& (#[trigger] prepared@[i]).0 < batches@.len()
                &&& draw_fits(prepared@[i].1, batches@[prepared@[i].0 as int]@)
            },
    ensures
        r@.len() == prepared@.len(),
        forall|i: int|
            0 <= i < r@.len() ==> {
                &&& (#[trigger] r@[i]).batch == prepared@[i].0
                &&& r@[i].set_pipeline == (i == 0 || batches@[prepared@[i].0 as int]@.material.type_id
                    != batches@[prepared@[i - 1].0 as int]@.material.type_id)
                &&& r@[i].call == draw_call_spec(prepared@[i].1, batches@[prepared@[i].0 as int]@)
            },
{
    let mut out: Vec<DrawCommand> = Vec::new();
    let n = prepared.len();
    let mut i: usize = 0;
    while i < n
        invariant
            n == prepared@.len(),
            i <= n,
            out@.len() == i,
            forall|j: int|
                0 <= j < prepared@.len() ==> {
                    &&& (#[trigger] prepared@[j]).0 < batches@.len()
                    &&& draw_fits(prepared@[j].1, batches@[prepared@[j].0 as int]@)
                },
            forall|j: int|
                0 <= j < i ==> {
                    &&& (#[trigger] out@[j]).batch == prepared@[j].0
                    &&& out@[j].set_pipeline == (j == 0 || batches@[prepared@[j].0 as int]@.material.type_id
                        != batches@[prepared@[j - 1].0 as int]@.material.type_id)
                    &&& out@[j].call == draw_call_spec(prepared@[j].1, batches@[prepared@[j].0 as int]@)
                },
        decreases n - i,
    {
        let entry = &prepared[i];
        let batch = &batches[entry.0];
        let set_pipeline = if i == 0 {
            true
        } else {
            let previous: WeakGenericHandle = batches[prepared[i - 1].0].material();
            let current: WeakGenericHandle = batch.material();
            !type_ids_equal(&current.type_id, &previous.type_id)
        };
        let call = draw_call(&entry.1, batch);
        out.push(DrawCommand { batch: entry.0, set_pipeline, call });
        i = i + 1;
    }
    out
}

} // verus!
