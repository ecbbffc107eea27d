use std::any::TypeId;

use nova::buffer::{ExtendPlan, Offset, StagingBufferPool};
use nova::draw_batch::DrawBatch;
use nova::geometry::GeometryPool;
use nova::handle::WeakGenericHandle;
use nova::submit::{
    draw_call, pipeline_switches, prepare_batch, prepare_fits_exec, BufferRange, BufferSource,
};

struct Flat;
struct Round;

fn material() -> WeakGenericHandle {
    WeakGenericHandle { index: 0, generation: 0, type_id: TypeId::of::<Flat>() }
}

#[test]
fn owned_geometry_is_appended_to_the_staging_buffer() {
    let pool = GeometryPool::new();
    let mut staging = StagingBufferPool::new(64);
    let batch = DrawBatch::with_vertices(material(), &[0u8; 24], 8, &[0, 1, 2])
        .with_instances(&[1u8; 16], 8);
    assert!(prepare_fits_exec(&batch, &pool, &staging));
    let (offsets, uploads) = prepare_batch(&batch, &pool, &mut staging).unwrap();
    assert_eq!(offsets.vertex_offset, BufferSource::Dynamic(Offset { offset: 0, size: 24 }));
    assert_eq!(offsets.index_offset, BufferSource::Dynamic(Offset { offset: 24, size: 6 }));
    assert_eq!(offsets.instance_offset, Some(Offset { offset: 30, size: 16 }));
    assert_eq!(uploads.vertices, Some(ExtendPlan { offset: Offset { offset: 0, size: 24 }, grow_to: None }));
    assert_eq!(uploads.indices, Some(ExtendPlan { offset: Offset { offset: 24, size: 6 }, grow_to: None }));
    assert_eq!(uploads.instances, Some(ExtendPlan { offset: Offset { offset: 30, size: 16 }, grow_to: None }));
    assert_eq!(staging.current_buffer().len(), 46);

    let call = draw_call(&offsets, &batch);
    assert_eq!(call.vertices, BufferRange { shared: false, start: 0, end: 24 });
    assert_eq!(call.indices, BufferRange { shared: false, start: 24, end: 30 });
    assert_eq!(call.instances, Some(BufferRange { shared: false, start: 30, end: 46 }));
    assert_eq!(call.index_count, 3);
    assert_eq!(call.instance_count, 2);
}

#[test]
fn staging_grows_when_a_batch_does_not_fit() {
    let pool = GeometryPool::new();
    let mut staging = StagingBufferPool::new(16);
    let batch = DrawBatch::with_vertices(material(), &[0u8; 12], 4, &[0, 1, 2]);
    let (_, uploads) = prepare_batch(&batch, &pool, &mut staging).unwrap();
    assert_eq!(uploads.vertices.unwrap().grow_to, None);
    // 12 + 6 bytes do not fit in 16: the buffer grows to 2 * 16 + 6 + 12.
    assert_eq!(uploads.indices.unwrap().grow_to, Some(50));
    assert_eq!(uploads.instances, None);
}

#[test]
fn shared_geometry_is_drawn_from_the_pool() {
    let mut pool = GeometryPool::new();
    let quad = pool.insert(&[0u8; 32], &[0, 1, 2, 2, 3, 0]).geometry;
    let mut staging = StagingBufferPool::new(64);
    let batch = DrawBatch::with_shared_geometry(material(), quad).with_instances(&[7u8; 24], 12);
    let (offsets, uploads) = prepare_batch(&batch, &pool, &mut staging).unwrap();
    assert_eq!(offsets.vertex_offset, BufferSource::Shared(Offset { offset: 0, size: 32 }));
    assert_eq!(offsets.index_offset, BufferSource::Shared(Offset { offset: 32, size: 12 }));
    assert_eq!(offsets.instance_offset, Some(Offset { offset: 0, size: 24 }));
    assert_eq!(uploads.vertices, None);
    assert_eq!(uploads.indices, None);
    let call = draw_call(&offsets, &batch);
    assert_eq!(call.vertices, BufferRange { shared: true, start: 0, end: 32 });
    assert_eq!(call.indices, BufferRange { shared: true, start: 32, end: 44 });
    assert_eq!(call.index_count, 6);
    assert_eq!(call.instance_count, 2);
}

#[test]
fn batch_with_removed_geometry_is_skipped() {
    let mut pool = GeometryPool::new();
    let quad = pool.insert(&[0u8; 8], &[0, 1]).geometry;
    pool.remove(quad);
    let mut staging = StagingBufferPool::new(64);
    let batch = DrawBatch::with_shared_geometry(material(), quad).with_instances(&[7u8; 24], 12);
    assert!(prepare_fits_exec(&batch, &pool, &staging));
    assert!(prepare_batch(&batch, &pool, &mut staging).is_none());
    assert_eq!(staging.current_buffer().len(), 0);
}

#[test]
fn batch_without_instances_draws_once() {
    let pool = GeometryPool::new();
    let mut staging = StagingBufferPool::new(64);
    let batch = DrawBatch::with_vertices(material(), &[0u8; 8], 4, &[0, 1, 1]);
    let (offsets, _) = prepare_batch(&batch, &pool, &mut staging).unwrap();
    let call = draw_call(&offsets, &batch);
    assert_eq!(call.instances, None);
    assert_eq!(call.instance_count, 1);
    assert_eq!(call.index_count, 3);
}

#[test]
fn pipeline_is_set_when_the_material_type_changes() {
    let flat = TypeId::of::<Flat>();
    let round = TypeId::of::<Round>();
    assert_eq!(pipeline_switches(&[flat, flat, round, round, flat]), vec![true, false, true, false, true]);
    assert!(pipeline_switches(&[]).is_empty());
}
