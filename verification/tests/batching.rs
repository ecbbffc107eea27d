use std::any::TypeId;

use nova::batcher::{Batcher2D, QuadGeometry};
use nova::draw_batch::{DrawBatch, InstanceBatch, VertexBatch};
use nova::geometry::GeometryPool;
use nova::handle::WeakGenericHandle;

struct Flat;
struct Round;

fn material(index: u32) -> WeakGenericHandle {
    WeakGenericHandle { index, generation: 0, type_id: TypeId::of::<Flat>() }
}

#[test]
fn vertex_batch_shifts_indices_past_held_vertices() {
    let mut batch = VertexBatch::new(4);
    batch.add_vertices(&[0u8; 8], &[0, 1]);
    batch.add_vertices(&[1u8; 12], &[0, 2, 1]);
    assert_eq!(batch.vertex_count(), 5);
    assert_eq!(batch.index_count(), 5);
    assert_eq!(batch.indices(), &[0, 1, 2, 4, 3]);
    assert_eq!(batch.vertices().len(), 20);
    assert_eq!(&batch.vertices()[8..], &[1u8; 12]);
}

#[test]
fn instance_batch_counts_whole_instances() {
    let mut batch = InstanceBatch::new(8);
    assert_eq!(batch.len(), 0);
    batch.add_instances(&[7u8; 16], 8);
    batch.add_instances(&[9u8; 8], 8);
    assert_eq!(batch.len(), 3);
    assert_eq!(batch.instances().len(), 24);
    assert_eq!(batch.instances()[16], 9);
}

#[test]
fn draw_batch_with_owned_vertices() {
    let mut batch = DrawBatch::with_vertices(material(1), &[0u8; 16], 8, &[0, 1]);
    assert!(!batch.is_shared());
    assert_eq!(batch.index_count(), 2);
    batch.add_vertices(&[0u8; 8], &[0]);
    assert_eq!(batch.indices().unwrap(), &[0, 1, 2]);
    assert_eq!(batch.vertices().unwrap().len(), 24);
    assert!(batch.shared_geometry().is_none());
    assert!(batch.instances().is_none());
    assert_eq!(batch.instance_count(), 1);
    assert_eq!(batch.material, material(1));
}

#[test]
fn draw_batch_with_shared_geometry_and_instances() {
    let mut pool = GeometryPool::new();
    let quad = pool.insert(&[0u8; 32], &[0, 1, 2, 2, 3, 0]).geometry;
    let mut batch = DrawBatch::with_shared_geometry(material(2), quad).with_instances(&[1u8; 12], 12);
    assert!(batch.is_shared());
    assert_eq!(batch.shared_geometry(), Some(quad));
    assert!(batch.vertices().is_none());
    assert!(batch.indices().is_none());
    assert_eq!(batch.instance_count(), 1);
    batch.add_instances(&[2u8; 24], 12);
    assert_eq!(batch.instance_count(), 3);
    assert_eq!(batch.instances().unwrap().len(), 36);
}

#[test]
fn add_instances_to_a_batch_without_instances_starts_them() {
    let mut batch = DrawBatch::new(material(3), 4);
    assert_eq!(batch.instance_count(), 1);
    batch.add_instances(&[5u8; 10], 5);
    assert_eq!(batch.instance_count(), 2);
    assert_eq!(batch.index_count(), 0);
}

#[test]
fn quad_geometry_is_set_once() {
    let mut pool = GeometryPool::new();
    let first = pool.insert(&[0u8; 4], &[0]).geometry;
    let second = pool.insert(&[0u8; 4], &[0]).geometry;
    let mut quad = QuadGeometry::new();
    quad.set_quad_geometry(first);
    quad.set_quad_geometry(second);
    assert_eq!(quad.quad_geometry(), first);
}

#[test]
fn batcher_orders_layers_by_z_and_groups_by_material() {
    let mut pool = GeometryPool::new();
    let quad = pool.insert(&[0u8; 32], &[0, 1, 2, 2, 3, 0]).geometry;
    let circle = pool.insert(&[0u8; 32], &[0, 1, 2, 2, 3, 0]).geometry;
    let mut batcher = Batcher2D::new();
    batcher.reserve(16);
    batcher.add(material(10), 4, quad, &[1, 1, 1, 1], 5);
    batcher.add(material(11), 8, circle, &[2; 8], 1);
    batcher.add(material(10), 4, quad, &[3, 3, 3, 3], 5);
    batcher.add(material(12), 4, quad, &[4, 4, 4, 4], 5);
    batcher.add(material(10), 4, quad, &[5, 5, 5, 5], 9);
    let batches = batcher.into_iter();
    assert_eq!(batches.len(), 4);
    let materials: Vec<u32> = batches.iter().map(|b| b.material.index).collect();
    assert_eq!(materials, vec![11, 10, 12, 10]);
    assert_eq!(batches[0].shared_geometry(), Some(circle));
    assert_eq!(batches[0].instance_count(), 1);
    assert_eq!(batches[1].instance_count(), 2);
    assert_eq!(batches[1].instances().unwrap(), &[1, 1, 1, 1, 3, 3, 3, 3]);
    assert_eq!(batches[1].shared_geometry(), Some(quad));
    assert_eq!(batches[2].instances().unwrap(), &[4, 4, 4, 4]);
    assert_eq!(batches[3].instances().unwrap(), &[5, 5, 5, 5]);
}

#[test]
fn batcher_groups_by_full_material_identity() {
    let mut pool = GeometryPool::new();
    let quad = pool.insert(&[0u8; 4], &[0]).geometry;
    let flat = WeakGenericHandle { index: 0, generation: 0, type_id: TypeId::of::<Flat>() };
    let round = WeakGenericHandle { index: 0, generation: 0, type_id: TypeId::of::<Round>() };
    let mut batcher = Batcher2D::new();
    batcher.add(flat, 2, quad, &[1, 1], 0);
    batcher.add(round, 2, quad, &[2, 2], 0);
    batcher.add(flat, 2, quad, &[3, 3], 0);
    let batches = batcher.into_iter();
    assert_eq!(batches.len(), 2);
    assert_eq!(batches[0].material, flat);
    assert_eq!(batches[0].instances().unwrap(), &[1, 1, 3, 3]);
    assert_eq!(batches[1].material, round);
}

#[test]
fn empty_batcher_yields_nothing() {
    let batcher = Batcher2D::new();
    assert!(batcher.into_iter().is_empty());
}

#[test]
fn groups_in_a_layer_follow_the_first_add() {
    let mut pool = GeometryPool::new();
    let quad = pool.insert(&[0u8; 4], &[0]).geometry;
    let mut batcher = Batcher2D::new();
    batcher.add(material(3), 1, quad, &[1], 0);
    batcher.add(material(1), 1, quad, &[2], 0);
    batcher.add(material(3), 1, quad, &[3], 0);
    batcher.add(material(2), 1, quad, &[4], 0);
    batcher.add(material(1), 1, quad, &[5], 0);
    let batches = batcher.into_iter();
    let materials: Vec<u32> = batches.iter().map(|b| b.material.index).collect();
    assert_eq!(materials, vec![3, 1, 2]);
    assert_eq!(batches[0].instances().unwrap(), &[1, 3]);
    assert_eq!(batches[1].instances().unwrap(), &[2, 5]);
    assert_eq!(batches[2].instances().unwrap(), &[4]);
}

#[test]
fn reserve_changes_no_batch() {
    let mut pool = GeometryPool::new();
    let quad = pool.insert(&[0u8; 4], &[0]).geometry;
    let mut plain = Batcher2D::new();
    let mut reserved = Batcher2D::new();
    plain.add(material(1), 2, quad, &[1, 1], 4);
    reserved.add(material(1), 2, quad, &[1, 1], 4);
    reserved.reserve(32);
    for batcher in [&mut plain, &mut reserved] {
        batcher.add(material(2), 2, quad, &[2, 2], 4);
        batcher.add(material(1), 2, quad, &[3, 3], 0);
    }
    let a = plain.into_iter();
    let b = reserved.into_iter();
    assert_eq!(a.len(), b.len());
    for (x, y) in a.iter().zip(b.iter()) {
        assert_eq!(x.material, y.material);
        assert_eq!(x.instances(), y.instances());
        assert_eq!(x.shared_geometry(), y.shared_geometry());
        assert_eq!(x.instance_count(), y.instance_count());
    }
}
