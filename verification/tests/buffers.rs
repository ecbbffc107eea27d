use nova::buffer::{
    BufferLayout, BufferStepMode, DynamicBuffer, ExtendPlan, InstanceBufferLayout, Offset,
    StagingBufferPool, VertexBufferLayout, VertexFormat,
};
use nova::geometry::GeometryPool;

#[test]
fn vertex_format_sizes() {
    assert_eq!(VertexFormat::Float32.size(), 4);
    assert_eq!(VertexFormat::Float32x2.size(), 8);
    assert_eq!(VertexFormat::Float32x3.size(), 12);
    assert_eq!(VertexFormat::Float32x4.size(), 16);
    assert_eq!(VertexFormat::Uint8x4.size(), 4);
    assert_eq!(VertexFormat::Uint16x2.size(), 4);
    assert_eq!(VertexFormat::Uint32.size(), 4);
}

#[test]
fn vertex_layout_packs_attributes_back_to_back() {
    let layout = VertexBufferLayout::new(&[VertexFormat::Float32x2, VertexFormat::Float32x4], 0);
    assert_eq!(layout.stride(), 24);
    assert_eq!(layout.step_mode(), BufferStepMode::Vertex);
    let attrs = layout.attributes();
    assert_eq!(attrs.len(), 2);
    assert_eq!((attrs[0].offset, attrs[0].shader_location), (0, 0));
    assert_eq!((attrs[1].offset, attrs[1].shader_location), (8, 1));
    assert_eq!(attrs[1].format, VertexFormat::Float32x4);
    assert!(!layout.is_empty());
}

#[test]
fn instance_layout_starts_at_the_location_offset() {
    let formats = [VertexFormat::Float32x4; 4];
    let layout = InstanceBufferLayout::new(&formats, 3);
    assert_eq!(layout.stride(), 64);
    assert_eq!(layout.step_mode(), BufferStepMode::Instance);
    let attrs = layout.attributes();
    let offsets: Vec<u64> = attrs.iter().map(|a| a.offset).collect();
    let locations: Vec<u32> = attrs.iter().map(|a| a.shader_location).collect();
    assert_eq!(offsets, vec![0, 16, 32, 48]);
    assert_eq!(locations, vec![3, 4, 5, 6]);
}

#[test]
fn empty_layout_has_no_attributes() {
    let layout = BufferLayout::empty();
    assert!(layout.is_empty());
    assert_eq!(layout.stride(), 0);
    assert_eq!(layout.step_mode(), BufferStepMode::Vertex);
}

#[test]
fn dynamic_buffer_appends_and_grows() {
    let mut buffer = DynamicBuffer::new("scratch", 16);
    assert_eq!(buffer.label_str(), "scratch");
    assert_eq!((buffer.len(), buffer.size()), (0, 16));
    let first = buffer.extend(8);
    assert_eq!(first, ExtendPlan { offset: Offset { offset: 0, size: 8 }, grow_to: None });
    let second = buffer.extend(16);
    // 8 + 16 does not fit in 16 bytes: the buffer grows to 2 * 16 + 16 + 8.
    assert_eq!(second, ExtendPlan { offset: Offset { offset: 8, size: 16 }, grow_to: Some(56) });
    assert_eq!((buffer.len(), buffer.size()), (24, 56));
    buffer.clear();
    assert_eq!((buffer.len(), buffer.size()), (0, 56));
    assert_eq!(buffer.label_str(), "scratch");
}

#[test]
fn staging_pool_alternates_between_two_buffers() {
    let mut pool = StagingBufferPool::new(32);
    assert_eq!(pool.upload(10).offset, Offset { offset: 0, size: 10 });
    assert_eq!(pool.upload(5).offset, Offset { offset: 10, size: 5 });
    assert_eq!((pool.current_buffer().len(), pool.current_buffer().size()), (15, 32));
    assert_eq!(pool.current_buffer().label_str(), "StagingBuffer1");
    assert_eq!(pool.swap_buffers(), 0);
    assert_eq!(pool.current_buffer().label_str(), "StagingBuffer2");
    // The second buffer is filled now, from its start.
    assert_eq!(pool.upload(4).offset, Offset { offset: 0, size: 4 });
    assert_eq!(pool.swap_buffers(), 1);
    // The first buffer was emptied when it was swapped out.
    assert_eq!(pool.upload(7), ExtendPlan { offset: Offset { offset: 0, size: 7 }, grow_to: None });
}

#[test]
fn geometry_pool_places_vertices_then_indices() {
    let mut pool = GeometryPool::new();
    let vertices = [0u8; 32];
    let indices = [0u16, 1, 2, 2, 3, 0];
    let upload = pool.insert(&vertices, &indices);
    assert_eq!(upload.vertex, ExtendPlan { offset: Offset { offset: 0, size: 32 }, grow_to: None });
    // Six 16-bit indices take twelve bytes.
    assert_eq!(upload.index, ExtendPlan { offset: Offset { offset: 32, size: 12 }, grow_to: None });
    let (v, i) = pool.offsets(upload.geometry).unwrap();
    assert_eq!(v, Offset { offset: 0, size: 32 });
    assert_eq!(i, Offset { offset: 32, size: 12 });
    assert_eq!(pool.buffer().len(), 44);
}

#[test]
fn geometry_pool_gives_new_ids_and_counts_removed_bytes() {
    let mut pool = GeometryPool::new();
    let a = pool.insert(&[1u8; 16], &[0u16, 1, 2]).geometry;
    let b = pool.insert(&[2u8; 8], &[0u16]).geometry;
    assert_ne!(a, b);
    let (bv, bi) = pool.offsets(b).unwrap();
    assert_eq!(bv, Offset { offset: 22, size: 8 });
    assert_eq!(bi, Offset { offset: 30, size: 2 });
    assert!(!pool.needs_compaction(0));
    pool.remove(a);
    assert!(pool.offsets(a).is_none());
    assert!(pool.offsets(b).is_some());
    // a held 16 vertex bytes and 6 index bytes.
    assert!(pool.needs_compaction(21));
    assert!(!pool.needs_compaction(22));
    // Removing twice changes nothing.
    pool.remove(a);
    assert!(!pool.needs_compaction(22));
    assert_eq!(pool.buffer().len(), 32);
}

#[test]
fn geometry_pool_grows_its_buffer_when_full() {
    let mut pool = GeometryPool::new();
    let big = vec![0u8; 1000];
    let first = pool.insert(&big, &[]);
    assert_eq!(first.vertex.grow_to, None);
    let second = pool.insert(&big, &[0u16]);
    assert_eq!(second.vertex, ExtendPlan {
        offset: Offset { offset: 1000, size: 1000 },
        grow_to: Some(2 * 1024 + 1000 + 1000),
    });
    assert_eq!(pool.buffer().size(), 2 * 1024 + 1000 + 1000);
}

#[test]
fn overflowing_appends_are_refused_by_the_checks() {
    let mut buffer = DynamicBuffer::new("scratch", 16);
    assert!(buffer.can_extend(100));
    buffer.extend(8);
    assert!(!buffer.can_extend(u64::MAX));
    // 8 + (u64::MAX - 8) fits, but the grown size would not.
    assert!(!buffer.can_extend(u64::MAX - 8));
    let pool = GeometryPool::new();
    assert!(pool.can_insert(32, 12));
    assert!(!pool.can_insert(u64::MAX, 1));
}

#[test]
fn earlier_geometry_keeps_its_offsets() {
    let mut pool = GeometryPool::new();
    let a = pool.insert(&[1u8; 10], &[0u16, 1]).geometry;
    let before = pool.offsets(a).unwrap();
    let b = pool.insert(&[2u8; 4], &[0u16]).geometry;
    pool.remove(b);
    let c = pool.insert(&[3u8; 6], &[0u16, 0, 0]).geometry;
    assert_ne!(c, a);
    assert_ne!(c, b);
    assert_eq!(pool.offsets(a).unwrap(), before);
    let (cv, ci) = pool.offsets(c).unwrap();
    assert_eq!(cv, Offset { offset: 20, size: 6 });
    assert_eq!(ci, Offset { offset: 26, size: 6 });
}
