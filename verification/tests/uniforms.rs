use nova::uniform::{UniformBuffer, UniformType};

#[test]
fn uniform_type_sizes() {
    assert_eq!(UniformType::Mat4.size(), 64);
    assert_eq!(UniformType::Vec4.size(), 16);
    assert_eq!(UniformType::F32.size(), 4);
}

#[test]
fn build_places_entries_at_aligned_offsets() {
    let mut buffer = UniformBuffer::new();
    assert_eq!(buffer.upload(0, UniformType::Mat4), 0);
    assert_eq!(buffer.upload(1, UniformType::Vec4), 1);
    assert_eq!(buffer.upload(2, UniformType::F32), 2);
    // 0 + 64 -> 256, 256 + 16 -> 512, 512 + 4 = 516 -> 768.
    assert_eq!(buffer.build(256), Some(768));
    assert_eq!(buffer.offset(0), Some(0));
    assert_eq!(buffer.offset(1), Some(256));
    assert_eq!(buffer.offset(2), Some(512));
    assert_eq!(buffer.entries(), vec![(0, 0, 64), (1, 256, 16), (2, 512, 4)]);
}

#[test]
fn build_without_alignment_packs_entries() {
    let mut buffer = UniformBuffer::new();
    buffer.upload(4, UniformType::Mat4);
    buffer.upload(7, UniformType::Vec4);
    buffer.upload(9, UniformType::F32);
    // An alignment of 0 is taken as 1.
    assert_eq!(buffer.build(0), Some(84));
    assert_eq!(buffer.entries(), vec![(4, 0, 64), (7, 64, 16), (9, 80, 4)]);
}

#[test]
fn upload_to_a_used_slot_keeps_its_entry() {
    let mut buffer = UniformBuffer::new();
    assert_eq!(buffer.upload(3, UniformType::Vec4), 0);
    assert_eq!(buffer.upload(5, UniformType::F32), 1);
    assert_eq!(buffer.upload(3, UniformType::Vec4), 0);
    assert_eq!(buffer.entries().len(), 2);
}

#[test]
fn build_of_an_empty_buffer_gives_nothing() {
    let mut buffer = UniformBuffer::new();
    assert!(buffer.is_empty());
    assert_eq!(buffer.build(256), None);
    assert_eq!(buffer.offset(0), None);
}

#[test]
fn reset_forgets_entries() {
    let mut buffer = UniformBuffer::new();
    buffer.upload(0, UniformType::Mat4);
    assert_eq!(buffer.build(64), Some(64));
    buffer.reset();
    assert!(buffer.is_empty());
    assert_eq!(buffer.offset(0), None);
    buffer.upload(1, UniformType::F32);
    assert_eq!(buffer.build(64), Some(64));
    assert_eq!(buffer.offset(1), Some(0));
}

#[test]
fn every_offset_is_a_multiple_of_the_alignment() {
    let mut buffer = UniformBuffer::new();
    let types = [UniformType::F32, UniformType::Mat4, UniformType::F32, UniformType::Vec4];
    for (slot, ty) in types.iter().enumerate() {
        buffer.upload(slot as u32, *ty);
    }
    let total = buffer.build(48).unwrap();
    assert_eq!(total % 48, 0);
    let mut end = 0;
    for (_, offset, size) in buffer.entries() {
        assert_eq!(offset % 48, 0);
        assert!(offset >= end);
        end = offset + size;
    }
    assert!(end <= total);
}

#[test]
fn small_layouts_can_be_built() {
    let mut buffer = UniformBuffer::new();
    assert!(buffer.can_build(256));
    buffer.upload(0, UniformType::Mat4);
    assert!(buffer.can_build(256));
    assert!(buffer.can_build(u32::MAX));
    assert_eq!(buffer.build(u32::MAX), Some(u32::MAX as u64));
}

#[test]
fn upload_of_another_type_takes_its_size() {
    let mut buffer = UniformBuffer::new();
    assert_eq!(buffer.upload(0, UniformType::F32), 0);
    assert_eq!(buffer.upload(1, UniformType::F32), 1);
    assert_eq!(buffer.upload(0, UniformType::Mat4), 0);
    assert_eq!(buffer.build(1), Some(68));
    assert_eq!(buffer.offset(0), Some(0));
    assert_eq!(buffer.offset(1), Some(64));
    assert_eq!(buffer.entries().len(), 2);
}
