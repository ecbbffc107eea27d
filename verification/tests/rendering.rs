use std::any::TypeId;

use nova::binding::{environment_layout, material_bindings, BindingPlan};
use nova::buffer::{
    BufferLayout, InstanceBufferLayout, Offset, StagingBufferPool, VertexBufferLayout,
    VertexFormat,
};
use nova::draw_batch::DrawBatch;
use nova::geometry::GeometryPool;
use nova::handle::WeakGenericHandle;
use nova::material::{BindGroupLayout, BindGroupLayoutEntry, BlendMode, MaterialTemplate, Topology};
use nova::nova2d::{color_material_template, sprite_material_template, CircleMaterial};
use nova::pipeline::{pipeline_plan, MaterialRegistry, PipelineCache, PipelineCacheKey};
use nova::shader::{ShaderEntryPoint, ShaderInfo, ShaderSource, ShaderStage};
use nova::submit::{
    prepare_batches, prepare_batches_fit, submission_plan, BufferRange, BufferSource,
};
use nova::texture::{TextureSampleType, TextureViewDimension};
use nova::uniform::{UniformBuffer, UniformType};

struct Flat;
struct Round;

fn material(index: u32, type_id: TypeId) -> WeakGenericHandle {
    WeakGenericHandle { index, generation: 0, type_id }
}

fn texture_entry(binding_slot: u32, sampler_binding_slot: u32) -> BindGroupLayoutEntry {
    BindGroupLayoutEntry::Texture {
        binding_slot,
        sampler_binding_slot,
        visibility: ShaderStage::Fragment,
        view_dimension: TextureViewDimension::D2,
        sample_type: TextureSampleType::FloatFilterable,
    }
}

fn environment_entries() -> Vec<BindGroupLayoutEntry> {
    vec![
        BindGroupLayoutEntry::Uniform { binding_slot: 0, visibility: ShaderStage::Vertex, ty: UniformType::Mat4 },
        texture_entry(1, 2),
        BindGroupLayoutEntry::Uniform { binding_slot: 3, visibility: ShaderStage::Both, ty: UniformType::Vec4 },
    ]
}

#[test]
fn environment_layout_keeps_entries_and_uploads_uniforms() {
    let entries = environment_entries();
    let mut uniforms = UniformBuffer::new();
    let layout = environment_layout(&entries, &mut uniforms);
    assert_eq!(layout.entries, entries);
    // Two uniforms: a matrix at 0 and a vector at the next 256-byte boundary.
    assert_eq!(uniforms.build(256), Some(256 + 256));
    assert_eq!(uniforms.offset(0), Some(0));
    assert_eq!(uniforms.offset(3), Some(256));
    assert_eq!(uniforms.offset(1), None);
}

#[test]
fn material_bindings_follow_the_layout() {
    let entries = environment_entries();
    let mut uniforms = UniformBuffer::new();
    environment_layout(&entries, &mut uniforms);
    uniforms.build(256);
    let bindings = material_bindings(&entries, &uniforms, &[(false, false), (true, true), (false, false)]);
    assert_eq!(bindings, vec![
        BindingPlan::Buffer { binding: 0, offset: 0, size: 64 },
        BindingPlan::TextureView { binding: 1, entry: 1 },
        BindingPlan::Sampler { binding: 2, entry: 1 },
        BindingPlan::Buffer { binding: 3, offset: 256, size: 16 },
    ]);
    // A texture whose view is missing binds its sampler only; a uniform that was not uploaded
    // binds nothing.
    let empty = UniformBuffer::new();
    let partial = material_bindings(&entries[..2], &empty, &[(false, false), (false, true)]);
    assert_eq!(partial, vec![BindingPlan::Sampler { binding: 2, entry: 1 }]);
}

#[test]
fn quad_material_templates() {
    let circle = CircleMaterial::template("circle".to_owned());
    assert_eq!(circle.shader.source, ShaderSource::Inline("circle".to_owned()));
    assert_eq!(circle.shader.entry_point, ShaderEntryPoint::Both {
        vs_entry_point: "vs_main".to_owned(),
        fs_entry_point: "fs_main".to_owned(),
    });
    assert_eq!(circle.buffer_layout.stride(), 8);
    let instances = circle.instance_layout.as_ref().unwrap();
    // Position, radius and color: 8 + 4 + 16 bytes, from shader location 1.
    assert_eq!(instances.stride(), 28);
    assert_eq!(instances.attributes()[0].shader_location, 1);
    assert_eq!(instances.attributes()[2].offset, 12);
    assert_eq!(circle.blend_state, BlendMode::Alpha);
    assert_eq!(circle.topology, Topology::TriangleList);
    assert!(circle.depth_stencil.is_none());
    assert!(circle.bind_group_layout.entries.is_empty());

    let sprite = sprite_material_template("sprite".to_owned());
    assert_eq!(sprite.instance_layout.as_ref().unwrap().stride(), 52);
    assert_eq!(sprite.bind_group_layout.entries, vec![texture_entry(0, 1)]);

    let color = color_material_template("color".to_owned());
    assert_eq!(color.instance_layout.as_ref().unwrap().stride(), 68);
    assert_eq!(color.bind_group_layout.entries, vec![BindGroupLayoutEntry::Uniform {
        binding_slot: 0,
        visibility: ShaderStage::Fragment,
        ty: UniformType::Vec4,
    }]);
}

fn vertex_only_template(buffer_layout: BufferLayout, instance_layout: Option<BufferLayout>) -> MaterialTemplate {
    MaterialTemplate {
        shader: ShaderInfo {
            source: ShaderSource::Inline("points".to_owned()),
            entry_point: ShaderEntryPoint::Vertex("main".to_owned()),
        },
        buffer_layout,
        instance_layout,
        blend_state: BlendMode::NoBlending,
        depth_stencil: None,
        topology: Topology::PointList,
        bind_group_layout: BindGroupLayout::new(),
    }
}

#[test]
fn pipeline_plan_follows_the_template() {
    let circle = CircleMaterial::template("circle".to_owned());
    let plan = pipeline_plan(&circle, 4);
    assert_eq!(plan.vertex_entry_point, "vs_main");
    assert_eq!(plan.fragment_entry_point.map(|e| e.as_str()), Some("fs_main"));
    assert_eq!(plan.buffers.len(), 2);
    assert_eq!(plan.buffers[0].unwrap().stride(), 8);
    assert_eq!(plan.buffers[1].unwrap().stride(), 28);
    assert_eq!(plan.blend, BlendMode::Alpha);
    assert!(!plan.material_group);
    assert_eq!(plan.sample_count, 4);

    let sprite = sprite_material_template("sprite".to_owned());
    assert!(pipeline_plan(&sprite, 1).material_group);

    let instanced = vertex_only_template(
        BufferLayout::empty(),
        Some(InstanceBufferLayout::new(&[VertexFormat::Float32x4], 0)),
    );
    let plan = pipeline_plan(&instanced, 1);
    assert!(plan.fragment_entry_point.is_none());
    assert_eq!(plan.vertex_entry_point, "main");
    assert_eq!(plan.buffers.len(), 2);
    assert!(plan.buffers[0].is_none());
    assert_eq!(plan.buffers[1].unwrap().stride(), 16);
    assert_eq!(plan.topology, Topology::PointList);

    let bare = vertex_only_template(VertexBufferLayout::new(&[VertexFormat::Float32x3], 0), None);
    let plan = pipeline_plan(&bare, 1);
    assert_eq!(plan.buffers.len(), 1);
    assert_eq!(plan.buffers[0].unwrap().stride(), 12);
    let nothing = vertex_only_template(BufferLayout::empty(), None);
    assert!(pipeline_plan(&nothing, 1).buffers.is_empty());
}

fn key(template: u64, sample_count: u32) -> PipelineCacheKey {
    PipelineCacheKey { template, target_format: 1, sample_count, scene_layout: 2, material_layout: 3 }
}

#[test]
fn pipeline_cache_keeps_one_pipeline_per_key() {
    let mut cache: PipelineCache<&str> = PipelineCache::new();
    assert!(cache.get(&key(7, 1)).is_none());
    cache.insert(key(7, 1), "circle");
    cache.insert(key(9, 1), "sprite");
    cache.insert(key(7, 4), "circle, multisampled");
    assert_eq!(cache.get(&key(7, 1)), Some(&"circle"));
    assert_eq!(cache.get(&key(9, 1)), Some(&"sprite"));
    assert_eq!(cache.get(&key(7, 4)), Some(&"circle, multisampled"));
    assert!(cache.get(&key(8, 1)).is_none());
    let other_layout = PipelineCacheKey { material_layout: 4, ..key(7, 1) };
    assert!(cache.get(&other_layout).is_none());
}

#[test]
fn material_registry_finds_registered_types() {
    let mut registry = MaterialRegistry::new();
    assert!(registry.get(&TypeId::of::<Flat>()).is_none());
    registry.register(TypeId::of::<Flat>(), CircleMaterial::template("a".to_owned()));
    registry.register(TypeId::of::<Round>(), sprite_material_template("b".to_owned()));
    let flat = registry.get(&TypeId::of::<Flat>()).unwrap();
    assert_eq!(flat.shader.source, ShaderSource::Inline("a".to_owned()));
    // Registering again replaces the template.
    registry.register(TypeId::of::<Flat>(), color_material_template("c".to_owned()));
    let flat = registry.get(&TypeId::of::<Flat>()).unwrap();
    assert_eq!(flat.shader.source, ShaderSource::Inline("c".to_owned()));
    let round = registry.get(&TypeId::of::<Round>()).unwrap();
    assert_eq!(round.shader.source, ShaderSource::Inline("b".to_owned()));
    assert!(registry.get(&TypeId::of::<u8>()).is_none());
}

#[test]
fn prepared_batches_skip_removed_geometry_and_unresolved_materials() {
    let mut pool = GeometryPool::new();
    let quad = pool.insert(&[0u8; 32], &[0, 1, 2, 2, 3, 0]).geometry;
    let gone = pool.insert(&[0u8; 8], &[0, 1]).geometry;
    pool.remove(gone);
    let flat = TypeId::of::<Flat>();
    let round = TypeId::of::<Round>();
    let batches = vec![
        DrawBatch::with_vertices(material(0, flat), &[0u8; 24], 8, &[0, 1, 2]),
        DrawBatch::with_shared_geometry(material(1, flat), gone).with_instances(&[1u8; 8], 8),
        DrawBatch::with_shared_geometry(material(2, round), quad).with_instances(&[2u8; 16], 8),
        DrawBatch::with_vertices(material(3, round), &[0u8; 8], 8, &[0]),
        DrawBatch::with_shared_geometry(material(4, flat), quad).with_instances(&[3u8; 8], 8),
    ];
    let resolved = [true, true, true, false, true];
    let mut staging = StagingBufferPool::new(1024);
    assert!(prepare_batches_fit(&batches, &pool, &staging));
    let prepared = prepare_batches(&batches, &resolved, &pool, &mut staging);
    let kept: Vec<usize> = prepared.iter().map(|p| p.0).collect();
    assert_eq!(kept, vec![0, 2, 4]);
    // The unresolved batch still took its place in the staging buffer: 24 + 6, 16, 8 + 2, 8.
    assert_eq!(staging.current_buffer().len(), 64);
    assert_eq!(prepared[1].1.instance_offset, Some(Offset { offset: 30, size: 16 }));
    assert_eq!(prepared[2].1.vertex_offset, BufferSource::Shared(Offset { offset: 0, size: 32 }));
    assert_eq!(prepared[2].1.instance_offset, Some(Offset { offset: 56, size: 8 }));

    let commands = submission_plan(&batches, &prepared);
    assert_eq!(commands.len(), 3);
    assert_eq!(commands.iter().map(|c| c.batch).collect::<Vec<_>>(), vec![0, 2, 4]);
    assert_eq!(commands.iter().map(|c| c.set_pipeline).collect::<Vec<_>>(), vec![true, true, true]);
    assert_eq!(commands[0].call.index_count, 3);
    assert_eq!(commands[1].call.index_count, 6);
    assert_eq!(commands[1].call.instance_count, 2);
    assert_eq!(commands[2].call.instances, Some(BufferRange { shared: false, start: 56, end: 64 }));
}

#[test]
fn pipeline_is_kept_between_draws_of_one_material_type() {
    let pool = GeometryPool::new();
    let flat = TypeId::of::<Flat>();
    let batches = vec![
        DrawBatch::with_vertices(material(0, flat), &[0u8; 8], 8, &[0]),
        DrawBatch::with_vertices(material(1, flat), &[0u8; 8], 8, &[0]),
    ];
    let mut staging = StagingBufferPool::new(64);
    let prepared = prepare_batches(&batches, &[true, true], &pool, &mut staging);
    let commands = submission_plan(&batches, &prepared);
    assert_eq!(commands.iter().map(|c| c.set_pipeline).collect::<Vec<_>>(), vec![true, false]);
}

#[test]
fn batches_that_do_not_fit_are_reported() {
    let pool = GeometryPool::new();
    let batches = vec![DrawBatch::with_vertices(
        material(0, TypeId::of::<Flat>()),
        &[0u8; 8],
        8,
        &[0],
    )];
    let mut staging = StagingBufferPool::new(4);
    assert!(prepare_batches_fit(&batches, &pool, &staging));
    staging.upload(u64::MAX / 2);
    assert!(!prepare_batches_fit(&batches, &pool, &staging));
}

#[test]
fn fragment_only_shaders_cannot_be_built() {
    let mut template = vertex_only_template(BufferLayout::empty(), None);
    assert!(nova::pipeline::can_build_template(&template));
    template.shader.entry_point = ShaderEntryPoint::Fragment("main".to_owned());
    assert!(!nova::pipeline::can_build_template(&template));
}

#[test]
fn batches_of_unregistered_material_types_are_flagged() {
    let mut registry = MaterialRegistry::new();
    registry.register(TypeId::of::<Round>(), CircleMaterial::template("a".to_owned()));
    let batches = vec![
        DrawBatch::with_vertices(material(0, TypeId::of::<Flat>()), &[0u8; 8], 8, &[0]),
        DrawBatch::with_vertices(material(1, TypeId::of::<Round>()), &[0u8; 8], 8, &[0]),
    ];
    assert_eq!(registry.registered_batches(&batches), vec![false, true]);
}
