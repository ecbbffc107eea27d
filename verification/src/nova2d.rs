//! The 2D layer's default-asset keys and its stateless circle material.
use vstd::prelude::*;
use crate::buffer::{layout_of, BufferStepMode, InstanceBufferLayout, VertexBufferLayout, VertexFormat};
use crate::defaults::DefaultAssetsKey;
use crate::handle::Asset;
use crate::material::{BindGroupLayout, BindGroupLayoutEntry, BlendMode, MaterialTemplate, Topology};
use crate::shader::{ShaderEntryPoint, ShaderInfo, ShaderSource, ShaderStage};
use crate::texture::{TextureSampleType, TextureViewDimension};
use crate::uniform::UniformType;

verus! {

/// The default assets that the 2D plugin registers.
pub enum Nova2dDefaults {
    WhiteTexture,
    DefaultSpriteMaterial,
    DefaultCircleMaterial,
}

impl DefaultAssetsKey for Nova2dDefaults {
    open spec fn name(&self) -> Seq<char> {
        match *self {
            Nova2dDefaults::WhiteTexture => "WhiteTexture"@,
            Nova2dDefaults::DefaultSpriteMaterial => "DefaultSpriteMaterial"@,
            Nova2dDefaults::DefaultCircleMaterial => "DefaultCircleMaterial"@,
        }
    }

    fn as_str(&self) -> (r: &'static str) {
        proof {
            reveal_strlit("WhiteTexture");
            reveal_strlit("DefaultSpriteMaterial");
            reveal_strlit("DefaultCircleMaterial");
        }
        match self {
            Nova2dDefaults::WhiteTexture => "WhiteTexture",
            Nova2dDefaults::DefaultSpriteMaterial => "DefaultSpriteMaterial",
            Nova2dDefaults::DefaultCircleMaterial => "DefaultCircleMaterial",
        }
    }
}

/// A material for filled circles. It has no bind group data: color and radius are per
/// instance.
pub struct CircleMaterial;

impl CircleMaterial {
    pub fn new() -> (r: Self) {
        CircleMaterial
    }

    /// The circle material's pipeline: quads of 2D positions, instances of position, radius and
    /// color, alpha blending, no bindings; `shader_source` is the circle shader's WGSL text.
    pub fn template(shader_source: String) -> (r: MaterialTemplate)
        ensures
            is_quad_template(
                r,
                shader_source,
                seq![VertexFormat::Float32x2, VertexFormat::Float32, VertexFormat::Float32x4],
                Seq::empty(),
            ),
    {
        let formats = vec![VertexFormat::Float32x2, VertexFormat::Float32, VertexFormat::Float32x4];
        quad_template(shader_source, formats.as_slice(), BindGroupLayout::new())
    }
}

/// Whether `t` is the pipeline of a 2D quad material: WGSL `source` with entry points `vs_main`
/// and `fs_main`, one 2D position per vertex, instances laid out by `instance_formats` from
/// shader location 1, alpha blending, no depth test, triangle lists, and bind group entries
/// `bindings`.
pub open spec fn is_quad_template(
    t: MaterialTemplate,
    source: String,
    instance_formats: Seq<VertexFormat>,
    bindings: Seq<BindGroupLayoutEntry>,
) -> bool {
    &&& t.shader.source == ShaderSource::Inline(source)
    &&& t.shader.entry_point matches ShaderEntryPoint::Both { vs_entry_point, fs_entry_point }
        && vs_entry_point@ == "vs_main"@ && fs_entry_point@ == "fs_main"@
    &&& t.buffer_layout@ == layout_of(seq![VertexFormat::Float32x2], BufferStepMode::Vertex, 0)
    &&& t.instance_layout matches Some(l) && l@ == layout_of(
        instance_formats,
        BufferStepMode::Instance,
        1,
    )
    &&& t.blend_state == BlendMode::Alpha
    &&& t.depth_stencil is None
    &&& t.topology == Topology::TriangleList
    &&& t.bind_group_layout.entries@ == bindings
}

fn quad_template(shader_source: String, instance_formats: &[VertexFormat], bindings: BindGroupLayout) -> (r:
    MaterialTemplate)
    requires
        1 + instance_formats@.len() <= u32::MAX,
    ensures
        is_quad_template(r, shader_source, instance_formats@, bindings.entries@),
{
    proof {
        reveal_strlit("vs_main");
        reveal_strlit("fs_main");
    }
    let mut vertex_formats: Vec<VertexFormat> = Vec::new();
    vertex_formats.push(VertexFormat::Float32x2);
    assert(vertex_formats@ =~= seq![VertexFormat::Float32x2]);
    let vs_entry_point = "vs_main".to_owned();
    let fs_entry_point = "fs_main".to_owned();
    let buffer_layout = VertexBufferLayout::new(vertex_formats.as_slice(), 0);
    let instance_layout = InstanceBufferLayout::new(instance_formats, 1);
    MaterialTemplate {
        shader: ShaderInfo {
            source: ShaderSource::Inline(shader_source),
            entry_point: ShaderEntryPoint::Both { vs_entry_point, fs_entry_point },
        },
        buffer_layout,
        instance_layout: Some(instance_layout),
        blend_state: BlendMode::Alpha,
        depth_stencil: None,
        topology: Topology::TriangleList,
        bind_group_layout: bindings,
    }
}

/// The sprite material's pipeline: quads of 2D positions, instances of position, scale, UV
/// rectangle, tint and angle, alpha blending, and a filterable 2D texture at binding 0 with its
/// sampler at binding 1, seen by the fragment stage; `shader_source` is the sprite shader's WGSL.
pub fn sprite_material_template(shader_source: String) -> (r: MaterialTemplate)
    ensures
        is_quad_template(
            r,
            shader_source,
            seq![
                VertexFormat::Float32x2,
                VertexFormat::Float32x2,
                VertexFormat::Float32x4,
                VertexFormat::Float32x4,
                VertexFormat::Float32,
            ],
            seq![
                BindGroupLayoutEntry::Texture {
                    binding_slot: 0,
                    sampler_binding_slot: 1,
                    visibility: ShaderStage::Fragment,
                    view_dimension: TextureViewDimension::D2,
                    sample_type: TextureSampleType::FloatFilterable,
                },
            ],
        ),
{
    let formats = vec![
        VertexFormat::Float32x2,
        VertexFormat::Float32x2,
        VertexFormat::Float32x4,
        VertexFormat::Float32x4,
        VertexFormat::Float32,
    ];
    let bindings = BindGroupLayout::new().with_entry(
        BindGroupLayoutEntry::Texture {
            binding_slot: 0,
            sampler_binding_slot: 1,
            visibility: ShaderStage::Fragment,
            view_dimension: TextureViewDimension::D2,
            sample_type: TextureSampleType::FloatFilterable,
        },
    );
    quad_template(shader_source, formats.as_slice(), bindings)
}

/// The color material's pipeline: quads of 2D positions, instances of three 3-component rows,
/// and two 4-component vectors, alpha blending, and a `Vec4` color uniform at binding 0 seen by
/// the fragment stage; `shader_source` is the color shader's WGSL.
pub fn color_material_template(shader_source: String) -> (r: MaterialTemplate)
    ensures
        is_quad_template(
            r,
            shader_source,
            seq![
                VertexFormat::Float32x3,
                VertexFormat::Float32x3,
                VertexFormat::Float32x3,
                VertexFormat::Float32x4,
                VertexFormat::Float32x4,
            ],
            seq![
                BindGroupLayoutEntry::Uniform {
                    binding_slot: 0,
                    visibility: ShaderStage::Fragment,
                    ty: UniformType::Vec4,
                },
            ],
        ),
{
    let formats = vec![
        VertexFormat::Float32x3,
        VertexFormat::Float32x3,
        VertexFormat::Float32x3,
        VertexFormat::Float32x4,
        VertexFormat::Float32x4,
    ];
    let bindings = BindGroupLayout::new().with_entry(
        BindGroupLayoutEntry::Uniform {
            binding_slot: 0,
            visibility: ShaderStage::Fragment,
            ty: UniformType::Vec4,
        },
    );
    quad_template(shader_source, formats.as_slice(), bindings)
}

impl Default for CircleMaterial {
    fn default() -> (r: Self) {
        CircleMaterial::new()
    }
}

impl Asset for CircleMaterial {}

} // verus!
