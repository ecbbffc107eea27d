//! Material descriptions: pipeline settings and bind group layouts.
use vstd::prelude::*;
use crate::buffer::BufferLayout;
use crate::shader::{ShaderInfo, ShaderStage};
use crate::texture::{TextureSampleType, TextureViewDimension};
use crate::uniform::UniformType;

verus! {

/// A single entry in a [`BindGroupLayout`]: a uniform binding (described by type), or a texture
/// binding, which implies a paired sampler binding.
#[derive(Clone, Copy, Debug, PartialEq, Eq, Hash)]
pub enum BindGroupLayoutEntry {
    Uniform { binding_slot: u32, visibility: ShaderStage, ty: UniformType },
    Texture {
        binding_slot: u32,
        sampler_binding_slot: u32,
        visibility: ShaderStage,
        view_dimension: TextureViewDimension,
        sample_type: TextureSampleType,
    },
}

/// What one GPU binding of a layout holds.
#[derive(Clone, Copy, Debug, PartialEq, Eq, Hash)]
pub enum BindingKind {
    /// A uniform buffer of at least `min_binding_size` bytes.
    UniformBuffer { min_binding_size: u64 },
    /// A texture.
    Texture { sample_type: TextureSampleType, view_dimension: TextureViewDimension },
    /// A sampler for textures of the given sample type.
    Sampler { sample_type: TextureSampleType },
}

/// One GPU binding of a layout: slot, visibility and kind.
#[derive(Clone, Copy, Debug, PartialEq, Eq, Hash)]
pub struct LayoutBinding {
    pub binding: u32,
    pub visibility: ShaderStage,
    pub kind: BindingKind,
}

/// The GPU bindings of one entry: a uniform is one buffer binding; a texture is a texture
/// binding followed by a sampler binding.
pub open spec fn bindings_of(entry: BindGroupLayoutEntry) -> Seq<LayoutBinding> {
    match entry {
        BindGroupLayoutEntry::Uniform { binding_slot, visibility, ty } => seq![
            LayoutBinding {
                binding: binding_slot,
                visibility,
                kind: BindingKind::UniformBuffer { min_binding_size: ty.spec_size() },
            },
        ],
        BindGroupLayoutEntry::Texture {
            binding_slot,
            sampler_binding_slot,
            visibility,
            view_dimension,
            sample_type,
        } => seq![
            LayoutBinding {
                binding: binding_slot,
                visibility,
                kind: BindingKind::Texture { sample_type, view_dimension },
            },
            LayoutBinding {
                binding: sampler_binding_slot,
                visibility,
                kind: BindingKind::Sampler { sample_type },
            },
        ],
    }
}

/// The GPU bindings of all entries, in order.
pub open spec fn bindings_of_all(entries: Seq<BindGroupLayoutEntry>) -> Seq<LayoutBinding>
    decreases entries.len(),
{
    if entries.len() == 0 {
        Seq::empty()
    } else {
        bindings_of_all(entries.drop_last()) + bindings_of(entries.last())
    }
}

/// A layout-only description of a bind group: binding slots, visibility and types.
#[derive(Clone, Debug, PartialEq, Eq, Hash)]
pub struct BindGroupLayout {
    pub entries: Vec<BindGroupLayoutEntry>,
}

impl BindGroupLayout {
    /// No entries.
    pub fn new() -> (r: Self)
        ensures
            r.entries@ == Seq::<BindGroupLayoutEntry>::empty(),
    {
        BindGroupLayout { entries: Vec::new() }
    }

    /// Appends an entry.
    pub fn with_entry(self, entry: BindGroupLayoutEntry) -> (r: Self)
        ensures
            r.entries@ == self.entries@.push(entry),
    {
        let mut entries = self.entries;
        entries.push(entry);
        BindGroupLayout { entries }
    }

    /// The GPU bindings this layout declares, in order. Empty when the layout has no entries.
    pub fn layout_entries(&self) -> (r: Vec<LayoutBinding>)
        ensures
            r@ == bindings_of_all(self.entries@),
    {
        let mut out: Vec<LayoutBinding> = Vec::new();
        let n = self.entries.len();
        let mut i: usize = 0;
        while i < n
            invariant
                n == self.entries@.len(),
                i <= n,
                out@ == bindings_of_all(self.entries@.take(i as int)),
            decreases n - i,
        {
            proof {
                assert(self.entries@.take(i as int + 1).drop_last() =~= self.entries@.take(i as int));
            }
            match self.entries[i] {
                BindGroupLayoutEntry::Uniform { binding_slot, visibility, ty } => {
                    out.push(
                        LayoutBinding {
                            binding: binding_slot,
                            visibility,
                            kind: BindingKind::UniformBuffer { min_binding_size: ty.size() },
                        },
                    );
                },
                BindGroupLayoutEntry::Texture {
                    binding_slot,
                    sampler_binding_slot,
                    visibility,
                    view_dimension,
                    sample_type,
                } => {
                    out.push(
                        LayoutBinding {
                            binding: binding_slot,
                            visibility,
                            kind: BindingKind::Texture { sample_type, view_dimension },
                        },
                    );
                    out.push(
                        LayoutBinding {
                            binding: sampler_binding_slot,
                            visibility,
                            kind: BindingKind::Sampler { sample_type },
                        },
                    );
                },
            }
            proof {
                assert(out@ =~= bindings_of_all(self.entries@.take(i as int + 1)));
            }
            i = i + 1;
        }
        assert(self.entries@.take(n as int) =~= self.entries@);
        out
    }
}

/// Blend configuration.
#[derive(Clone, Copy, Debug, PartialEq, Eq, Hash)]
pub enum BlendMode {
    /// No blending: pixels overwrite the target.
    NoBlending,
    /// Standard alpha blending: `src * src.a + dst * (1 - src.a)`.
    Alpha,
    /// Additive blending: `src + dst`.
    Additive,
}

impl Default for BlendMode {
    fn default() -> (r: Self)
        ensures
            r == BlendMode::NoBlending,
    {
        BlendMode::NoBlending
    }
}

/// Depth buffer formats.
#[derive(Clone, Copy, Debug, PartialEq, Eq, Hash)]
pub enum DepthFormat {
    Depth24Plus,
    Depth24PlusStencil8,
    Depth32Float,
}

/// Depth comparison functions.
#[derive(Clone, Copy, Debug, PartialEq, Eq, Hash)]
pub enum DepthCompare {
    Never,
    Less,
    Equal,
    LessEqual,
    Greater,
    NotEqual,
    GreaterEqual,
    Always,
}

/// Depth/stencil configuration.
#[derive(Clone, Copy, Debug, PartialEq, Eq, Hash)]
pub struct DepthStencilConfig {
    pub format: DepthFormat,
    pub depth_compare: DepthCompare,
    pub depth_write_enabled: bool,
}

/// Primitive topology for the draw call.
#[derive(Clone, Copy, Debug, PartialEq, Eq, Hash)]
pub enum Topology {
    PointList,
    LineList,
    LineStrip,
    TriangleList,
    TriangleStrip,
}

impl Default for Topology {
    fn default() -> (r: Self)
        ensures
            r == Topology::TriangleList,
    {
        Topology::TriangleList
    }
}

/// A material's pipeline configuration: shader, buffer layouts, blend/depth/topology and bind
/// group layout.
#[derive(Clone, Debug, PartialEq, Eq, Hash)]
pub struct MaterialTemplate {
    pub shader: ShaderInfo,
    pub buffer_layout: BufferLayout,
    pub instance_layout: Option<BufferLayout>,
    pub blend_state: BlendMode,
    pub depth_stencil: Option<DepthStencilConfig>,
    pub topology: Topology,
    pub bind_group_layout: BindGroupLayout,
}

} // verus!
