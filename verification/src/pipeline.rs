//! Render pipelines: what a material template asks of a pipeline, the cache that keeps compiled
//! pipelines, and the registry of material types.
use vstd::prelude::*;
use crate::buffer::BufferLayout;
use crate::draw_batch::DrawBatch;
use crate::handle::WeakGenericHandle;
use crate::material::{BlendMode, DepthStencilConfig, MaterialTemplate, Topology};
use crate::shader::ShaderEntryPoint;
use crate::typeid::type_ids_equal;
use std::any::TypeId;

verus! {

/// What a render pipeline for one material template is built from. The pipeline draws front
/// faces wound counter-clockwise, culls back faces, fills polygons, and writes every colour
/// channel of its single colour target.
pub struct PipelinePlan<'a> {
    /// The vertex shader's entry point.
    pub vertex_entry_point: &'a String,
    /// The fragment shader's entry point, when the module has one; without it the pipeline has
    /// no fragment stage.
    pub fragment_entry_point: Option<&'a String>,
    /// The vertex buffer slots, in order: the per-vertex layout (when it has attributes), then
    /// the per-instance layout (when there is one); a per-instance layout without a per-vertex
    /// one sits in the second slot with the first left empty.
    pub buffers: Vec<Option<&'a BufferLayout>>,
    /// Blending of the colour target.
    pub blend: BlendMode,
    /// Whether bind group 1 holds the material's bindings (group 0 is the scene's).
    pub material_group: bool,
    pub topology: Topology,
    pub depth_stencil: Option<DepthStencilConfig>,
    /// Samples per pixel.
    pub sample_count: u32,
}

/// Whether a pipeline can be built for a template: its shader module has a vertex entry point.
pub open spec fn can_build(template: MaterialTemplate) -> bool {
    !(template.shader.entry_point is Fragment)
}

/// Whether a pipeline can be built for `template`: the test callers make before
/// [`pipeline_plan`].
pub fn can_build_template(template: &MaterialTemplate) -> (r: bool)
    ensures
        r == can_build(*template),
{
    match &template.shader.entry_point {
        ShaderEntryPoint::Fragment(_) => false,
        _ => true,
    }
}

/// The vertex entry point of a module that has one.
pub open spec fn vertex_entry_of(entry_point: ShaderEntryPoint) -> String {
    match entry_point {
        ShaderEntryPoint::Vertex(e) => e,
        ShaderEntryPoint::Both { vs_entry_point, .. } => vs_entry_point,
        ShaderEntryPoint::Fragment(e) => e,
    }
}

/// The fragment entry point of a module, if it has one.
pub open spec fn fragment_entry_of(entry_point: ShaderEntryPoint) -> Option<String> {
    match entry_point {
        ShaderEntryPoint::Fragment(e) => Some(e),
        ShaderEntryPoint::Both { fs_entry_point, .. } => Some(fs_entry_point),
        ShaderEntryPoint::Vertex(_) => None,
    }
}

/// The vertex buffer slots of a template's pipeline.
pub open spec fn buffers_of(template: MaterialTemplate) -> Seq<Option<BufferLayout>> {
    let has_vertices = template.buffer_layout@.attributes.len() > 0;
    match template.instance_layout {
        Some(instances) => if has_vertices {
            seq![Some(template.buffer_layout), Some(instances)]
        } else {
            seq![None, Some(instances)]
        },
        None => if has_vertices {
            seq![Some(template.buffer_layout)]
        } else {
            Seq::empty()
        },
    }
}

/// The pipeline a template asks for, drawn with `sample_count` samples per pixel. The material
/// bind group is used exactly when the template's bind group layout has entries.
pub fn pipeline_plan(template: &MaterialTemplate, sample_count: u32) -> (r: PipelinePlan<'_>)
    requires
        can_build(*template),
    ensures
        *r.vertex_entry_point == vertex_entry_of(template.shader.entry_point),
        match r.fragment_entry_point {
            Some(e) => fragment_entry_of(template.shader.entry_point) == Some(*e),
            None => fragment_entry_of(template.shader.entry_point) is None,
        },
        r.buffers@.len() == buffers_of(*template).len(),
        forall|i: int|
            0 <= i < r.buffers@.len() ==> match #[trigger] r.buffers@[i] {
                Some(l) => buffers_of(*template)[i] == Some(*l),
                None => buffers_of(*template)[i] is None,
            },
        r.blend == template.blend_state,
        r.material_group == (template.bind_group_layout.entries@.len() > 0),
        r.topology == template.topology,
        r.depth_stencil == template.depth_stencil,
        r.sample_count == sample_count,
{
    let vertex_entry_point: &String = match &template.shader.entry_point {
        ShaderEntryPoint::Vertex(e) => e,
        ShaderEntryPoint::Both { vs_entry_point, .. } => vs_entry_point,
        ShaderEntryPoint::Fragment(e) => e,
    };
    let fragment_entry_point: Option<&String> = match template.shader.entry_point.fragment_entry_point() {
        Ok(e) => Some(e),
        Err(_) => None,
    };
    let has_vertices = !template.buffer_layout.is_empty();
    let mut buffers: Vec<Option<&BufferLayout>> = Vec::new();
    match &template.instance_layout {
        Some(instances) => {
            if has_vertices {
                buffers.push(Some(&template.buffer_layout));
            } else {
                buffers.push(None);
            }
            buffers.push(Some(instances));
        },
        None => {
            if has_vertices {
                buffers.push(Some(&template.buffer_layout));
            }
        },
    }
    PipelinePlan {
        vertex_entry_point,
        fragment_entry_point,
        buffers,
        blend: template.blend_state,
        material_group: template.bind_group_layout.entries.len() > 0,
        topology: template.topology,
        depth_stencil: template.depth_stencil,
        sample_count,
    }
}

/// What a compiled pipeline is built from: the material template, the colour target's format,
/// the sample count, and the scene and material bind group layouts. The template, format and
/// layouts are named by the identifiers their owner gives them; two keys are the same key when
/// every field is equal.
#[derive(Clone, Copy, Debug, PartialEq, Eq, Structural, Hash)]
pub struct PipelineCacheKey {
    pub template: u64,
    pub target_format: u64,
    pub sample_count: u32,
    pub scene_layout: u64,
    pub material_layout: u64,
}

/// Whether `key` has an entry in `entries`.
pub open spec fn is_cached<P>(entries: Seq<(PipelineCacheKey, P)>, key: PipelineCacheKey) -> bool {
    exists|i: int| 0 <= i < entries.len() && (#[trigger] entries[i]).0 == key
}

/// Compiled pipelines, each kept under the key it was built from, compiled once per key: the
/// same build inputs always give back the same pipeline.
pub struct PipelineCache<P> {
    entries: Vec<(PipelineCacheKey, P)>,
}

impl<P> View for PipelineCache<P> {
    type V = Seq<(PipelineCacheKey, P)>;

    closed spec fn view(&self) -> Seq<(PipelineCacheKey, P)> {
        self.entries@
    }
}

impl<P> PipelineCache<P> {
    /// No key occurs twice.
    pub open spec fn wf(&self) -> bool {
        forall|i: int, j: int|
            0 <= i < j < self@.len() ==> (#[trigger] self@[i]).0 != (#[trigger] self@[j]).0
    }

    /// An empty cache.
    pub fn new() -> (r: Self)
        ensures
            r.wf(),
            r@ == Seq::<(PipelineCacheKey, P)>::empty(),
    {
        PipelineCache { entries: Vec::new() }
    }

    /// The position of `key`, if cached.
    fn position(&self, key: &PipelineCacheKey) -> (r: Option<usize>)
        ensures
            match r {
                Some(i) => i < self@.len() && self@[i as int].0 == *key,
                None => !is_cached(self@, *key),
            },
    {
        let n = self.entries.len();
        let mut i: usize = 0;
        while i < n
            invariant
                n == self@.len(),
                i <= n,
                forall|j: int| 0 <= j < i ==> (#[trigger] self@[j]).0 != *key,
            decreases n - i,
        {
            if self.entries[i].0 == *key {
                return Some(i);
            }
            i = i + 1;
        }
        None
    }

    /// The pipeline kept under `key`, if one was compiled for it.
    pub fn get(&self, key: &PipelineCacheKey) -> (r: Option<&P>)
        requires
            self.wf(),
        ensures
            match r {
                Some(p) => exists|i: int|
                    0 <= i < self@.len() && self@[i].0 == *key && self@[i].1 == *p,
                None => !is_cached(self@, *key),
            },
    {
        match self.position(key) {
            Some(i) => Some(&self.entries[i].1),
            None => None,
        }
    }

    /// Keeps a pipeline compiled for `key`, which had none; every other key keeps its pipeline.
    pub fn insert(&mut self, key: PipelineCacheKey, pipeline: P)
        requires
            old(self).wf(),
            !is_cached(old(self)@, key),
        ensures
            final(self).wf(),
            final(self)@ == old(self)@.push((key, pipeline)),
    {
        self.entries.push((key, pipeline));
    }
}

/// A cache keeps one pipeline per key: in a well-formed cache, a key with an entry has exactly
/// one, so every lookup of it gives back that pipeline.
pub proof fn lemma_one_pipeline_per_key<P>(cache: PipelineCache<P>, key: PipelineCacheKey, i: int, j: int)
    requires
        cache.wf(),
        0 <= i < cache@.len(),
        0 <= j < cache@.len(),
        cache@[i].0 == key,
        cache@[j].0 == key,
    ensures
        i == j,
{
    if i < j {
        assert(cache@[i].0 != cache@[j].0);
    } else if j < i {
        assert(cache@[j].0 != cache@[i].0);
    }
}

/// Material types known to the renderer, each with the template its pipeline is built from.
/// A type is registered at most once.
pub struct MaterialRegistry {
    registrations: Vec<(TypeId, MaterialTemplate)>,
}

impl View for MaterialRegistry {
    type V = Seq<(TypeId, MaterialTemplate)>;

    closed spec fn view(&self) -> Seq<(TypeId, MaterialTemplate)> {
        self.registrations@
    }
}

/// Whether `type_id` is registered in `registrations`.
pub open spec fn is_registered(registrations: Seq<(TypeId, MaterialTemplate)>, type_id: TypeId) -> bool {
    exists|i: int| 0 <= i < registrations.len() && (#[trigger] registrations[i]).0 == type_id
}

impl MaterialRegistry {
    /// No type occurs twice.
    pub open spec fn wf(&self) -> bool {
        forall|i: int, j: int|
            0 <= i < j < self@.len() ==> (#[trigger] self@[i]).0 != (#[trigger] self@[j]).0
    }

    /// No material types.
    pub fn new() -> (r: Self)
        ensures
            r.wf(),
            r@ == Seq::<(TypeId, MaterialTemplate)>::empty(),
    {
        MaterialRegistry { registrations: Vec::new() }
    }

    /// The position of `type_id`, if registered.
    fn position(&self, type_id: &TypeId) -> (r: Option<usize>)
        ensures
            match r {
                Some(i) => i < self@.len() && self@[i as int].0 == *type_id,
                None => !is_registered(self@, *type_id),
            },
    {
        let n = self.registrations.len();
        let mut i: usize = 0;
        while i < n
            invariant
                n == self@.len(),
                i <= n,
                forall|j: int| 0 <= j < i ==> (#[trigger] self@[j]).0 != *type_id,
            decreases n - i,
        {
            if type_ids_equal(&self.registrations[i].0, type_id) {
                return Some(i);
            }
            i = i + 1;
        }
        None
    }

    /// Registers a material type with its template; a type registered before keeps its place
    /// and takes the new template.
    pub fn register(&mut self, type_id: TypeId, template: MaterialTemplate)
        requires
            old(self).wf(),
        ensures
            final(self).wf(),
            is_registered(old(self)@, type_id) ==> exists|i: int|
                0 <= i < old(self)@.len() && old(self)@[i].0 == type_id && final(self)@
                    == old(self)@.update(i, (type_id, template)),
            !is_registered(old(self)@, type_id) ==> final(self)@ == old(self)@.push(
                (type_id, template),
            ),
    {
        match self.position(&type_id) {
            Some(i) => {
                self.registrations.set(i, (type_id, template));
            },
            None => {
                self.registrations.push((type_id, template));
            },
        }
    }

    /// For each batch, in order, whether its material's type is registered: the first test a
    /// batch passes before it is prepared.
    pub fn registered_batches(&self, batches: &[DrawBatch]) -> (r: Vec<bool>)
        ensures
            r@.len() == batches@.len(),
            forall|k: int|
                0 <= k < batches@.len() ==> #[trigger] r@[k] == is_registered(
                    self@,
                    batches@[k]@.material.type_id,
                ),
    {
        let mut out: Vec<bool> = Vec::new();
        let n = batches.len();
        let mut k: usize = 0;
        while k < n
            invariant
                n == batches@.len(),
                k <= n,
                out@.len() == k,
                forall|j: int|
                    0 <= j < k ==> #[trigger] out@[j] == is_registered(
                        self@,
                        batches@[j]@.material.type_id,
                    ),
            decreases n - k,
        {
            let material: WeakGenericHandle = batches[k].material();
            out.push(self.position(&material.type_id).is_some());
            k = k + 1;
        }
        out
    }

    /// The template registered for `type_id`, if any.
    pub fn get(&self, type_id: &TypeId) -> (r: Option<&MaterialTemplate>)
        requires
            self.wf(),
        ensures
            match r {
                Some(t) => exists|i: int|
                    0 <= i < self@.len() && self@[i].0 == *type_id && self@[i].1 == *t,
                None => !is_registered(self@, *type_id),
            },
    {
        match self.position(type_id) {
            Some(i) => Some(&self.registrations[i].1),
            None => None,
        }
    }
}

} // verus!
