//! Bind groups at submission: the scene layout and uniforms built from an environment, and the
//! bindings of a material's bind group.
use vstd::prelude::*;
use crate::material::{BindGroupLayout, BindGroupLayoutEntry};
use crate::uniform::{entry_of, UniformBuffer, UniformEntryView};

verus! {

/// The layout of a uniform buffer after uploading the uniform entries of `entries`, in order,
/// to one in state `buf` (texture entries upload nothing; a slot uploaded again takes the new
/// size in place).
pub open spec fn uploaded(buf: (Seq<UniformEntryView>, u64), entries: Seq<BindGroupLayoutEntry>) -> (
    Seq<UniformEntryView>,
    u64,
)
    decreases entries.len(),
{
    if entries.len() == 0 {
        buf
    } else {
        let before = uploaded(buf, entries.drop_last());
        match entries.last() {
            BindGroupLayoutEntry::Uniform { binding_slot, ty, .. } => match entry_of(
                before.0,
                binding_slot,
            ) {
                Some(i) => (
                    before.0.update(i, UniformEntryView { size: ty.spec_size(), ..before.0[i] }),
                    before.1,
                ),
                None => (
                    before.0.push(
                        UniformEntryView { binding_slot, offset: 0, size: ty.spec_size() },
                    ),
                    before.1,
                ),
            },
            BindGroupLayoutEntry::Texture { .. } => before,
        }
    }
}

/// Uploads each uniform entry of `entries` to `uniforms`, in order.
pub fn upload_uniforms(entries: &[BindGroupLayoutEntry], uniforms: &mut UniformBuffer)
    requires
        old(uniforms).wf(),
    ensures
        final(uniforms).wf(),
        final(uniforms)@ == uploaded(old(uniforms)@, entries@),
{
    let ghost start = uniforms@;
    let n = entries.len();
    let mut i: usize = 0;
    while i < n
        invariant
            n == entries@.len(),
            i <= n,
            uniforms.wf(),
            uniforms@ == uploaded(start, entries@.take(i as int)),
        decreases n - i,
    {
        proof {
            assert(entries@.take(i as int + 1).drop_last() =~= entries@.take(i as int));
        }
        match entries[i] {
            BindGroupLayoutEntry::Uniform { binding_slot, ty, .. } => {
                uniforms.upload(binding_slot, ty);
            },
            BindGroupLayoutEntry::Texture { .. } => {},
        }
        i = i + 1;
    }
    assert(entries@.take(n as int) =~= entries@);
}

/// The scene bind group of an environment with `entries`: its layout (the entries, in order),
/// and its uniforms uploaded to `uniforms`.
pub fn environment_layout(entries: &[BindGroupLayoutEntry], uniforms: &mut UniformBuffer) -> (r:
    BindGroupLayout)
    requires
        old(uniforms).wf(),
    ensures
        r.entries@ == entries@,
        final(uniforms).wf(),
        final(uniforms)@ == uploaded(old(uniforms)@, entries@),
{
    let mut layout = BindGroupLayout::new();
    let n = entries.len();
    let mut i: usize = 0;
    while i < n
        invariant
            n == entries@.len(),
            i <= n,
            layout.entries@ == entries@.take(i as int),
        decreases n - i,
    {
        layout = layout.with_entry(entries[i]);
        proof {
            assert(entries@.take(i as int + 1) =~= entries@.take(i as int).push(entries@[i as int]));
        }
        i = i + 1;
    }
    assert(entries@.take(n as int) =~= entries@);
    upload_uniforms(entries, uniforms);
    layout
}

/// One binding of a material's bind group.
#[derive(Clone, Copy, Debug, PartialEq, Eq)]
pub enum BindingPlan {
    /// A range of the built uniform buffer.
    Buffer { binding: u32, offset: u64, size: u64 },
    /// The view of the texture of entry `entry`.
    TextureView { binding: u32, entry: usize },
    /// The sampler of the texture of entry `entry`.
    Sampler { binding: u32, entry: usize },
}

/// The bindings of the first `n` entries, given the built uniform layout `uniforms` and, per
/// entry, whether its texture view and its sampler are available.
pub open spec fn bindings_for(
    entries: Seq<BindGroupLayoutEntry>,
    uniforms: Seq<UniformEntryView>,
    textures: Seq<(bool, bool)>,
    n: nat,
) -> Seq<BindingPlan>
    decreases n,
{
    if n == 0 {
        Seq::empty()
    } else {
        let k = (n - 1) as int;
        let rest = bindings_for(entries, uniforms, textures, (n - 1) as nat);
        match entries[k] {
            BindGroupLayoutEntry::Uniform { binding_slot, ty, .. } => match entry_of(
                uniforms,
                binding_slot,
            ) {
                Some(i) => rest.push(
                    BindingPlan::Buffer {
                        binding: binding_slot,
                        offset: uniforms[i].offset,
                        size: ty.spec_size(),
                    },
                ),
                None => rest,
            },
            BindGroupLayoutEntry::Texture { binding_slot, sampler_binding_slot, .. } => {
                let with_view = if textures[k].0 {
                    rest.push(BindingPlan::TextureView { binding: binding_slot, entry: k as usize })
                } else {
                    rest
                };
                if textures[k].1 {
                    with_view.push(
                        BindingPlan::Sampler { binding: sampler_binding_slot, entry: k as usize },
                    )
                } else {
                    with_view
                }
            },
        }
    }
}

/// The bindings of a material's bind group: each uniform entry binds its range of the built
/// uniform buffer (none when its slot was not uploaded); each texture entry binds its texture's
/// view and its sampler, each when available (`textures[i]` says so for entry `i`).
pub fn material_bindings(
    entries: &[BindGroupLayoutEntry],
    uniforms: &UniformBuffer,
    textures: &[(bool, bool)],
) -> (r: Vec<BindingPlan>)
    requires
        uniforms.wf(),
        textures@.len() == entries@.len(),
    ensures
        r@ == bindings_for(entries@, uniforms@.0, textures@, entries@.len()),
{
    let mut out: Vec<BindingPlan> = Vec::new();
    let n = entries.len();
    let mut i: usize = 0;
    while i < n
        invariant
            n == entries@.len(),
            n == textures@.len(),
            uniforms.wf(),
            i <= n,
            out@ == bindings_for(entries@, uniforms@.0, textures@, i as nat),
        decreases n - i,
    {
        match entries[i] {
            BindGroupLayoutEntry::Uniform { binding_slot, ty, .. } => {
                match uniforms.offset(binding_slot) {
                    Some(offset) => {
                        out.push(BindingPlan::Buffer { binding: binding_slot, offset, size: ty.size() });
                    },
                    None => {},
                }
            },
            BindGroupLayoutEntry::Texture { binding_slot, sampler_binding_slot, .. } => {
                let (view, sampler) = textures[i];
                if view {
                    out.push(BindingPlan::TextureView { binding: binding_slot, entry: i });
                }
                if sampler {
                    out.push(BindingPlan::Sampler { binding: sampler_binding_slot, entry: i });
                }
            },
        }
        i = i + 1;
    }
    out
}

} // verus!
