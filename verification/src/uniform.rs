//! Uniform types and the layout of per-frame uniform buffers.
//!
//! A uniform buffer holds one entry per binding slot. Building it places the entries one after
//! another in upload order, each at the next offset that is a multiple of the device's minimum
//! uniform-buffer offset alignment, and rounds the total size up to that alignment too.
use vstd::prelude::*;
use crate::shader::ShaderStage;

verus! {

/// The type of a uniform value.
#[derive(Clone, Copy, Debug, PartialEq, Eq, Hash)]
pub enum UniformType {
    Mat4,
    Vec4,
    F32,
}

impl UniformType {
    pub open spec fn spec_size(self) -> u64 {
        match self {
            UniformType::Mat4 => 64,
            UniformType::Vec4 => 16,
            UniformType::F32 => 4,
        }
    }

    /// Size in bytes of a value of this type.
    pub fn size(&self) -> (r: u64)
        ensures
            r == self.spec_size(),
    {
        match self {
            UniformType::Mat4 => 64,
            UniformType::Vec4 => 16,
            UniformType::F32 => 4,
        }
    }
}

/// Declares a single uniform binding as a material's shaders expect it.
#[derive(Clone, Debug)]
pub struct UniformBinding {
    pub name: String,
    pub ty: UniformType,
    pub binding_slot: u32,
    pub visibility: ShaderStage,
}

/// The smallest multiple of `align` that is at least `x`.
pub open spec fn round_up(x: int, align: int) -> int {
    if x % align == 0 {
        x
    } else {
        x + (align - x % align)
    }
}

proof fn lemma_round_up(x: int, align: int)
    requires
        x >= 0,
        align > 0,
    ensures
        round_up(x, align) >= x,
        round_up(x, align) < x + align,
        round_up(x, align) % align == 0,
{
    assert(0 <= x % align < align) by (nonlinear_arith)
        requires
            align > 0,
    ;
    if x % align != 0 {
        assert((x + (align - x % align)) % align == 0) by (nonlinear_arith)
            requires
                align > 0,
                x >= 0,
        {
            vstd::arithmetic::div_mod::lemma_fundamental_div_mod(x, align);
            let q = x / align;
            assert(x + (align - x % align) == (q + 1) * align) by (nonlinear_arith)
                requires
                    x == align * q + x % align,
            ;
            vstd::arithmetic::div_mod::lemma_mod_multiples_basic(q + 1, align);
        }
    }
}

/// Where the entries of sizes `sizes` end, the first `k` of them placed at aligned offsets.
pub open spec fn end_at(sizes: Seq<u64>, align: int, k: nat) -> int
    decreases k,
{
    if k == 0 {
        0
    } else {
        round_up(end_at(sizes, align, (k - 1) as nat), align) + sizes[k - 1]
    }
}

/// The offset of entry `k`.
pub open spec fn offset_at(sizes: Seq<u64>, align: int, k: nat) -> int {
    round_up(end_at(sizes, align, k), align)
}

/// The buffer size for all entries.
pub open spec fn total_size(sizes: Seq<u64>, align: int) -> int {
    round_up(end_at(sizes, align, sizes.len()), align)
}

proof fn lemma_end_at_grows(sizes: Seq<u64>, align: int, j: nat, k: nat)
    requires
        align > 0,
        j <= k <= sizes.len(),
    ensures
        0 <= end_at(sizes, align, j) <= end_at(sizes, align, k),
    decreases k,
{
    if j < k {
        lemma_end_at_grows(sizes, align, j, (k - 1) as nat);
        lemma_end_at_grows(sizes, align, 0, (k - 1) as nat);
        lemma_round_up(end_at(sizes, align, (k - 1) as nat), align);
    } else if k > 0 {
        lemma_end_at_grows(sizes, align, 0, (k - 1) as nat);
        lemma_round_up(end_at(sizes, align, (k - 1) as nat), align);
    }
}

/// The entries of a built buffer sit at multiples of the alignment, in upload order, without
/// overlapping, and inside the buffer; the buffer size is a multiple of the alignment.
pub proof fn lemma_layout_aligned(sizes: Seq<u64>, align: int)
    requires
        align > 0,
    ensures
        forall|k: nat| k < sizes.len() ==> #[trigger] offset_at(sizes, align, k) % align == 0,
        forall|k: nat|
            k + 1 < sizes.len() ==> offset_at(sizes, align, k) + sizes[k as int] <= #[trigger] offset_at(
                sizes,
                align,
                k + 1,
            ),
        forall|k: nat|
            k < sizes.len() ==> #[trigger] offset_at(sizes, align, k) + sizes[k as int] <= total_size(
                sizes,
                align,
            ),
        total_size(sizes, align) % align == 0,
{
    assert forall|k: nat| k < sizes.len() implies #[trigger] offset_at(sizes, align, k) % align == 0 by {
        lemma_end_at_grows(sizes, align, 0, k);
        lemma_round_up(end_at(sizes, align, k), align);
    }
    assert forall|k: nat| k + 1 < sizes.len() implies offset_at(sizes, align, k) + sizes[k as int]
        <= #[trigger] offset_at(sizes, align, k + 1) by {
        lemma_end_at_grows(sizes, align, 0, k + 1);
        lemma_round_up(end_at(sizes, align, k + 1), align);
    }
    assert forall|k: nat| k < sizes.len() implies #[trigger] offset_at(sizes, align, k) + sizes[k as int]
        <= total_size(sizes, align) by {
        lemma_end_at_grows(sizes, align, k + 1, sizes.len());
        lemma_end_at_grows(sizes, align, 0, sizes.len());
        lemma_round_up(end_at(sizes, align, sizes.len()), align);
    }
    lemma_end_at_grows(sizes, align, 0, sizes.len());
    lemma_round_up(end_at(sizes, align, sizes.len()), align);
}

/// Rounds `x` up to a multiple of `align`, as `u64::next_multiple_of` does.
fn next_multiple_of(x: u64, align: u64) -> (r: u64)
    requires
        align > 0,
        round_up(x as int, align as int) <= u64::MAX,
    ensures
        r == round_up(x as int, align as int),
{
    let rem = x % align;
    if rem == 0 {
        x
    } else {
        x + (align - rem)
    }
}

struct UniformBufferEntry {
    binding_slot: u32,
    offset: u64,
    size: u64,
}

/// The layout of a per-frame uniform buffer: one entry per binding slot, with its size and,
/// once built, its aligned offset.
pub struct UniformBuffer {
    entries: Vec<UniformBufferEntry>,
    min_offset_alignment: u64,
}

/// One entry of a [`UniformBuffer`]: binding slot, offset and size.
pub struct UniformEntryView {
    pub binding_slot: u32,
    pub offset: u64,
    pub size: u64,
}

impl View for UniformBuffer {
    type V = (Seq<UniformEntryView>, u64);

    closed spec fn view(&self) -> (Seq<UniformEntryView>, u64) {
        (
            self.entries@.map_values(
                |e: UniformBufferEntry|
                    UniformEntryView { binding_slot: e.binding_slot, offset: e.offset, size: e.size },
            ),
            self.min_offset_alignment,
        )
    }
}

/// The position of the entry for `slot`, if there is one.
pub open spec fn entry_of(entries: Seq<UniformEntryView>, slot: u32) -> Option<int> {
    if exists|i: int| 0 <= i < entries.len() && entries[i].binding_slot == slot {
        Some(choose|i: int| 0 <= i < entries.len() && entries[i].binding_slot == slot)
    } else {
        None
    }
}

/// The sizes of the entries, in order.
pub open spec fn sizes_of(entries: Seq<UniformEntryView>) -> Seq<u64> {
    entries.map_values(|e: UniformEntryView| e.size)
}

impl UniformBuffer {
    /// No two entries share a binding slot.
    pub closed spec fn wf(&self) -> bool {
        forall|i: int, j: int|
            0 <= i < j < self.entries@.len() ==> self.entries@[i].binding_slot
                != self.entries@[j].binding_slot
    }

    /// An empty buffer.
    pub fn new() -> (r: Self)
        ensures
            r.wf(),
            r@ == (Seq::<UniformEntryView>::empty(), 1u64),
    {
        let r = UniformBuffer { entries: Vec::new(), min_offset_alignment: 1 };
        assert(r@.0 =~= Seq::<UniformEntryView>::empty());
        r
    }

    /// Uploads a uniform of type `ty` at `binding_slot`. When the slot already has an entry, the
    /// value replaces the old one in place: the entry keeps its position and takes the size of
    /// `ty` (offsets hold again after the next [`build`](Self::build)); otherwise a new entry is
    /// appended. Returns the position of the entry, where the value is kept.
    pub fn upload(&mut self, binding_slot: u32, ty: UniformType) -> (r: usize)
        requires
            old(self).wf(),
        ensures
            final(self).wf(),
            match entry_of(old(self)@.0, binding_slot) {
                Some(i) => r == i && final(self)@ == (
                    old(self)@.0.update(
                        i,
                        UniformEntryView { size: ty.spec_size(), ..old(self)@.0[i] },
                    ),
                    old(self)@.1,
                ),
                None => r == old(self)@.0.len() && final(self)@ == (
                    old(self)@.0.push(
                        UniformEntryView { binding_slot, offset: 0, size: ty.spec_size() },
                    ),
                    old(self)@.1,
                ),
            },
    {
        let ghost before = self@;
        let size = ty.size();
        match self.position(binding_slot) {
            Some(i) => {
                let offset = self.entries[i].offset;
                let ghost old_entries = self.entries@;
                self.entries.set(i, UniformBufferEntry { binding_slot, offset, size });
                proof {
                    assert forall|j: int| 0 <= j < self.entries@.len() implies #[trigger] self@.0[j]
                        == before.0.update(
                        i as int,
                        UniformEntryView { size: ty.spec_size(), ..before.0[i as int] },
                    )[j] by {
                        if j != i as int {
                            assert(self.entries@[j] == old_entries[j]);
                        }
                    }
                    assert(self@.0 =~= before.0.update(
                        i as int,
                        UniformEntryView { size: ty.spec_size(), ..before.0[i as int] },
                    ));
                    assert forall|a: int, b: int|
                        0 <= a < b < self.entries@.len() implies self.entries@[a].binding_slot
                        != self.entries@[b].binding_slot by {
                        assert(self.entries@[a].binding_slot == before.0[a].binding_slot);
                        assert(self.entries@[b].binding_slot == before.0[b].binding_slot);
                    }
                }
                i
            },
            None => {
                let n = self.entries.len();
                self.entries.push(UniformBufferEntry { binding_slot, offset: 0, size });
                assert(self@.0 =~= before.0.push(UniformEntryView { binding_slot, offset: 0, size }));
                proof {
                    assert forall|a: int, b: int|
                        0 <= a < b < self.entries@.len() implies self.entries@[a].binding_slot
                        != self.entries@[b].binding_slot by {
                        assert(self.entries@[a].binding_slot == self@.0[a].binding_slot);
                        assert(self.entries@[b].binding_slot == self@.0[b].binding_slot);
                        if b == n as int {
                            assert(before.0[a].binding_slot != binding_slot);
                        }
                    }
                }
                n
            },
        }
    }

    /// The position of the entry for `binding_slot`, if there is one.
    fn position(&self, binding_slot: u32) -> (r: Option<usize>)
        requires
            self.wf(),
        ensures
            match r {
                Some(i) => i < self@.0.len() && entry_of(self@.0, binding_slot) == Some(i as int),
                None => entry_of(self@.0, binding_slot) is None,
            },
    {
        let ghost v = self@.0;
        let n = self.entries.len();
        let mut i: usize = 0;
        while i < n
            invariant
                self.wf(),
                v == self@.0,
                n == self.entries@.len(),
                i <= n,
                forall|j: int| 0 <= j < i ==> self.entries@[j].binding_slot != binding_slot,
            decreases n - i,
        {
            if self.entries[i].binding_slot == binding_slot {
                proof {
                    assert(v[i as int].binding_slot == binding_slot);
                    let c = choose|c: int| 0 <= c < v.len() && v[c].binding_slot == binding_slot;
                    assert(c == i as int) by {
                        if c != i as int {
                            assert(v[c].binding_slot == self.entries@[c].binding_slot);
                        }
                    }
                }
                return Some(i);
            }
            i = i + 1;
        }
        proof {
            if exists|c: int| 0 <= c < v.len() && v[c].binding_slot == binding_slot {
                let c = choose|c: int| 0 <= c < v.len() && v[c].binding_slot == binding_slot;
                assert(v[c].binding_slot == self.entries@[c].binding_slot);
            }
        }
        None
    }

    /// Whether building with `device_alignment` stays within `u64`: the test callers make before
    /// [`build`](Self::build).
    pub fn can_build(&self, device_alignment: u32) -> (r: bool)
        requires
            self.wf(),
        ensures
            r == (self@.0.len() > 0 ==> total_size(
                sizes_of(self@.0),
                if device_alignment > 1 { device_alignment as int } else { 1 },
            ) <= u64::MAX),
    {
        let n = self.entries.len();
        if n == 0 {
            return true;
        }
        let ghost sizes = sizes_of(self@.0);
        let align: u64 = if device_alignment > 1 { device_alignment as u64 } else { 1 };
        let mut cursor: u64 = 0;
        let mut k: usize = 0;
        while k < n
            invariant
                n == self.entries@.len(),
                n == sizes.len(),
                sizes == sizes_of(self@.0),
                align > 0,
                n > 0,
                align as int == (if device_alignment > 1 { device_alignment as int } else { 1 }),
                k <= n,
                cursor == end_at(sizes, align as int, k as nat),
            decreases n - k,
        {
            proof {
                lemma_end_at_grows(sizes, align as int, 0, k as nat);
                lemma_round_up(end_at(sizes, align as int, k as nat), align as int);
                lemma_end_at_grows(sizes, align as int, (k + 1) as nat, n as nat);
                lemma_end_at_grows(sizes, align as int, 0, n as nat);
                lemma_round_up(end_at(sizes, align as int, n as nat), align as int);
                assert(sizes[k as int] == self.entries@[k as int].size);
            }
            let rem = cursor % align;
            let pad = if rem == 0 { 0 } else { align - rem };
            assert(cursor + pad == round_up(cursor as int, align as int));
            assert(end_at(sizes, align as int, (k + 1) as nat) == cursor + pad + sizes[k as int]);
            if pad > u64::MAX - cursor {
                return false;
            }
            let rounded = cursor + pad;
            let size = self.entries[k].size;
            if size > u64::MAX - rounded {
                return false;
            }
            cursor = rounded + size;
            k = k + 1;
        }
        proof {
            lemma_end_at_grows(sizes, align as int, 0, n as nat);
            lemma_round_up(end_at(sizes, align as int, n as nat), align as int);
        }
        let rem = cursor % align;
        let pad = if rem == 0 { 0 } else { align - rem };
        pad <= u64::MAX - cursor
    }

    /// Places the entries: the alignment becomes `device_alignment` (at least 1), entry `k` goes
    /// to [`offset_at`] and the buffer size is [`total_size`], which is returned. With no entries
    /// nothing changes and `None` is returned.
    pub fn build(&mut self, device_alignment: u32) -> (r: Option<u64>)
        requires
            old(self).wf(),
            old(self)@.0.len() > 0 ==> total_size(
                sizes_of(old(self)@.0),
                if device_alignment > 1 { device_alignment as int } else { 1 },
            ) <= u64::MAX,
        ensures
            final(self).wf(),
            old(self)@.0.len() == 0 ==> r is None && final(self)@ == old(self)@,
            old(self)@.0.len() > 0 ==> {
                let align = if device_alignment > 1 { device_alignment as int } else { 1 };
                let sizes = sizes_of(old(self)@.0);
                &&& r == Some(total_size(sizes, align) as u64)
                &&& final(self)@.1 == align
                &&& final(self)@.0.len() == old(self)@.0.len()
                &&& forall|k: int|
                    0 <= k < sizes.len() ==> #[trigger] final(self)@.0[k] == (UniformEntryView {
                        offset: offset_at(sizes, align, k as nat) as u64,
                        ..old(self)@.0[k]
                    })
            },
    {
        if self.entries.len() == 0 {
            return None;
        }
        let ghost before = self@;
        let ghost sizes = sizes_of(before.0);
        let align: u64 = if device_alignment > 1 { device_alignment as u64 } else { 1 };
        self.min_offset_alignment = align;
        let n = self.entries.len();
        let mut cursor: u64 = 0;
        let mut k: usize = 0;
        proof {
            lemma_end_at_grows(sizes, align as int, 0, n as nat);
            lemma_round_up(end_at(sizes, align as int, n as nat), align as int);
        }
        while k < n
            invariant
                self.entries@.len() == n,
                n == before.0.len(),
                sizes == sizes_of(before.0),
                align > 0,
                self.min_offset_alignment == align,
                k <= n,
                cursor == end_at(sizes, align as int, k as nat),
                total_size(sizes, align as int) <= u64::MAX,
                end_at(sizes, align as int, n as nat) <= total_size(sizes, align as int),
                forall|i: int, j: int|
                    0 <= i < j < n ==> self.entries@[i].binding_slot != self.entries@[j].binding_slot,
                forall|j: int|
                    0 <= j < n ==> self.entries@[j].binding_slot == before.0[j].binding_slot
                        && self.entries@[j].size == before.0[j].size,
                forall|j: int|
                    0 <= j < k ==> #[trigger] self.entries@[j].offset == offset_at(
                        sizes,
                        align as int,
                        j as nat,
                    ),
                forall|j: int| k <= j < n ==> #[trigger] self.entries@[j].offset == before.0[j].offset,
            decreases n - k,
        {
            proof {
                lemma_end_at_grows(sizes, align as int, k as nat, n as nat);
                lemma_end_at_grows(sizes, align as int, (k + 1) as nat, n as nat);
                lemma_end_at_grows(sizes, align as int, 0, k as nat);
                lemma_round_up(end_at(sizes, align as int, k as nat), align as int);
                assert(sizes[k as int] == self.entries@[k as int].size);
            }
            cursor = next_multiple_of(cursor, align);
            let size = self.entries[k].size;
            let slot = self.entries[k].binding_slot;
            self.entries.set(k, UniformBufferEntry { binding_slot: slot, offset: cursor, size });
            cursor = cursor + size;
            k = k + 1;
        }
        proof {
            lemma_end_at_grows(sizes, align as int, 0, n as nat);
            lemma_round_up(end_at(sizes, align as int, n as nat), align as int);
        }
        let total = next_multiple_of(cursor, align);
        proof {
            assert forall|k: int| 0 <= k < sizes.len() implies #[trigger] self@.0[k] == (UniformEntryView {
                offset: offset_at(sizes, align as int, k as nat) as u64,
                ..before.0[k]
            }) by {
                assert(self.entries@[k].offset == offset_at(sizes, align as int, k as nat));
            }
        }
        Some(total)
    }

    /// The offset of the entry for `binding_slot`, or `None` when nothing was uploaded there.
    pub fn offset(&self, binding_slot: u32) -> (r: Option<u64>)
        requires
            self.wf(),
        ensures
            match entry_of(self@.0, binding_slot) {
                Some(i) => r == Some(self@.0[i].offset),
                None => r is None,
            },
    {
        let n = self.entries.len();
        let mut i: usize = 0;
        while i < n
            invariant
                self.wf(),
                n == self.entries@.len(),
                i <= n,
                forall|j: int| 0 <= j < i ==> self.entries@[j].binding_slot != binding_slot,
            decreases n - i,
        {
            if self.entries[i].binding_slot == binding_slot {
                proof {
                    assert(self@.0[i as int].binding_slot == self.entries@[i as int].binding_slot);
                    let c = choose|c: int| 0 <= c < self@.0.len() && self@.0[c].binding_slot == binding_slot;
                    assert(c == i as int) by {
                        if c != i as int {
                            assert(self@.0[c].binding_slot == self.entries@[c].binding_slot);
                        }
                    }
                }
                return Some(self.entries[i].offset);
            }
            i = i + 1;
        }
        proof {
            if exists|c: int| 0 <= c < self@.0.len() && self@.0[c].binding_slot == binding_slot {
                let c = choose|c: int| 0 <= c < self@.0.len() && self@.0[c].binding_slot == binding_slot;
                assert(self@.0[c].binding_slot == self.entries@[c].binding_slot);
            }
        }
        None
    }

    /// The entries as (binding slot, offset, size), in upload order.
    pub fn entries(&self) -> (r: Vec<(u32, u64, u64)>)
        ensures
            r@.len() == self@.0.len(),
            forall|i: int|
                0 <= i < r@.len() ==> #[trigger] r@[i] == (
                    self@.0[i].binding_slot,
                    self@.0[i].offset,
                    self@.0[i].size,
                ),
    {
        let mut out: Vec<(u32, u64, u64)> = Vec::new();
        let n = self.entries.len();
        let mut i: usize = 0;
        while i < n
            invariant
                n == self.entries@.len(),
                i <= n,
                out@.len() == i,
                forall|j: int|
                    0 <= j < i ==> #[trigger] out@[j] == (
                        self@.0[j].binding_slot,
                        self@.0[j].offset,
                        self@.0[j].size,
                    ),
            decreases n - i,
        {
            let e = &self.entries[i];
            out.push((e.binding_slot, e.offset, e.size));
            i = i + 1;
        }
        out
    }

    /// Whether nothing was uploaded.
    pub fn is_empty(&self) -> (r: bool)
        ensures
            r == (self@.0.len() == 0),
    {
        self.entries.len() == 0
    }

    /// Forgets all entries for a new frame.
    pub fn reset(&mut self)
        ensures
            final(self).wf(),
            final(self)@ == (Seq::<UniformEntryView>::empty(), old(self)@.1),
    {
        self.entries.clear();
        assert(self@.0 =~= Seq::<UniformEntryView>::empty());
    }
}

} // verus!
