//! Vertex buffer layouts and the bookkeeping of growable GPU buffers.
use vstd::prelude::*;

verus! {

/// Whether a [`BufferLayout`] describes per-vertex data or per-instance data.
#[derive(Clone, Copy, Debug, PartialEq, Eq, Hash)]
pub enum BufferStepMode {
    /// The buffer is advanced per vertex (the usual vertex buffer).
    Vertex,
    /// The buffer is advanced per instance (instanced attribute buffer).
    Instance,
}

/// Engine-native vertex attribute format.
#[derive(Clone, Copy, Debug, PartialEq, Eq, Hash)]
pub enum VertexFormat {
    Float32,
    Float32x2,
    Float32x3,
    Float32x4,
    Uint8x4,
    Uint16x2,
    Uint32,
}

impl VertexFormat {
    /// Byte size of one value of this format.
    pub open spec fn spec_size(self) -> u64 {
        match self {
            VertexFormat::Float32 => 4,
            VertexFormat::Float32x2 => 8,
            VertexFormat::Float32x3 => 12,
            VertexFormat::Float32x4 => 16,
            VertexFormat::Uint8x4 => 4,
            VertexFormat::Uint16x2 => 4,
            VertexFormat::Uint32 => 4,
        }
    }

    /// Byte size of one value of this format — used to compute vertex stride.
    pub fn size(&self) -> (r: u64)
        ensures
            r == self.spec_size(),
    {
        match self {
            VertexFormat::Float32 => 4,
            VertexFormat::Float32x2 => 8,
            VertexFormat::Float32x3 => 12,
            VertexFormat::Float32x4 => 16,
            VertexFormat::Uint8x4 => 4,
            VertexFormat::Uint16x2 => 4,
            VertexFormat::Uint32 => 4,
        }
    }
}

/// One attribute of a vertex buffer layout: its format, byte offset within an element and the
/// shader location it feeds.
#[derive(Clone, Copy, Debug, PartialEq, Eq, Hash)]
pub struct VertexAttribute {
    pub format: VertexFormat,
    pub offset: u64,
    pub shader_location: u32,
}

/// The total byte size of a list of formats.
pub open spec fn formats_size(formats: Seq<VertexFormat>) -> nat
    decreases formats.len(),
{
    if formats.len() == 0 {
        0
    } else {
        formats_size(formats.drop_last()) + formats.last().spec_size() as nat
    }
}

/// The attributes for `formats` laid out back to back, with shader locations counted from
/// `location_offset`.
pub open spec fn attributes_of(formats: Seq<VertexFormat>, location_offset: u32) -> Seq<VertexAttribute> {
    Seq::new(
        formats.len(),
        |i: int|
            VertexAttribute {
                format: formats[i],
                offset: formats_size(formats.take(i)) as u64,
                shader_location: (location_offset + i) as u32,
            },
    )
}

proof fn lemma_formats_size_bound(formats: Seq<VertexFormat>)
    ensures
        formats_size(formats) <= 16 * formats.len(),
    decreases formats.len(),
{
    if formats.len() > 0 {
        lemma_formats_size_bound(formats.drop_last());
    }
}

/// Attribute layout of a vertex or instance buffer.
#[derive(Clone, Debug, PartialEq, Eq, Hash)]
pub struct BufferLayout {
    attributes: Vec<VertexAttribute>,
    stride: u64,
    step_mode: BufferStepMode,
}

/// The abstract content of a [`BufferLayout`].
pub struct BufferLayoutView {
    pub attributes: Seq<VertexAttribute>,
    pub stride: u64,
    pub step_mode: BufferStepMode,
}

impl View for BufferLayout {
    type V = BufferLayoutView;

    closed spec fn view(&self) -> BufferLayoutView {
        BufferLayoutView { attributes: self.attributes@, stride: self.stride, step_mode: self.step_mode }
    }
}

/// The layout that `formats` produce.
pub open spec fn layout_of(formats: Seq<VertexFormat>, step_mode: BufferStepMode, location_offset: u32) -> BufferLayoutView {
    BufferLayoutView {
        attributes: attributes_of(formats, location_offset),
        stride: formats_size(formats) as u64,
        step_mode,
    }
}

/// Builds per-vertex buffer layouts.
pub struct VertexBufferLayout {
    _private: (),
}

impl VertexBufferLayout {
    /// A per-vertex layout from an ordered list of attribute formats, with shader locations
    /// counted from `location_offset`.
    pub fn new(attributes_formats: &[VertexFormat], location_offset: u32) -> (r: BufferLayout)
        requires
            location_offset + attributes_formats@.len() <= u32::MAX,
        ensures
            r@ == layout_of(attributes_formats@, BufferStepMode::Vertex, location_offset),
    {
        BufferLayout::new(attributes_formats, BufferStepMode::Vertex, location_offset)
    }
}

/// Builds per-instance buffer layouts.
pub struct InstanceBufferLayout {
    _private: (),
}

impl InstanceBufferLayout {
    /// A per-instance layout from an ordered list of attribute formats, with shader locations
    /// counted from `location_offset`.
    pub fn new(attributes_formats: &[VertexFormat], location_offset: u32) -> (r: BufferLayout)
        requires
            location_offset + attributes_formats@.len() <= u32::MAX,
        ensures
            r@ == layout_of(attributes_formats@, BufferStepMode::Instance, location_offset),
    {
        BufferLayout::new(attributes_formats, BufferStepMode::Instance, location_offset)
    }
}

impl BufferLayout {
    /// A layout with no attributes: the pipeline takes no vertex buffer.
    pub fn empty() -> (r: Self)
        ensures
            r@ == layout_of(Seq::empty(), BufferStepMode::Vertex, 0),
    {
        let formats: Vec<VertexFormat> = Vec::new();
        Self::new(formats.as_slice(), BufferStepMode::Vertex, 0)
    }

    /// Lays the attributes out back to back: each attribute's offset is the sum of the sizes
    /// before it, its shader location counts up from `location_offset`, and the stride is the sum
    /// of all sizes.
    fn new(attributes_formats: &[VertexFormat], step_mode: BufferStepMode, location_offset: u32) -> (r: Self)
        requires
            location_offset + attributes_formats@.len() <= u32::MAX,
        ensures
            r@ == layout_of(attributes_formats@, step_mode, location_offset),
    {
        let ghost formats = attributes_formats@;
        let mut offset: u64 = 0;
        let mut shader_location: u32 = location_offset;
        let mut attributes: Vec<VertexAttribute> = Vec::new();
        let n = attributes_formats.len();
        let mut i: usize = 0;
        while i < n
            invariant
                n == formats.len(),
                formats == attributes_formats@,
                location_offset + n <= u32::MAX,
                i <= n,
                offset == formats_size(formats.take(i as int)),
                shader_location == location_offset + i,
                attributes@ =~= attributes_of(formats, location_offset).take(i as int),
            decreases n - i,
        {
            proof {
                lemma_formats_size_bound(formats.take(i as int));
                assert(formats.take(i as int + 1).drop_last() =~= formats.take(i as int));
            }
            let format = attributes_formats[i];
            attributes.push(VertexAttribute { format, offset, shader_location });
            shader_location = shader_location + 1;
            offset = offset + format.size();
            i = i + 1;
        }
        assert(formats.take(n as int) =~= formats);
        assert(attributes@ =~= attributes_of(formats, location_offset));
        proof {
            lemma_formats_size_bound(formats);
        }
        BufferLayout { attributes, stride: offset, step_mode }
    }

    /// Whether this layout declares any vertex attributes.
    pub fn is_empty(&self) -> (r: bool)
        ensures
            r == (self@.attributes.len() == 0),
    {
        self.attributes.len() == 0
    }

    /// The byte stride between consecutive elements in a buffer using this layout.
    pub fn stride(&self) -> (r: u64)
        ensures
            r == self@.stride,
    {
        self.stride
    }

    /// The step mode of this layout (per-vertex or per-instance).
    pub fn step_mode(&self) -> (r: BufferStepMode)
        ensures
            r == self@.step_mode,
    {
        self.step_mode
    }

    /// The attributes, in order.
    pub fn attributes(&self) -> (r: &[VertexAttribute])
        ensures
            r@ == self@.attributes,
    {
        self.attributes.as_slice()
    }
}

/// Attributes laid out by [`VertexBufferLayout::new`] or [`InstanceBufferLayout::new`] sit back
/// to back: the first starts at offset 0, each next one starts where the previous one ends, the
/// last one ends at the stride, and shader locations are consecutive.
pub proof fn lemma_attributes_contiguous(formats: Seq<VertexFormat>, step_mode: BufferStepMode, location_offset: u32)
    requires
        location_offset + formats.len() <= u32::MAX,
    ensures
        ({
            let l = layout_of(formats, step_mode, location_offset);
            &&& l.attributes.len() == formats.len()
            &&& formats.len() > 0 ==> l.attributes[0].offset == 0
            &&& forall|i: int|
                0 <= i < formats.len() - 1 ==> #[trigger] l.attributes[i + 1].offset
                    == l.attributes[i].offset + formats[i].spec_size()
                    && l.attributes[i + 1].shader_location == l.attributes[i].shader_location + 1
            &&& formats.len() > 0 ==> l.stride == l.attributes[formats.len() - 1].offset
                + formats[formats.len() - 1].spec_size()
        }),
{
    let l = layout_of(formats, step_mode, location_offset);
    assert forall|i: int| 0 <= i < formats.len() - 1 implies #[trigger] l.attributes[i + 1].offset
        == l.attributes[i].offset + formats[i].spec_size()
        && l.attributes[i + 1].shader_location == l.attributes[i].shader_location + 1 by {
        assert(formats.take(i + 1).drop_last() =~= formats.take(i));
        assert(formats.take(i + 1).last() == formats[i]);
        lemma_formats_size_bound(formats.take(i + 1));
        lemma_formats_size_bound(formats.take(i));
    }
    if formats.len() > 0 {
        let n = formats.len() as int;
        assert(formats.take(0) =~= Seq::<VertexFormat>::empty());
        assert(formats.drop_last() =~= formats.take(n - 1));
        lemma_formats_size_bound(formats);
        lemma_formats_size_bound(formats.take(n - 1));
    }
}

/// A range of bytes in a buffer.
#[derive(Clone, Copy, Debug, PartialEq, Eq)]
pub struct Offset {
    pub offset: u64,
    pub size: u64,
}

/// What appending to a [`DynamicBuffer`] takes: the range the data goes to and, when the buffer
/// is too small, the size of the buffer that replaces it (the bytes written so far are copied
/// over first).
#[derive(Clone, Copy, Debug, PartialEq, Eq)]
pub struct ExtendPlan {
    pub offset: Offset,
    pub grow_to: Option<u64>,
}

/// The bookkeeping of an append-only GPU buffer that grows when it runs out of room: how many
/// bytes it holds and how large the underlying buffer is.
pub struct DynamicBuffer {
    length: u64,
    size: u64,
    label: String,
}

/// The abstract content of a [`DynamicBuffer`]: bytes in use and buffer size.
pub struct DynamicBufferView {
    pub length: u64,
    pub size: u64,
}

impl View for DynamicBuffer {
    type V = DynamicBufferView;

    closed spec fn view(&self) -> DynamicBufferView {
        DynamicBufferView { length: self.length, size: self.size }
    }
}

impl DynamicBufferView {
    /// Whether appending `data_len` bytes needs no arithmetic beyond `u64`.
    pub open spec fn can_extend(self, data_len: u64) -> bool {
        &&& data_len + self.length <= u64::MAX
        &&& data_len + self.length > self.size ==> self.size * 2 + data_len + self.length
            <= u64::MAX
    }

    /// The state after appending `data_len` bytes.
    pub open spec fn extended(self, data_len: u64) -> DynamicBufferView {
        DynamicBufferView {
            length: (self.length + data_len) as u64,
            size: if data_len + self.length <= self.size {
                self.size
            } else {
                (self.size * 2 + data_len + self.length) as u64
            },
        }
    }

    /// What appending `data_len` bytes takes.
    pub open spec fn extend_plan(self, data_len: u64) -> ExtendPlan {
        ExtendPlan {
            offset: Offset { offset: self.length, size: data_len },
            grow_to: if data_len + self.length <= self.size {
                None
            } else {
                Some((self.size * 2 + data_len + self.length) as u64)
            },
        }
    }
}

/// The state after appending `data_len` bytes to a buffer with `length` bytes in use out of
/// `size`, when that needs no arithmetic beyond `u64`.
pub(crate) fn extended_state(length: u64, size: u64, data_len: u64) -> (r: Option<(u64, u64)>)
    ensures
        r is Some <==> (DynamicBufferView { length, size }).can_extend(data_len),
        r matches Some((l, s)) ==> (DynamicBufferView { length: l, size: s }) == (DynamicBufferView {
            length,
            size,
        }).extended(data_len),
{
    if data_len > u64::MAX - length {
        return None;
    }
    let end = data_len + length;
    if end <= size {
        Some((end, size))
    } else if size > (u64::MAX - end) / 2 {
        None
    } else {
        Some((end, size * 2 + end))
    }
}

impl DynamicBuffer {
    /// The bytes in use fit in the buffer.
    pub open spec fn wf(&self) -> bool {
        self@.length <= self@.size
    }

    /// An empty buffer of `initial_size` bytes.
    pub fn new(label: &str, initial_size: u64) -> (r: Self)
        ensures
            r.wf(),
            r@ == (DynamicBufferView { length: 0, size: initial_size }),
            r.label()@ == label@,
    {
        DynamicBuffer { length: 0, size: initial_size, label: label.to_string() }
    }

    pub closed spec fn label(&self) -> String {
        self.label
    }

    /// The buffer's label.
    pub fn label_str(&self) -> (r: &str)
        ensures
            r@ == self.label()@,
    {
        self.label.as_str()
    }

    /// Bytes in use.
    pub fn len(&self) -> (r: u64)
        ensures
            r == self@.length,
    {
        self.length
    }

    /// Size of the underlying buffer.
    pub fn size(&self) -> (r: u64)
        ensures
            r == self@.size,
    {
        self.size
    }

    /// Appends `data_len` bytes: they go right after the bytes in use. When they do not fit, the
    /// buffer is replaced by one of twice the old size plus the bytes in use plus `data_len`.
    pub fn extend(&mut self, data_len: u64) -> (r: ExtendPlan)
        requires
            old(self).wf(),
            old(self)@.can_extend(data_len),
        ensures
            final(self).wf(),
            r == old(self)@.extend_plan(data_len),
            final(self)@ == old(self)@.extended(data_len),
            final(self).label() == old(self).label(),
    {
        let offset = self.length;
        let grow_to = if data_len + self.length <= self.size {
            None
        } else {
            let new_size = self.size * 2 + data_len + self.length;
            self.size = new_size;
            Some(new_size)
        };
        self.length = self.length + data_len;
        ExtendPlan { offset: Offset { offset, size: data_len }, grow_to }
    }

    /// Whether appending `data_len` bytes needs no arithmetic beyond `u64`: the test callers make
    /// before [`extend`](Self::extend).
    pub fn can_extend(&self, data_len: u64) -> (r: bool)
        ensures
            r == self@.can_extend(data_len),
    {
        extended_state(self.length, self.size, data_len).is_some()
    }

    /// Forgets the bytes in use; the buffer keeps its size.
    pub fn clear(&mut self)
        requires
            old(self).wf(),
        ensures
            final(self).wf(),
            final(self)@ == (DynamicBufferView { length: 0, size: old(self)@.size }),
            final(self).label() == old(self).label(),
    {
        self.length = 0;
    }
}

/// Two dynamic buffers used in turn: one is filled while the other's content is drawn.
pub struct StagingBufferPool {
    buffers: Vec<DynamicBuffer>,
    current: usize,
}

impl StagingBufferPool {
    /// Both buffers and which one is being filled.
    pub closed spec fn buffers(&self) -> (Seq<DynamicBuffer>, usize) {
        (self.buffers@, self.current)
    }

    pub open spec fn wf(&self) -> bool {
        &&& self.buffers().0.len() == 2
        &&& self.buffers().1 < 2
        &&& self.buffers().0[0].wf()
        &&& self.buffers().0[1].wf()
    }

    /// Two empty buffers of `initial_capacity` bytes; the first one is filled first.
    pub fn new(initial_capacity: u64) -> (r: Self)
        ensures
            r.wf(),
            r.buffers().1 == 0,
            r.buffers().0[0]@ == (DynamicBufferView { length: 0, size: initial_capacity }),
            r.buffers().0[1]@ == (DynamicBufferView { length: 0, size: initial_capacity }),
    {
        let mut buffers: Vec<DynamicBuffer> = Vec::new();
        buffers.push(DynamicBuffer::new("StagingBuffer1", initial_capacity));
        buffers.push(DynamicBuffer::new("StagingBuffer2", initial_capacity));
        StagingBufferPool { buffers, current: 0 }
    }

    /// The buffer being filled.
    pub fn current_buffer(&self) -> (r: &DynamicBuffer)
        requires
            self.wf(),
        ensures
            *r == self.buffers().0[self.buffers().1 as int],
    {
        &self.buffers[self.current]
    }

    /// Appends `data_len` bytes to the buffer being filled.
    pub fn upload(&mut self, data_len: u64) -> (r: ExtendPlan)
        requires
            old(self).wf(),
            old(self).buffers().0[old(self).buffers().1 as int]@.can_extend(data_len),
        ensures
            final(self).wf(),
            final(self).buffers().1 == old(self).buffers().1,
            final(self).buffers().0[1 - old(self).buffers().1] == old(self).buffers().0[1
                - old(self).buffers().1],
            r == old(self).buffers().0[old(self).buffers().1 as int]@.extend_plan(data_len),
            final(self).buffers().0[old(self).buffers().1 as int]@ == old(self).buffers().0[old(
                self,
            ).buffers().1 as int]@.extended(data_len),
    {
        let current = self.current;
        let buffer = &mut self.buffers[current];
        buffer.extend(data_len)
    }

    /// Empties the buffer that was being filled and switches to the other one. Returns the index
    /// of the emptied buffer, whose former content is the one to draw from.
    pub fn swap_buffers(&mut self) -> (r: usize)
        requires
            old(self).wf(),
        ensures
            final(self).wf(),
            r == old(self).buffers().1,
            final(self).buffers().1 == (r + 1) % 2,
            final(self).buffers().0[r as int]@ == (DynamicBufferView {
                length: 0,
                size: old(self).buffers().0[r as int]@.size,
            }),
            final(self).buffers().0[1 - r] == old(self).buffers().0[1 - r],
    {
        let current = self.current;
        let buffer = &mut self.buffers[current];
        buffer.clear();
        let buffers_len = self.buffers.len();
        self.current = (current + 1) % buffers_len;
        current
    }
}

} // verus!
