//! Frame data pipeline of a small rendering runtime: stable-handle columns,
//! partitioned triple buffers, and the producer/consumer coordination that
//! rotates buffer sections between the logic side and the render side.
//!
//! The crate root holds the description of vertex buffers: which buffers a
//! vertex array has, of what kind, and how the attributes lie in them.

use vstd::prelude::*;

pub mod gl;
pub mod mesh;
pub mod render;
pub mod state;

verus! {

/// A property that the device API knows by a number.
pub trait GlPropertyEnum {
    /// The property can be handed to the device.
    spec fn is_valid(&self) -> bool;

    /// The number by which the device API knows the property.
    spec fn gl_value(&self) -> u32;

    fn as_gl_enum(&self) -> (value: u32)
        requires
            self.is_valid(),
        ensures
            value == self.gl_value(),
    ;
}

/// What a buffer is bound as.
#[derive(Clone, Copy, Debug, PartialEq, Eq, PartialOrd, Ord, Hash, Structural)]
pub enum BufferKind {
    Array,
    Element,
    ShaderStorage { size: isize },
    Uniform,
}

impl Default for BufferKind {
    fn default() -> (kind: Self)
        ensures
            kind == BufferKind::Array,
    {
        BufferKind::Array
    }
}

/// The type of the components of a vertex attribute.
#[derive(Clone, Copy, Debug, PartialEq, Eq, PartialOrd, Ord, Hash, Structural)]
pub enum AttributeKind {
    Float,
    Byte,
    Integer,
    IntegerSigned,
    ByteSigned,
}

impl Default for AttributeKind {
    fn default() -> (kind: Self)
        ensures
            kind == AttributeKind::Float,
    {
        AttributeKind::Float
    }
}

impl AttributeKind {
    /// The size of one component in bytes.
    pub open spec fn size(self) -> int {
        match self {
            AttributeKind::Float => 4,
            AttributeKind::Byte => 1,
            AttributeKind::Integer => 4,
            AttributeKind::IntegerSigned => 4,
            AttributeKind::ByteSigned => 1,
        }
    }

    /// The size of one component in bytes.
    pub fn size_bytes(&self) -> (size: usize)
        ensures
            size == self.size(),
    {
        match self {
            AttributeKind::Float => 4,
            AttributeKind::Byte => 1,
            AttributeKind::Integer => 4,
            AttributeKind::IntegerSigned => 4,
            AttributeKind::ByteSigned => 1,
        }
    }
}

/// How the storage of a buffer may be used once it is made.
#[derive(Clone, Copy, Debug, PartialEq, Eq, PartialOrd, Ord, Hash, Structural)]
pub enum StorageFlags {
    Static,
    Dynamic,
    Client,
    Persistent { read: bool, write: bool },
    Coherent { read: bool, write: bool },
}

impl Default for StorageFlags {
    fn default() -> (flags: Self)
        ensures
            flags == StorageFlags::Static,
    {
        StorageFlags::Static
    }
}

/// What a buffer is mostly used for.
#[derive(Clone, Copy, Debug, PartialEq, Eq, PartialOrd, Ord, Hash, Structural)]
pub enum BufferUsage {
    StreamDraw,
    StreamRead,
    StreamCopy,
    StaticDraw,
    StaticRead,
    StaticCopy,
    DynamicDraw,
    DynamicRead,
    DynamicCopy,
}

impl Default for BufferUsage {
    fn default() -> (usage: Self)
        ensures
            usage == BufferUsage::StaticDraw,
    {
        BufferUsage::StaticDraw
    }
}

impl GlPropertyEnum for BufferUsage {
    open spec fn is_valid(&self) -> bool {
        true
    }

    open spec fn gl_value(&self) -> u32 {
        match self {
            BufferUsage::StreamDraw => gl::STREAM_DRAW,
            BufferUsage::StreamRead => gl::STREAM_READ,
            BufferUsage::StreamCopy => gl::STREAM_COPY,
            BufferUsage::StaticDraw => gl::STATIC_DRAW,
            BufferUsage::StaticRead => gl::STATIC_READ,
            BufferUsage::StaticCopy => gl::STATIC_COPY,
            BufferUsage::DynamicDraw => gl::DYNAMIC_DRAW,
            BufferUsage::DynamicRead => gl::DYNAMIC_READ,
            BufferUsage::DynamicCopy => gl::DYNAMIC_COPY,
        }
    }

    fn as_gl_enum(&self) -> (value: u32) {
        match self {
            BufferUsage::StreamDraw => gl::STREAM_DRAW,
            BufferUsage::StreamRead => gl::STREAM_READ,
            BufferUsage::StreamCopy => gl::STREAM_COPY,
            BufferUsage::StaticDraw => gl::STATIC_DRAW,
            BufferUsage::StaticRead => gl::STATIC_READ,
            BufferUsage::StaticCopy => gl::STATIC_COPY,
            BufferUsage::DynamicDraw => gl::DYNAMIC_DRAW,
            BufferUsage::DynamicRead => gl::DYNAMIC_READ,
            BufferUsage::DynamicCopy => gl::DYNAMIC_COPY,
        }
    }
}

impl GlPropertyEnum for BufferKind {
    open spec fn is_valid(&self) -> bool {
        true
    }

    open spec fn gl_value(&self) -> u32 {
        match self {
            BufferKind::Array => gl::ARRAY_BUFFER,
            BufferKind::Element => gl::ELEMENT_ARRAY_BUFFER,
            BufferKind::ShaderStorage { .. } => gl::SHADER_STORAGE_BUFFER,
            BufferKind::Uniform => gl::UNIFORM_BUFFER,
        }
    }

    fn as_gl_enum(&self) -> (value: u32) {
        match self {
            BufferKind::Array => gl::ARRAY_BUFFER,
            BufferKind::Element => gl::ELEMENT_ARRAY_BUFFER,
            BufferKind::ShaderStorage { .. } => gl::SHADER_STORAGE_BUFFER,
            BufferKind::Uniform => gl::UNIFORM_BUFFER,
        }
    }
}

impl GlPropertyEnum for AttributeKind {
    open spec fn is_valid(&self) -> bool {
        true
    }

    open spec fn gl_value(&self) -> u32 {
        match self {
            AttributeKind::Float => gl::FLOAT,
            AttributeKind::Byte => gl::UNSIGNED_BYTE,
            AttributeKind::Integer => gl::UNSIGNED_INT,
            AttributeKind::IntegerSigned => gl::INT,
            AttributeKind::ByteSigned => gl::BYTE,
        }
    }

    fn as_gl_enum(&self) -> (value: u32) {
        match self {
            AttributeKind::Float => gl::FLOAT,
            AttributeKind::Byte => gl::UNSIGNED_BYTE,
            AttributeKind::Integer => gl::UNSIGNED_INT,
            AttributeKind::IntegerSigned => gl::INT,
            AttributeKind::ByteSigned => gl::BYTE,
        }
    }
}

/// The bits of a mapping that stays in place: `base`, and one bit more for
/// each direction in which the mapping is used.
pub open spec fn mapping_bits(base: u32, read: bool, write: bool) -> u32 {
    base | (if read {
        gl::MAP_READ_BIT
    } else {
        0u32
    }) | (if write {
        gl::MAP_WRITE_BIT
    } else {
        0u32
    })
}

impl GlPropertyEnum for StorageFlags {
    /// A mapping that stays in place is used for reading, for writing, or
    /// for both.
    open spec fn is_valid(&self) -> bool {
        match self {
            StorageFlags::Persistent { read, write } => *read || *write,
            StorageFlags::Coherent { read, write } => *read || *write,
            _ => true,
        }
    }

    open spec fn gl_value(&self) -> u32 {
        match self {
            StorageFlags::Static => 0,
            StorageFlags::Dynamic => gl::DYNAMIC_STORAGE_BIT,
            StorageFlags::Client => gl::CLIENT_STORAGE_BIT,
            StorageFlags::Persistent { read, write } => mapping_bits(
                gl::MAP_PERSISTENT_BIT,
                *read,
                *write,
            ),
            StorageFlags::Coherent { read, write } => mapping_bits(
                gl::MAP_PERSISTENT_BIT | gl::MAP_COHERENT_BIT,
                *read,
                *write,
            ),
        }
    }

    fn as_gl_enum(&self) -> (value: u32) {
        match self {
            StorageFlags::Dynamic => gl::DYNAMIC_STORAGE_BIT,
            StorageFlags::Client => gl::CLIENT_STORAGE_BIT,
            StorageFlags::Persistent { read, write } => {
                let mut bit = gl::MAP_PERSISTENT_BIT;
                let base = bit;
                if *read {
                    bit |= gl::MAP_READ_BIT;
                }
                let mid = bit;
                if *write {
                    bit |= gl::MAP_WRITE_BIT;
                }
                proof {
                    assert(base | 0u32 == base) by (bit_vector);
                    assert(mid | 0u32 == mid) by (bit_vector);
                }
                bit
            },
            StorageFlags::Coherent { read, write } => {
                let mut bit = gl::MAP_PERSISTENT_BIT | gl::MAP_COHERENT_BIT;
                let base = bit;
                if *read {
                    bit |= gl::MAP_READ_BIT;
                }
                let mid = bit;
                if *write {
                    bit |= gl::MAP_WRITE_BIT;
                }
                proof {
                    assert(base | 0u32 == base) by (bit_vector);
                    assert(mid | 0u32 == mid) by (bit_vector);
                }
                bit
            },
            StorageFlags::Static => 0,
        }
    }
}

/// One vertex attribute as it lies in a vertex buffer: a few components of
/// one type.
#[derive(Clone, Copy, Debug, PartialEq, Eq, Structural)]
pub struct LayoutBuffer {
    pub attribute_kind: AttributeKind,
    pub attribute_size: u8,
    pub normalised: bool,
}

impl Default for LayoutBuffer {
    fn default() -> (layout: Self)
        ensures
            layout == (LayoutBuffer {
                attribute_kind: AttributeKind::Float,
                attribute_size: 0,
                normalised: false,
            }),
    {
        LayoutBuffer { attribute_kind: AttributeKind::Float, attribute_size: 0, normalised: false }
    }
}

impl LayoutBuffer {
    /// The size of the attribute in bytes: that of one component, times the
    /// number of components.
    pub fn size_bytes(&self) -> (size: u32)
        ensures
            size == self.attribute_kind.size() * self.attribute_size,
    {
        let component = self.attribute_kind.size_bytes() as u32;
        let count = self.attribute_size as u32;
        proof {
            assert(component * count <= 4 * 255) by (nonlinear_arith)
                requires
                    0 <= component <= 4,
                    0 <= count <= 255,
            ;
        }
        component * count
    }

    /// Make the attribute `size` components of type `kind`.
    pub fn with_type(self, kind: AttributeKind, size: u8) -> (layout: Self)
        ensures
            layout == (LayoutBuffer { attribute_kind: kind, attribute_size: size, ..self }),
    {
        let mut layout = self;
        layout.attribute_kind = kind;
        layout.attribute_size = size;
        layout
    }

    /// Say whether integer components are scaled to the unit range when
    /// they are read as floating point.
    pub fn normalised(self, normalised: bool) -> (layout: Self)
        ensures
            layout == (LayoutBuffer { normalised, ..self }),
    {
        let mut layout = self;
        layout.normalised = normalised;
        layout
    }
}

/// The attributes of one vertex buffer, in the order in which they lie in
/// a vertex.
#[derive(Debug)]
pub struct CreateLayout(pub Vec<LayoutBuffer>);

impl Default for CreateLayout {
    fn default() -> (layout: Self)
        ensures
            layout.0@ == Seq::<LayoutBuffer>::empty(),
    {
        CreateLayout(Vec::new())
    }
}

impl CreateLayout {
    /// A layout without attributes, with room for `attrib_count` of them.
    pub fn new(attrib_count: usize) -> (layout: Self)
        ensures
            layout.0@ == Seq::<LayoutBuffer>::empty(),
    {
        Self(Vec::with_capacity(attrib_count))
    }

    /// Add the attribute that `builder` makes of the default attribute.
    pub fn attribute<F>(self, builder: F) -> (layout: Self) where
        F: Fn(LayoutBuffer) -> LayoutBuffer,

        requires
            call_requires(builder, (LayoutBuffer::default_attribute(),)),
        ensures
            layout.0@.len() == self.0@.len() + 1,
            layout.0@.drop_last() == self.0@,
            call_ensures(builder, (LayoutBuffer::default_attribute(),), layout.0@.last()),
    {
        let mut layout = self;
        layout.0.push(builder(LayoutBuffer::default()));
        layout
    }
}

impl LayoutBuffer {
    /// The attribute that every builder starts from: no components, of
    /// type `Float`, not normalised.
    pub open spec fn default_attribute() -> LayoutBuffer {
        LayoutBuffer { attribute_kind: AttributeKind::Float, attribute_size: 0, normalised: false }
    }
}

/// The description of one buffer of a vertex array.
#[derive(Debug)]
pub struct CreateBuffer {
    pub kind: BufferKind,
    pub storage_flags: StorageFlags,
    pub attributes: Vec<LayoutBuffer>,
}

impl Default for CreateBuffer {
    fn default() -> (buffer: Self)
        ensures
            buffer.is_blank(),
    {
        CreateBuffer {
            kind: BufferKind::Array,
            storage_flags: StorageFlags::Static,
            attributes: Vec::new(),
        }
    }
}

impl CreateBuffer {
    /// The description that every buffer starts from: an array buffer with
    /// static storage and no attributes.
    pub open spec fn is_blank(&self) -> bool {
        &&& self.kind == BufferKind::Array
        &&& self.storage_flags == StorageFlags::Static
        &&& self.attributes@ == Seq::<LayoutBuffer>::empty()
    }
}

/// The size in bytes of the first `upto` of `attributes`, together.
pub open spec fn bytes_before(attributes: Seq<LayoutBuffer>, upto: int) -> int
    decreases upto,
{
    if upto <= 0 {
        0
    } else {
        bytes_before(attributes, upto - 1) + attributes[upto - 1].attribute_kind.size()
            * attributes[upto - 1].attribute_size
    }
}

/// The size of attributes grows with their number.
pub proof fn lemma_bytes_before_grows(attributes: Seq<LayoutBuffer>, fewer: int, more: int)
    requires
        0 <= fewer <= more,
    ensures
        0 <= bytes_before(attributes, fewer) <= bytes_before(attributes, more),
    decreases more,
{
    if fewer < more {
        lemma_bytes_before_grows(attributes, fewer, more - 1);
        let last = attributes[more - 1];
        assert(0 <= last.attribute_kind.size() * last.attribute_size) by (nonlinear_arith)
            requires
                0 <= last.attribute_kind.size(),
                0 <= last.attribute_size,
        ;
    } else if fewer > 0 {
        lemma_bytes_before_grows(attributes, fewer - 1, fewer - 1);
        let last = attributes[fewer - 1];
        assert(0 <= last.attribute_kind.size() * last.attribute_size) by (nonlinear_arith)
            requires
                0 <= last.attribute_kind.size(),
                0 <= last.attribute_size,
        ;
    }
}

/// How one attribute of a vertex lies in its vertex buffer.
#[derive(Clone, Copy, Debug, PartialEq, Eq, Structural)]
pub struct AttributeFormat {
    /// The position of the attribute among the attributes.
    pub index: u32,
    /// The number of components.
    pub size: u8,
    /// The type of the components, as the device API knows it.
    pub kind: u32,
    /// Whether integer components are scaled to the unit range.
    pub normalised: bool,
    /// Where the attribute starts in a vertex, in bytes.
    pub offset: u32,
}

impl CreateBuffer {
    /// The size of one vertex in bytes: that of all attributes together.
    pub fn stride(&self) -> (stride: u32)
        requires
            bytes_before(self.attributes@, self.attributes@.len() as int) <= u32::MAX,
        ensures
            stride == bytes_before(self.attributes@, self.attributes@.len() as int),
    {
        let mut stride: u32 = 0;
        let mut i: usize = 0;
        while i < self.attributes.len()
            invariant
                0 <= i <= self.attributes@.len(),
                stride == bytes_before(self.attributes@, i as int),
                bytes_before(self.attributes@, self.attributes@.len() as int) <= u32::MAX,
            decreases self.attributes@.len() - i,
        {
            proof {
                lemma_bytes_before_grows(
                    self.attributes@,
                    i + 1,
                    self.attributes@.len() as int,
                );
            }
            stride += self.attributes[i].size_bytes();
            i += 1;
        }
        stride
    }

    /// The format of each attribute: the attributes lie in a vertex one
    /// after the other, in their order.
    pub fn formats(&self) -> (formats: Vec<AttributeFormat>)
        requires
            self.attributes@.len() <= u32::MAX,
            bytes_before(self.attributes@, self.attributes@.len() as int) <= u32::MAX,
        ensures
            formats@.len() == self.attributes@.len(),
            forall|i: int|
                0 <= i < formats@.len() ==> #[trigger] formats@[i] == (AttributeFormat {
                    index: i as u32,
                    size: self.attributes@[i].attribute_size,
                    kind: self.attributes@[i].attribute_kind.gl_value(),
                    normalised: self.attributes@[i].normalised,
                    offset: bytes_before(self.attributes@, i) as u32,
                }),
    {
        let mut formats: Vec<AttributeFormat> = Vec::new();
        let mut offset: u32 = 0;
        let mut i: usize = 0;
        while i < self.attributes.len()
            invariant
                0 <= i <= self.attributes@.len(),
                self.attributes@.len() <= u32::MAX,
                offset == bytes_before(self.attributes@, i as int),
                bytes_before(self.attributes@, self.attributes@.len() as int) <= u32::MAX,
                formats@.len() == i,
                forall|k: int|
                    0 <= k < i ==> #[trigger] formats@[k] == (AttributeFormat {
                        index: k as u32,
                        size: self.attributes@[k].attribute_size,
                        kind: self.attributes@[k].attribute_kind.gl_value(),
                        normalised: self.attributes@[k].normalised,
                        offset: bytes_before(self.attributes@, k) as u32,
                    }),
            decreases self.attributes@.len() - i,
        {
            proof {
                lemma_bytes_before_grows(
                    self.attributes@,
                    i + 1,
                    self.attributes@.len() as int,
                );
            }
            let layout = self.attributes[i];
            formats.push(
                AttributeFormat {
                    index: i as u32,
                    size: layout.attribute_size,
                    kind: layout.attribute_kind.as_gl_enum(),
                    normalised: layout.normalised,
                    offset,
                },
            );
            offset += layout.size_bytes();
            i += 1;
        }
        formats
    }
}

/// The descriptions of the buffers of a vertex array. The last of them is
/// the one that is being described.
#[derive(Debug)]
pub struct CreateBuffers {
    buffers: Vec<CreateBuffer>,
}

impl Default for CreateBuffers {
    fn default() -> (buffers: Self)
        ensures
            buffers.entries() == Seq::<CreateBuffer>::empty(),
    {
        CreateBuffers { buffers: Vec::new() }
    }
}

impl CreateBuffers {
    /// The descriptions, in the order in which the buffers are made.
    pub closed spec fn entries(&self) -> Seq<CreateBuffer> {
        self.buffers@
    }

    /// The description that is being worked on.
    pub open spec fn last(&self) -> CreateBuffer {
        self.entries().last()
    }

    /// The descriptions but the last.
    pub open spec fn done(&self) -> Seq<CreateBuffer> {
        self.entries().drop_last()
    }

    /// Start with one blank description, with room for `buffer_count` of
    /// them.
    pub fn new(buffer_count: usize) -> (buffers: Self)
        ensures
            buffers.entries().len() == 1,
            buffers.last().is_blank(),
    {
        let mut buffers = Vec::with_capacity(buffer_count);
        buffers.push(CreateBuffer::default());
        Self { buffers }
    }

    /// Start the description of one more buffer, blank.
    pub fn push(self) -> (buffers: Self)
        ensures
            buffers.entries().len() == self.entries().len() + 1,
            buffers.done() == self.entries(),
            buffers.last().is_blank(),
    {
        let mut buffers = self;
        buffers.buffers.push(CreateBuffer::default());
        buffers
    }

    /// Say what the buffer that is being described is bound as.
    pub fn kind(self, kind: BufferKind) -> (buffers: Self)
        requires
            self.entries().len() > 0,
        ensures
            buffers.entries().len() == self.entries().len(),
            buffers.done() == self.done(),
            buffers.last().kind == kind,
            buffers.last().storage_flags == self.last().storage_flags,
            buffers.last().attributes == self.last().attributes,
    {
        let mut buffers = self;
        let mut last = buffers.buffers.pop().unwrap();
        last.kind = kind;
        buffers.buffers.push(last);
        buffers
    }

    /// Say how the storage of the buffer that is being described may be
    /// used.
    pub fn storage_flags(self, storage_flags: StorageFlags) -> (buffers: Self)
        requires
            self.entries().len() > 0,
        ensures
            buffers.entries().len() == self.entries().len(),
            buffers.done() == self.done(),
            buffers.last().kind == self.last().kind,
            buffers.last().storage_flags == storage_flags,
            buffers.last().attributes == self.last().attributes,
    {
        let mut buffers = self;
        let mut last = buffers.buffers.pop().unwrap();
        last.storage_flags = storage_flags;
        buffers.buffers.push(last);
        buffers
    }

    /// The descriptions, in the order in which the buffers are to be made.
    pub fn into_buffers(self) -> (buffers: Vec<CreateBuffer>)
        ensures
            buffers@ == self.entries(),
    {
        self.buffers
    }

    /// Give the buffer that is being described the attributes of `layout`.
    pub fn layout(self, layout: CreateLayout) -> (buffers: Self)
        requires
            self.entries().len() > 0,
        ensures
            buffers.entries().len() == self.entries().len(),
            buffers.done() == self.done(),
            buffers.last().kind == self.last().kind,
            buffers.last().storage_flags == self.last().storage_flags,
            buffers.last().attributes == layout.0,
    {
        let mut buffers = self;
        let mut last = buffers.buffers.pop().unwrap();
        last.attributes = layout.0;
        buffers.buffers.push(last);
        buffers
    }
}

/// A buffer of a vertex array, once it is made.
#[derive(Clone, Copy, Debug, Eq, PartialEq, Structural)]
pub enum GlBuffer {
    Attribute { object: u32 },
    Storage { object: u32, binding: u32 },
}

} // verus!
