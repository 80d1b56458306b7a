//! The parsed document: one arena of plain records per collection, with
//! references between records held as indices into those arenas.
use vstd::prelude::*;

verus! {

/// A field value that is either one of the recognised values or was not
/// recognised when the document was parsed.
#[derive(Clone, Copy, Debug, PartialEq, Eq, Structural)]
pub enum Checked<T> {
    Valid(T),
    Invalid,
}

/// The numeric type of each component of an accessor's elements.
#[derive(Clone, Copy, Debug, PartialEq, Eq, Structural)]
pub enum DataType {
    I8,
    U8,
    I16,
    U16,
    U32,
    F32,
}

/// The shape of each element of an accessor.
#[derive(Clone, Copy, Debug, PartialEq, Eq, Structural)]
pub enum Dimensions {
    Scalar,
    Vec2,
    Vec3,
    Vec4,
    Mat4,
}

/// The node property that an animation channel drives.
#[derive(Clone, Copy, Debug, PartialEq, Eq, Structural)]
pub enum Property {
    Translation,
    Rotation,
    Scale,
    MorphTargetWeights,
}

/// How values are interpolated between keyframes.
#[derive(Clone, Copy, Debug, PartialEq, Eq, Structural)]
pub enum Interpolation {
    Linear,
    Step,
    CubicSpline,
}

/// A byte source of known length; its bytes are supplied by a resolver.
#[derive(Clone, Debug)]
pub struct Buffer {
    pub byte_length: usize,
    pub uri: Option<String>,
}

/// A contiguous byte range of a buffer, optionally interleaved.
#[derive(Clone, Copy, Debug)]
pub struct BufferView {
    pub buffer: usize,
    pub byte_length: usize,
    pub byte_offset: usize,
    pub byte_stride: Option<usize>,
}

/// Sparse storage of an accessor: `count` of its elements are replaced by
/// values stored elsewhere.
#[derive(Clone, Copy, Debug)]
pub struct Sparse {
    pub count: usize,
}

/// A typed array view into a buffer view.
#[derive(Clone, Copy, Debug)]
pub struct Accessor {
    pub buffer_view: usize,
    pub byte_offset: usize,
    pub count: usize,
    pub component_type: DataType,
    pub type_: Dimensions,
    pub normalized: bool,
    pub sparse: Option<Sparse>,
}

/// A node of the scene graph; only what the readers look up is kept.
#[derive(Clone, Debug)]
pub struct Node {
    pub name: Option<String>,
}

/// The node and property that a channel drives. `extras` holds optional
/// application-specific data as raw JSON text, here and in the records below.
#[derive(Clone, Debug)]
pub struct Target {
    pub node: usize,
    pub path: Checked<Property>,
    pub extras: Option<String>,
}

/// Pairs a sampler of the same animation with a target.
#[derive(Clone, Debug)]
pub struct Channel {
    pub sampler: usize,
    pub target: Target,
    pub extras: Option<String>,
}

/// Input (time) and output (value) accessors with an interpolation mode.
#[derive(Clone, Debug)]
pub struct Sampler {
    pub input: usize,
    pub output: usize,
    pub interpolation: Checked<Interpolation>,
    pub extras: Option<String>,
}

/// A keyframe animation.
#[derive(Clone, Debug)]
pub struct Animation {
    pub channels: Vec<Channel>,
    pub samplers: Vec<Sampler>,
    pub name: Option<String>,
    pub extras: Option<String>,
}

/// Joints and inverse-bind matrices of a skin.
#[derive(Clone, Debug)]
pub struct Skin {
    pub joints: Vec<usize>,
    pub inverse_bind_matrices: Option<usize>,
    pub skeleton: Option<usize>,
    pub name: Option<String>,
    pub extras: Option<String>,
}

/// The whole document.
#[derive(Clone, Debug)]
pub struct Root {
    pub buffers: Vec<Buffer>,
    pub buffer_views: Vec<BufferView>,
    pub accessors: Vec<Accessor>,
    pub nodes: Vec<Node>,
    pub animations: Vec<Animation>,
    pub skins: Vec<Skin>,
}

impl DataType {
    /// Bytes per component.
    pub open spec fn size_spec(self) -> nat {
        match self {
            DataType::I8 | DataType::U8 => 1,
            DataType::I16 | DataType::U16 => 2,
            DataType::U32 | DataType::F32 => 4,
        }
    }

    pub fn size(&self) -> (r: usize)
        ensures
            r == self.size_spec(),
    {
        match self {
            DataType::I8 | DataType::U8 => 1,
            DataType::I16 | DataType::U16 => 2,
            DataType::U32 | DataType::F32 => 4,
        }
    }
}

impl Dimensions {
    /// Components per element.
    pub open spec fn multiplicity_spec(self) -> nat {
        match self {
            Dimensions::Scalar => 1,
            Dimensions::Vec2 => 2,
            Dimensions::Vec3 => 3,
            Dimensions::Vec4 => 4,
            Dimensions::Mat4 => 16,
        }
    }

    pub fn multiplicity(&self) -> (r: usize)
        ensures
            r == self.multiplicity_spec(),
    {
        match self {
            Dimensions::Scalar => 1,
            Dimensions::Vec2 => 2,
            Dimensions::Vec3 => 3,
            Dimensions::Vec4 => 4,
            Dimensions::Mat4 => 16,
        }
    }
}

} // verus!
