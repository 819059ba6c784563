//! Render pipelines: the request and the rules it is held to.

use crate::binding_model::BindGroupLayout;
use crate::device::{Device, DeviceError, MissingDownlevelFlags, MissingFeatures};
use crate::flags::{
    ColorWrites, DownlevelFlags, Features, FormatAspects, PipelineFlags, ShaderStages,
    TextureFormatFeatureFlags, TextureUsages,
};
use crate::format::{format_info, spec_format_info, FormatInfo, TextureFormatFeatures};
use crate::conv::is_power_of_two_u32;
use crate::limits::{MAX_COLOR_ATTACHMENTS, VERTEX_STRIDE_ALIGNMENT};
use crate::pipeline::{
    layout_is_missing, mark_implicit_layouts, spec_is_fresh_derivation, spec_layout_is_missing,
    spec_marked, HalPipelineError, ProgrammableStageDescriptor, SettleLayoutError,
    SettledLayout, ShaderModule, StageError, EP_FAILURE, IMPLICIT_FAILURE,
};
use crate::pipeline_layout::{
    derived_layouts, derived_layouts_new, empty_derived_layouts, spec_layout_keys,
    DerivedGroupLayouts, ImplicitLayoutError, ImplicitPipelineContext, LateSizedBufferGroup,
    PipelineLayout, ShaderBindingSize,
};
use crate::sampler::CompareFunction;
use crate::storage::{
    spec_resource_at, spec_with_element, DeviceId, Element, PipelineLayoutId, ResourceInfo,
    Storage,
};
use std::collections::HashMap;
use vstd::prelude::*;
use wgpu_types::TextureFormat;

verus! {

/// The format of one vertex attribute.
#[derive(Clone, Copy, Debug, PartialEq, Eq, Structural)]
pub enum VertexFormat {
    Uint8x2,
    Uint8x4,
    Sint8x2,
    Sint8x4,
    Unorm8x2,
    Unorm8x4,
    Snorm8x2,
    Snorm8x4,
    Uint16x2,
    Uint16x4,
    Sint16x2,
    Sint16x4,
    Unorm16x2,
    Unorm16x4,
    Snorm16x2,
    Snorm16x4,
    Float16x2,
    Float16x4,
    Float32,
    Float32x2,
    Float32x3,
    Float32x4,
    Uint32,
    Uint32x2,
    Uint32x3,
    Uint32x4,
    Sint32,
    Sint32x2,
    Sint32x3,
    Sint32x4,
    Float64,
    Float64x2,
    Float64x3,
    Float64x4,
}

impl VertexFormat {
    /// Whether the format holds 64-bit floating-point numbers, which takes a feature.
    pub open spec fn spec_is_64bit(self) -> bool {
        self == VertexFormat::Float64 || self == VertexFormat::Float64x2 || self
            == VertexFormat::Float64x3 || self == VertexFormat::Float64x4
    }

    #[verifier::when_used_as_spec(spec_is_64bit)]
    pub fn is_64bit(self) -> (r: bool)
        ensures
            r == self.spec_is_64bit(),
    {
        match self {
            VertexFormat::Float64
            | VertexFormat::Float64x2
            | VertexFormat::Float64x3
            | VertexFormat::Float64x4 => true,
            _ => false,
        }
    }
}

/// Whether a vertex buffer advances with each vertex or with each instance.
#[derive(Clone, Copy, Debug, PartialEq, Eq, Structural)]
pub enum VertexStepMode {
    Vertex,
    Instance,
}

/// One attribute of a vertex buffer.
#[derive(Clone, Copy, Debug, PartialEq, Eq, Structural)]
pub struct VertexAttribute {
    pub format: VertexFormat,
    /// Where the attribute starts within a vertex, in bytes.
    pub offset: u64,
    /// The location at which the vertex shader finds the attribute.
    pub shader_location: u32,
}

/// The layout of one vertex buffer.
#[derive(Debug, PartialEq, Eq)]
pub struct VertexBufferLayout {
    /// The number of bytes from one vertex to the next.
    pub array_stride: u64,
    pub step_mode: VertexStepMode,
    pub attributes: Vec<VertexAttribute>,
}

/// How a pipeline steps through one vertex buffer.
#[derive(Clone, Copy, Debug, PartialEq, Eq, Structural)]
pub struct VertexStep {
    pub stride: u64,
    pub mode: VertexStepMode,
}

/// How vertices are put together to primitives.
#[derive(Clone, Copy, Debug, PartialEq, Eq, Structural)]
pub enum PrimitiveTopology {
    PointList,
    LineList,
    LineStrip,
    TriangleList,
    TriangleStrip,
}

impl PrimitiveTopology {
    /// The two strips are strips.
    pub open spec fn spec_is_strip(self) -> bool {
        self == PrimitiveTopology::LineStrip || self == PrimitiveTopology::TriangleStrip
    }

    /// Whether each primitive shares vertices with the one before it.
    #[verifier::when_used_as_spec(spec_is_strip)]
    pub fn is_strip(self) -> (r: bool)
        ensures
            r == self.spec_is_strip(),
    {
        topology_is_strip(self)
    }
}

/// Trusted: the result of `wgpu_types::PrimitiveTopology::is_strip`, which is a match
/// that gives true for the two strips and false for the three lists.
#[verifier::external_body]
fn topology_is_strip(topology: PrimitiveTopology) -> (r: bool)
    ensures
        r == topology.spec_is_strip(),
{
    match topology {
        PrimitiveTopology::PointList => wgpu_types::PrimitiveTopology::PointList,
        PrimitiveTopology::LineList => wgpu_types::PrimitiveTopology::LineList,
        PrimitiveTopology::LineStrip => wgpu_types::PrimitiveTopology::LineStrip,
        PrimitiveTopology::TriangleList => wgpu_types::PrimitiveTopology::TriangleList,
        PrimitiveTopology::TriangleStrip => wgpu_types::PrimitiveTopology::TriangleStrip,
    }.is_strip()
}

/// The format of the indices of an indexed draw.
#[derive(Clone, Copy, Debug, PartialEq, Eq, Structural)]
pub enum IndexFormat {
    Uint16,
    Uint32,
}

/// Which winding makes the front of a triangle.
#[derive(Clone, Copy, Debug, PartialEq, Eq, Structural)]
pub enum FrontFace {
    Ccw,
    Cw,
}

/// A face of a triangle.
#[derive(Clone, Copy, Debug, PartialEq, Eq, Structural)]
pub enum Face {
    Front,
    Back,
}

/// How a polygon is filled.
#[derive(Clone, Copy, Debug, PartialEq, Eq, Structural)]
pub enum PolygonMode {
    Fill,
    Line,
    Point,
}

/// How primitives are put together and rasterized.
#[derive(Clone, Copy, Debug, PartialEq, Eq, Structural)]
pub struct PrimitiveState {
    pub topology: PrimitiveTopology,
    /// For a strip: the index format, whose largest value restarts the strip.
    pub strip_index_format: Option<IndexFormat>,
    pub front_face: FrontFace,
    pub cull_mode: Option<Face>,
    pub unclipped_depth: bool,
    pub polygon_mode: PolygonMode,
    pub conservative: bool,
}

/// How many samples a pixel has, and which of them are written.
#[derive(Clone, Copy, Debug, PartialEq, Eq, Structural)]
pub struct MultisampleState {
    pub count: u32,
    pub mask: u64,
    pub alpha_to_coverage_enabled: bool,
}

/// What a color is multiplied with when it is blended.
#[derive(Clone, Copy, Debug, PartialEq, Eq, Structural)]
pub enum BlendFactor {
    Zero,
    One,
    Src,
    OneMinusSrc,
    SrcAlpha,
    OneMinusSrcAlpha,
    Dst,
    OneMinusDst,
    DstAlpha,
    OneMinusDstAlpha,
    SrcAlphaSaturated,
    Constant,
    OneMinusConstant,
}

/// How the two weighted colors are put together when they are blended.
#[derive(Clone, Copy, Debug, PartialEq, Eq, Structural)]
pub enum BlendOperation {
    Add,
    Subtract,
    ReverseSubtract,
    Min,
    Max,
}

/// How the colors, or the alphas, of source and destination are blended.
#[derive(Clone, Copy, Debug, PartialEq, Eq, Structural)]
pub struct BlendComponent {
    pub src_factor: BlendFactor,
    pub dst_factor: BlendFactor,
    pub operation: BlendOperation,
}

impl BlendComponent {
    /// Whether one of the two factors is the blend constant, or one less it.
    pub open spec fn spec_uses_constant(self) -> bool {
        self.src_factor == BlendFactor::Constant || self.src_factor
            == BlendFactor::OneMinusConstant || self.dst_factor == BlendFactor::Constant
            || self.dst_factor == BlendFactor::OneMinusConstant
    }

    /// Whether blending needs the blend constant to be set.
    #[verifier::when_used_as_spec(spec_uses_constant)]
    pub fn uses_constant(self) -> (r: bool)
        ensures
            r == self.spec_uses_constant(),
    {
        self.src_factor == BlendFactor::Constant || self.src_factor
            == BlendFactor::OneMinusConstant || self.dst_factor == BlendFactor::Constant
            || self.dst_factor == BlendFactor::OneMinusConstant
    }
}

/// How a color target blends what is drawn with what it holds.
#[derive(Clone, Copy, Debug, PartialEq, Eq, Structural)]
pub struct BlendState {
    pub color: BlendComponent,
    pub alpha: BlendComponent,
}

/// One color target of a render pipeline.
#[derive(Clone, Copy, Debug, PartialEq)]
pub struct ColorTargetState {
    pub format: TextureFormat,
    pub blend: Option<BlendState>,
    pub write_mask: ColorWrites,
    /// What the adapter reports of the format.
    pub adapter_features: TextureFormatFeatures,
    /// The type that a shader must produce for the target.
    pub output_type: NumericType,
}

/// What the rules read of the depth and stencil state of a render pipeline.
#[derive(Clone, Copy, Debug, PartialEq)]
pub struct DepthStencilState {
    pub format: TextureFormat,
    /// The comparison that a fragment must pass against the depth that is there.
    pub depth_compare: CompareFunction,
    /// Whether depth is tested or written.
    pub is_depth_enabled: bool,
    /// Whether the stencil is tested or written.
    pub is_stencil_enabled: bool,
    /// Whether the stencil test or one of the stencil operations takes the reference
    /// value.
    pub stencil_needs_ref_value: bool,
    pub is_depth_read_only: bool,
    /// Whether the stencil is left as it is, given the faces that are culled.
    pub is_stencil_read_only: bool,
    /// Whether a limit is set on the depth bias.
    pub has_depth_bias_clamp: bool,
    /// What the adapter reports of the format.
    pub adapter_features: TextureFormatFeatures,
}

/// The kind of the numbers of a shader value.
#[derive(Clone, Copy, Debug, PartialEq, Eq, Structural)]
pub enum ScalarKind {
    Sint,
    Uint,
    Float,
    Bool,
}

/// Whether a shader value is one number, a vector or a matrix.
#[derive(Clone, Copy, Debug, PartialEq, Eq, Structural)]
pub enum NumericDimension {
    Scalar,
    /// A vector of so many components.
    Vector(u8),
    /// A matrix of so many columns and so many rows.
    Matrix(u8, u8),
}

/// The type of a value that goes into or comes out of a shader.
#[derive(Clone, Copy, Debug, PartialEq, Eq, Structural)]
pub struct NumericType {
    pub dim: NumericDimension,
    pub kind: ScalarKind,
    /// The width of one number, in bytes.
    pub width: u8,
}

impl NumericType {
    /// A type fits where another is produced if it has the same kind of numbers, which
    /// are no wider, and is a scalar or a vector of no more components, or a matrix of
    /// the same shape.
    pub open spec fn spec_is_subtype_of(self, other: NumericType) -> bool {
        &&& self.width <= other.width
        &&& self.kind == other.kind
        &&& match (self.dim, other.dim) {
            (NumericDimension::Scalar, NumericDimension::Scalar) => true,
            (NumericDimension::Scalar, NumericDimension::Vector(_)) => true,
            (NumericDimension::Vector(s0), NumericDimension::Vector(s1)) => s0 <= s1,
            (NumericDimension::Matrix(c0, r0), NumericDimension::Matrix(c1, r1)) => c0 == c1 && r0
                == r1,
            _ => false,
        }
    }

    /// Whether a target that takes this type can be fed what a shader produces as
    /// `other`.
    #[verifier::when_used_as_spec(spec_is_subtype_of)]
    pub fn is_subtype_of(self, other: NumericType) -> (r: bool)
        ensures
            r == self.spec_is_subtype_of(other),
    {
        if self.width > other.width {
            return false;
        }
        if self.kind != other.kind {
            return false;
        }
        match (self.dim, other.dim) {
            (NumericDimension::Scalar, NumericDimension::Scalar) => true,
            (NumericDimension::Scalar, NumericDimension::Vector(_)) => true,
            (NumericDimension::Vector(s0), NumericDimension::Vector(s1)) => s0 <= s1,
            (NumericDimension::Matrix(c0, r0), NumericDimension::Matrix(c1, r1)) => c0 == c1 && r0
                == r1,
            _ => false,
        }
    }
}

/// The vertex stage of a render pipeline.
#[derive(Debug, PartialEq, Eq)]
pub struct VertexState {
    pub stage: ProgrammableStageDescriptor,
    pub buffers: Vec<VertexBufferLayout>,
}

/// The fragment stage of a render pipeline.
#[derive(Debug, PartialEq)]
pub struct FragmentState {
    pub stage: ProgrammableStageDescriptor,
    /// The color targets; a gap where a location has no target.
    pub targets: Vec<Option<ColorTargetState>>,
}

/// A request for a render pipeline.
#[derive(Debug, PartialEq)]
pub struct RenderPipelineDescriptor {
    pub label: Option<String>,
    /// The layout of the pipeline; derived from the shaders if left out.
    pub layout: Option<PipelineLayoutId>,
    pub vertex: VertexState,
    pub primitive: PrimitiveState,
    pub depth_stencil: Option<DepthStencilState>,
    pub multisample: MultisampleState,
    pub fragment: Option<FragmentState>,
    /// The number of views, if the pipeline renders to several at once; not zero.
    pub multiview: Option<u32>,
}

/// What is wrong with a color target.
#[derive(Debug, PartialEq)]
pub enum ColorStateError {
    FormatNotRenderable(TextureFormat),
    FormatNotBlendable(TextureFormat),
    FormatNotColor(TextureFormat),
    FormatNotMultisampled(TextureFormat),
    /// What the target takes, and what the shader produces.
    IncompatibleFormat { pipeline: NumericType, shader: NumericType },
    InvalidWriteMask(ColorWrites),
}

/// What is wrong with the depth and stencil state.
#[derive(Debug, PartialEq)]
pub enum DepthStencilStateError {
    FormatNotRenderable(TextureFormat),
    FormatNotDepth(TextureFormat),
    FormatNotStencil(TextureFormat),
    FormatNotMultisampled(TextureFormat),
}

/// Why a request for a render pipeline was turned down.
#[derive(Debug, PartialEq)]
#[allow(inconsistent_fields)]
pub enum CreateRenderPipelineError {
    /// More color targets than a pipeline can have.
    TooManyColorAttachments { given: usize, limit: usize },
    Device(DeviceError),
    InvalidLayout,
    Implicit(ImplicitLayoutError),
    ColorState(u8, ColorStateError),
    DepthStencilState(DepthStencilStateError),
    InvalidSampleCount(u32),
    TooManyVertexBuffers { given: u32, limit: u32 },
    TooManyVertexAttributes { given: u32, limit: u32 },
    VertexStrideTooLarge { index: u32, given: u32, limit: u32 },
    UnalignedVertexStride { index: u32, stride: u64 },
    InvalidVertexAttributeOffset { location: u32, offset: u64 },
    ShaderLocationClash(u32),
    StripIndexFormatForNonStripTopology {
        strip_index_format: Option<IndexFormat>,
        topology: PrimitiveTopology,
    },
    ConservativeRasterizationNonFillPolygonMode,
    MissingFeatures(MissingFeatures),
    MissingDownlevelFlags(MissingDownlevelFlags),
    Stage { stage: ShaderStages, error: StageError },
    /// What the hardware layer found wrong in these stages, in words.
    Internal { stage: ShaderStages, error: String },
    UnalignedShader { group: u32, binding: u32, size: u64 },
}

/// `n` as a 32-bit number, held at the largest such number.
pub open spec fn spec_clamp_to_u32(n: int) -> u32 {
    if n > u32::MAX {
        u32::MAX
    } else if n < 0 {
        0
    } else {
        n as u32
    }
}

/// `n` as an 8-bit number, held at the largest such number.
pub open spec fn spec_clamp_to_u8(n: int) -> u8 {
    if n > u8::MAX {
        u8::MAX
    } else if n < 0 {
        0
    } else {
        n as u8
    }
}

fn usize_to_u32(n: usize) -> (r: u32)
    ensures
        r == spec_clamp_to_u32(n as int),
{
    if n > u32::MAX as usize {
        u32::MAX
    } else {
        n as u32
    }
}

fn u64_to_u32(n: u64) -> (r: u32)
    ensures
        r == spec_clamp_to_u32(n as int),
{
    if n > u32::MAX as u64 {
        u32::MAX
    } else {
        n as u32
    }
}

fn usize_to_u8(n: usize) -> (r: u8)
    ensures
        r == spec_clamp_to_u8(n as int),
{
    if n > u8::MAX as usize {
        u8::MAX
    } else {
        n as u8
    }
}

/// What has been gathered from the vertex buffers looked at so far.
#[verifier::ext_equal]
pub ghost struct VertexInputsView {
    /// How the pipeline steps through each vertex buffer.
    pub steps: Seq<VertexStep>,
    /// The places, among the vertex buffers, of those that have attributes: these are
    /// the ones that the hardware is told of.
    pub used_buffers: Seq<usize>,
    /// The format of what the vertex shader gets, by location.
    pub inputs: Map<u32, VertexFormat>,
    /// The number of attributes in all, held at the largest value of its type.
    pub total_attributes: usize,
}

/// The sum of two counts, held at the largest value a count can have.
pub open spec fn spec_add_counts(a: usize, b: usize) -> usize {
    if a + b > usize::MAX {
        usize::MAX
    } else {
        (a + b) as usize
    }
}

impl Device {
    /// The rules one attribute is held to, in the order in which they are tried: its
    /// offset is below 2^28; a 64-bit format takes the feature; and no attribute before
    /// it, of any vertex buffer, is at its location. `inputs` holds the attributes
    /// before it by their locations.
    pub open spec fn spec_check_attribute(
        &self,
        attribute: VertexAttribute,
        inputs: Map<u32, VertexFormat>,
    ) -> Result<(), CreateRenderPipelineError> {
        if attribute.offset >= 0x10000000 {
            Err(
                CreateRenderPipelineError::InvalidVertexAttributeOffset {
                    location: attribute.shader_location,
                    offset: attribute.offset,
                },
            )
        } else if attribute.format.is_64bit() && !self.features.contains(
            Features::VERTEX_ATTRIBUTE_64BIT,
        ) {
            Err(
                CreateRenderPipelineError::MissingFeatures(
                    MissingFeatures(Features { bits: Features::VERTEX_ATTRIBUTE_64BIT }),
                ),
            )
        } else if inputs.contains_key(attribute.shader_location) {
            Err(CreateRenderPipelineError::ShaderLocationClash(attribute.shader_location))
        } else {
            Ok(())
        }
    }

    /// What comes of the first `n` attributes of a vertex buffer, given the inputs of
    /// the buffers before it: the first failure among them, or the inputs with theirs.
    pub open spec fn spec_check_attributes(
        &self,
        attributes: Seq<VertexAttribute>,
        n: int,
        inputs: Map<u32, VertexFormat>,
    ) -> Result<Map<u32, VertexFormat>, CreateRenderPipelineError>
        decreases n,
    {
        if n <= 0 {
            Ok(inputs)
        } else {
            match self.spec_check_attributes(attributes, n - 1, inputs) {
                Err(e) => Err(e),
                Ok(found) => match self.spec_check_attribute(attributes[n - 1], found) {
                    Err(e) => Err(e),
                    Ok(()) => Ok(
                        found.insert(attributes[n - 1].shader_location, attributes[n - 1].format),
                    ),
                },
            }
        }
    }

    /// What comes of the first `n` vertex buffers. A buffer without attributes only
    /// adds its step. Any other must have a stride within the limit of the device that
    /// is a multiple of the stride alignment, and its attributes must pass the rules on
    /// attributes.
    pub open spec fn spec_check_vertex_buffers(
        &self,
        buffers: Seq<VertexBufferLayout>,
        n: int,
    ) -> Result<VertexInputsView, CreateRenderPipelineError>
        decreases n,
    {
        if n <= 0 {
            Ok(
                VertexInputsView {
                    steps: Seq::empty(),
                    used_buffers: Seq::empty(),
                    inputs: Map::empty(),
                    total_attributes: 0,
                },
            )
        } else {
            match self.spec_check_vertex_buffers(buffers, n - 1) {
                Err(e) => Err(e),
                Ok(found) => {
                    let vb_state = buffers[n - 1];
                    let steps = found.steps.push(
                        VertexStep { stride: vb_state.array_stride, mode: vb_state.step_mode },
                    );
                    if vb_state.attributes@.len() == 0 {
                        Ok(VertexInputsView { steps, ..found })
                    } else if vb_state.array_stride > self.limits.max_vertex_buffer_array_stride {
                        Err(
                            CreateRenderPipelineError::VertexStrideTooLarge {
                                index: spec_clamp_to_u32(n - 1),
                                given: spec_clamp_to_u32(vb_state.array_stride as int),
                                limit: self.limits.max_vertex_buffer_array_stride,
                            },
                        )
                    } else if vb_state.array_stride % VERTEX_STRIDE_ALIGNMENT != 0 {
                        Err(
                            CreateRenderPipelineError::UnalignedVertexStride {
                                index: spec_clamp_to_u32(n - 1),
                                stride: vb_state.array_stride,
                            },
                        )
                    } else {
                        match self.spec_check_attributes(
                            vb_state.attributes@,
                            vb_state.attributes@.len() as int,
                            found.inputs,
                        ) {
                            Err(e) => Err(e),
                            Ok(inputs) => Ok(
                                VertexInputsView {
                                    steps,
                                    used_buffers: found.used_buffers.push((n - 1) as usize),
                                    inputs,
                                    total_attributes: spec_add_counts(
                                        found.total_attributes,
                                        vb_state.attributes@.len() as usize,
                                    ),
                                },
                            ),
                        }
                    }
                },
            }
        }
    }
}

/// What has been gathered from the vertex buffers of a request.
#[derive(Debug, PartialEq, Eq)]
pub struct VertexInputs {
    /// How the pipeline steps through each vertex buffer.
    pub steps: Vec<VertexStep>,
    /// The places, among the vertex buffers, of those that have attributes: these are
    /// the ones that the hardware is told of.
    pub used_buffers: Vec<usize>,
    /// The format of what the vertex shader gets, by location.
    pub inputs: HashMap<u32, VertexFormat>,
    /// The number of attributes in all, held at the largest value of its type.
    pub total_attributes: usize,
}

impl View for VertexInputs {
    type V = VertexInputsView;

    open spec fn view(&self) -> VertexInputsView {
        VertexInputsView {
            steps: self.steps@,
            used_buffers: self.used_buffers@,
            inputs: self.inputs@,
            total_attributes: self.total_attributes,
        }
    }
}

impl Device {
    proof fn lemma_attributes_error_stays(
        &self,
        attributes: Seq<VertexAttribute>,
        from: int,
        to: int,
        inputs: Map<u32, VertexFormat>,
    )
        requires
            from <= to,
            self.spec_check_attributes(attributes, from, inputs) is Err,
        ensures
            self.spec_check_attributes(attributes, to, inputs) == self.spec_check_attributes(
                attributes,
                from,
                inputs,
            ),
        decreases to - from,
    {
        if from < to {
            self.lemma_attributes_error_stays(attributes, from, to - 1, inputs);
        }
    }

    proof fn lemma_vertex_buffers_error_stays(
        &self,
        buffers: Seq<VertexBufferLayout>,
        from: int,
        to: int,
    )
        requires
            from <= to,
            self.spec_check_vertex_buffers(buffers, from) is Err,
        ensures
            self.spec_check_vertex_buffers(buffers, to) == self.spec_check_vertex_buffers(
                buffers,
                from,
            ),
        decreases to - from,
    {
        if from < to {
            self.lemma_vertex_buffers_error_stays(buffers, from, to - 1);
        }
    }

    /// Holds the vertex buffers of a request to the rules, and gathers what the vertex
    /// shader gets.
    #[verifier::loop_isolation(false)]
    pub fn check_vertex_buffers(&self, buffers: &Vec<VertexBufferLayout>) -> (r: Result<
        VertexInputs,
        CreateRenderPipelineError,
    >)
        ensures
            match self.spec_check_vertex_buffers(buffers@, buffers@.len() as int) {
                Err(e) => r == Err::<VertexInputs, CreateRenderPipelineError>(e),
                Ok(found) => r matches Ok(inputs) && inputs@ == found,
            },
    {
        let mut found = VertexInputs {
            steps: Vec::new(),
            used_buffers: Vec::new(),
            inputs: HashMap::new(),
            total_attributes: 0,
        };
        assert(found@ =~= self.spec_check_vertex_buffers(buffers@, 0)->Ok_0);
        let mut i: usize = 0;
        while i < buffers.len()
            invariant
                i <= buffers@.len(),
                self.spec_check_vertex_buffers(buffers@, i as int) == Ok::<
                    VertexInputsView,
                    CreateRenderPipelineError,
                >(found@),
            decreases buffers@.len() - i,
        {
            let ghost before = found@;
            let vb_state = &buffers[i];
            found.steps.push(VertexStep { stride: vb_state.array_stride, mode: vb_state.step_mode });
            if vb_state.attributes.len() == 0 {
                assert(found@ =~= self.spec_check_vertex_buffers(buffers@, i as int + 1)->Ok_0);
                i += 1;
                continue ;
            }
            let failure = if vb_state.array_stride
                > self.limits.max_vertex_buffer_array_stride as u64 {
                Some(
                    CreateRenderPipelineError::VertexStrideTooLarge {
                        index: usize_to_u32(i),
                        given: u64_to_u32(vb_state.array_stride),
                        limit: self.limits.max_vertex_buffer_array_stride,
                    },
                )
            } else if vb_state.array_stride % VERTEX_STRIDE_ALIGNMENT != 0 {
                Some(
                    CreateRenderPipelineError::UnalignedVertexStride {
                        index: usize_to_u32(i),
                        stride: vb_state.array_stride,
                    },
                )
            } else {
                None
            };
            match failure {
                Some(e) => {
                    proof {
                        assert(self.spec_check_vertex_buffers(buffers@, i as int + 1) == Err::<
                            VertexInputsView,
                            CreateRenderPipelineError,
                        >(e));
                        self.lemma_vertex_buffers_error_stays(
                            buffers@,
                            i as int + 1,
                            buffers@.len() as int,
                        );
                    }
                    return Err(e);
                },
                None => {},
            }
            found.used_buffers.push(i);
            let attributes = &vb_state.attributes;
            let mut k: usize = 0;
            while k < attributes.len()
                invariant
                    k <= attributes@.len(),
                    self.spec_check_attributes(attributes@, k as int, before.inputs) == Ok::<
                        Map<u32, VertexFormat>,
                        CreateRenderPipelineError,
                    >(found.inputs@),
                    found.steps@ == before.steps.push(
                        VertexStep { stride: vb_state.array_stride, mode: vb_state.step_mode },
                    ),
                    found.used_buffers@ == before.used_buffers.push(i),
                    found.total_attributes == before.total_attributes,
                decreases attributes@.len() - k,
            {
                let attribute = attributes[k];
                let failure = if attribute.offset >= 0x10000000 {
                    Some(
                        CreateRenderPipelineError::InvalidVertexAttributeOffset {
                            location: attribute.shader_location,
                            offset: attribute.offset,
                        },
                    )
                } else if attribute.format.is_64bit() && !self.features.contains(
                    Features::VERTEX_ATTRIBUTE_64BIT,
                ) {
                    Some(
                        CreateRenderPipelineError::MissingFeatures(
                            MissingFeatures(
                                Features::from_bits(Features::VERTEX_ATTRIBUTE_64BIT),
                            ),
                        ),
                    )
                } else {
                    let previous = found.inputs.insert(
                        attribute.shader_location,
                        attribute.format,
                    );
                    if previous.is_some() {
                        Some(
                            CreateRenderPipelineError::ShaderLocationClash(
                                attribute.shader_location,
                            ),
                        )
                    } else {
                        None
                    }
                };
                match failure {
                    Some(e) => {
                        proof {
                            assert(self.spec_check_attributes(
                                attributes@,
                                k as int + 1,
                                before.inputs,
                            ) == Err::<Map<u32, VertexFormat>, CreateRenderPipelineError>(e));
                            self.lemma_attributes_error_stays(
                                attributes@,
                                k as int + 1,
                                attributes@.len() as int,
                                before.inputs,
                            );
                            assert(self.spec_check_vertex_buffers(buffers@, i as int + 1)
                                == Err::<VertexInputsView, CreateRenderPipelineError>(e));
                            self.lemma_vertex_buffers_error_stays(
                                buffers@,
                                i as int + 1,
                                buffers@.len() as int,
                            );
                        }
                        return Err(e);
                    },
                    None => {},
                }
                k += 1;
            }
            found.total_attributes = found.total_attributes.saturating_add(attributes.len());
            assert(found@ =~= self.spec_check_vertex_buffers(buffers@, i as int + 1)->Ok_0);
            i += 1;
        }
        Ok(found)
    }
}

/// The color targets of a request: those of its fragment stage, if it has one.
pub open spec fn spec_color_targets(desc: &RenderPipelineDescriptor) -> Seq<
    Option<ColorTargetState>,
> {
    match desc.fragment {
        Some(fragment) => fragment.targets@,
        None => Seq::empty(),
    }
}

/// The first of the first `n` targets that is no gap.
pub open spec fn spec_first_target(targets: Seq<Option<ColorTargetState>>, n: int) -> Option<
    ColorTargetState,
>
    decreases n,
{
    if n <= 0 {
        None
    } else if spec_first_target(targets, n - 1) is Some {
        spec_first_target(targets, n - 1)
    } else {
        targets[n - 1]
    }
}

/// Whether one of the first `n` targets blends, or masks its writes, otherwise than
/// `first`.
pub open spec fn spec_targets_differ(
    targets: Seq<Option<ColorTargetState>>,
    n: int,
    first: ColorTargetState,
) -> bool
    decreases n,
{
    if n <= 0 {
        false
    } else {
        spec_targets_differ(targets, n - 1, first) || (targets[n - 1] matches Some(target) && (
        target.write_mask != first.write_mask || target.blend != first.blend))
    }
}

/// Whether the targets do not all blend and mask their writes in one way, which takes
/// a downlevel flag.
pub open spec fn spec_needs_independent_blend(targets: Seq<Option<ColorTargetState>>) -> bool {
    spec_first_target(targets, targets.len() as int) matches Some(first) && spec_targets_differ(
        targets,
        targets.len() as int,
        first,
    )
}

fn same_blend(a: Option<BlendState>, b: Option<BlendState>) -> (r: bool)
    ensures
        r == (a == b),
{
    match (a, b) {
        (Some(a), Some(b)) => a == b,
        (None, None) => true,
        _ => false,
    }
}

fn needs_independent_blend(targets: &Vec<Option<ColorTargetState>>) -> (r: bool)
    ensures
        r == spec_needs_independent_blend(targets@),
{
    let mut first: Option<ColorTargetState> = None;
    let mut i: usize = 0;
    while i < targets.len()
        invariant
            i <= targets@.len(),
            first == spec_first_target(targets@, i as int),
        decreases targets@.len() - i,
    {
        if first.is_none() {
            first = targets[i];
        }
        i += 1;
    }
    let first = match first {
        Some(first) => first,
        None => {
            return false;
        },
    };
    let mut differ = false;
    let mut i: usize = 0;
    while i < targets.len()
        invariant
            i <= targets@.len(),
            differ == spec_targets_differ(targets@, i as int, first),
        decreases targets@.len() - i,
    {
        match targets[i] {
            Some(target) => {
                if target.write_mask != first.write_mask || !same_blend(target.blend, first.blend) {
                    differ = true;
                }
            },
            None => {},
        }
        i += 1;
    }
    differ
}

impl Device {
    /// The rules a color target is held to, in the order in which they are tried:
    /// - its write mask holds no bit that is no channel;
    /// - the device admits its format, which must allow rendering to it;
    /// - if it blends, the format must be blendable, and filterable unless the device
    ///   goes by what the adapter says of formats;
    /// - the format must have a color aspect;
    /// - with more than one sample, the format must support the sample count.
    pub open spec fn spec_check_color_target(
        &self,
        index: int,
        cs: ColorTargetState,
        info: FormatInfo,
        sample_count: u32,
    ) -> Result<(), CreateRenderPipelineError> {
        let at = spec_clamp_to_u8(index);
        if cs.write_mask.contains_invalid_bits() {
            Err(
                CreateRenderPipelineError::ColorState(
                    at,
                    ColorStateError::InvalidWriteMask(cs.write_mask),
                ),
            )
        } else {
            match self.spec_describe_format_features_of(info, cs.adapter_features) {
                Err(missing) => Err(CreateRenderPipelineError::MissingFeatures(missing)),
                Ok(features) => if !features.allowed_usages.contains(
                    TextureUsages::RENDER_ATTACHMENT,
                ) {
                    Err(
                        CreateRenderPipelineError::ColorState(
                            at,
                            ColorStateError::FormatNotRenderable(cs.format),
                        ),
                    )
                } else if cs.blend is Some && (!features.flags.contains(
                    TextureFormatFeatureFlags::BLENDABLE,
                ) || (!features.flags.contains(TextureFormatFeatureFlags::FILTERABLE)
                    && !self.features.contains(
                    Features::TEXTURE_ADAPTER_SPECIFIC_FORMAT_FEATURES,
                ))) {
                    Err(
                        CreateRenderPipelineError::ColorState(
                            at,
                            ColorStateError::FormatNotBlendable(cs.format),
                        ),
                    )
                } else if !info.aspects.contains(FormatAspects::COLOR) {
                    Err(
                        CreateRenderPipelineError::ColorState(
                            at,
                            ColorStateError::FormatNotColor(cs.format),
                        ),
                    )
                } else if sample_count > 1 && !features.flags.sample_count_supported(sample_count) {
                    Err(
                        CreateRenderPipelineError::ColorState(
                            at,
                            ColorStateError::FormatNotMultisampled(cs.format),
                        ),
                    )
                } else {
                    Ok(())
                },
            }
        }
    }

    /// Holds one color target to the rules.
    pub fn check_color_target(
        &self,
        index: usize,
        cs: &ColorTargetState,
        info: &FormatInfo,
        sample_count: u32,
    ) -> (r: Result<(), CreateRenderPipelineError>)
        ensures
            r == self.spec_check_color_target(index as int, *cs, *info, sample_count),
    {
        let at = usize_to_u8(index);
        if cs.write_mask.contains_invalid_bits() {
            return Err(
                CreateRenderPipelineError::ColorState(
                    at,
                    ColorStateError::InvalidWriteMask(cs.write_mask),
                ),
            );
        }
        let format_features = match self.describe_format_features_of(info, cs.adapter_features) {
            Ok(features) => features,
            Err(missing) => {
                return Err(CreateRenderPipelineError::MissingFeatures(missing));
            },
        };
        if !format_features.allowed_usages.contains(TextureUsages::RENDER_ATTACHMENT) {
            return Err(
                CreateRenderPipelineError::ColorState(
                    at,
                    ColorStateError::FormatNotRenderable(cs.format),
                ),
            );
        }
        let blendable = format_features.flags.contains(TextureFormatFeatureFlags::BLENDABLE);
        let filterable = format_features.flags.contains(TextureFormatFeatureFlags::FILTERABLE);
        let adapter_specific = self.features.contains(
            Features::TEXTURE_ADAPTER_SPECIFIC_FORMAT_FEATURES,
        );
        if cs.blend.is_some() && (!blendable || (!filterable && !adapter_specific)) {
            return Err(
                CreateRenderPipelineError::ColorState(
                    at,
                    ColorStateError::FormatNotBlendable(cs.format),
                ),
            );
        }
        if !info.aspects.contains(FormatAspects::COLOR) {
            return Err(
                CreateRenderPipelineError::ColorState(at, ColorStateError::FormatNotColor(cs.format)),
            );
        }
        if sample_count > 1 && !format_features.flags.sample_count_supported(sample_count) {
            return Err(
                CreateRenderPipelineError::ColorState(
                    at,
                    ColorStateError::FormatNotMultisampled(cs.format),
                ),
            );
        }
        Ok(())
    }

    /// What comes of the first `n` color targets, where `infos` holds what is known of
    /// the format of each: the first failure among those that are no gaps, if there is
    /// one.
    pub open spec fn spec_check_color_targets(
        &self,
        targets: Seq<Option<ColorTargetState>>,
        infos: Seq<Option<FormatInfo>>,
        n: int,
        sample_count: u32,
    ) -> Result<(), CreateRenderPipelineError>
        decreases n,
    {
        if n <= 0 {
            Ok(())
        } else if self.spec_check_color_targets(targets, infos, n - 1, sample_count) is Err {
            self.spec_check_color_targets(targets, infos, n - 1, sample_count)
        } else {
            match (targets[n - 1], infos[n - 1]) {
                (Some(cs), Some(info)) => self.spec_check_color_target(
                    n - 1,
                    cs,
                    info,
                    sample_count,
                ),
                _ => Ok(()),
            }
        }
    }

    proof fn lemma_color_targets_error_stays(
        &self,
        targets: Seq<Option<ColorTargetState>>,
        infos: Seq<Option<FormatInfo>>,
        from: int,
        to: int,
        sample_count: u32,
    )
        requires
            from <= to,
            self.spec_check_color_targets(targets, infos, from, sample_count) is Err,
        ensures
            self.spec_check_color_targets(targets, infos, to, sample_count)
                == self.spec_check_color_targets(targets, infos, from, sample_count),
        decreases to - from,
    {
        if from < to {
            self.lemma_color_targets_error_stays(targets, infos, from, to - 1, sample_count);
        }
    }

    /// The rules the depth and stencil state is held to, in the order in which they are
    /// tried:
    /// - the device admits its format, which must allow rendering to it;
    /// - if depth is tested or written, the format must have a depth aspect;
    /// - if the stencil is tested or written, the format must have a stencil aspect;
    /// - with more than one sample, the format must support the sample count;
    /// - a limit on the depth bias takes a downlevel flag.
    pub open spec fn spec_check_depth_stencil(
        &self,
        ds: DepthStencilState,
        info: FormatInfo,
        sample_count: u32,
    ) -> Result<(), CreateRenderPipelineError> {
        match self.spec_describe_format_features_of(info, ds.adapter_features) {
            Err(missing) => Err(CreateRenderPipelineError::MissingFeatures(missing)),
            Ok(features) => if !features.allowed_usages.contains(TextureUsages::RENDER_ATTACHMENT) {
                Err(
                    CreateRenderPipelineError::DepthStencilState(
                        DepthStencilStateError::FormatNotRenderable(ds.format),
                    ),
                )
            } else if ds.is_depth_enabled && !info.aspects.contains(FormatAspects::DEPTH) {
                Err(
                    CreateRenderPipelineError::DepthStencilState(
                        DepthStencilStateError::FormatNotDepth(ds.format),
                    ),
                )
            } else if ds.is_stencil_enabled && !info.aspects.contains(FormatAspects::STENCIL) {
                Err(
                    CreateRenderPipelineError::DepthStencilState(
                        DepthStencilStateError::FormatNotStencil(ds.format),
                    ),
                )
            } else if sample_count > 1 && !features.flags.sample_count_supported(sample_count) {
                Err(
                    CreateRenderPipelineError::DepthStencilState(
                        DepthStencilStateError::FormatNotMultisampled(ds.format),
                    ),
                )
            } else if ds.has_depth_bias_clamp && !self.downlevel.flags.contains(
                DownlevelFlags::DEPTH_BIAS_CLAMP,
            ) {
                Err(
                    CreateRenderPipelineError::MissingDownlevelFlags(
                        MissingDownlevelFlags(
                            DownlevelFlags { bits: DownlevelFlags::DEPTH_BIAS_CLAMP },
                        ),
                    ),
                )
            } else {
                Ok(())
            },
        }
    }

    /// Holds the depth and stencil state to the rules.
    pub fn check_depth_stencil(&self, ds: &DepthStencilState, info: &FormatInfo, sample_count: u32) -> (r:
        Result<(), CreateRenderPipelineError>)
        ensures
            r == self.spec_check_depth_stencil(*ds, *info, sample_count),
    {
        let format_features = match self.describe_format_features_of(info, ds.adapter_features) {
            Ok(features) => features,
            Err(missing) => {
                return Err(CreateRenderPipelineError::MissingFeatures(missing));
            },
        };
        if !format_features.allowed_usages.contains(TextureUsages::RENDER_ATTACHMENT) {
            return Err(
                CreateRenderPipelineError::DepthStencilState(
                    DepthStencilStateError::FormatNotRenderable(ds.format),
                ),
            );
        }
        if ds.is_depth_enabled && !info.aspects.contains(FormatAspects::DEPTH) {
            return Err(
                CreateRenderPipelineError::DepthStencilState(
                    DepthStencilStateError::FormatNotDepth(ds.format),
                ),
            );
        }
        if ds.is_stencil_enabled && !info.aspects.contains(FormatAspects::STENCIL) {
            return Err(
                CreateRenderPipelineError::DepthStencilState(
                    DepthStencilStateError::FormatNotStencil(ds.format),
                ),
            );
        }
        if sample_count > 1 && !format_features.flags.sample_count_supported(sample_count) {
            return Err(
                CreateRenderPipelineError::DepthStencilState(
                    DepthStencilStateError::FormatNotMultisampled(ds.format),
                ),
            );
        }
        if ds.has_depth_bias_clamp {
            match self.require_downlevel_flags(DownlevelFlags::DEPTH_BIAS_CLAMP) {
                Ok(()) => {},
                Err(missing) => {
                    return Err(CreateRenderPipelineError::MissingDownlevelFlags(missing));
                },
            }
        }
        Ok(())
    }

    /// The rules on how primitives are put together and rasterized, in the order in
    /// which they are tried: only a strip has a strip index format; unclipped depth,
    /// lines, points and conservative rasterization each take a feature; and
    /// conservative rasterization fills.
    pub open spec fn spec_check_primitive(&self, primitive: PrimitiveState) -> Result<
        (),
        CreateRenderPipelineError,
    > {
        if primitive.strip_index_format is Some && !primitive.topology.is_strip() {
            Err(
                CreateRenderPipelineError::StripIndexFormatForNonStripTopology {
                    strip_index_format: primitive.strip_index_format,
                    topology: primitive.topology,
                },
            )
        } else if primitive.unclipped_depth && !self.features.contains(
            Features::DEPTH_CLIP_CONTROL,
        ) {
            Err(
                CreateRenderPipelineError::MissingFeatures(
                    MissingFeatures(Features { bits: Features::DEPTH_CLIP_CONTROL }),
                ),
            )
        } else if primitive.polygon_mode == PolygonMode::Line && !self.features.contains(
            Features::POLYGON_MODE_LINE,
        ) {
            Err(
                CreateRenderPipelineError::MissingFeatures(
                    MissingFeatures(Features { bits: Features::POLYGON_MODE_LINE }),
                ),
            )
        } else if primitive.polygon_mode == PolygonMode::Point && !self.features.contains(
            Features::POLYGON_MODE_POINT,
        ) {
            Err(
                CreateRenderPipelineError::MissingFeatures(
                    MissingFeatures(Features { bits: Features::POLYGON_MODE_POINT }),
                ),
            )
        } else if primitive.conservative && !self.features.contains(
            Features::CONSERVATIVE_RASTERIZATION,
        ) {
            Err(
                CreateRenderPipelineError::MissingFeatures(
                    MissingFeatures(Features { bits: Features::CONSERVATIVE_RASTERIZATION }),
                ),
            )
        } else if primitive.conservative && primitive.polygon_mode != PolygonMode::Fill {
            Err(CreateRenderPipelineError::ConservativeRasterizationNonFillPolygonMode)
        } else {
            Ok(())
        }
    }

    /// Holds the primitive state to the rules.
    pub fn check_primitive(&self, primitive: &PrimitiveState) -> (r: Result<
        (),
        CreateRenderPipelineError,
    >)
        ensures
            r == self.spec_check_primitive(*primitive),
    {
        if primitive.strip_index_format.is_some() && !primitive.topology.is_strip() {
            return Err(
                CreateRenderPipelineError::StripIndexFormatForNonStripTopology {
                    strip_index_format: primitive.strip_index_format,
                    topology: primitive.topology,
                },
            );
        }
        let needed: u64 = if primitive.unclipped_depth && !self.features.contains(
            Features::DEPTH_CLIP_CONTROL,
        ) {
            Features::DEPTH_CLIP_CONTROL
        } else if primitive.polygon_mode == PolygonMode::Line && !self.features.contains(
            Features::POLYGON_MODE_LINE,
        ) {
            Features::POLYGON_MODE_LINE
        } else if primitive.polygon_mode == PolygonMode::Point && !self.features.contains(
            Features::POLYGON_MODE_POINT,
        ) {
            Features::POLYGON_MODE_POINT
        } else if primitive.conservative && !self.features.contains(
            Features::CONSERVATIVE_RASTERIZATION,
        ) {
            Features::CONSERVATIVE_RASTERIZATION
        } else {
            0
        };
        if needed != 0 {
            return Err(
                CreateRenderPipelineError::MissingFeatures(
                    MissingFeatures(Features::from_bits(needed)),
                ),
            );
        }
        if primitive.conservative && primitive.polygon_mode != PolygonMode::Fill {
            return Err(CreateRenderPipelineError::ConservativeRasterizationNonFillPolygonMode);
        }
        Ok(())
    }
}

/// What is known of the format of each color target, where `features` are the features
/// of the device: nothing for a gap.
pub open spec fn spec_target_infos(
    targets: Seq<Option<ColorTargetState>>,
    features: Features,
) -> Seq<Option<FormatInfo>> {
    Seq::new(
        targets.len(),
        |i: int|
            match targets[i] {
                Some(cs) => Some(spec_format_info(cs.format, features)),
                None => None,
            },
    )
}

/// What is known of the format of each color target: nothing for a gap.
pub fn target_infos(targets: &Vec<Option<ColorTargetState>>, features: Features) -> (r: Vec<
    Option<FormatInfo>,
>)
    ensures
        r@ == spec_target_infos(targets@, features),
{
    let mut infos: Vec<Option<FormatInfo>> = Vec::new();
    let mut i: usize = 0;
    while i < targets.len()
        invariant
            i <= targets@.len(),
            infos@ == spec_target_infos(targets@.take(i as int), features),
        decreases targets@.len() - i,
    {
        let info = match &targets[i] {
            Some(cs) => Some(format_info(&cs.format, features)),
            None => None,
        };
        infos.push(info);
        i += 1;
        assert(infos@ =~= spec_target_infos(targets@.take(i as int), features));
    }
    assert(targets@.take(i as int) =~= targets@);
    infos
}

/// What comes of the part of a request for a render pipeline that can be checked
/// without a look into its shaders.
#[derive(Debug, PartialEq, Eq)]
pub struct RenderPipelineChecked {
    pub vertex: VertexInputs,
    /// The number of samples of each pixel.
    pub samples: u32,
}

impl Device {
    /// The rules a request for a render pipeline is held to before its shaders are
    /// looked into, in the order in which they are tried, where `infos` and `depth_info`
    /// hold what is known of the formats of the color targets and of the depth and
    /// stencil state:
    /// - it has no more color targets than a pipeline can have;
    /// - the targets blend and mask their writes in one way, unless the platform lets
    ///   them differ;
    /// - the vertex buffers pass the rules on vertex buffers;
    /// - the vertex buffers with attributes, and the attributes in all, are no more
    ///   than the device allows;
    /// - the primitive state, each color target, and the depth and stencil state pass
    ///   the rules on them;
    /// - the number of samples is a power of two, and 32 at most.
    pub open spec fn spec_validate_render_pipeline(
        &self,
        desc: &RenderPipelineDescriptor,
        infos: Seq<Option<FormatInfo>>,
        depth_info: Option<FormatInfo>,
    ) -> Result<(VertexInputsView, u32), CreateRenderPipelineError> {
        let targets = spec_color_targets(desc);
        let sc = desc.multisample.count;
        if targets.len() > MAX_COLOR_ATTACHMENTS {
            Err(
                CreateRenderPipelineError::TooManyColorAttachments {
                    given: targets.len() as usize,
                    limit: MAX_COLOR_ATTACHMENTS,
                },
            )
        } else if spec_needs_independent_blend(targets) && !self.downlevel.flags.contains(
            DownlevelFlags::INDEPENDENT_BLEND,
        ) {
            Err(
                CreateRenderPipelineError::MissingDownlevelFlags(
                    MissingDownlevelFlags(
                        DownlevelFlags { bits: DownlevelFlags::INDEPENDENT_BLEND },
                    ),
                ),
            )
        } else {
            match self.spec_check_vertex_buffers(
                desc.vertex.buffers@,
                desc.vertex.buffers@.len() as int,
            ) {
                Err(e) => Err(e),
                Ok(vertex) => if vertex.used_buffers.len() > self.limits.max_vertex_buffers {
                    Err(
                        CreateRenderPipelineError::TooManyVertexBuffers {
                            given: spec_clamp_to_u32(vertex.used_buffers.len() as int),
                            limit: self.limits.max_vertex_buffers,
                        },
                    )
                } else if vertex.total_attributes > self.limits.max_vertex_attributes {
                    Err(
                        CreateRenderPipelineError::TooManyVertexAttributes {
                            given: spec_clamp_to_u32(vertex.total_attributes as int),
                            limit: self.limits.max_vertex_attributes,
                        },
                    )
                } else if self.spec_check_primitive(desc.primitive) is Err {
                    Err(self.spec_check_primitive(desc.primitive)->Err_0)
                } else if self.spec_check_color_targets(
                    targets,
                    infos,
                    targets.len() as int,
                    sc,
                ) is Err {
                    Err(
                        self.spec_check_color_targets(
                            targets,
                            infos,
                            targets.len() as int,
                            sc,
                        )->Err_0,
                    )
                } else if desc.depth_stencil is Some && depth_info is Some
                    && self.spec_check_depth_stencil(
                    desc.depth_stencil->Some_0,
                    depth_info->Some_0,
                    sc,
                ) is Err {
                    Err(
                        self.spec_check_depth_stencil(
                            desc.depth_stencil->Some_0,
                            depth_info->Some_0,
                            sc,
                        )->Err_0,
                    )
                } else if sc == 0 || sc > 32 || !is_power_of_two_u32(sc) {
                    Err(CreateRenderPipelineError::InvalidSampleCount(sc))
                } else {
                    Ok((vertex, sc))
                },
            }
        }
    }

    /// Holds a request for a render pipeline to the rules that need no look into its
    /// shaders, where `infos` holds what is known of the format of each color target and
    /// `depth_info` what is known of the format of the depth and stencil state.
    #[verifier::loop_isolation(false)]
    pub fn validate_render_pipeline_with(
        &self,
        desc: &RenderPipelineDescriptor,
        infos: &Vec<Option<FormatInfo>>,
        depth_info: Option<FormatInfo>,
    ) -> (r: Result<RenderPipelineChecked, CreateRenderPipelineError>)
        requires
            infos@.len() == spec_color_targets(desc).len(),
        ensures
            match self.spec_validate_render_pipeline(desc, infos@, depth_info) {
                Err(e) => r == Err::<RenderPipelineChecked, CreateRenderPipelineError>(e),
                Ok((vertex, samples)) => r matches Ok(checked) && checked.vertex@ == vertex
                    && checked.samples == samples,
            },
    {
        let no_targets: Vec<Option<ColorTargetState>> = Vec::new();
        let color_targets = match &desc.fragment {
            Some(fragment) => &fragment.targets,
            None => &no_targets,
        };
        assert(color_targets@ =~= spec_color_targets(desc));
        let num_attachments = color_targets.len();
        if num_attachments > MAX_COLOR_ATTACHMENTS {
            return Err(
                CreateRenderPipelineError::TooManyColorAttachments {
                    given: num_attachments,
                    limit: MAX_COLOR_ATTACHMENTS,
                },
            );
        }
        if needs_independent_blend(color_targets) {
            match self.require_downlevel_flags(DownlevelFlags::INDEPENDENT_BLEND) {
                Ok(()) => {},
                Err(missing) => {
                    return Err(CreateRenderPipelineError::MissingDownlevelFlags(missing));
                },
            }
        }
        let vertex = self.check_vertex_buffers(&desc.vertex.buffers)?;
        if vertex.used_buffers.len() > self.limits.max_vertex_buffers as usize {
            return Err(
                CreateRenderPipelineError::TooManyVertexBuffers {
                    given: usize_to_u32(vertex.used_buffers.len()),
                    limit: self.limits.max_vertex_buffers,
                },
            );
        }
        if vertex.total_attributes > self.limits.max_vertex_attributes as usize {
            return Err(
                CreateRenderPipelineError::TooManyVertexAttributes {
                    given: usize_to_u32(vertex.total_attributes),
                    limit: self.limits.max_vertex_attributes,
                },
            );
        }
        self.check_primitive(&desc.primitive)?;
        let sc = desc.multisample.count;
        let mut i: usize = 0;
        while i < color_targets.len()
            invariant
                i <= color_targets@.len(),
                self.spec_check_color_targets(color_targets@, infos@, i as int, sc) is Ok,
            decreases color_targets@.len() - i,
        {
            match (&color_targets[i], &infos[i]) {
                (Some(cs), Some(info)) => {
                    match self.check_color_target(i, cs, info, sc) {
                        Ok(()) => {},
                        Err(e) => {
                            proof {
                                assert(self.spec_check_color_targets(
                                    color_targets@,
                                    infos@,
                                    i as int + 1,
                                    sc,
                                ) == Err::<(), CreateRenderPipelineError>(e));
                                self.lemma_color_targets_error_stays(
                                    color_targets@,
                                    infos@,
                                    i as int + 1,
                                    color_targets@.len() as int,
                                    sc,
                                );
                            }
                            return Err(e);
                        },
                    }
                },
                _ => {},
            }
            i += 1;
        }
        match (&desc.depth_stencil, &depth_info) {
            (Some(ds), Some(info)) => {
                self.check_depth_stencil(ds, info, sc)?;
            },
            _ => {},
        }
        if sc == 0 || sc > 32 || !is_power_of_two_u32(sc) {
            return Err(CreateRenderPipelineError::InvalidSampleCount(sc));
        }
        Ok(RenderPipelineChecked { vertex, samples: sc })
    }

    /// What is known of the format of the depth and stencil state of a request.
    pub open spec fn spec_depth_info(&self, desc: &RenderPipelineDescriptor) -> Option<
        FormatInfo,
    > {
        match desc.depth_stencil {
            Some(ds) => Some(spec_format_info(ds.format, self.features)),
            None => None,
        }
    }

    /// Holds a request for a render pipeline to the rules that need no look into its
    /// shaders.
    pub fn validate_render_pipeline(&self, desc: &RenderPipelineDescriptor) -> (r: Result<
        RenderPipelineChecked,
        CreateRenderPipelineError,
    >)
        ensures
            match self.spec_validate_render_pipeline(
                desc,
                spec_target_infos(spec_color_targets(desc), self.features),
                self.spec_depth_info(desc),
            ) {
                Err(e) => r == Err::<RenderPipelineChecked, CreateRenderPipelineError>(e),
                Ok((vertex, samples)) => r matches Ok(checked) && checked.vertex@ == vertex
                    && checked.samples == samples,
            },
    {
        let infos = match &desc.fragment {
            Some(fragment) => target_infos(&fragment.targets, self.features),
            None => {
                let none: Vec<Option<FormatInfo>> = Vec::new();
                assert(none@ =~= spec_target_infos(spec_color_targets(desc), self.features));
                none
            },
        };
        let depth_info = match &desc.depth_stencil {
            Some(ds) => Some(format_info(&ds.format, self.features)),
            None => None,
        };
        self.validate_render_pipeline_with(desc, &infos, depth_info)
    }

    /// The first step for a render pipeline: marks the identities given for derived
    /// layouts, and holds the request to the rules that need no look into its shaders.
    /// If it passes, the caller gets, besides what was gathered, the entry maps for the
    /// look into the shaders to fill in, if the layout is to be derived.
    ///
    /// Nothing has been asked of the hardware when this returns.
    pub fn begin_render_pipeline<RL, RP>(
        &self,
        desc: &RenderPipelineDescriptor,
        implicit_context: &Option<ImplicitPipelineContext>,
        pipeline_layout_guard: &mut Storage<PipelineLayout<RP>>,
        bgl_guard: &mut Storage<BindGroupLayout<RL>>,
    ) -> (r: Result<(RenderPipelineChecked, DerivedGroupLayouts), CreateRenderPipelineError>)
        requires
            implicit_context matches Some(ids) ==> ids.root_id < usize::MAX && forall|i: int|
                0 <= i < ids.group_ids@.len() ==> ids.group_ids@[i] < usize::MAX,
        ensures
            match implicit_context {
                None => final(pipeline_layout_guard)@ == old(pipeline_layout_guard)@
                    && final(bgl_guard)@ == old(bgl_guard)@,
                Some(ids) => final(pipeline_layout_guard)@ == spec_with_element(
                    old(pipeline_layout_guard)@,
                    ids.root_id,
                    Element::Error(IMPLICIT_FAILURE),
                ) && final(bgl_guard)@ == spec_marked(
                    old(bgl_guard)@,
                    ids.group_ids@,
                    ids.group_ids@.len() as int,
                ),
            },
            match self.spec_validate_render_pipeline(
                desc,
                spec_target_infos(spec_color_targets(desc), self.features),
                self.spec_depth_info(desc),
            ) {
                Err(e) => r == Err::<
                    (RenderPipelineChecked, DerivedGroupLayouts),
                    CreateRenderPipelineError,
                >(e),
                Ok((vertex, samples)) => r matches Ok((checked, derived)) && checked.vertex@
                    == vertex && checked.samples == samples && spec_is_fresh_derivation(
                    derived_layouts(derived),
                    desc.layout,
                    self.limits.max_bind_groups,
                ),
            },
    {
        mark_implicit_layouts(implicit_context, pipeline_layout_guard, bgl_guard);
        let checked = self.validate_render_pipeline(desc)?;
        let derived_group_layouts = match desc.layout {
            Some(_) => derived_layouts_new(),
            None => empty_derived_layouts(self.limits.max_bind_groups),
        };
        Ok((checked, derived_group_layouts))
    }
}

/// What a fragment shader produces at one location.
#[derive(Clone, Copy, Debug, PartialEq, Eq, Structural)]
pub struct FragmentOutput {
    pub location: u32,
    pub ty: NumericType,
}

/// The formats of what a render pass renders to.
#[derive(Debug, PartialEq)]
pub struct AttachmentData {
    /// The format of each color target; a gap where a location has no target.
    pub colors: Vec<Option<TextureFormat>>,
    pub resolves: Vec<TextureFormat>,
    pub depth_stencil: Option<TextureFormat>,
}

/// What a render pass must be like for a pipeline to be used in it.
#[derive(Debug, PartialEq)]
pub struct RenderPassContext {
    pub attachments: AttachmentData,
    pub sample_count: u32,
    pub multiview: Option<u32>,
}

/// What comes of a request for a render pipeline that passed.
#[derive(Debug, PartialEq)]
pub struct RenderPipelinePlan {
    /// The layout of the pipeline, given or derived.
    pub settled: SettledLayout,
    pub flags: PipelineFlags,
    pub pass_context: RenderPassContext,
    pub strip_index_format: Option<IndexFormat>,
    pub vertex_steps: Vec<VertexStep>,
}

/// A render pipeline that was created. `R` is the handle of the hardware pipeline.
#[derive(Debug, PartialEq)]
pub struct RenderPipeline<R> {
    /// The hardware pipeline; gone once the pipeline has been destroyed.
    pub raw: Option<R>,
    pub layout_id: PipelineLayoutId,
    pub pass_context: RenderPassContext,
    pub flags: PipelineFlags,
    pub strip_index_format: Option<IndexFormat>,
    pub vertex_steps: Vec<VertexStep>,
    pub late_sized_buffer_groups: Vec<LateSizedBufferGroup>,
    pub info: ResourceInfo,
}

/// Whether the vertex shader of a request is to be looked into: it is if its module is
/// in the table and can be looked into.
pub open spec fn spec_reflects_vertex<RS>(
    desc: &RenderPipelineDescriptor,
    modules: Seq<Element<ShaderModule<RS>>>,
) -> bool {
    spec_resource_at(modules, desc.vertex.stage.module) matches Some(module)
        && module.has_interface
}

/// Whether the fragment shader of a request is to be looked into: it is if the vertex
/// shader was, and the request has a fragment stage whose module is in the table and can
/// be looked into.
pub open spec fn spec_reflects_fragment<RS>(
    desc: &RenderPipelineDescriptor,
    modules: Seq<Element<ShaderModule<RS>>>,
) -> bool {
    &&& spec_reflects_vertex(desc, modules)
    &&& desc.fragment matches Some(fragment)
    &&& spec_resource_at(modules, fragment.stage.module) matches Some(module)
    &&& module.has_interface
}

/// Whether the vertex shader of a request is to be looked into.
pub fn reflects_vertex<RS>(desc: &RenderPipelineDescriptor, modules: &Storage<ShaderModule<RS>>) -> (r:
    bool)
    ensures
        r == spec_reflects_vertex(desc, modules@),
{
    match modules.get(desc.vertex.stage.module) {
        Some(module) => module.has_interface,
        None => false,
    }
}

/// Whether the fragment shader of a request is to be looked into, once the vertex
/// shader has passed.
pub fn reflects_fragment<RS>(desc: &RenderPipelineDescriptor, modules: &Storage<ShaderModule<RS>>) -> (r:
    bool)
    ensures
        r == spec_reflects_fragment(desc, modules@),
{
    if !reflects_vertex(desc, modules) {
        return false;
    }
    match &desc.fragment {
        Some(fragment) => match modules.get(fragment.stage.module) {
            Some(module) => module.has_interface,
            None => false,
        },
        None => false,
    }
}

/// Whether the fragment shader of a request is to be looked into, given what the look
/// into the vertex shader came to: it is not if that look failed, since the request is
/// then turned down for its vertex stage; otherwise it is if the request says so.
pub open spec fn spec_reflects_fragment_after<RS>(
    desc: &RenderPipelineDescriptor,
    modules: Seq<Element<ShaderModule<RS>>>,
    vertex: Result<(), StageError>,
) -> bool {
    vertex is Ok && spec_reflects_fragment(desc, modules)
}

/// Whether the fragment shader of a request is to be looked into, given what the look
/// into the vertex shader came to.
pub fn reflects_fragment_after<RS>(
    desc: &RenderPipelineDescriptor,
    modules: &Storage<ShaderModule<RS>>,
    vertex: &Result<(), StageError>,
) -> (r: bool)
    ensures
        r == spec_reflects_fragment_after(desc, modules@, *vertex),
{
    match vertex {
        Ok(()) => reflects_fragment(desc, modules),
        Err(_) => false,
    }
}

/// The rule on what the fragment shader produces at one location: where a color target
/// is at the location, what the shader produces must fit the type that the target
/// takes.
pub open spec fn spec_check_output(
    targets: Seq<Option<ColorTargetState>>,
    output: FragmentOutput,
) -> Result<(), CreateRenderPipelineError> {
    if output.location < targets.len() && targets[output.location as int] is Some
        && !targets[output.location as int]->Some_0.output_type.is_subtype_of(output.ty) {
        Err(
            CreateRenderPipelineError::ColorState(
                spec_clamp_to_u8(output.location as int),
                ColorStateError::IncompatibleFormat {
                    pipeline: targets[output.location as int]->Some_0.output_type,
                    shader: output.ty,
                },
            ),
        )
    } else {
        Ok(())
    }
}

/// What comes of the first `n` outputs of the fragment shader: the first failure among
/// them, if there is one.
pub open spec fn spec_check_outputs(
    targets: Seq<Option<ColorTargetState>>,
    outputs: Seq<FragmentOutput>,
    n: int,
) -> Result<(), CreateRenderPipelineError>
    decreases n,
{
    if n <= 0 {
        Ok(())
    } else if spec_check_outputs(targets, outputs, n - 1) is Err {
        spec_check_outputs(targets, outputs, n - 1)
    } else {
        spec_check_output(targets, outputs[n - 1])
    }
}

proof fn lemma_outputs_error_stays(
    targets: Seq<Option<ColorTargetState>>,
    outputs: Seq<FragmentOutput>,
    from: int,
    to: int,
)
    requires
        from <= to,
        spec_check_outputs(targets, outputs, from) is Err,
    ensures
        spec_check_outputs(targets, outputs, to) == spec_check_outputs(targets, outputs, from),
    decreases to - from,
{
    if from < to {
        lemma_outputs_error_stays(targets, outputs, from, to - 1);
    }
}

fn check_outputs(targets: &Vec<Option<ColorTargetState>>, outputs: &Vec<FragmentOutput>) -> (r:
    Result<(), CreateRenderPipelineError>)
    ensures
        r == spec_check_outputs(targets@, outputs@, outputs@.len() as int),
{
    let mut i: usize = 0;
    while i < outputs.len()
        invariant
            i <= outputs@.len(),
            spec_check_outputs(targets@, outputs@, i as int) is Ok,
        decreases outputs@.len() - i,
    {
        let output = outputs[i];
        let at = output.location as usize;
        if at < targets.len() {
            match &targets[at] {
                Some(state) => {
                    if !state.output_type.is_subtype_of(output.ty) {
                        let e = CreateRenderPipelineError::ColorState(
                            usize_to_u8(at),
                            ColorStateError::IncompatibleFormat {
                                pipeline: state.output_type,
                                shader: output.ty,
                            },
                        );
                        proof {
                            assert(spec_check_outputs(targets@, outputs@, i as int + 1) == Err::<
                                (),
                                CreateRenderPipelineError,
                            >(e));
                            lemma_outputs_error_stays(
                                targets@,
                                outputs@,
                                i as int + 1,
                                outputs@.len() as int,
                            );
                        }
                        return Err(e);
                    }
                },
                None => {},
            }
        }
        i += 1;
    }
    Ok(())
}

/// The rules on the stages of a render pipeline, in the order in which they are tried,
/// where `vertex` and `fragment` are what the looks into the two shaders came to, and
/// `outputs` is what the fragment shader produces:
/// - the module of the vertex shader must be in the table;
/// - a layout that is given must be in the table, with all its bind group layouts;
/// - the vertex shader, if it was looked into, must have passed;
/// - the module of the fragment shader, if there is one, must be in the table;
/// - the fragment shader, if it was looked into, must have passed, and what it produces
///   must fit the color targets;
/// - if the layout is to be derived, the last stage must have been looked into.
pub open spec fn spec_check_render_stages<RS, RL, RP>(
    desc: &RenderPipelineDescriptor,
    modules: Seq<Element<ShaderModule<RS>>>,
    pipeline_layouts: Seq<Element<PipelineLayout<RP>>>,
    bind_group_layouts: Seq<Element<BindGroupLayout<RL>>>,
    vertex: Result<(), StageError>,
    fragment: Result<(), StageError>,
    outputs: Seq<FragmentOutput>,
) -> Result<(), CreateRenderPipelineError> {
    let vertex_flag = ShaderStages { bits: ShaderStages::VERTEX };
    let fragment_flag = ShaderStages { bits: ShaderStages::FRAGMENT };
    if spec_resource_at(modules, desc.vertex.stage.module) is None {
        Err(CreateRenderPipelineError::Stage { stage: vertex_flag, error: StageError::InvalidModule })
    } else if spec_layout_is_missing(desc.layout, pipeline_layouts, bind_group_layouts) {
        Err(CreateRenderPipelineError::InvalidLayout)
    } else if spec_reflects_vertex(desc, modules) && vertex is Err {
        Err(CreateRenderPipelineError::Stage { stage: vertex_flag, error: vertex->Err_0 })
    } else if desc.fragment is Some && spec_resource_at(
        modules,
        desc.fragment->Some_0.stage.module,
    ) is None {
        Err(
            CreateRenderPipelineError::Stage {
                stage: fragment_flag,
                error: StageError::InvalidModule,
            },
        )
    } else if spec_reflects_fragment(desc, modules) && fragment is Err {
        Err(CreateRenderPipelineError::Stage { stage: fragment_flag, error: fragment->Err_0 })
    } else if spec_reflects_fragment(desc, modules) && spec_check_outputs(
        spec_color_targets(desc),
        outputs,
        outputs.len() as int,
    ) is Err {
        spec_check_outputs(spec_color_targets(desc), outputs, outputs.len() as int)
    } else if desc.layout is None && desc.fragment is Some && !spec_reflects_fragment(
        desc,
        modules,
    ) {
        Err(
            CreateRenderPipelineError::Implicit(
                ImplicitLayoutError::ReflectionError(fragment_flag),
            ),
        )
    } else if desc.layout is None && desc.fragment is None && !spec_reflects_vertex(
        desc,
        modules,
    ) {
        Err(CreateRenderPipelineError::Implicit(ImplicitLayoutError::ReflectionError(vertex_flag)))
    } else {
        Ok(())
    }
}

/// Holds the stages of a render pipeline to the rules, given what the looks into the
/// shaders came to.
pub fn check_render_stages<RS, RL, RP>(
    desc: &RenderPipelineDescriptor,
    modules: &Storage<ShaderModule<RS>>,
    pipeline_layout_guard: &Storage<PipelineLayout<RP>>,
    bgl_guard: &Storage<BindGroupLayout<RL>>,
    vertex: Result<(), StageError>,
    fragment: Result<(), StageError>,
    outputs: &Vec<FragmentOutput>,
) -> (r: Result<(), CreateRenderPipelineError>)
    ensures
        r == spec_check_render_stages(
            desc,
            modules@,
            pipeline_layout_guard@,
            bgl_guard@,
            vertex,
            fragment,
            outputs@,
        ),
{
    let vertex_flag = ShaderStages::from_bits(ShaderStages::VERTEX);
    let fragment_flag = ShaderStages::from_bits(ShaderStages::FRAGMENT);
    if modules.get(desc.vertex.stage.module).is_none() {
        return Err(
            CreateRenderPipelineError::Stage {
                stage: vertex_flag,
                error: StageError::InvalidModule,
            },
        );
    }
    if layout_is_missing(desc.layout, pipeline_layout_guard, bgl_guard) {
        return Err(CreateRenderPipelineError::InvalidLayout);
    }
    let vertex_validated = reflects_vertex(desc, modules);
    if vertex_validated {
        match vertex {
            Ok(()) => {},
            Err(error) => {
                return Err(CreateRenderPipelineError::Stage { stage: vertex_flag, error });
            },
        }
    }
    let fragment_validated = reflects_fragment(desc, modules);
    match &desc.fragment {
        Some(stage) => {
            if modules.get(stage.stage.module).is_none() {
                return Err(
                    CreateRenderPipelineError::Stage {
                        stage: fragment_flag,
                        error: StageError::InvalidModule,
                    },
                );
            }
            if fragment_validated {
                match fragment {
                    Ok(()) => {},
                    Err(error) => {
                        return Err(
                            CreateRenderPipelineError::Stage { stage: fragment_flag, error },
                        );
                    },
                }
                assert(stage.targets@ == spec_color_targets(desc));
                check_outputs(&stage.targets, outputs)?;
            }
            if desc.layout.is_none() && !fragment_validated {
                return Err(
                    CreateRenderPipelineError::Implicit(
                        ImplicitLayoutError::ReflectionError(fragment_flag),
                    ),
                );
            }
        },
        None => {
            if desc.layout.is_none() && !vertex_validated {
                return Err(
                    CreateRenderPipelineError::Implicit(
                        ImplicitLayoutError::ReflectionError(vertex_flag),
                    ),
                );
            }
        },
    }
    Ok(())
}

/// The first of the first `n` sizes that is no multiple of 16 bytes.
pub open spec fn spec_first_unaligned(sizes: Seq<ShaderBindingSize>, n: int) -> Option<
    ShaderBindingSize,
>
    decreases n,
{
    if n <= 0 {
        None
    } else if spec_first_unaligned(sizes, n - 1) is Some {
        spec_first_unaligned(sizes, n - 1)
    } else if sizes[n - 1].size % 16 != 0 {
        Some(sizes[n - 1])
    } else {
        None
    }
}

proof fn lemma_first_unaligned_stays(sizes: Seq<ShaderBindingSize>, from: int, to: int)
    requires
        from <= to,
        spec_first_unaligned(sizes, from) is Some,
    ensures
        spec_first_unaligned(sizes, to) == spec_first_unaligned(sizes, from),
    decreases to - from,
{
    if from < to {
        lemma_first_unaligned_stays(sizes, from, to - 1);
    }
}

fn first_unaligned(sizes: &Vec<ShaderBindingSize>) -> (r: Option<ShaderBindingSize>)
    ensures
        r == spec_first_unaligned(sizes@, sizes@.len() as int),
{
    let mut i: usize = 0;
    while i < sizes.len()
        invariant
            i <= sizes@.len(),
            spec_first_unaligned(sizes@, i as int) is None,
        decreases sizes@.len() - i,
    {
        if sizes[i].size % 16 != 0 {
            proof {
                lemma_first_unaligned_stays(sizes@, i as int + 1, sizes@.len() as int);
            }
            return Some(sizes[i]);
        }
        i += 1;
    }
    None
}

/// Whether one of the first `n` targets blends with the blend constant.
pub open spec fn spec_uses_blend_constant(targets: Seq<Option<ColorTargetState>>, n: int) -> bool
    decreases n,
{
    if n <= 0 {
        false
    } else {
        spec_uses_blend_constant(targets, n - 1) || (targets[n - 1] matches Some(state)
            && state.blend matches Some(blend) && (blend.color.uses_constant()
            || blend.alpha.uses_constant()))
    }
}

/// What a pipeline needs set, and what it writes, when it runs: the blend constant if
/// a target blends with it; the stencil reference if the stencil is on and takes it;
/// and depth and stencil unless they are read only.
pub open spec fn spec_pipeline_flags(desc: &RenderPipelineDescriptor) -> PipelineFlags {
    let targets = spec_color_targets(desc);
    let blend = PipelineFlags { bits: 0 }.with(
        if spec_uses_blend_constant(targets, targets.len() as int) {
            PipelineFlags::BLEND_CONSTANT
        } else {
            0
        },
    );
    match desc.depth_stencil {
        None => blend,
        Some(ds) => blend.with(
            if ds.is_stencil_enabled && ds.stencil_needs_ref_value {
                PipelineFlags::STENCIL_REFERENCE
            } else {
                0
            },
        ).with(
            if !ds.is_depth_read_only {
                PipelineFlags::WRITES_DEPTH
            } else {
                0
            },
        ).with(
            if !ds.is_stencil_read_only {
                PipelineFlags::WRITES_STENCIL
            } else {
                0
            },
        ),
    }
}

/// What a pipeline needs set, and what it writes, when it runs.
pub fn pipeline_flags(desc: &RenderPipelineDescriptor) -> (r: PipelineFlags)
    ensures
        r == spec_pipeline_flags(desc),
{
    let mut uses_constant = false;
    match &desc.fragment {
        Some(fragment) => {
            let targets = &fragment.targets;
            let mut i: usize = 0;
            while i < targets.len()
                invariant
                    i <= targets@.len(),
                    uses_constant == spec_uses_blend_constant(targets@, i as int),
                decreases targets@.len() - i,
            {
                match &targets[i] {
                    Some(state) => match state.blend {
                        Some(bs) => {
                            if bs.color.uses_constant() || bs.alpha.uses_constant() {
                                uses_constant = true;
                            }
                        },
                        None => {},
                    },
                    None => {},
                }
                i += 1;
            }
        },
        None => {},
    }
    let flags = PipelineFlags::empty().with(
        if uses_constant {
            PipelineFlags::BLEND_CONSTANT
        } else {
            0
        },
    );
    match &desc.depth_stencil {
        None => flags,
        Some(ds) => flags.with(
            if ds.is_stencil_enabled && ds.stencil_needs_ref_value {
                PipelineFlags::STENCIL_REFERENCE
            } else {
                0
            },
        ).with(
            if !ds.is_depth_read_only {
                PipelineFlags::WRITES_DEPTH
            } else {
                0
            },
        ).with(
            if !ds.is_stencil_read_only {
                PipelineFlags::WRITES_STENCIL
            } else {
                0
            },
        ),
    }
}

/// The formats of the color targets of a request, gaps included.
pub open spec fn spec_target_formats(desc: &RenderPipelineDescriptor) -> Seq<
    Option<TextureFormat>,
> {
    Seq::new(
        spec_color_targets(desc).len(),
        |i: int|
            match spec_color_targets(desc)[i] {
                Some(state) => Some(state.format),
                None => None,
            },
    )
}

fn target_formats(desc: &RenderPipelineDescriptor) -> (r: Vec<Option<TextureFormat>>)
    ensures
        r@ == spec_target_formats(desc),
{
    let mut formats: Vec<Option<TextureFormat>> = Vec::new();
    match &desc.fragment {
        Some(fragment) => {
            let targets = &fragment.targets;
            let mut i: usize = 0;
            while i < targets.len()
                invariant
                    i <= targets@.len(),
                    targets@ == spec_color_targets(desc),
                    formats@ == spec_target_formats(desc).take(i as int),
                decreases targets@.len() - i,
            {
                formats.push(
                    match &targets[i] {
                        Some(state) => Some(state.format),
                        None => None,
                    },
                );
                i += 1;
                assert(formats@ =~= spec_target_formats(desc).take(i as int));
            }
            assert(spec_target_formats(desc).take(i as int) =~= spec_target_formats(desc));
        },
        None => {
            assert(formats@ =~= spec_target_formats(desc));
        },
    }
    formats
}

impl Device {
    /// The rules a render pipeline is held to once its layout is settled, in the order
    /// in which they are tried: rendering to several views takes a feature; and, unless
    /// the platform lets them be otherwise, the sizes that the shaders ask of buffers
    /// are multiples of 16 bytes, the first that is not being the one reported.
    pub open spec fn spec_check_after_layout(
        &self,
        desc: &RenderPipelineDescriptor,
        sizes: Seq<ShaderBindingSize>,
    ) -> Result<(), CreateRenderPipelineError> {
        if desc.multiview is Some && !self.features.contains(Features::MULTIVIEW) {
            Err(
                CreateRenderPipelineError::MissingFeatures(
                    MissingFeatures(Features { bits: Features::MULTIVIEW }),
                ),
            )
        } else if !self.downlevel.flags.contains(
            DownlevelFlags::BUFFER_BINDINGS_NOT_16_BYTE_ALIGNED,
        ) && spec_first_unaligned(sizes, sizes.len() as int) is Some {
            Err(
                CreateRenderPipelineError::UnalignedShader {
                    binding: spec_first_unaligned(sizes, sizes.len() as int)->Some_0.binding,
                    group: spec_first_unaligned(sizes, sizes.len() as int)->Some_0.group,
                    size: spec_first_unaligned(sizes, sizes.len() as int)->Some_0.size,
                },
            )
        } else {
            Ok(())
        }
    }

    fn check_after_layout(&self, desc: &RenderPipelineDescriptor, sizes: &Vec<ShaderBindingSize>) -> (r:
        Result<(), CreateRenderPipelineError>)
        ensures
            r == self.spec_check_after_layout(desc, sizes@),
    {
        if desc.multiview.is_some() {
            match self.require_features(Features::MULTIVIEW) {
                Ok(()) => {},
                Err(missing) => {
                    return Err(CreateRenderPipelineError::MissingFeatures(missing));
                },
            }
        }
        if !self.downlevel.flags.contains(DownlevelFlags::BUFFER_BINDINGS_NOT_16_BYTE_ALIGNED) {
            match first_unaligned(sizes) {
                Some(found) => {
                    return Err(
                        CreateRenderPipelineError::UnalignedShader {
                            binding: found.binding,
                            group: found.group,
                            size: found.size,
                        },
                    );
                },
                None => {},
            }
        }
        Ok(())
    }

    /// The second step for a render pipeline: takes what the looks into its shaders
    /// came to, settles the layout, and says what the pipeline will be like. `vertex`
    /// and `fragment` are the outcomes of the two looks, each of which passes if the
    /// shader was not looked into, and `fragment_outputs` is what the fragment shader
    /// produces.
    ///
    /// If the looks failed, the tables stay as they were; if not, they are as the
    /// settling of the layout leaves them. Nothing has been asked of the hardware when
    /// this returns.
    pub fn finish_render_pipeline<RS, RL, RP>(
        &self,
        self_id: DeviceId,
        desc: &RenderPipelineDescriptor,
        checked: RenderPipelineChecked,
        implicit_context: Option<ImplicitPipelineContext>,
        vertex: Result<(), StageError>,
        fragment: Result<(), StageError>,
        fragment_outputs: &Vec<FragmentOutput>,
        derived_group_layouts: DerivedGroupLayouts,
        shader_binding_sizes: &Vec<ShaderBindingSize>,
        shader_modules: &Storage<ShaderModule<RS>>,
        pipeline_layout_guard: &mut Storage<PipelineLayout<RP>>,
        bgl_guard: &mut Storage<BindGroupLayout<RL>>,
    ) -> (r: Result<RenderPipelinePlan, CreateRenderPipelineError>)
        requires
            implicit_context matches Some(ids) ==> ids.root_id < usize::MAX && forall|i: int|
                0 <= i < ids.group_ids@.len() ==> ids.group_ids@[i] < usize::MAX,
        ensures
            match spec_check_render_stages(
                desc,
                shader_modules@,
                old(pipeline_layout_guard)@,
                old(bgl_guard)@,
                vertex,
                fragment,
                fragment_outputs@,
            ) {
                Err(e) => r == Err::<RenderPipelinePlan, CreateRenderPipelineError>(e)
                    && final(pipeline_layout_guard)@ == old(pipeline_layout_guard)@
                    && final(bgl_guard)@ == old(bgl_guard)@,
                Ok(()) => self.spec_settling_leaves(
                    self_id,
                    desc.layout,
                    implicit_context,
                    derived_layouts(derived_group_layouts),
                    old(bgl_guard)@,
                    old(pipeline_layout_guard)@,
                    final(bgl_guard)@,
                    final(pipeline_layout_guard)@,
                ) && match self.spec_settle_pipeline_layout(
                    self_id,
                    desc.layout,
                    implicit_context,
                    derived_layouts(derived_group_layouts),
                    shader_binding_sizes@,
                    old(pipeline_layout_guard)@,
                    spec_layout_keys(old(bgl_guard)@),
                ) {
                    Err(SettleLayoutError::InvalidLayout) => r == Err::<
                        RenderPipelinePlan,
                        CreateRenderPipelineError,
                    >(CreateRenderPipelineError::InvalidLayout),
                    Err(SettleLayoutError::Implicit(e)) => r == Err::<
                        RenderPipelinePlan,
                        CreateRenderPipelineError,
                    >(CreateRenderPipelineError::Implicit(e)),
                    Ok(view) => {
                        &&& view.groups matches Some(groups) ==> spec_layout_keys(
                            final(bgl_guard)@,
                        ) == groups.keys
                        &&& match self.spec_check_after_layout(desc, shader_binding_sizes@) {
                            Err(e) => r == Err::<RenderPipelinePlan, CreateRenderPipelineError>(e),
                            Ok(()) => {
                                &&& r matches Ok(plan)
                                &&& plan.settled.is(view)
                                &&& plan.flags == spec_pipeline_flags(desc)
                                &&& plan.strip_index_format == desc.primitive.strip_index_format
                                &&& plan.vertex_steps == checked.vertex.steps
                                &&& plan.pass_context.attachments.colors@ == spec_target_formats(
                                    desc,
                                )
                                &&& plan.pass_context.attachments.resolves@.len() == 0
                                &&& plan.pass_context.attachments.depth_stencil
                                    == match desc.depth_stencil {
                                    Some(ds) => Some(ds.format),
                                    None => None,
                                }
                                &&& plan.pass_context.sample_count == checked.samples
                                &&& plan.pass_context.multiview == desc.multiview
                            },
                        }
                    },
                },
            },
    {
        check_render_stages(
            desc,
            shader_modules,
            pipeline_layout_guard,
            bgl_guard,
            vertex,
            fragment,
            fragment_outputs,
        )?;
        let settled = match self.settle_pipeline_layout(
            self_id,
            desc.layout,
            implicit_context,
            derived_group_layouts,
            shader_binding_sizes,
            pipeline_layout_guard,
            bgl_guard,
        ) {
            Ok(settled) => settled,
            Err(SettleLayoutError::InvalidLayout) => {
                return Err(CreateRenderPipelineError::InvalidLayout);
            },
            Err(SettleLayoutError::Implicit(e)) => {
                return Err(CreateRenderPipelineError::Implicit(e));
            },
        };
        self.check_after_layout(desc, shader_binding_sizes)?;
        let pass_context = RenderPassContext {
            attachments: AttachmentData {
                colors: target_formats(desc),
                resolves: Vec::new(),
                depth_stencil: match &desc.depth_stencil {
                    Some(ds) => Some(ds.format),
                    None => None,
                },
            },
            sample_count: checked.samples,
            multiview: desc.multiview,
        };
        Ok(
            RenderPipelinePlan {
                settled,
                flags: pipeline_flags(desc),
                pass_context,
                strip_index_format: desc.primitive.strip_index_format,
                vertex_steps: checked.vertex.steps,
            },
        )
    }
}

/// The record of the render pipeline that the hardware made to `plan`, or the failure
/// of the hardware to make one. A failure to link is reported with the stages and in the
/// words of the hardware layer, and a missing entry point with its stage and in words
/// of this crate.
pub fn create_render_pipeline_from_hal<R>(
    plan: RenderPipelinePlan,
    label: String,
    raw: Result<R, HalPipelineError>,
) -> (r: Result<RenderPipeline<R>, CreateRenderPipelineError>)
    ensures
        match raw {
            Ok(handle) => r matches Ok(pipeline) && {
                &&& pipeline.raw == Some(handle)
                &&& pipeline.layout_id == plan.settled.layout_id
                &&& pipeline.pass_context == plan.pass_context
                &&& pipeline.flags == plan.flags
                &&& pipeline.strip_index_format == plan.strip_index_format
                &&& pipeline.vertex_steps == plan.vertex_steps
                &&& pipeline.late_sized_buffer_groups == plan.settled.late_sized_buffer_groups
                &&& pipeline.info.label == label
                &&& pipeline.info.id is None
            },
            Err(HalPipelineError::Device(e)) => r == Err::<
                RenderPipeline<R>,
                CreateRenderPipelineError,
            >(CreateRenderPipelineError::Device(e)),
            Err(HalPipelineError::Linkage(stage, msg)) => r == Err::<
                RenderPipeline<R>,
                CreateRenderPipelineError,
            >(CreateRenderPipelineError::Internal { stage, error: msg }),
            Err(HalPipelineError::EntryPoint(stage)) => r matches Err(
                CreateRenderPipelineError::Internal { stage: flag, error },
            ) && flag == stage.spec_flag() && error@ == EP_FAILURE@,
        },
{
    match raw {
        Ok(handle) => Ok(
            RenderPipeline {
                raw: Some(handle),
                layout_id: plan.settled.layout_id,
                pass_context: plan.pass_context,
                flags: plan.flags,
                strip_index_format: plan.strip_index_format,
                vertex_steps: plan.vertex_steps,
                late_sized_buffer_groups: plan.settled.late_sized_buffer_groups,
                info: ResourceInfo::new(label),
            },
        ),
        Err(HalPipelineError::Device(e)) => Err(CreateRenderPipelineError::Device(e)),
        Err(HalPipelineError::Linkage(stage, msg)) => Err(
            CreateRenderPipelineError::Internal { stage, error: msg },
        ),
        Err(HalPipelineError::EntryPoint(stage)) => Err(
            CreateRenderPipelineError::Internal {
                stage: stage.flag(),
                error: EP_FAILURE.to_owned(),
            },
        ),
    }
}

} // verus!
