//! Textures: the request, the rules it is held to, and what is asked of the hardware.

use crate::conv::{is_power_of_two_u32, map_texture_usage};
use crate::device::{Device, DeviceError, MissingDownlevelFlags, MissingFeatures};
use crate::flags::{
    DownlevelFlags, MemoryFlags, TextureFormatFeatureFlags, TextureUsages, TextureUses,
};
use crate::format::{
    format_info, format_without_srgb, remove_srgb_suffix, same_format, spec_format_info,
    FormatInfo, TextureFormatFeatures,
};
use crate::limits::{Limits, MAX_MIP_LEVELS};
use crate::storage::{Id, ResourceInfo};
use crate::texture_view::TextureSelector;
use std::ops::Range;
use vstd::prelude::*;
use wgpu_types::TextureFormat;

verus! {

/// How many dimensions a texture has.
#[derive(Clone, Copy, Debug, PartialEq, Eq, Structural)]
pub enum TextureDimension {
    D1,
    D2,
    D3,
}

/// Width, height, and depth or number of array layers.
#[derive(Clone, Copy, Debug, PartialEq, Eq, Structural)]
pub struct Extent3d {
    pub width: u32,
    pub height: u32,
    pub depth_or_array_layers: u32,
}

/// A request for a texture.
#[derive(Debug, PartialEq)]
pub struct TextureDescriptor {
    pub label: Option<String>,
    pub size: Extent3d,
    pub mip_level_count: u32,
    pub sample_count: u32,
    pub dimension: TextureDimension,
    pub format: TextureFormat,
    pub usage: TextureUsages,
    /// The formats, other than its own, that views of the texture may have.
    pub view_formats: Vec<TextureFormat>,
}

/// One of the three components of an extent.
#[derive(Clone, Copy, Debug, PartialEq, Eq, Structural)]
pub enum TextureErrorDimension {
    X,
    Y,
    Z,
}

/// What is wrong with the size or the sample count of a texture.
#[derive(Debug, PartialEq)]
pub enum TextureDimensionError {
    Zero(TextureErrorDimension),
    LimitExceeded { dim: TextureErrorDimension, given: u32, limit: u32 },
    InvalidSampleCount(u32),
    NotMultipleOfBlockWidth { width: u32, block_width: u32, format: TextureFormat },
    NotMultipleOfBlockHeight { height: u32, block_height: u32, format: TextureFormat },
    MultisampledDepthOrArrayLayer(u32),
}

/// Why a request for a texture was turned down.
#[derive(Debug, PartialEq)]
pub enum CreateTextureError {
    Device(DeviceError),
    InvalidUsage(TextureUsages),
    InvalidDimension(TextureDimensionError),
    InvalidDepthDimension(TextureDimension, TextureFormat),
    InvalidCompressedDimension(TextureDimension, TextureFormat),
    InvalidMipLevelCount { requested: u32, maximum: u32 },
    /// The usages that the format does not allow, and whether the baseline standard would
    /// have allowed them: if so, it is the platform that falls short.
    InvalidFormatUsages(TextureUsages, TextureFormat, bool),
    /// A view format, and the texture format it is no reinterpretation of.
    InvalidViewFormat(TextureFormat, TextureFormat),
    InvalidDimensionUsages(TextureUsages, TextureDimension),
    InvalidMultisampledStorageBinding,
    InvalidSampleCount(u32, TextureFormat),
    MultisampledNotRenderAttachment,
    MissingFeatures(TextureFormat, MissingFeatures),
    MissingDownlevelFlags(MissingDownlevelFlags),
}

/// How a view format relates to the format of its texture.
#[derive(Clone, Copy, Debug, PartialEq, Eq, Structural)]
pub enum ViewFormatKind {
    /// The texture's own format.
    Same,
    /// Another format that differs from the texture's at most by an sRGB suffix.
    Reinterpretation,
    /// A format of another family.
    Unrelated,
}

/// The way in which a texture is cleared before its first use.
#[derive(Clone, Copy, Debug, PartialEq, Eq, Structural)]
pub enum TextureClearKind {
    /// By copying from a buffer of zeroes.
    BufferCopy,
    /// By a render pass that clears it; `is_color` tells a color from a depth-stencil
    /// target.
    RenderPass { is_color: bool },
}

/// How a texture is cleared before its first use, with what has been made for it. `V` is
/// the handle of a hardware view of the texture.
#[derive(Debug, PartialEq, Eq)]
pub enum TextureClearMode<V> {
    /// By copying from a buffer of zeroes.
    BufferCopy,
    /// By render passes that clear it through `clear_views`; `is_color` tells a color
    /// from a depth-stencil target. The views are made when they are first needed.
    RenderPass { clear_views: Vec<V>, is_color: bool },
}

/// A [`TextureClearMode`] with its views as a sequence.
#[verifier::ext_equal]
pub ghost enum TextureClearModeView<V> {
    BufferCopy,
    RenderPass { clear_views: Seq<V>, is_color: bool },
}

impl TextureClearKind {
    /// The clear mode of a new texture: no view has been made to clear it through.
    pub open spec fn spec_start<V>(self) -> TextureClearModeView<V> {
        match self {
            TextureClearKind::BufferCopy => TextureClearModeView::BufferCopy,
            TextureClearKind::RenderPass { is_color } => TextureClearModeView::RenderPass {
                clear_views: Seq::empty(),
                is_color,
            },
        }
    }
}

impl<V> TextureClearMode<V> {
    /// The clear mode of a new texture that is cleared in the way given.
    pub fn new(kind: TextureClearKind) -> (r: Self)
        ensures
            r@ == kind.spec_start::<V>(),
    {
        match kind {
            TextureClearKind::BufferCopy => TextureClearMode::BufferCopy,
            TextureClearKind::RenderPass { is_color } => TextureClearMode::RenderPass {
                clear_views: Vec::new(),
                is_color,
            },
        }
    }
}

impl<V> View for TextureClearMode<V> {
    type V = TextureClearModeView<V>;

    open spec fn view(&self) -> TextureClearModeView<V> {
        match self {
            TextureClearMode::BufferCopy => TextureClearModeView::BufferCopy,
            TextureClearMode::RenderPass { clear_views, is_color } => {
                TextureClearModeView::RenderPass { clear_views: clear_views@, is_color: *is_color }
            },
        }
    }
}

/// What the hardware layer is asked for when a texture is created.
#[derive(Debug, PartialEq)]
pub struct HalTextureDescriptor {
    pub size: Extent3d,
    pub mip_level_count: u32,
    pub sample_count: u32,
    pub dimension: TextureDimension,
    pub format: TextureFormat,
    pub usage: TextureUses,
    pub memory_flags: MemoryFlags,
    /// The view formats that are reinterpretations, in the order of the request.
    pub view_formats: Vec<TextureFormat>,
}

/// What comes of a request for a texture that passed.
#[derive(Debug, PartialEq)]
pub struct TexturePlan {
    pub hal: HalTextureDescriptor,
    /// What the format allows on the device.
    pub format_features: TextureFormatFeatures,
    pub clear_mode: TextureClearKind,
}

/// A [`HalTextureDescriptor`] with its view formats as a sequence.
pub ghost struct HalTextureDescriptorView {
    pub size: Extent3d,
    pub mip_level_count: u32,
    pub sample_count: u32,
    pub dimension: TextureDimension,
    pub format: TextureFormat,
    pub usage: TextureUses,
    pub memory_flags: MemoryFlags,
    pub view_formats: Seq<TextureFormat>,
}

impl View for HalTextureDescriptor {
    type V = HalTextureDescriptorView;

    open spec fn view(&self) -> HalTextureDescriptorView {
        HalTextureDescriptorView {
            size: self.size,
            mip_level_count: self.mip_level_count,
            sample_count: self.sample_count,
            dimension: self.dimension,
            format: self.format,
            usage: self.usage,
            memory_flags: self.memory_flags,
            view_formats: self.view_formats@,
        }
    }
}

/// A [`TexturePlan`] with its view formats as a sequence.
pub ghost struct TexturePlanView {
    pub hal: HalTextureDescriptorView,
    pub format_features: TextureFormatFeatures,
    pub clear_mode: TextureClearKind,
}

impl View for TexturePlan {
    type V = TexturePlanView;

    open spec fn view(&self) -> TexturePlanView {
        TexturePlanView {
            hal: self.hal@,
            format_features: self.format_features,
            clear_mode: self.clear_mode,
        }
    }
}

/// The plan, or the error, as the contracts speak of it.
pub open spec fn spec_plan_result(r: Result<TexturePlan, CreateTextureError>) -> Result<
    TexturePlanView,
    CreateTextureError,
> {
    match r {
        Ok(plan) => Ok(plan@),
        Err(e) => Err(e),
    }
}

/// The number of bits it takes to write `n`: 0 for 0, and otherwise one more than the
/// position of the highest bit set.
pub open spec fn spec_bit_length(n: nat) -> nat
    decreases n,
{
    if n == 0 {
        0
    } else {
        1 + spec_bit_length(n / 2)
    }
}

pub open spec fn spec_max_u32(a: u32, b: u32) -> u32 {
    if a >= b {
        a
    } else {
        b
    }
}

impl Extent3d {
    /// The largest number of mip levels a texture of this size can have: as many as it
    /// takes to halve its largest side down to nothing. The depth counts as a side for a
    /// 3D texture only, and a 1D texture has the one level.
    pub open spec fn spec_max_mips(self, dim: TextureDimension) -> nat {
        match dim {
            TextureDimension::D1 => 1,
            TextureDimension::D2 => spec_bit_length(spec_max_u32(self.width, self.height) as nat),
            TextureDimension::D3 => spec_bit_length(
                spec_max_u32(self.width, spec_max_u32(self.height, self.depth_or_array_layers))
                    as nat,
            ),
        }
    }

    /// The largest number of mip levels a texture of this size can have.
    pub fn max_mips(self, dim: TextureDimension) -> (r: u32)
        ensures
            r == self.spec_max_mips(dim),
    {
        extent_max_mips(self, dim)
    }
}

/// Trusted: the result of `wgpu_types::Extent3d::max_mips`. That function gives 1 for a 1D
/// texture, and otherwise 32 less the number of leading zero bits of the largest side,
/// which is the number of bits it takes to write that side.
#[verifier::external_body]
fn extent_max_mips(size: Extent3d, dim: TextureDimension) -> (r: u32)
    ensures
        r == size.spec_max_mips(dim),
{
    wgpu_types::Extent3d {
        width: size.width,
        height: size.height,
        depth_or_array_layers: size.depth_or_array_layers,
    }.max_mips(
        match dim {
            TextureDimension::D1 => wgpu_types::TextureDimension::D1,
            TextureDimension::D2 => wgpu_types::TextureDimension::D2,
            TextureDimension::D3 => wgpu_types::TextureDimension::D3,
        },
    )
}

impl TextureFormatFeatureFlags {
    /// One sample is always supported; 2, 4, 8 and 16 samples each have a flag; no other
    /// count is supported.
    pub open spec fn spec_sample_count_supported(self, count: u32) -> bool {
        if count == 1 {
            true
        } else if count == 2 {
            self.contains(TextureFormatFeatureFlags::MULTISAMPLE_X2)
        } else if count == 4 {
            self.contains(TextureFormatFeatureFlags::MULTISAMPLE_X4)
        } else if count == 8 {
            self.contains(TextureFormatFeatureFlags::MULTISAMPLE_X8)
        } else if count == 16 {
            self.contains(TextureFormatFeatureFlags::MULTISAMPLE_X16)
        } else {
            false
        }
    }

    /// Whether a texture of a format with these flags can have `count` samples.
    #[verifier::when_used_as_spec(spec_sample_count_supported)]
    pub fn sample_count_supported(self, count: u32) -> (r: bool)
        ensures
            r == self.spec_sample_count_supported(count),
    {
        flags_sample_count_supported(self, count)
    }
}

/// Trusted: the result of `wgpu_types::TextureFormatFeatureFlags::sample_count_supported`
/// on the same bits, which is a match on the count as the contract spells it out.
#[verifier::external_body]
fn flags_sample_count_supported(flags: TextureFormatFeatureFlags, count: u32) -> (r: bool)
    ensures
        r == flags.spec_sample_count_supported(count),
{
    wgpu_types::TextureFormatFeatureFlags::from_bits_retain(flags.bits).sample_count_supported(count)
}

/// The limits on the three components of an extent, and on the sample count, for a
/// texture of the given dimension.
pub open spec fn spec_extent_limits(dimension: TextureDimension, limits: &Limits) -> (
    u32,
    u32,
    u32,
    u32,
) {
    match dimension {
        TextureDimension::D1 => (limits.max_texture_dimension_1d, 1, 1, 1),
        TextureDimension::D2 => (
            limits.max_texture_dimension_2d,
            limits.max_texture_dimension_2d,
            limits.max_texture_array_layers,
            32,
        ),
        TextureDimension::D3 => (
            limits.max_texture_dimension_3d,
            limits.max_texture_dimension_3d,
            limits.max_texture_dimension_3d,
            1,
        ),
    }
}

/// What is wrong with one component of an extent, if anything.
pub open spec fn spec_check_extent_component(
    dim: TextureErrorDimension,
    given: u32,
    limit: u32,
) -> Result<(), TextureDimensionError> {
    if given == 0 {
        Err(TextureDimensionError::Zero(dim))
    } else if given > limit {
        Err(TextureDimensionError::LimitExceeded { dim, given, limit })
    } else {
        Ok(())
    }
}

/// Width, height and depth are checked in this order, each to be at least 1 and at most
/// its limit; then the sample count, to be a power of two within the limit.
pub open spec fn spec_check_texture_dimension_size(
    dimension: TextureDimension,
    size: Extent3d,
    sample_size: u32,
    limits: &Limits,
) -> Result<(), TextureDimensionError> {
    let (x_limit, y_limit, z_limit, sample_limit) = spec_extent_limits(dimension, limits);
    if spec_check_extent_component(TextureErrorDimension::X, size.width, x_limit) is Err {
        spec_check_extent_component(TextureErrorDimension::X, size.width, x_limit)
    } else if spec_check_extent_component(TextureErrorDimension::Y, size.height, y_limit) is Err {
        spec_check_extent_component(TextureErrorDimension::Y, size.height, y_limit)
    } else if spec_check_extent_component(
        TextureErrorDimension::Z,
        size.depth_or_array_layers,
        z_limit,
    ) is Err {
        spec_check_extent_component(TextureErrorDimension::Z, size.depth_or_array_layers, z_limit)
    } else if sample_size == 0 || sample_size > sample_limit || !is_power_of_two_u32(sample_size) {
        Err(TextureDimensionError::InvalidSampleCount(sample_size))
    } else {
        Ok(())
    }
}

fn check_extent_component(dim: TextureErrorDimension, given: u32, limit: u32) -> (r: Result<
    (),
    TextureDimensionError,
>)
    ensures
        r == spec_check_extent_component(dim, given, limit),
{
    if given == 0 {
        return Err(TextureDimensionError::Zero(dim));
    }
    if given > limit {
        return Err(TextureDimensionError::LimitExceeded { dim, given, limit });
    }
    Ok(())
}

/// Holds the size and the sample count of a texture to the limits of the device.
pub fn check_texture_dimension_size(
    dimension: TextureDimension,
    size: Extent3d,
    sample_size: u32,
    limits: &Limits,
) -> (r: Result<(), TextureDimensionError>)
    ensures
        r == spec_check_texture_dimension_size(dimension, size, sample_size, limits),
{
    let (x_limit, y_limit, z_limit, sample_limit): (u32, u32, u32, u32) = match dimension {
        TextureDimension::D1 => (limits.max_texture_dimension_1d, 1, 1, 1),
        TextureDimension::D2 => (
            limits.max_texture_dimension_2d,
            limits.max_texture_dimension_2d,
            limits.max_texture_array_layers,
            32,
        ),
        TextureDimension::D3 => (
            limits.max_texture_dimension_3d,
            limits.max_texture_dimension_3d,
            limits.max_texture_dimension_3d,
            1,
        ),
    };
    check_extent_component(TextureErrorDimension::X, size.width, x_limit)?;
    check_extent_component(TextureErrorDimension::Y, size.height, y_limit)?;
    check_extent_component(TextureErrorDimension::Z, size.depth_or_array_layers, z_limit)?;
    if sample_size == 0 || sample_size > sample_limit || !is_power_of_two_u32(sample_size) {
        return Err(TextureDimensionError::InvalidSampleCount(sample_size));
    }
    Ok(())
}

/// How `view` relates to `texture` as a view format, by the tables of `wgpu_types`.
pub open spec fn spec_view_format_kind(texture: TextureFormat, view: TextureFormat) -> ViewFormatKind {
    if texture == view {
        ViewFormatKind::Same
    } else if format_without_srgb(texture) == format_without_srgb(view) {
        ViewFormatKind::Reinterpretation
    } else {
        ViewFormatKind::Unrelated
    }
}

/// How `view` relates to `texture` as a view format.
pub fn view_format_kind(texture: &TextureFormat, view: &TextureFormat) -> (r: ViewFormatKind)
    ensures
        r == spec_view_format_kind(*texture, *view),
{
    if same_format(texture, view) {
        ViewFormatKind::Same
    } else {
        let texture_base = remove_srgb_suffix(texture);
        let view_base = remove_srgb_suffix(view);
        if same_format(&texture_base, &view_base) {
            ViewFormatKind::Reinterpretation
        } else {
            ViewFormatKind::Unrelated
        }
    }
}

/// The kind of each of `views`, in order.
pub open spec fn spec_view_format_kinds(texture: TextureFormat, views: Seq<TextureFormat>) -> Seq<
    ViewFormatKind,
> {
    Seq::new(views.len(), |i: int| spec_view_format_kind(texture, views[i]))
}

/// The kind of each of `views`, in order.
pub fn view_format_kinds(texture: &TextureFormat, views: &Vec<TextureFormat>) -> (r: Vec<
    ViewFormatKind,
>)
    ensures
        r@ == spec_view_format_kinds(*texture, views@),
{
    let mut kinds: Vec<ViewFormatKind> = Vec::new();
    let mut i: usize = 0;
    while i < views.len()
        invariant
            i <= views.len(),
            kinds@ == spec_view_format_kinds(*texture, views@.take(i as int)),
        decreases views.len() - i,
    {
        let kind = view_format_kind(texture, &views[i]);
        kinds.push(kind);
        i += 1;
        assert(kinds@ =~= spec_view_format_kinds(*texture, views@.take(i as int)));
    }
    assert(views@.take(i as int) =~= views@);
    kinds
}

impl TextureDescriptor {
    /// The view formats that the hardware is told of, going by the first `n` of the
    /// request: those that are reinterpretations, in order. A view format of another
    /// family fails the request, and the first such format is the one reported.
    pub open spec fn spec_hal_view_formats(&self, kinds: Seq<ViewFormatKind>, n: int) -> Result<
        Seq<TextureFormat>,
        CreateTextureError,
    >
        decreases n,
    {
        if n <= 0 {
            Ok(Seq::empty())
        } else {
            match self.spec_hal_view_formats(kinds, n - 1) {
                Err(e) => Err(e),
                Ok(found) => match kinds[n - 1] {
                    ViewFormatKind::Same => Ok(found),
                    ViewFormatKind::Reinterpretation => Ok(found.push(self.view_formats@[n - 1])),
                    ViewFormatKind::Unrelated => Err(
                        CreateTextureError::InvalidViewFormat(
                            self.view_formats@[n - 1],
                            self.format,
                        ),
                    ),
                },
            }
        }
    }

    /// The rules on a texture with more than one sample per texel, in the order in which
    /// they are tried: it has one mip level and one layer; it is no storage binding; it
    /// is a render attachment; and its format supports its number of samples.
    pub open spec fn spec_check_multisampled(&self, features: TextureFormatFeatures) -> Result<
        (),
        CreateTextureError,
    > {
        if self.mip_level_count != 1 {
            Err(
                CreateTextureError::InvalidMipLevelCount {
                    requested: self.mip_level_count,
                    maximum: 1,
                },
            )
        } else if self.size.depth_or_array_layers != 1 {
            Err(
                CreateTextureError::InvalidDimension(
                    TextureDimensionError::MultisampledDepthOrArrayLayer(
                        self.size.depth_or_array_layers,
                    ),
                ),
            )
        } else if self.usage.contains(TextureUsages::STORAGE_BINDING) {
            Err(CreateTextureError::InvalidMultisampledStorageBinding)
        } else if !self.usage.contains(TextureUsages::RENDER_ATTACHMENT) {
            Err(CreateTextureError::MultisampledNotRenderAttachment)
        } else if !features.flags.sample_count_supported(self.sample_count) {
            Err(CreateTextureError::InvalidSampleCount(self.sample_count, self.format))
        } else {
            Ok(())
        }
    }

    /// The most mip levels the texture may have: what its size allows, and no more than
    /// the hardware layer handles.
    pub open spec fn spec_max_levels_allowed(&self) -> nat {
        if self.size.spec_max_mips(self.dimension) <= MAX_MIP_LEVELS {
            self.size.spec_max_mips(self.dimension)
        } else {
            MAX_MIP_LEVELS as nat
        }
    }

    /// The hardware usages of the texture: those that its declared usages stand for, and
    /// one more by which it can be cleared before its first use. That is writing depth
    /// and stencil for a depth or stencil format. For a color format it is being a copy
    /// destination, if that was declared; else being a color target, if the format can
    /// be rendered to and the texture is 2D; else being a copy destination after all.
    pub open spec fn spec_hal_usage(
        &self,
        info: FormatInfo,
        features: TextureFormatFeatures,
    ) -> TextureUses {
        map_texture_usage(self.usage, info.aspects).with(
            if info.is_depth_stencil {
                TextureUses::DEPTH_STENCIL_WRITE
            } else if self.usage.contains(TextureUsages::COPY_DST) {
                TextureUses::COPY_DST
            } else if features.allowed_usages.contains(TextureUsages::RENDER_ATTACHMENT)
                && self.dimension == TextureDimension::D2 {
                TextureUses::COLOR_TARGET
            } else {
                TextureUses::COPY_DST
            },
        )
    }
}

/// A texture that can be a color or a depth-stencil target is cleared by a render pass,
/// any other by a copy from a buffer.
pub open spec fn spec_clear_mode(hal_usage: TextureUses, info: FormatInfo) -> TextureClearKind {
    if hal_usage.intersects(TextureUses::DEPTH_STENCIL_WRITE | TextureUses::COLOR_TARGET) {
        TextureClearKind::RenderPass { is_color: !info.is_depth_stencil }
    } else {
        TextureClearKind::BufferCopy
    }
}

impl Device {
    /// The rules a request for a texture is held to before its view formats are looked
    /// at, in the order in which they are tried, and what the format allows when the
    /// request passes them.
    pub open spec fn spec_check_texture(
        &self,
        desc: &TextureDescriptor,
        info: FormatInfo,
        adapter: TextureFormatFeatures,
    ) -> Result<TextureFormatFeatures, CreateTextureError> {
        if desc.usage.is_empty() || desc.usage.contains_invalid_bits() {
            Err(CreateTextureError::InvalidUsage(desc.usage))
        } else if spec_check_texture_dimension_size(
            desc.dimension,
            desc.size,
            desc.sample_count,
            &self.limits,
        ) is Err {
            Err(
                CreateTextureError::InvalidDimension(
                    spec_check_texture_dimension_size(
                        desc.dimension,
                        desc.size,
                        desc.sample_count,
                        &self.limits,
                    )->Err_0,
                ),
            )
        } else if desc.dimension != TextureDimension::D2 && info.is_depth_stencil {
            Err(CreateTextureError::InvalidDepthDimension(desc.dimension, desc.format))
        } else if desc.dimension != TextureDimension::D2 && desc.usage.contains(
            TextureUsages::RENDER_ATTACHMENT,
        ) {
            Err(
                CreateTextureError::InvalidDimensionUsages(
                    TextureUsages { bits: TextureUsages::RENDER_ATTACHMENT },
                    desc.dimension,
                ),
            )
        } else if desc.dimension != TextureDimension::D2 && info.is_compressed {
            Err(CreateTextureError::InvalidCompressedDimension(desc.dimension, desc.format))
        } else if info.is_compressed && desc.size.width % info.block_width != 0 {
            Err(
                CreateTextureError::InvalidDimension(
                    TextureDimensionError::NotMultipleOfBlockWidth {
                        width: desc.size.width,
                        block_width: info.block_width,
                        format: desc.format,
                    },
                ),
            )
        } else if info.is_compressed && desc.size.height % info.block_height != 0 {
            Err(
                CreateTextureError::InvalidDimension(
                    TextureDimensionError::NotMultipleOfBlockHeight {
                        height: desc.size.height,
                        block_height: info.block_height,
                        format: desc.format,
                    },
                ),
            )
        } else {
            match self.spec_describe_format_features_of(info, adapter) {
                Err(missing) => Err(CreateTextureError::MissingFeatures(desc.format, missing)),
                Ok(features) => if desc.sample_count > 1 && desc.spec_check_multisampled(
                    features,
                ) is Err {
                    Err(desc.spec_check_multisampled(features)->Err_0)
                } else if desc.mip_level_count == 0 || desc.mip_level_count
                    > desc.spec_max_levels_allowed() {
                    Err(
                        CreateTextureError::InvalidMipLevelCount {
                            requested: desc.mip_level_count,
                            maximum: desc.spec_max_levels_allowed() as u32,
                        },
                    )
                } else if !desc.usage.without(features.allowed_usages.bits).is_empty() {
                    Err(
                        CreateTextureError::InvalidFormatUsages(
                            desc.usage.without(features.allowed_usages.bits),
                            desc.format,
                            desc.usage.without(info.guaranteed.allowed_usages.bits).is_empty(),
                        ),
                    )
                } else {
                    Ok(features)
                },
            }
        }
    }

    /// What comes of a request for a texture, given what is known of its format
    /// (`info`), what the adapter reports of it (`adapter`), and how each of its view
    /// formats relates to it (`kinds`).
    pub open spec fn spec_create_texture_with(
        &self,
        desc: &TextureDescriptor,
        info: FormatInfo,
        adapter: TextureFormatFeatures,
        kinds: Seq<ViewFormatKind>,
    ) -> Result<TexturePlanView, CreateTextureError> {
        match self.spec_check_texture(desc, info, adapter) {
            Err(e) => Err(e),
            Ok(features) => match desc.spec_hal_view_formats(kinds, desc.view_formats@.len() as int) {
                Err(e) => Err(e),
                Ok(hal_view_formats) => if hal_view_formats.len() != 0
                    && !self.downlevel.flags.contains(DownlevelFlags::VIEW_FORMATS) {
                    Err(
                        CreateTextureError::MissingDownlevelFlags(
                            MissingDownlevelFlags(
                                DownlevelFlags { bits: DownlevelFlags::VIEW_FORMATS },
                            ),
                        ),
                    )
                } else {
                    Ok(
                        TexturePlanView {
                            hal: HalTextureDescriptorView {
                                size: desc.size,
                                mip_level_count: desc.mip_level_count,
                                sample_count: desc.sample_count,
                                dimension: desc.dimension,
                                format: desc.format,
                                usage: desc.spec_hal_usage(info, features),
                                memory_flags: MemoryFlags { bits: 0 },
                                view_formats: hal_view_formats,
                            },
                            format_features: features,
                            clear_mode: spec_clear_mode(desc.spec_hal_usage(info, features), info),
                        },
                    )
                },
            },
        }
    }
}

impl Device {
    /// Holds a request for a texture to every rule but those on its view formats.
    fn check_texture(
        &self,
        desc: &TextureDescriptor,
        info: &FormatInfo,
        adapter: TextureFormatFeatures,
    ) -> (r: Result<TextureFormatFeatures, CreateTextureError>)
        requires
            info.wf(),
        ensures
            r == self.spec_check_texture(desc, *info, adapter),
    {
        if desc.usage.is_empty() || desc.usage.contains_invalid_bits() {
            return Err(CreateTextureError::InvalidUsage(desc.usage));
        }
        match check_texture_dimension_size(
            desc.dimension,
            desc.size,
            desc.sample_count,
            &self.limits,
        ) {
            Ok(()) => {},
            Err(e) => {
                return Err(CreateTextureError::InvalidDimension(e));
            },
        }
        if desc.dimension != TextureDimension::D2 {
            if info.is_depth_stencil {
                return Err(CreateTextureError::InvalidDepthDimension(desc.dimension, desc.format));
            }
            if desc.usage.contains(TextureUsages::RENDER_ATTACHMENT) {
                return Err(
                    CreateTextureError::InvalidDimensionUsages(
                        TextureUsages::from_bits(TextureUsages::RENDER_ATTACHMENT),
                        desc.dimension,
                    ),
                );
            }
            if info.is_compressed {
                return Err(
                    CreateTextureError::InvalidCompressedDimension(desc.dimension, desc.format),
                );
            }
        }
        if info.is_compressed {
            if desc.size.width % info.block_width != 0 {
                return Err(
                    CreateTextureError::InvalidDimension(
                        TextureDimensionError::NotMultipleOfBlockWidth {
                            width: desc.size.width,
                            block_width: info.block_width,
                            format: desc.format,
                        },
                    ),
                );
            }
            if desc.size.height % info.block_height != 0 {
                return Err(
                    CreateTextureError::InvalidDimension(
                        TextureDimensionError::NotMultipleOfBlockHeight {
                            height: desc.size.height,
                            block_height: info.block_height,
                            format: desc.format,
                        },
                    ),
                );
            }
        }
        let format_features = match self.describe_format_features_of(info, adapter) {
            Ok(features) => features,
            Err(missing) => {
                return Err(CreateTextureError::MissingFeatures(desc.format, missing));
            },
        };
        if desc.sample_count > 1 {
            if desc.mip_level_count != 1 {
                return Err(
                    CreateTextureError::InvalidMipLevelCount {
                        requested: desc.mip_level_count,
                        maximum: 1,
                    },
                );
            }
            if desc.size.depth_or_array_layers != 1 {
                return Err(
                    CreateTextureError::InvalidDimension(
                        TextureDimensionError::MultisampledDepthOrArrayLayer(
                            desc.size.depth_or_array_layers,
                        ),
                    ),
                );
            }
            if desc.usage.contains(TextureUsages::STORAGE_BINDING) {
                return Err(CreateTextureError::InvalidMultisampledStorageBinding);
            }
            if !desc.usage.contains(TextureUsages::RENDER_ATTACHMENT) {
                return Err(CreateTextureError::MultisampledNotRenderAttachment);
            }
            if !format_features.flags.sample_count_supported(desc.sample_count) {
                return Err(CreateTextureError::InvalidSampleCount(desc.sample_count, desc.format));
            }
        }
        let mips = desc.mip_level_count;
        let max_mips = desc.size.max_mips(desc.dimension);
        let max_levels_allowed = if max_mips <= MAX_MIP_LEVELS {
            max_mips
        } else {
            MAX_MIP_LEVELS
        };
        if mips == 0 || mips > max_levels_allowed {
            return Err(
                CreateTextureError::InvalidMipLevelCount {
                    requested: mips,
                    maximum: max_levels_allowed,
                },
            );
        }
        let missing_allowed_usages = desc.usage.without(format_features.allowed_usages.bits);
        if !missing_allowed_usages.is_empty() {
            let wgpu_missing_usages = desc.usage.without(info.guaranteed.allowed_usages.bits);
            return Err(
                CreateTextureError::InvalidFormatUsages(
                    missing_allowed_usages,
                    desc.format,
                    wgpu_missing_usages.is_empty(),
                ),
            );
        }
        Ok(format_features)
    }

    /// Checks a request for a texture and says what to ask of the hardware, given what
    /// is known of its format (`info`), what the adapter reports of it (`adapter`), and
    /// how each of its view formats relates to it (`kinds`, one for each view format).
    ///
    /// Nothing has been asked of the hardware when this returns.
    pub fn create_texture_with(
        &self,
        desc: &TextureDescriptor,
        info: &FormatInfo,
        adapter: TextureFormatFeatures,
        kinds: &Vec<ViewFormatKind>,
    ) -> (r: Result<TexturePlan, CreateTextureError>)
        requires
            info.wf(),
            kinds@.len() == desc.view_formats@.len(),
        ensures
            spec_plan_result(r) == self.spec_create_texture_with(desc, *info, adapter, kinds@),
    {
        let format_features = self.check_texture(desc, info, adapter)?;
        let mut hal_view_formats: Vec<TextureFormat> = Vec::new();
        let mut i: usize = 0;
        while i < desc.view_formats.len()
            invariant
                i <= desc.view_formats@.len(),
                kinds@.len() == desc.view_formats@.len(),
                self.spec_check_texture(desc, *info, adapter) == Ok::<
                    TextureFormatFeatures,
                    CreateTextureError,
                >(format_features),
                desc.spec_hal_view_formats(kinds@, i as int) == Ok::<
                    Seq<TextureFormat>,
                    CreateTextureError,
                >(hal_view_formats@),
            decreases desc.view_formats@.len() - i,
        {
            let format = desc.view_formats[i];
            match kinds[i] {
                ViewFormatKind::Same => {},
                ViewFormatKind::Reinterpretation => {
                    hal_view_formats.push(format);
                },
                ViewFormatKind::Unrelated => {
                    proof {
                        assert(desc.spec_hal_view_formats(kinds@, i as int + 1) is Err);
                        lemma_view_formats_error_stays(
                            desc,
                            kinds@,
                            i as int + 1,
                            desc.view_formats@.len() as int,
                        );
                    }
                    return Err(CreateTextureError::InvalidViewFormat(format, desc.format));
                },
            }
            i += 1;
        }
        if hal_view_formats.len() != 0 {
            match self.require_downlevel_flags(DownlevelFlags::VIEW_FORMATS) {
                Ok(()) => {},
                Err(missing) => {
                    return Err(CreateTextureError::MissingDownlevelFlags(missing));
                },
            }
        }
        let extra = if info.is_depth_stencil {
            TextureUses::DEPTH_STENCIL_WRITE
        } else if desc.usage.contains(TextureUsages::COPY_DST) {
            TextureUses::COPY_DST
        } else if format_features.allowed_usages.contains(TextureUsages::RENDER_ATTACHMENT)
            && desc.dimension == TextureDimension::D2 {
            TextureUses::COLOR_TARGET
        } else {
            TextureUses::COPY_DST
        };
        let hal_usage = map_texture_usage(desc.usage, info.aspects).with(extra);
        let clear_mode = if hal_usage.intersects(
            TextureUses::DEPTH_STENCIL_WRITE | TextureUses::COLOR_TARGET,
        ) {
            TextureClearKind::RenderPass { is_color: !info.is_depth_stencil }
        } else {
            TextureClearKind::BufferCopy
        };
        Ok(
            TexturePlan {
                hal: HalTextureDescriptor {
                    size: desc.size,
                    mip_level_count: desc.mip_level_count,
                    sample_count: desc.sample_count,
                    dimension: desc.dimension,
                    format: desc.format,
                    usage: hal_usage,
                    memory_flags: MemoryFlags::empty(),
                    view_formats: hal_view_formats,
                },
                format_features,
                clear_mode,
            },
        )
    }

    /// Checks a request for a texture and says what to ask of the hardware, where
    /// `adapter` is what the adapter reports of the format of the texture.
    ///
    /// Nothing has been asked of the hardware when this returns.
    pub fn create_texture(&self, adapter: TextureFormatFeatures, desc: &TextureDescriptor) -> (r:
        Result<TexturePlan, CreateTextureError>)
        ensures
            spec_plan_result(r) == self.spec_create_texture_with(
                desc,
                spec_format_info(desc.format, self.features),
                adapter,
                spec_view_format_kinds(desc.format, desc.view_formats@),
            ),
    {
        let info = format_info(&desc.format, self.features);
        let kinds = view_format_kinds(&desc.format, &desc.view_formats);
        self.create_texture_with(desc, &info, adapter, &kinds)
    }
}

/// A texture with more than one sample per texel, which otherwise is as such a texture
/// must be, is turned down for its sample count exactly when what its format allows
/// does not hold that number of samples.
pub proof fn lemma_sample_count_must_be_supported(
    desc: TextureDescriptor,
    features: TextureFormatFeatures,
)
    requires
        desc.mip_level_count == 1,
        desc.size.depth_or_array_layers == 1,
        !desc.usage.contains(TextureUsages::STORAGE_BINDING),
        desc.usage.contains(TextureUsages::RENDER_ATTACHMENT),
    ensures
        !features.flags.sample_count_supported(desc.sample_count)
            ==> desc.spec_check_multisampled(features) == Err::<(), CreateTextureError>(
            CreateTextureError::InvalidSampleCount(desc.sample_count, desc.format),
        ),
        features.flags.sample_count_supported(desc.sample_count) ==> desc.spec_check_multisampled(
            features,
        ) is Ok,
{
}

/// Only a 2D texture is cleared by render passes: a texture of another dimension can be
/// neither of a depth or stencil format nor a render attachment, so that nothing makes it
/// a target.
pub proof fn lemma_render_passes_clear_2d_textures(
    device: Device,
    desc: TextureDescriptor,
    info: FormatInfo,
    adapter: TextureFormatFeatures,
    kinds: Seq<ViewFormatKind>,
)
    ensures
        device.spec_create_texture_with(&desc, info, adapter, kinds) matches Ok(plan)
            ==> plan.clear_mode is BufferCopy || desc.dimension == TextureDimension::D2,
{
    if device.spec_create_texture_with(&desc, info, adapter, kinds) is Ok && desc.dimension
        != TextureDimension::D2 {
        let features = device.spec_check_texture(&desc, info, adapter)->Ok_0;
        let before = TextureUses { bits: 0 }.with_if(
            TextureUses::COPY_SRC,
            desc.usage.contains(TextureUsages::COPY_SRC),
        ).with_if(TextureUses::COPY_DST, desc.usage.contains(TextureUsages::COPY_DST)).with_if(
            TextureUses::RESOURCE,
            desc.usage.contains(TextureUsages::TEXTURE_BINDING),
        ).with_if(
            TextureUses::STORAGE_READ | TextureUses::STORAGE_READ_WRITE,
            desc.usage.contains(TextureUsages::STORAGE_BINDING),
        ).bits;
        assert(desc.spec_hal_usage(info, features).bits == ((before & !0x0020u16) & !(0x0040u16
            | 0x0080u16)) | 0x0008u16);
        assert((((before & !0x0020u16) & !(0x0040u16 | 0x0080u16)) | 0x0008u16) & (0x0080u16
            | 0x0020u16) == 0) by (bit_vector);
    }
}

/// Once a view format has failed the request, the formats after it change nothing.
proof fn lemma_view_formats_error_stays(
    desc: &TextureDescriptor,
    kinds: Seq<ViewFormatKind>,
    from: int,
    to: int,
)
    requires
        0 <= from <= to,
        desc.spec_hal_view_formats(kinds, from) is Err,
    ensures
        desc.spec_hal_view_formats(kinds, to) == desc.spec_hal_view_formats(kinds, from),
    decreases to - from,
{
    if from < to {
        lemma_view_formats_error_stays(desc, kinds, from, to - 1);
    }
}

/// The hardware texture behind a texture.
#[derive(Debug, PartialEq, Eq)]
#[allow(inconsistent_fields)]
pub enum TextureInner<R> {
    /// A texture that the device made; gone once the texture has been destroyed.
    Native { raw: Option<R> },
    /// A texture that belongs to a surface.
    Surface { raw: R, parent_id: Id, has_work: bool },
}

impl<R> TextureInner<R> {
    pub open spec fn spec_as_raw(&self) -> Option<R> {
        match self {
            TextureInner::Native { raw } => *raw,
            TextureInner::Surface { raw, .. } => Some(*raw),
        }
    }

    /// The hardware texture, if there still is one.
    pub fn as_raw(&self) -> (r: Option<&R>)
        ensures
            r == match self.spec_as_raw() {
                Some(raw) => Some(&raw),
                None => None,
            },
    {
        match self {
            TextureInner::Native { raw } => raw.as_ref(),
            TextureInner::Surface { raw, .. } => Some(raw),
        }
    }
}

/// Which array layers of each mip level of a texture have never been written.
#[derive(Debug, PartialEq, Eq)]
pub struct TextureInitTracker {
    /// For each mip level, the array layers that have never been written.
    pub mips: Vec<Range<u32>>,
}

impl TextureInitTracker {
    /// The tracker of a new texture, no layer of which has been written.
    pub fn new(mip_level_count: u32, depth_or_array_layers: u32) -> (r: Self)
        ensures
            r.mips@ == Seq::new(mip_level_count as nat, |i: int| 0u32..depth_or_array_layers),
    {
        let mut mips: Vec<Range<u32>> = Vec::new();
        let mut i: u32 = 0;
        while i < mip_level_count
            invariant
                i <= mip_level_count,
                mips@ == Seq::new(i as nat, |i: int| 0u32..depth_or_array_layers),
            decreases mip_level_count - i,
        {
            mips.push(0..depth_or_array_layers);
            i += 1;
            assert(mips@ =~= Seq::new(i as nat, |i: int| 0u32..depth_or_array_layers));
        }
        TextureInitTracker { mips }
    }
}

/// A texture that was created. `R` is the handle of the hardware texture, and `V` that
/// of a hardware view of it.
#[derive(Debug, PartialEq)]
pub struct Texture<R, V> {
    /// The hardware texture; gone once the texture has been destroyed.
    pub inner: Option<TextureInner<R>>,
    pub desc: TextureDescriptor,
    pub hal_usage: TextureUses,
    pub format_features: TextureFormatFeatures,
    pub initialization_status: TextureInitTracker,
    /// All the mip levels and array layers of the texture.
    pub full_range: TextureSelector,
    pub info: ResourceInfo,
    pub clear_mode: TextureClearMode<V>,
}

impl Device {
    /// The record of a texture that the hardware made for `desc`. No layer of a new
    /// texture has been written.
    pub fn create_texture_from_hal<R, V>(
        &self,
        hal_texture: R,
        hal_usage: TextureUses,
        desc: TextureDescriptor,
        label: String,
        format_features: TextureFormatFeatures,
        clear_mode: TextureClearMode<V>,
    ) -> (r: Texture<R, V>)
        ensures
            r.inner == Some(TextureInner::Native { raw: Some(hal_texture) }),
            r.desc == desc,
            r.hal_usage == hal_usage,
            r.format_features == format_features,
            r.initialization_status.mips@ == Seq::new(
                desc.mip_level_count as nat,
                |i: int| 0u32..desc.spec_array_layer_count(),
            ),
            r.full_range == (TextureSelector {
                mips: 0..desc.mip_level_count,
                layers: 0..desc.spec_array_layer_count(),
            }),
            r.clear_mode == clear_mode,
            r.info.label == label,
            r.info.id is None,
    {
        let mips = desc.mip_level_count;
        let layers = desc.array_layer_count();
        Texture {
            inner: Some(TextureInner::Native { raw: Some(hal_texture) }),
            desc,
            hal_usage,
            format_features,
            initialization_status: TextureInitTracker::new(mips, layers),
            full_range: TextureSelector { mips: 0..mips, layers: 0..layers },
            info: ResourceInfo::new(label),
            clear_mode,
        }
    }
}

} // verus!
