//! Texture formats and what the validation asks of them.
//!
//! A format is a value of `wgpu_types::TextureFormat`, and this crate never looks inside
//! one: the tables of what each format is and allows stay in `wgpu_types` and `wgpu_hal`.
//! Each question put to those tables goes through one trusted function of this module,
//! and the answer has a name that contracts can speak of. [`FormatInfo`] gathers the
//! answers that do not depend on a view, so that the rules can be stated, and tried, on
//! plain values.

use crate::flags::{Features, FormatAspects, TextureFormatFeatureFlags, TextureUsages};
use vstd::prelude::*;
use wgpu_types::TextureFormat;

verus! {

#[verifier::external_type_specification]
#[verifier::external_body]
pub struct ExTextureFormat(wgpu_types::TextureFormat);

/// Which part of a texture a view or a copy looks at.
#[derive(Clone, Copy, Debug, PartialEq, Eq, Structural)]
pub enum TextureAspect {
    All,
    StencilOnly,
    DepthOnly,
}

/// The kind of value a shader gets when it samples a texture.
#[derive(Clone, Copy, Debug, PartialEq, Eq, Structural)]
pub enum TextureSampleType {
    Float { filterable: bool },
    Depth,
    Sint,
    Uint,
}

/// What a format allows on a given device.
#[derive(Clone, Copy, Debug, PartialEq, Eq, Structural)]
pub struct TextureFormatFeatures {
    pub allowed_usages: TextureUsages,
    pub flags: TextureFormatFeatureFlags,
}

impl TextureAspect {
    /// The aspects that this selection lets through.
    pub open spec fn spec_mask(self) -> u8 {
        match self {
            TextureAspect::All => FormatAspects::ALL,
            TextureAspect::DepthOnly => FormatAspects::DEPTH,
            TextureAspect::StencilOnly => FormatAspects::STENCIL,
        }
    }
}

/// Whether `wgpu_types` counts the format as a depth or stencil format.
pub uninterp spec fn format_is_depth_stencil(format: TextureFormat) -> bool;

/// Width and height, in texels, of one block of the format.
pub uninterp spec fn format_block_dimensions(format: TextureFormat) -> (u32, u32);

/// The features a device must have for the format to be used at all.
pub uninterp spec fn format_required_features(format: TextureFormat) -> Features;

/// What the baseline standard guarantees of the format on a device with the given features.
pub uninterp spec fn format_guaranteed_features(
    format: TextureFormat,
    device_features: Features,
) -> TextureFormatFeatures;

/// The format with its sRGB suffix taken off, if it has one.
pub uninterp spec fn format_without_srgb(format: TextureFormat) -> TextureFormat;

/// The format that one aspect of the format has by itself, if it has that aspect.
pub uninterp spec fn format_aspect_specific(
    format: TextureFormat,
    aspect: TextureAspect,
) -> Option<TextureFormat>;

/// Whether `format` is the depth or the stencil part of the combined format `combined`.
pub uninterp spec fn format_is_depth_stencil_component(
    format: TextureFormat,
    combined: TextureFormat,
) -> bool;

/// The sample type of one aspect of the format.
pub uninterp spec fn format_sample_type(
    format: TextureFormat,
    aspect: TextureAspect,
) -> Option<TextureSampleType>;

/// The aspects that the hardware layer gives the format.
pub uninterp spec fn format_aspects(format: TextureFormat) -> FormatAspects;

/// Trusted: the result of `wgpu_types::TextureFormat::is_depth_stencil_format`, which
/// depends on the format alone.
#[verifier::external_body]
pub(crate) fn is_depth_stencil_format(format: &TextureFormat) -> (r: bool)
    ensures
        r == format_is_depth_stencil(*format),
{
    format.is_depth_stencil_format()
}

/// Trusted: the result of `wgpu_types::TextureFormat::block_dimensions`. Every arm of that
/// function gives a width and a height of at least 1.
#[verifier::external_body]
pub(crate) fn block_dimensions(format: &TextureFormat) -> (r: (u32, u32))
    ensures
        r == format_block_dimensions(*format),
        r.0 > 0,
        r.1 > 0,
{
    format.block_dimensions()
}

/// Trusted: the result of `wgpu_types::TextureFormat::is_compressed`, which that crate
/// defines as the block dimensions being other than 1 by 1.
#[verifier::external_body]
pub(crate) fn is_compressed(format: &TextureFormat) -> (r: bool)
    ensures
        r == (format_block_dimensions(*format) != (1u32, 1u32)),
{
    format.is_compressed()
}

/// Trusted: the result of `wgpu_types::TextureFormat::required_features`, as bits.
#[verifier::external_body]
pub(crate) fn required_features(format: &TextureFormat) -> (r: Features)
    ensures
        r == format_required_features(*format),
{
    Features { bits: format.required_features().bits() }
}

/// Trusted: the result of `wgpu_types::TextureFormat::guaranteed_format_features` for a
/// device with the given features, as bits.
#[verifier::external_body]
pub(crate) fn guaranteed_format_features(format: &TextureFormat, device_features: Features) -> (r:
    TextureFormatFeatures)
    ensures
        r == format_guaranteed_features(*format, device_features),
{
    let device = wgpu_types::Features::from_bits_retain(device_features.bits);
    let found = format.guaranteed_format_features(device);
    TextureFormatFeatures {
        allowed_usages: TextureUsages { bits: found.allowed_usages.bits() },
        flags: TextureFormatFeatureFlags { bits: found.flags.bits() },
    }
}

/// Trusted: the result of `wgpu_types::TextureFormat::remove_srgb_suffix`.
#[verifier::external_body]
pub(crate) fn remove_srgb_suffix(format: &TextureFormat) -> (r: TextureFormat)
    ensures
        r == format_without_srgb(*format),
{
    format.remove_srgb_suffix()
}

/// Trusted: the result of `wgpu_types::TextureFormat::aspect_specific_format`.
#[verifier::external_body]
pub(crate) fn aspect_specific_format(format: &TextureFormat, aspect: TextureAspect) -> (r: Option<
    TextureFormat,
>)
    ensures
        r == format_aspect_specific(*format, aspect),
{
    format.aspect_specific_format(match aspect {
        TextureAspect::All => wgpu_types::TextureAspect::All,
        TextureAspect::StencilOnly => wgpu_types::TextureAspect::StencilOnly,
        TextureAspect::DepthOnly => wgpu_types::TextureAspect::DepthOnly,
    })
}

/// Trusted: the result of `wgpu_types::TextureFormat::is_depth_stencil_component`.
#[verifier::external_body]
pub(crate) fn is_depth_stencil_component(format: &TextureFormat, combined: &TextureFormat) -> (r:
    bool)
    ensures
        r == format_is_depth_stencil_component(*format, *combined),
{
    format.is_depth_stencil_component(*combined)
}

/// Trusted: the result of `wgpu_types::TextureFormat::sample_type` when an aspect is given.
#[verifier::external_body]
pub(crate) fn sample_type(format: &TextureFormat, aspect: TextureAspect) -> (r: Option<
    TextureSampleType,
>)
    ensures
        r == format_sample_type(*format, aspect),
{
    let aspect = match aspect {
        TextureAspect::All => wgpu_types::TextureAspect::All,
        TextureAspect::StencilOnly => wgpu_types::TextureAspect::StencilOnly,
        TextureAspect::DepthOnly => wgpu_types::TextureAspect::DepthOnly,
    };
    match format.sample_type(Some(aspect)) {
        Some(wgpu_types::TextureSampleType::Float { filterable }) => {
            Some(TextureSampleType::Float { filterable })
        },
        Some(wgpu_types::TextureSampleType::Depth) => Some(TextureSampleType::Depth),
        Some(wgpu_types::TextureSampleType::Sint) => Some(TextureSampleType::Sint),
        Some(wgpu_types::TextureSampleType::Uint) => Some(TextureSampleType::Uint),
        None => None,
    }
}

/// Trusted: the result of `wgpu_hal::FormatAspects::from`, as bits. Every arm of that
/// function gives color, depth, stencil or depth and stencil: at least one aspect, and no
/// bit outside the three.
#[verifier::external_body]
pub(crate) fn aspects_of(format: &TextureFormat) -> (r: FormatAspects)
    ensures
        r == format_aspects(*format),
        !r.is_empty(),
        r.bits & FormatAspects::ALL == r.bits,
{
    FormatAspects { bits: wgpu_hal::FormatAspects::from(*format).bits() }
}

/// Trusted: the result of `wgpu_hal::FormatAspects::new`, as bits. That function
/// intersects the aspects of the format with those the selection lets through.
#[verifier::external_body]
pub(crate) fn aspects_of_selection(format: &TextureFormat, aspect: TextureAspect) -> (r:
    FormatAspects)
    ensures
        r == format_aspects(*format).only(aspect.spec_mask()),
{
    let aspect = match aspect {
        TextureAspect::All => wgpu_types::TextureAspect::All,
        TextureAspect::StencilOnly => wgpu_types::TextureAspect::StencilOnly,
        TextureAspect::DepthOnly => wgpu_types::TextureAspect::DepthOnly,
    };
    FormatAspects { bits: wgpu_hal::FormatAspects::new(*format, aspect).bits() }
}

/// Trusted: `==` of `wgpu_types::TextureFormat`, which that crate derives: two formats are
/// equal when they are the same variant with the same fields.
#[verifier::external_body]
pub(crate) fn same_format(a: &TextureFormat, b: &TextureFormat) -> (r: bool)
    ensures
        r == (*a == *b),
{
    a == b
}

/// What the creation of a texture reads of its format.
#[derive(Clone, Copy, Debug, PartialEq, Eq, Structural)]
pub struct FormatInfo {
    pub is_depth_stencil: bool,
    /// Whether a block of the format holds more than one texel.
    pub is_compressed: bool,
    /// Width and height of one block; both at least 1.
    pub block_width: u32,
    pub block_height: u32,
    pub required_features: Features,
    /// What the baseline standard guarantees of the format on this device.
    pub guaranteed: TextureFormatFeatures,
    pub aspects: FormatAspects,
}

impl FormatInfo {
    /// The blocks are not empty.
    pub open spec fn wf(self) -> bool {
        self.block_width > 0 && self.block_height > 0
    }
}

/// What `wgpu_types` and `wgpu_hal` say of `format` on a device with the given features.
pub open spec fn spec_format_info(format: TextureFormat, device_features: Features) -> FormatInfo {
    FormatInfo {
        is_depth_stencil: format_is_depth_stencil(format),
        is_compressed: format_block_dimensions(format) != (1u32, 1u32),
        block_width: format_block_dimensions(format).0,
        block_height: format_block_dimensions(format).1,
        required_features: format_required_features(format),
        guaranteed: format_guaranteed_features(format, device_features),
        aspects: format_aspects(format),
    }
}

/// Looks the format up in the tables of `wgpu_types` and `wgpu_hal`.
pub fn format_info(format: &TextureFormat, device_features: Features) -> (info: FormatInfo)
    ensures
        info == spec_format_info(*format, device_features),
        info.wf(),
{
    let (block_width, block_height) = block_dimensions(format);
    FormatInfo {
        is_depth_stencil: is_depth_stencil_format(format),
        is_compressed: is_compressed(format),
        block_width,
        block_height,
        required_features: required_features(format),
        guaranteed: guaranteed_format_features(format, device_features),
        aspects: aspects_of(format),
    }
}

} // verus!
