//! Texture views: how the gaps in a request are filled in, and the rules the result is
//! held to.

use crate::flags::{FormatAspects, TextureUsages, TextureUses};
use crate::format::{
    aspect_specific_format, aspects_of, aspects_of_selection, format_aspect_specific,
    format_aspects, format_is_depth_stencil_component, is_depth_stencil_component, same_format,
    TextureAspect, TextureFormatFeatures,
};
use crate::device::DeviceError;
use crate::storage::{ResourceInfo, TextureId};
use crate::texture::{Extent3d, Texture, TextureDescriptor, TextureDimension, TextureInner};
use std::ops::Range;
use vstd::prelude::*;
use wgpu_types::TextureFormat;

verus! {

/// The shape a view gives to the texture behind it.
#[derive(Clone, Copy, Debug, PartialEq, Eq, Structural)]
pub enum TextureViewDimension {
    D1,
    D2,
    D2Array,
    Cube,
    CubeArray,
    D3,
}

/// The mip levels and array layers that a view covers, and the aspect it looks at. A count
/// that is left out stands for all that is left from the base on.
#[derive(Clone, Copy, Debug, PartialEq, Eq, Structural)]
pub struct ImageSubresourceRange {
    pub aspect: TextureAspect,
    pub base_mip_level: u32,
    pub mip_level_count: Option<u32>,
    pub base_array_layer: u32,
    pub array_layer_count: Option<u32>,
}

/// A request for a view of a texture. What is left out is filled in from the texture.
#[derive(Debug, PartialEq)]
pub struct TextureViewDescriptor {
    pub label: Option<String>,
    pub format: Option<TextureFormat>,
    pub dimension: Option<TextureViewDimension>,
    pub range: ImageSubresourceRange,
}

/// Why a request for a texture view was turned down.
#[derive(Debug, PartialEq)]
#[allow(inconsistent_fields)]
pub enum CreateTextureViewError {
    InvalidTexture,
    OutOfMemory,
    InvalidTextureViewDimension { view: TextureViewDimension, texture: TextureDimension },
    InvalidMultisampledTextureViewDimension(TextureViewDimension),
    InvalidCubemapTextureDepth { depth: u32 },
    InvalidCubemapArrayTextureDepth { depth: u32 },
    InvalidCubeTextureViewSize,
    ZeroMipLevelCount,
    ZeroArrayLayerCount,
    TooManyMipLevels { requested: u32, total: u32 },
    TooManyArrayLayers { requested: u32, total: u32 },
    InvalidArrayLayerCount { requested: u32, dim: TextureViewDimension },
    InvalidAspect { texture_format: TextureFormat, requested_aspect: TextureAspect },
    FormatReinterpretation { texture: TextureFormat, view: TextureFormat },
}

/// Why a view cannot be rendered to.
#[derive(Clone, Copy, Debug, PartialEq, Eq, Structural)]
pub enum TextureViewNotRenderableReason {
    /// The texture was not made to be rendered to; these are its usages.
    Usage(TextureUsages),
    Dimension(TextureViewDimension),
    MipLevelCount(u32),
    ArrayLayerCount(u32),
    /// The view leaves out an aspect of the format; these are the ones it has.
    Aspects(FormatAspects),
}

/// The mip levels and array layers of a texture that something touches.
#[derive(Debug, PartialEq, Eq)]
pub struct TextureSelector {
    pub mips: Range<u32>,
    pub layers: Range<u32>,
}

/// What the hardware layer is asked for when a view is created.
#[derive(Debug, PartialEq)]
pub struct HalTextureViewDescriptor {
    pub format: TextureFormat,
    pub dimension: TextureViewDimension,
    pub usage: TextureUses,
    /// The range of the request, with both counts filled in.
    pub range: ImageSubresourceRange,
}

/// The request for a view with everything filled in.
#[derive(Debug, PartialEq)]
pub struct ResolvedTextureViewDescriptor {
    pub format: TextureFormat,
    pub dimension: TextureViewDimension,
    pub range: ImageSubresourceRange,
}

/// What comes of a request for a texture view that passed.
#[derive(Debug, PartialEq)]
pub struct TextureViewPlan {
    pub hal: HalTextureViewDescriptor,
    pub desc: ResolvedTextureViewDescriptor,
    /// The extent of the view as a render target, or why it cannot be one.
    pub render_extent: Result<Extent3d, TextureViewNotRenderableReason>,
    pub samples: u32,
    pub selector: TextureSelector,
}

/// What the creation of a view reads of the formats involved.
#[derive(Debug, PartialEq)]
pub struct ViewFormatInfo {
    /// The format of the view: the one asked for, or else the format that the aspect of
    /// the texture has by itself, or else the format of the texture.
    pub resolved_format: TextureFormat,
    /// The aspects of the texture that the view looks at.
    pub aspects: FormatAspects,
    /// All the aspects of the texture.
    pub texture_aspects: FormatAspects,
    /// Whether the texture can be seen in the resolved format.
    pub format_is_good: bool,
    /// The format the hardware is given: that of the texture where the resolved format
    /// is one part of a combined depth-stencil format, and the resolved format otherwise.
    pub hal_format: TextureFormat,
}

impl TextureViewDimension {
    /// A 2D texture lies behind 2D, array and cube views; a 1D or 3D texture behind a
    /// view of its own dimension.
    pub open spec fn spec_compatible_texture_dimension(self) -> TextureDimension {
        match self {
            TextureViewDimension::D1 => TextureDimension::D1,
            TextureViewDimension::D2
            | TextureViewDimension::D2Array
            | TextureViewDimension::Cube
            | TextureViewDimension::CubeArray => TextureDimension::D2,
            TextureViewDimension::D3 => TextureDimension::D3,
        }
    }

    /// The dimension a texture must have to be seen through a view of this dimension.
    #[verifier::when_used_as_spec(spec_compatible_texture_dimension)]
    pub fn compatible_texture_dimension(self) -> (r: TextureDimension)
        ensures
            r == self.spec_compatible_texture_dimension(),
    {
        view_compatible_texture_dimension(self)
    }
}

/// Trusted: the result of `wgpu_types::TextureViewDimension::compatible_texture_dimension`,
/// which is a match on the dimension as the contract spells it out.
#[verifier::external_body]
fn view_compatible_texture_dimension(dim: TextureViewDimension) -> (r: TextureDimension)
    ensures
        r == dim.spec_compatible_texture_dimension(),
{
    let dim = match dim {
        TextureViewDimension::D1 => wgpu_types::TextureViewDimension::D1,
        TextureViewDimension::D2 => wgpu_types::TextureViewDimension::D2,
        TextureViewDimension::D2Array => wgpu_types::TextureViewDimension::D2Array,
        TextureViewDimension::Cube => wgpu_types::TextureViewDimension::Cube,
        TextureViewDimension::CubeArray => wgpu_types::TextureViewDimension::CubeArray,
        TextureViewDimension::D3 => wgpu_types::TextureViewDimension::D3,
    };
    match dim.compatible_texture_dimension() {
        wgpu_types::TextureDimension::D1 => TextureDimension::D1,
        wgpu_types::TextureDimension::D2 => TextureDimension::D2,
        wgpu_types::TextureDimension::D3 => TextureDimension::D3,
    }
}

/// One side of a texture at a mip level: the side halved once for each level, and at
/// least 1.
pub open spec fn spec_mip_level_side(side: u32, level: u32) -> u32 {
    if level >= 32 || side >> level == 0 {
        1
    } else {
        side >> level
    }
}

fn mip_level_side(side: u32, level: u32) -> (r: u32)
    ensures
        r == spec_mip_level_side(side, level),
{
    if level >= 32 {
        1
    } else {
        let halved = side >> level;
        if halved == 0 {
            1
        } else {
            halved
        }
    }
}

impl TextureDescriptor {
    /// Only a 2D texture has array layers, as many as its depth says.
    pub open spec fn spec_array_layer_count(&self) -> u32 {
        match self.dimension {
            TextureDimension::D1 | TextureDimension::D3 => 1,
            TextureDimension::D2 => self.size.depth_or_array_layers,
        }
    }

    /// The number of array layers of the texture.
    #[verifier::when_used_as_spec(spec_array_layer_count)]
    pub fn array_layer_count(&self) -> (r: u32)
        ensures
            r == self.spec_array_layer_count(),
    {
        match self.dimension {
            TextureDimension::D1 | TextureDimension::D3 => 1,
            TextureDimension::D2 => self.size.depth_or_array_layers,
        }
    }

    /// What a render pass covers when it renders to one mip level of the texture.
    pub open spec fn spec_compute_render_extent(&self, mip_level: u32) -> Extent3d {
        Extent3d {
            width: spec_mip_level_side(self.size.width, mip_level),
            height: spec_mip_level_side(self.size.height, mip_level),
            depth_or_array_layers: 1,
        }
    }

    /// What a render pass covers when it renders to one mip level of the texture.
    pub fn compute_render_extent(&self, mip_level: u32) -> (r: Extent3d)
        ensures
            r == self.spec_compute_render_extent(mip_level),
    {
        Extent3d {
            width: mip_level_side(self.size.width, mip_level),
            height: mip_level_side(self.size.height, mip_level),
            depth_or_array_layers: 1,
        }
    }
}

/// The dimension of a view: the one asked for, or else the one that fits the texture,
/// which for a 2D texture is 2D with one layer and a 2D array with any other number.
pub open spec fn spec_resolved_dimension(
    texture: &TextureDescriptor,
    desc: &TextureViewDescriptor,
) -> TextureViewDimension {
    match desc.dimension {
        Some(dimension) => dimension,
        None => match texture.dimension {
            TextureDimension::D1 => TextureViewDimension::D1,
            TextureDimension::D2 => if texture.array_layer_count() == 1 {
                TextureViewDimension::D2
            } else {
                TextureViewDimension::D2Array
            },
            TextureDimension::D3 => TextureViewDimension::D3,
        },
    }
}

/// The number of mip levels of a view: the one asked for, or else all that the texture
/// has from the base level on.
pub open spec fn spec_resolved_mip_level_count(
    texture: &TextureDescriptor,
    desc: &TextureViewDescriptor,
) -> u32 {
    match desc.range.mip_level_count {
        Some(count) => count,
        None => if texture.mip_level_count >= desc.range.base_mip_level {
            (texture.mip_level_count - desc.range.base_mip_level) as u32
        } else {
            0
        },
    }
}

/// The number of array layers of a view: the one asked for, or else 1 for a 1D, 2D or 3D
/// view, 6 for a cube, and all that the texture has from the base layer on for an array.
pub open spec fn spec_resolved_array_layer_count(
    texture: &TextureDescriptor,
    desc: &TextureViewDescriptor,
) -> u32 {
    match desc.range.array_layer_count {
        Some(count) => count,
        None => match spec_resolved_dimension(texture, desc) {
            TextureViewDimension::D1 | TextureViewDimension::D2 | TextureViewDimension::D3 => 1,
            TextureViewDimension::Cube => 6,
            TextureViewDimension::D2Array | TextureViewDimension::CubeArray => if texture.array_layer_count()
                >= desc.range.base_array_layer {
                (texture.array_layer_count() - desc.range.base_array_layer) as u32
            } else {
                0
            },
        },
    }
}

/// The sum of `a` and `b`, or the largest value there is if the sum is beyond it.
pub open spec fn spec_saturating_add(a: u32, b: u32) -> u32 {
    if a + b > u32::MAX {
        u32::MAX
    } else {
        (a + b) as u32
    }
}

/// The rule on the number of array layers of a view of each dimension.
pub open spec fn spec_check_array_layer_count(
    dimension: TextureViewDimension,
    count: u32,
) -> Result<(), CreateTextureViewError> {
    match dimension {
        TextureViewDimension::D1 | TextureViewDimension::D2 | TextureViewDimension::D3 => if count
            != 1 {
            Err(CreateTextureViewError::InvalidArrayLayerCount { requested: count, dim: dimension })
        } else {
            Ok(())
        },
        TextureViewDimension::Cube => if count != 6 {
            Err(CreateTextureViewError::InvalidCubemapTextureDepth { depth: count })
        } else {
            Ok(())
        },
        TextureViewDimension::CubeArray => if count % 6 != 0 {
            Err(CreateTextureViewError::InvalidCubemapArrayTextureDepth { depth: count })
        } else {
            Ok(())
        },
        TextureViewDimension::D2Array => Ok(()),
    }
}

/// Whether a view can be rendered to, and if so, what a render pass to it covers. It
/// must be a plain 2D view of one mip level and one array layer, of all the aspects
/// of a texture that was made to be rendered to.
pub open spec fn spec_render_extent(
    texture: &TextureDescriptor,
    desc: &TextureViewDescriptor,
    formats: &ViewFormatInfo,
) -> Result<Extent3d, TextureViewNotRenderableReason> {
    if !texture.usage.contains(TextureUsages::RENDER_ATTACHMENT) {
        Err(TextureViewNotRenderableReason::Usage(texture.usage))
    } else if spec_resolved_dimension(texture, desc) != TextureViewDimension::D2 {
        Err(TextureViewNotRenderableReason::Dimension(spec_resolved_dimension(texture, desc)))
    } else if spec_resolved_mip_level_count(texture, desc) != 1 {
        Err(
            TextureViewNotRenderableReason::MipLevelCount(
                spec_resolved_mip_level_count(texture, desc),
            ),
        )
    } else if spec_resolved_array_layer_count(texture, desc) != 1 {
        Err(
            TextureViewNotRenderableReason::ArrayLayerCount(
                spec_resolved_array_layer_count(texture, desc),
            ),
        )
    } else if formats.aspects != formats.texture_aspects {
        Err(TextureViewNotRenderableReason::Aspects(formats.aspects))
    } else {
        Ok(texture.spec_compute_render_extent(desc.range.base_mip_level))
    }
}

/// The hardware usages left to a view: those of its texture, less copying; for a cube,
/// less all but sampling; for a 3D view, less all but sampling and storage; and for a
/// view of several mip levels, less all but sampling.
pub open spec fn spec_view_usage(
    texture_usage: TextureUses,
    dimension: TextureViewDimension,
    mip_level_count: u32,
) -> TextureUses {
    let mask_dimension = match dimension {
        TextureViewDimension::Cube | TextureViewDimension::CubeArray => TextureUses::RESOURCE,
        TextureViewDimension::D3 => TextureUses::RESOURCE | TextureUses::STORAGE_READ
            | TextureUses::STORAGE_READ_WRITE,
        _ => TextureUses::ALL,
    };
    let mask_mip_level = if mip_level_count == 1 {
        TextureUses::ALL
    } else {
        TextureUses::RESOURCE
    };
    texture_usage.without(TextureUses::COPY_SRC | TextureUses::COPY_DST).only(
        mask_dimension,
    ).only(mask_mip_level)
}

/// The range of a request with both counts filled in.
pub open spec fn spec_resolved_range(
    texture: &TextureDescriptor,
    desc: &TextureViewDescriptor,
) -> ImageSubresourceRange {
    ImageSubresourceRange {
        aspect: desc.range.aspect,
        base_mip_level: desc.range.base_mip_level,
        mip_level_count: Some(spec_resolved_mip_level_count(texture, desc)),
        base_array_layer: desc.range.base_array_layer,
        array_layer_count: Some(spec_resolved_array_layer_count(texture, desc)),
    }
}

/// The rules a request for a view is held to, in the order in which they are tried.
pub open spec fn spec_check_texture_view(
    texture: &TextureDescriptor,
    desc: &TextureViewDescriptor,
    formats: &ViewFormatInfo,
) -> Result<(), CreateTextureViewError> {
    let dimension = spec_resolved_dimension(texture, desc);
    let mip_level_count = spec_resolved_mip_level_count(texture, desc);
    let array_layer_count = spec_resolved_array_layer_count(texture, desc);
    let mip_level_end = spec_saturating_add(desc.range.base_mip_level, mip_level_count);
    let array_layer_end = spec_saturating_add(desc.range.base_array_layer, array_layer_count);
    if formats.aspects.is_empty() {
        Err(
            CreateTextureViewError::InvalidAspect {
                texture_format: texture.format,
                requested_aspect: desc.range.aspect,
            },
        )
    } else if !formats.format_is_good {
        Err(
            CreateTextureViewError::FormatReinterpretation {
                texture: texture.format,
                view: formats.resolved_format,
            },
        )
    } else if texture.sample_count > 1 && dimension != TextureViewDimension::D2 {
        Err(CreateTextureViewError::InvalidMultisampledTextureViewDimension(dimension))
    } else if texture.dimension != dimension.compatible_texture_dimension() {
        Err(
            CreateTextureViewError::InvalidTextureViewDimension {
                view: dimension,
                texture: texture.dimension,
            },
        )
    } else if spec_check_array_layer_count(dimension, array_layer_count) is Err {
        spec_check_array_layer_count(dimension, array_layer_count)
    } else if (dimension == TextureViewDimension::Cube || dimension
        == TextureViewDimension::CubeArray) && texture.size.width != texture.size.height {
        Err(CreateTextureViewError::InvalidCubeTextureViewSize)
    } else if mip_level_count == 0 {
        Err(CreateTextureViewError::ZeroMipLevelCount)
    } else if mip_level_end > texture.mip_level_count {
        Err(
            CreateTextureViewError::TooManyMipLevels {
                requested: mip_level_end,
                total: texture.mip_level_count,
            },
        )
    } else if array_layer_count == 0 {
        Err(CreateTextureViewError::ZeroArrayLayerCount)
    } else if array_layer_end > texture.array_layer_count() {
        Err(
            CreateTextureViewError::TooManyArrayLayers {
                requested: array_layer_end,
                total: texture.array_layer_count(),
            },
        )
    } else {
        Ok(())
    }
}

/// What comes of a request for a view of a texture with the given description and
/// hardware usages, given what is known of the formats involved.
pub open spec fn spec_create_texture_view_with(
    texture: &TextureDescriptor,
    texture_usage: TextureUses,
    desc: &TextureViewDescriptor,
    formats: &ViewFormatInfo,
) -> Result<TextureViewPlan, CreateTextureViewError> {
    let dimension = spec_resolved_dimension(texture, desc);
    let mip_level_count = spec_resolved_mip_level_count(texture, desc);
    let array_layer_count = spec_resolved_array_layer_count(texture, desc);
    match spec_check_texture_view(texture, desc, formats) {
        Err(e) => Err(e),
        Ok(()) => Ok(
            TextureViewPlan {
                hal: HalTextureViewDescriptor {
                    format: formats.hal_format,
                    dimension,
                    usage: spec_view_usage(texture_usage, dimension, mip_level_count),
                    range: spec_resolved_range(texture, desc),
                },
                desc: ResolvedTextureViewDescriptor {
                    format: formats.resolved_format,
                    dimension,
                    range: spec_resolved_range(texture, desc),
                },
                render_extent: spec_render_extent(texture, desc, formats),
                samples: texture.sample_count,
                selector: TextureSelector {
                    mips: desc.range.base_mip_level..spec_saturating_add(
                        desc.range.base_mip_level,
                        mip_level_count,
                    ),
                    layers: desc.range.base_array_layer..spec_saturating_add(
                        desc.range.base_array_layer,
                        array_layer_count,
                    ),
                },
            },
        ),
    }
}

/// What the tables of `wgpu_types` and `wgpu_hal` say of the formats involved in a view.
pub open spec fn spec_view_format_info(
    texture: &TextureDescriptor,
    desc: &TextureViewDescriptor,
) -> ViewFormatInfo {
    let aspect = desc.range.aspect;
    let resolved_format = match desc.format {
        Some(format) => format,
        None => match format_aspect_specific(texture.format, aspect) {
            Some(format) => format,
            None => texture.format,
        },
    };
    ViewFormatInfo {
        resolved_format,
        aspects: format_aspects(texture.format).only(aspect.spec_mask()),
        texture_aspects: format_aspects(texture.format),
        format_is_good: if aspect == TextureAspect::All {
            resolved_format == texture.format || texture.view_formats@.contains(resolved_format)
        } else {
            Some(resolved_format) == format_aspect_specific(texture.format, aspect)
        },
        hal_format: if format_is_depth_stencil_component(resolved_format, texture.format) {
            texture.format
        } else {
            resolved_format
        },
    }
}

/// Whether `format` is one of `formats`.
fn contains_format(formats: &Vec<TextureFormat>, format: &TextureFormat) -> (r: bool)
    ensures
        r == formats@.contains(*format),
{
    let mut i: usize = 0;
    while i < formats.len()
        invariant
            i <= formats@.len(),
            forall|j: int| 0 <= j < i ==> formats@[j] != *format,
        decreases formats@.len() - i,
    {
        if same_format(&formats[i], format) {
            return true;
        }
        i += 1;
    }
    false
}

/// Looks up what the creation of a view reads of the formats involved.
pub fn view_format_info(texture: &TextureDescriptor, desc: &TextureViewDescriptor) -> (r:
    ViewFormatInfo)
    ensures
        r == spec_view_format_info(texture, desc),
{
    let aspect = desc.range.aspect;
    let aspect_format = aspect_specific_format(&texture.format, aspect);
    let resolved_format = match desc.format {
        Some(format) => format,
        None => match aspect_format {
            Some(format) => format,
            None => texture.format,
        },
    };
    let format_is_good = if aspect == TextureAspect::All {
        same_format(&resolved_format, &texture.format) || contains_format(
            &texture.view_formats,
            &resolved_format,
        )
    } else {
        match aspect_format {
            Some(format) => same_format(&resolved_format, &format),
            None => false,
        }
    };
    let hal_format = if is_depth_stencil_component(&resolved_format, &texture.format) {
        texture.format
    } else {
        resolved_format
    };
    ViewFormatInfo {
        resolved_format,
        aspects: aspects_of_selection(&texture.format, aspect),
        texture_aspects: aspects_of(&texture.format),
        format_is_good,
        hal_format,
    }
}

/// Checks a request for a view of a texture with the given description and hardware
/// usages, and says what to ask of the hardware, given what is known of the formats
/// involved.
///
/// Nothing has been asked of the hardware when this returns.
pub fn create_texture_view_with(
    texture: &TextureDescriptor,
    texture_usage: TextureUses,
    desc: &TextureViewDescriptor,
    formats: &ViewFormatInfo,
) -> (r: Result<TextureViewPlan, CreateTextureViewError>)
    ensures
        r == spec_create_texture_view_with(texture, texture_usage, desc, formats),
{
    let resolved_dimension = match desc.dimension {
        Some(dimension) => dimension,
        None => match texture.dimension {
            TextureDimension::D1 => TextureViewDimension::D1,
            TextureDimension::D2 => {
                if texture.array_layer_count() == 1 {
                    TextureViewDimension::D2
                } else {
                    TextureViewDimension::D2Array
                }
            },
            TextureDimension::D3 => TextureViewDimension::D3,
        },
    };
    let resolved_mip_level_count = match desc.range.mip_level_count {
        Some(count) => count,
        None => texture.mip_level_count.saturating_sub(desc.range.base_mip_level),
    };
    let resolved_array_layer_count = match desc.range.array_layer_count {
        Some(count) => count,
        None => match resolved_dimension {
            TextureViewDimension::D1 | TextureViewDimension::D2 | TextureViewDimension::D3 => 1,
            TextureViewDimension::Cube => 6,
            TextureViewDimension::D2Array | TextureViewDimension::CubeArray => {
                texture.array_layer_count().saturating_sub(desc.range.base_array_layer)
            },
        },
    };
    if formats.aspects.is_empty() {
        return Err(
            CreateTextureViewError::InvalidAspect {
                texture_format: texture.format,
                requested_aspect: desc.range.aspect,
            },
        );
    }
    if !formats.format_is_good {
        return Err(
            CreateTextureViewError::FormatReinterpretation {
                texture: texture.format,
                view: formats.resolved_format,
            },
        );
    }
    if texture.sample_count > 1 && resolved_dimension != TextureViewDimension::D2 {
        return Err(
            CreateTextureViewError::InvalidMultisampledTextureViewDimension(resolved_dimension),
        );
    }
    if texture.dimension != resolved_dimension.compatible_texture_dimension() {
        return Err(
            CreateTextureViewError::InvalidTextureViewDimension {
                view: resolved_dimension,
                texture: texture.dimension,
            },
        );
    }
    match resolved_dimension {
        TextureViewDimension::D1 | TextureViewDimension::D2 | TextureViewDimension::D3 => {
            if resolved_array_layer_count != 1 {
                return Err(
                    CreateTextureViewError::InvalidArrayLayerCount {
                        requested: resolved_array_layer_count,
                        dim: resolved_dimension,
                    },
                );
            }
        },
        TextureViewDimension::Cube => {
            if resolved_array_layer_count != 6 {
                return Err(
                    CreateTextureViewError::InvalidCubemapTextureDepth {
                        depth: resolved_array_layer_count,
                    },
                );
            }
        },
        TextureViewDimension::CubeArray => {
            if resolved_array_layer_count % 6 != 0 {
                return Err(
                    CreateTextureViewError::InvalidCubemapArrayTextureDepth {
                        depth: resolved_array_layer_count,
                    },
                );
            }
        },
        TextureViewDimension::D2Array => {},
    }
    match resolved_dimension {
        TextureViewDimension::Cube | TextureViewDimension::CubeArray => {
            if texture.size.width != texture.size.height {
                return Err(CreateTextureViewError::InvalidCubeTextureViewSize);
            }
        },
        _ => {},
    }
    if resolved_mip_level_count == 0 {
        return Err(CreateTextureViewError::ZeroMipLevelCount);
    }
    let mip_level_end = desc.range.base_mip_level.saturating_add(resolved_mip_level_count);
    let level_end = texture.mip_level_count;
    if mip_level_end > level_end {
        return Err(
            CreateTextureViewError::TooManyMipLevels { requested: mip_level_end, total: level_end },
        );
    }
    if resolved_array_layer_count == 0 {
        return Err(CreateTextureViewError::ZeroArrayLayerCount);
    }
    let array_layer_end = desc.range.base_array_layer.saturating_add(resolved_array_layer_count);
    let layer_end = texture.array_layer_count();
    if array_layer_end > layer_end {
        return Err(
            CreateTextureViewError::TooManyArrayLayers {
                requested: array_layer_end,
                total: layer_end,
            },
        );
    }
    let render_extent = if !texture.usage.contains(TextureUsages::RENDER_ATTACHMENT) {
        Err(TextureViewNotRenderableReason::Usage(texture.usage))
    } else if resolved_dimension != TextureViewDimension::D2 {
        Err(TextureViewNotRenderableReason::Dimension(resolved_dimension))
    } else if resolved_mip_level_count != 1 {
        Err(TextureViewNotRenderableReason::MipLevelCount(resolved_mip_level_count))
    } else if resolved_array_layer_count != 1 {
        Err(TextureViewNotRenderableReason::ArrayLayerCount(resolved_array_layer_count))
    } else if formats.aspects != formats.texture_aspects {
        Err(TextureViewNotRenderableReason::Aspects(formats.aspects))
    } else {
        Ok(texture.compute_render_extent(desc.range.base_mip_level))
    };
    let mask_dimension = match resolved_dimension {
        TextureViewDimension::Cube | TextureViewDimension::CubeArray => TextureUses::RESOURCE,
        TextureViewDimension::D3 => TextureUses::RESOURCE | TextureUses::STORAGE_READ
            | TextureUses::STORAGE_READ_WRITE,
        _ => TextureUses::ALL,
    };
    let mask_mip_level = if resolved_mip_level_count == 1 {
        TextureUses::ALL
    } else {
        TextureUses::RESOURCE
    };
    let usage = texture_usage.without(TextureUses::COPY_SRC | TextureUses::COPY_DST).only(
        mask_dimension,
    ).only(mask_mip_level);
    let resolved_range = ImageSubresourceRange {
        aspect: desc.range.aspect,
        base_mip_level: desc.range.base_mip_level,
        mip_level_count: Some(resolved_mip_level_count),
        base_array_layer: desc.range.base_array_layer,
        array_layer_count: Some(resolved_array_layer_count),
    };
    Ok(
        TextureViewPlan {
            hal: HalTextureViewDescriptor {
                format: formats.hal_format,
                dimension: resolved_dimension,
                usage,
                range: resolved_range,
            },
            desc: ResolvedTextureViewDescriptor {
                format: formats.resolved_format,
                dimension: resolved_dimension,
                range: resolved_range,
            },
            render_extent,
            samples: texture.sample_count,
            selector: TextureSelector {
                mips: desc.range.base_mip_level..mip_level_end,
                layers: desc.range.base_array_layer..array_layer_end,
            },
        },
    )
}

/// Checks a request for a view of a texture with the given description and hardware
/// usages, and says what to ask of the hardware.
///
/// Nothing has been asked of the hardware when this returns.
pub fn create_texture_inner_view(
    texture_desc: &TextureDescriptor,
    texture_usage: TextureUses,
    desc: &TextureViewDescriptor,
) -> (r: Result<TextureViewPlan, CreateTextureViewError>)
    ensures
        r == spec_create_texture_view_with(
            texture_desc,
            texture_usage,
            desc,
            &spec_view_format_info(texture_desc, desc),
        ),
{
    let formats = view_format_info(texture_desc, desc);
    create_texture_view_with(texture_desc, texture_usage, desc, &formats)
}

/// A view of a 2D texture that leaves its dimension out is a 2D view if the texture has
/// one array layer, and a 2D array view if it has more.
pub proof fn lemma_default_dimension_of_2d_texture(
    texture: TextureDescriptor,
    desc: TextureViewDescriptor,
)
    requires
        desc.dimension is None,
        texture.dimension == TextureDimension::D2,
    ensures
        texture.array_layer_count() == 1 ==> spec_resolved_dimension(&texture, &desc)
            == TextureViewDimension::D2,
        texture.array_layer_count() > 1 ==> spec_resolved_dimension(&texture, &desc)
            == TextureViewDimension::D2Array,
{
}

/// A view is created with the dimension, the range and the counts that the request
/// resolves to.
pub proof fn lemma_view_is_created_as_resolved(
    texture: TextureDescriptor,
    texture_usage: TextureUses,
    desc: TextureViewDescriptor,
    formats: ViewFormatInfo,
)
    ensures
        spec_create_texture_view_with(&texture, texture_usage, &desc, &formats) matches Ok(plan)
            ==> {
            &&& plan.hal.dimension == spec_resolved_dimension(&texture, &desc)
            &&& plan.desc.dimension == spec_resolved_dimension(&texture, &desc)
            &&& plan.hal.range.mip_level_count == Some(
                spec_resolved_mip_level_count(&texture, &desc),
            )
            &&& plan.hal.range.array_layer_count == Some(
                spec_resolved_array_layer_count(&texture, &desc),
            )
        },
{
}

/// A cube array view is created only with a number of array layers that is a multiple
/// of 6 and not zero. So is it turned down whenever the number is not such a multiple.
pub proof fn lemma_cube_array_layers(
    texture: TextureDescriptor,
    texture_usage: TextureUses,
    desc: TextureViewDescriptor,
    formats: ViewFormatInfo,
)
    requires
        spec_resolved_dimension(&texture, &desc) == TextureViewDimension::CubeArray,
    ensures
        spec_create_texture_view_with(&texture, texture_usage, &desc, &formats) is Ok ==> {
            &&& spec_resolved_array_layer_count(&texture, &desc) > 0
            &&& spec_resolved_array_layer_count(&texture, &desc) % 6 == 0
        },
        spec_resolved_array_layer_count(&texture, &desc) == 0 || spec_resolved_array_layer_count(
            &texture,
            &desc,
        ) % 6 != 0 ==> spec_create_texture_view_with(&texture, texture_usage, &desc, &formats)
            is Err,
{
}

/// A view that is created lies within its texture: it has at least one mip level and one
/// array layer, it ends where its base and its counts say, and no later than the texture
/// does. This is stated of textures with fewer levels and layers than a count can hold.
pub proof fn lemma_view_lies_within_texture(
    texture: TextureDescriptor,
    texture_usage: TextureUses,
    desc: TextureViewDescriptor,
    formats: ViewFormatInfo,
)
    requires
        texture.mip_level_count < u32::MAX,
        texture.array_layer_count() < u32::MAX,
    ensures
        spec_create_texture_view_with(&texture, texture_usage, &desc, &formats) matches Ok(plan)
            ==> {
            &&& plan.selector.mips.start < plan.selector.mips.end <= texture.mip_level_count
            &&& plan.selector.layers.start < plan.selector.layers.end
                <= texture.array_layer_count()
            &&& plan.selector.mips.end == desc.range.base_mip_level
                + spec_resolved_mip_level_count(&texture, &desc)
            &&& plan.selector.layers.end == desc.range.base_array_layer
                + spec_resolved_array_layer_count(&texture, &desc)
        },
{
}

/// A texture view that was created. `R` is the handle of the hardware view.
#[derive(Debug, PartialEq)]
pub struct TextureView<R> {
    /// The hardware view; gone once the view has been destroyed.
    pub raw: Option<R>,
    pub parent_id: TextureId,
    /// Whether the view keeps its texture alive, as the view of a texture that the
    /// device made does. A texture never keeps its views alive.
    pub holds_parent: bool,
    pub desc: ResolvedTextureViewDescriptor,
    pub format_features: TextureFormatFeatures,
    /// The extent of the view as a render target, or why it cannot be one.
    pub render_extent: Result<Extent3d, TextureViewNotRenderableReason>,
    pub samples: u32,
    pub selector: TextureSelector,
    pub info: ResourceInfo,
}

/// The record of the view that the hardware made to `plan`, or the failure of the
/// hardware to make one, which always counts as lack of memory. The view does not keep
/// its texture alive until it is told to.
pub fn create_texture_view_from_hal<R>(
    plan: TextureViewPlan,
    texture_id: TextureId,
    texture_format: TextureFormatFeatures,
    label: String,
    raw: Result<R, DeviceError>,
) -> (r: Result<TextureView<R>, CreateTextureViewError>)
    ensures
        match raw {
            Err(_) => r == Err::<TextureView<R>, CreateTextureViewError>(
                CreateTextureViewError::OutOfMemory,
            ),
            Ok(handle) => r matches Ok(view) && {
                &&& view.raw == Some(handle)
                &&& view.parent_id == texture_id
                &&& !view.holds_parent
                &&& view.desc == plan.desc
                &&& view.format_features == texture_format
                &&& view.render_extent == plan.render_extent
                &&& view.samples == plan.samples
                &&& view.selector == plan.selector
                &&& view.info.label == label
                &&& view.info.id is None
            },
        },
{
    match raw {
        Err(_) => Err(CreateTextureViewError::OutOfMemory),
        Ok(handle) => Ok(
            TextureView {
                raw: Some(handle),
                parent_id: texture_id,
                holds_parent: false,
                desc: plan.desc,
                format_features: texture_format,
                render_extent: plan.render_extent,
                samples: plan.samples,
                selector: plan.selector,
                info: ResourceInfo::new(label),
            },
        ),
    }
}

/// What comes of a request for a view of `texture`: the texture must still have its
/// hardware texture, and then the request is held to the rules on views.
pub open spec fn spec_create_texture_view<R, V>(
    texture: &Texture<R, V>,
    desc: &TextureViewDescriptor,
) -> Result<TextureViewPlan, CreateTextureViewError> {
    if texture.inner is None || texture.inner->Some_0.spec_as_raw() is None {
        Err(CreateTextureViewError::InvalidTexture)
    } else {
        spec_create_texture_view_with(
            &texture.desc,
            texture.hal_usage,
            desc,
            &spec_view_format_info(&texture.desc, desc),
        )
    }
}

/// Checks a request for a view of `texture` and says what to ask of the hardware.
///
/// Nothing has been asked of the hardware when this returns.
pub fn create_texture_view<R, V>(texture: &Texture<R, V>, desc: &TextureViewDescriptor) -> (r: Result<
    TextureViewPlan,
    CreateTextureViewError,
>)
    ensures
        r == spec_create_texture_view(texture, desc),
{
    let has_raw = match &texture.inner {
        Some(inner) => inner.as_raw().is_some(),
        None => false,
    };
    if !has_raw {
        return Err(CreateTextureViewError::InvalidTexture);
    }
    create_texture_inner_view(&texture.desc, texture.hal_usage, desc)
}

/// Whether a view of `texture` keeps it alive: it does if the device made the texture.
pub fn view_holds_parent<R, V>(texture: &Texture<R, V>) -> (r: bool)
    ensures
        r == (texture.inner matches Some(TextureInner::Native { .. })),
{
    match &texture.inner {
        Some(TextureInner::Native { .. }) => true,
        _ => false,
    }
}

} // verus!
