//! Bind groups: the resources bound to the slots of a layout, and the rules each
//! binding is held to.

use crate::binding_model::{
    spec_entry_at, BindGroupLayout, BindGroupLayoutEntry, BindingType, BufferBindingType,
    SamplerBindingType, StorageTextureAccess,
};
use crate::buffer::Buffer;
use crate::device::{Device, DeviceError};
use crate::flags::{
    BufferUsages, BufferUses, Features, FormatAspects, TextureFormatFeatureFlags, TextureUsages,
    TextureUses,
};
use crate::format::{
    aspects_of_selection, format_aspects, format_sample_type, same_format, sample_type,
    TextureSampleType,
};
use crate::init_tracker::{
    BufferInitTrackerAction, MemoryInitKind, TextureInitRange, TextureInitTrackerAction,
};
use crate::limits::Limits;
use crate::sampler::Sampler;
use crate::storage::{
    BindGroupLayoutId, BufferId, ResourceInfo, SamplerId, Storage, TextureId, TextureViewId,
};
use crate::texture::Texture;
use crate::texture_view::{
    spec_saturating_add, ImageSubresourceRange, TextureSelector, TextureView,
    TextureViewDimension,
};
use crate::track::{
    spec_buffers_sorted, spec_strictly_sorted, spec_textures_sorted, BindGroupStates, BufferUse,
    TextureUse,
};
use std::collections::HashMap;
use std::ops::Range;
use vstd::prelude::*;
use wgpu_types::TextureFormat;

verus! {

/// A buffer, or a part of one, to bind.
#[derive(Clone, Copy, Debug, PartialEq, Eq, Structural)]
pub struct BufferBinding {
    pub buffer_id: BufferId,
    pub offset: u64,
    /// The number of bytes bound; all that is left of the buffer if left out. Not zero.
    pub size: Option<u64>,
}

/// What is bound to one slot.
#[derive(Debug, PartialEq, Eq)]
pub enum BindingResource {
    Buffer(BufferBinding),
    BufferArray(Vec<BufferBinding>),
    Sampler(SamplerId),
    SamplerArray(Vec<SamplerId>),
    TextureView(TextureViewId),
    TextureViewArray(Vec<TextureViewId>),
}

/// One slot of a bind group, and what is bound to it.
#[derive(Debug, PartialEq, Eq)]
pub struct BindGroupEntry {
    pub binding: u32,
    pub resource: BindingResource,
}

/// A request for a bind group.
#[derive(Debug, PartialEq, Eq)]
pub struct BindGroupDescriptor {
    pub label: Option<String>,
    pub layout: BindGroupLayoutId,
    pub entries: Vec<BindGroupEntry>,
}

/// A usage that a binding needs of a buffer and the buffer was not created with.
#[derive(Clone, Copy, Debug, PartialEq, Eq, Structural)]
pub struct MissingBufferUsageError {
    pub actual: BufferUsages,
    pub expected: BufferUsages,
}

/// A usage that a binding needs of a texture and the texture was not created with.
#[derive(Clone, Copy, Debug, PartialEq, Eq, Structural)]
pub struct MissingTextureUsageError {
    pub actual: TextureUsages,
    pub expected: TextureUsages,
}

/// Why a request for a bind group was turned down.
#[derive(Debug, PartialEq)]
#[allow(inconsistent_fields)]
pub enum CreateBindGroupError {
    Device(DeviceError),
    InvalidLayout,
    InvalidBuffer(BufferId),
    InvalidTextureView(TextureViewId),
    InvalidTexture(TextureId),
    InvalidSampler(SamplerId),
    /// More resources are bound to an array than it has room for.
    BindingArrayPartialLengthMismatch { actual: usize, expected: usize },
    /// Fewer resources are bound to an array than it has room for, on a device on which
    /// an array must be bound in full.
    BindingArrayLengthMismatch { actual: usize, expected: usize },
    BindingArrayZeroLength,
    BindingRangeTooLarge { buffer: BufferId, range: Range<u64>, size: u64 },
    BindingSizeTooSmall { buffer: BufferId, actual: u64, min: u64 },
    BindingZeroSize(BufferId),
    BindingsNumMismatch { actual: usize, expected: usize },
    DuplicateBinding(u32),
    MissingBindingDeclaration(u32),
    MissingBufferUsage(MissingBufferUsageError),
    MissingTextureUsage(MissingTextureUsageError),
    /// An array is bound to a slot that is declared to hold a single resource.
    SingleBindingExpected,
    /// The offset, the name of the limit that it must be a multiple of, and the limit.
    UnalignedBufferOffset(u64, &'static str, u32),
    /// The number of bytes bound, held at the largest value of its type, and the limit.
    BufferRangeTooLarge { binding: u32, given: u32, limit: u32 },
    WrongBindingType { binding: u32, actual: BindingType, expected: &'static str },
    InvalidTextureMultisample { binding: u32, layout_multisampled: bool, view_samples: u32 },
    InvalidTextureSampleType {
        binding: u32,
        layout_sample_type: TextureSampleType,
        view_format: TextureFormat,
    },
    InvalidTextureDimension {
        binding: u32,
        layout_dimension: TextureViewDimension,
        view_dimension: TextureViewDimension,
    },
    InvalidStorageTextureFormat {
        binding: u32,
        layout_format: TextureFormat,
        view_format: TextureFormat,
    },
    InvalidStorageTextureMipLevelCount { binding: u32, mip_level_count: u32 },
    WrongSamplerComparison { binding: u32, layout_cmp: bool, sampler_cmp: bool },
    WrongSamplerFiltering { binding: u32, layout_flt: bool, sampler_flt: bool },
    DepthStencilAspect,
    StorageReadNotSupported(TextureFormat),
}

/// What is kept of a buffer bound with a dynamic offset, to check the offsets by when
/// the bind group is set.
#[derive(Debug, PartialEq, Eq)]
pub struct BindGroupDynamicBindingData {
    pub binding_idx: u32,
    pub buffer_size: u64,
    pub binding_range: Range<u64>,
    /// The largest offset that keeps the binding within the buffer.
    pub maximum_dynamic_offset: u64,
    pub binding_type: BufferBindingType,
}

/// A buffer binding as the hardware layer is given it.
#[derive(Clone, Copy, Debug, PartialEq, Eq, Structural)]
pub struct HalBufferBinding {
    pub buffer: BufferId,
    pub offset: u64,
    pub size: Option<u64>,
}

/// A texture binding as the hardware layer is given it.
#[derive(Clone, Copy, Debug, PartialEq, Eq, Structural)]
pub struct HalTextureBinding {
    pub view: TextureViewId,
    pub usage: TextureUses,
}

/// Where the resources of one slot stand in the list of their kind.
#[derive(Clone, Copy, Debug, PartialEq, Eq, Structural)]
pub struct HalBindGroupEntry {
    pub binding: u32,
    /// The place of the first resource of the slot in the list of buffers, of samplers
    /// or of textures.
    pub resource_index: u32,
    /// How many resources the slot holds.
    pub count: u32,
}

/// What the layout asks for where buffers are bound.
pub const EXPECTED_BUFFER: &'static str = "UniformBuffer, StorageBuffer or ReadonlyStorageBuffer";

/// What the layout asks for where a sampler is bound.
pub const EXPECTED_SAMPLER: &'static str = "Sampler";

/// What the layout asks for where a texture view is bound.
pub const EXPECTED_TEXTURE: &'static str =
    "SampledTexture, ReadonlyStorageTexture or WriteonlyStorageTexture";

/// What the layout asks for where an array of texture views is bound.
pub const EXPECTED_TEXTURE_ARRAY: &'static str =
    "SampledTextureArray, ReadonlyStorageTextureArray or WriteonlyStorageTextureArray";

/// The name of the limit on the offsets of uniform buffers.
pub const UNIFORM_OFFSET_LIMIT: &'static str = "min_uniform_buffer_offset_alignment";

/// The name of the limit on the offsets of storage buffers.
pub const STORAGE_OFFSET_LIMIT: &'static str = "min_storage_buffer_offset_alignment";

/// The rule on how many resources may be bound to a slot that is declared as an array of
/// `count`: no more than `count`; exactly `count`, unless the device lets an array be
/// bound in part; and at least one. A slot that is declared to hold a single resource
/// takes no array at all.
pub open spec fn spec_check_array_binding(
    features: Features,
    count: Option<u32>,
    num_bindings: usize,
) -> Result<(), CreateBindGroupError> {
    match count {
        Some(count) => if (count as usize) < num_bindings {
            Err(
                CreateBindGroupError::BindingArrayPartialLengthMismatch {
                    actual: num_bindings,
                    expected: count as usize,
                },
            )
        } else if count as usize != num_bindings && !features.contains(
            Features::PARTIALLY_BOUND_BINDING_ARRAY,
        ) {
            Err(
                CreateBindGroupError::BindingArrayLengthMismatch {
                    actual: num_bindings,
                    expected: count as usize,
                },
            )
        } else if num_bindings == 0 {
            Err(CreateBindGroupError::BindingArrayZeroLength)
        } else {
            Ok(())
        },
        None => Err(CreateBindGroupError::SingleBindingExpected),
    }
}

/// Holds the number of resources bound to an array to the length that the layout
/// declares.
pub fn check_array_binding(features: Features, count: Option<u32>, num_bindings: usize) -> (r:
    Result<(), CreateBindGroupError>)
    ensures
        r == spec_check_array_binding(features, count, num_bindings),
{
    match count {
        Some(count) => {
            let count = count as usize;
            if count < num_bindings {
                return Err(
                    CreateBindGroupError::BindingArrayPartialLengthMismatch {
                        actual: num_bindings,
                        expected: count,
                    },
                );
            }
            if count != num_bindings && !features.contains(
                Features::PARTIALLY_BOUND_BINDING_ARRAY,
            ) {
                return Err(
                    CreateBindGroupError::BindingArrayLengthMismatch {
                        actual: num_bindings,
                        expected: count,
                    },
                );
            }
            if num_bindings == 0 {
                return Err(CreateBindGroupError::BindingArrayZeroLength);
            }
            Ok(())
        },
        None => Err(CreateBindGroupError::SingleBindingExpected),
    }
}

/// Where the layout declares an array of `count` and the device cannot bind an array in
/// part, binding any other number of resources than `count` fails with a mismatch of
/// lengths.
pub proof fn lemma_array_length_mismatch(features: Features, count: u32, num_bindings: usize)
    requires
        count as usize != num_bindings,
        !features.contains(Features::PARTIALLY_BOUND_BINDING_ARRAY),
    ensures
        spec_check_array_binding(features, Some(count), num_bindings) == Err::<
            (),
            CreateBindGroupError,
        >(
            if (count as usize) < num_bindings {
                CreateBindGroupError::BindingArrayPartialLengthMismatch {
                    actual: num_bindings,
                    expected: count as usize,
                }
            } else {
                CreateBindGroupError::BindingArrayLengthMismatch {
                    actual: num_bindings,
                    expected: count as usize,
                }
            },
        ),
{
}

/// Binding to an array passes exactly when there is at least one resource, no more than
/// the array has room for, and, unless the device lets an array be bound in part, no
/// fewer either.
pub proof fn lemma_array_binding_passes(features: Features, count: Option<u32>, num_bindings: usize)
    ensures
        spec_check_array_binding(features, count, num_bindings) is Ok <==> {
            &&& count matches Some(count)
            &&& 0 < num_bindings <= count as usize
            &&& num_bindings == count as usize || features.contains(
                Features::PARTIALLY_BOUND_BINDING_ARRAY,
            )
        },
{
}

/// What the binding of a texture view reads of the format of the view.
#[derive(Clone, Copy, Debug, PartialEq, Eq, Structural)]
pub struct ViewBindingInfo {
    /// The aspects of the format that the view looks at.
    pub aspects: FormatAspects,
    /// The sample type of the aspect of the format that the view looks at.
    pub sample_type: Option<TextureSampleType>,
    /// Whether the format of the view is the one that the layout declares, where it
    /// declares a storage texture.
    pub is_declared_format: bool,
}

/// Whether a view of one sample type can be bound where the layout declares another.
/// Where the layout declares a filterable float, a float that is not filterable passes
/// if the format is filterable on this device all the same.
pub open spec fn spec_sample_type_fits(
    layout: TextureSampleType,
    view: TextureSampleType,
    filterable_on_device: bool,
) -> bool {
    match (layout, view) {
        (TextureSampleType::Uint, TextureSampleType::Uint) => true,
        (TextureSampleType::Sint, TextureSampleType::Sint) => true,
        (TextureSampleType::Depth, TextureSampleType::Depth) => true,
        (TextureSampleType::Float { filterable: false }, TextureSampleType::Float { .. }) => true,
        (
            TextureSampleType::Float { filterable: true },
            TextureSampleType::Float { filterable: true },
        ) => true,
        (TextureSampleType::Float { filterable: false }, TextureSampleType::Depth) => true,
        (TextureSampleType::Float { filterable: true }, TextureSampleType::Float { .. }) => {
            filterable_on_device
        },
        _ => false,
    }
}

fn sample_type_fits(layout: TextureSampleType, view: TextureSampleType, filterable_on_device: bool) -> (r:
    bool)
    ensures
        r == spec_sample_type_fits(layout, view, filterable_on_device),
{
    match (layout, view) {
        (TextureSampleType::Uint, TextureSampleType::Uint) => true,
        (TextureSampleType::Sint, TextureSampleType::Sint) => true,
        (TextureSampleType::Depth, TextureSampleType::Depth) => true,
        (TextureSampleType::Float { filterable: false }, TextureSampleType::Float { .. }) => true,
        (
            TextureSampleType::Float { filterable: true },
            TextureSampleType::Float { filterable: true },
        ) => true,
        (TextureSampleType::Float { filterable: false }, TextureSampleType::Depth) => true,
        (TextureSampleType::Float { filterable: true }, TextureSampleType::Float { .. }) => {
            filterable_on_device
        },
        _ => false,
    }
}

/// The rules a texture view is held to where it is bound to a slot declared as `decl`,
/// and how the binding uses the texture: the usage that the texture must have been
/// created with, and the hardware usage of the binding.
pub open spec fn spec_texture_use_parameters_with<R>(
    binding: u32,
    decl: &BindGroupLayoutEntry,
    view: &TextureView<R>,
    info: ViewBindingInfo,
    expected: &'static str,
) -> Result<(TextureUsages, TextureUses), CreateBindGroupError> {
    if info.aspects.contains(FormatAspects::DEPTH | FormatAspects::STENCIL) {
        Err(CreateBindGroupError::DepthStencilAspect)
    } else {
        match decl.ty {
            BindingType::Texture { sample_type, view_dimension, multisampled } => if multisampled
                != (view.samples != 1) {
                Err(
                    CreateBindGroupError::InvalidTextureMultisample {
                        binding,
                        layout_multisampled: multisampled,
                        view_samples: view.samples,
                    },
                )
            } else if !(info.sample_type matches Some(found) && spec_sample_type_fits(
                sample_type,
                found,
                view.format_features.flags.contains(TextureFormatFeatureFlags::FILTERABLE),
            )) {
                Err(
                    CreateBindGroupError::InvalidTextureSampleType {
                        binding,
                        layout_sample_type: sample_type,
                        view_format: view.desc.format,
                    },
                )
            } else if view_dimension != view.desc.dimension {
                Err(
                    CreateBindGroupError::InvalidTextureDimension {
                        binding,
                        layout_dimension: view_dimension,
                        view_dimension: view.desc.dimension,
                    },
                )
            } else {
                Ok(
                    (
                        TextureUsages { bits: TextureUsages::TEXTURE_BINDING },
                        TextureUses { bits: TextureUses::RESOURCE },
                    ),
                )
            },
            BindingType::StorageTexture { access, format, view_dimension } => if !info.is_declared_format {
                Err(
                    CreateBindGroupError::InvalidStorageTextureFormat {
                        binding,
                        layout_format: format,
                        view_format: view.desc.format,
                    },
                )
            } else if view_dimension != view.desc.dimension {
                Err(
                    CreateBindGroupError::InvalidTextureDimension {
                        binding,
                        layout_dimension: view_dimension,
                        view_dimension: view.desc.dimension,
                    },
                )
            } else if view.selector.mips.end - view.selector.mips.start != 1 {
                Err(
                    CreateBindGroupError::InvalidStorageTextureMipLevelCount {
                        binding,
                        mip_level_count: if view.selector.mips.end >= view.selector.mips.start {
                            (view.selector.mips.end - view.selector.mips.start) as u32
                        } else {
                            0
                        },
                    },
                )
            } else if access != StorageTextureAccess::WriteOnly
                && !view.format_features.flags.contains(
                TextureFormatFeatureFlags::STORAGE_READ_WRITE,
            ) {
                Err(CreateBindGroupError::StorageReadNotSupported(view.desc.format))
            } else {
                Ok(
                    (
                        TextureUsages { bits: TextureUsages::STORAGE_BINDING },
                        TextureUses {
                            bits: if access == StorageTextureAccess::ReadOnly {
                                TextureUses::STORAGE_READ
                            } else {
                                TextureUses::STORAGE_READ_WRITE
                            },
                        },
                    ),
                )
            },
            _ => Err(CreateBindGroupError::WrongBindingType { binding, actual: decl.ty, expected }),
        }
    }
}

/// Holds a texture view to the rules on a binding to a slot declared as `decl`, given
/// what is known of the format of the view, and says how the binding uses the texture.
/// `expected` is what to report as expected if the slot takes no texture view at all.
pub fn texture_use_parameters_with<R>(
    binding: u32,
    decl: &BindGroupLayoutEntry,
    view: &TextureView<R>,
    info: ViewBindingInfo,
    expected: &'static str,
) -> (r: Result<(TextureUsages, TextureUses), CreateBindGroupError>)
    ensures
        r == spec_texture_use_parameters_with(binding, decl, view, info, expected),
{
    if info.aspects.contains(FormatAspects::DEPTH | FormatAspects::STENCIL) {
        return Err(CreateBindGroupError::DepthStencilAspect);
    }
    match decl.ty {
        BindingType::Texture { sample_type, view_dimension, multisampled } => {
            if multisampled != (view.samples != 1) {
                return Err(
                    CreateBindGroupError::InvalidTextureMultisample {
                        binding,
                        layout_multisampled: multisampled,
                        view_samples: view.samples,
                    },
                );
            }
            let fits = match info.sample_type {
                Some(found) => sample_type_fits(
                    sample_type,
                    found,
                    view.format_features.flags.contains(TextureFormatFeatureFlags::FILTERABLE),
                ),
                None => false,
            };
            if !fits {
                return Err(
                    CreateBindGroupError::InvalidTextureSampleType {
                        binding,
                        layout_sample_type: sample_type,
                        view_format: view.desc.format,
                    },
                );
            }
            if view_dimension != view.desc.dimension {
                return Err(
                    CreateBindGroupError::InvalidTextureDimension {
                        binding,
                        layout_dimension: view_dimension,
                        view_dimension: view.desc.dimension,
                    },
                );
            }
            Ok(
                (
                    TextureUsages::from_bits(TextureUsages::TEXTURE_BINDING),
                    TextureUses::from_bits(TextureUses::RESOURCE),
                ),
            )
        },
        BindingType::StorageTexture { access, format, view_dimension } => {
            if !info.is_declared_format {
                return Err(
                    CreateBindGroupError::InvalidStorageTextureFormat {
                        binding,
                        layout_format: format,
                        view_format: view.desc.format,
                    },
                );
            }
            if view_dimension != view.desc.dimension {
                return Err(
                    CreateBindGroupError::InvalidTextureDimension {
                        binding,
                        layout_dimension: view_dimension,
                        view_dimension: view.desc.dimension,
                    },
                );
            }
            let mip_level_count = view.selector.mips.end.saturating_sub(view.selector.mips.start);
            if view.selector.mips.end < view.selector.mips.start || mip_level_count != 1 {
                return Err(
                    CreateBindGroupError::InvalidStorageTextureMipLevelCount {
                        binding,
                        mip_level_count,
                    },
                );
            }
            let internal_use = match access {
                StorageTextureAccess::WriteOnly => TextureUses::STORAGE_READ_WRITE,
                StorageTextureAccess::ReadOnly => {
                    if !view.format_features.flags.contains(
                        TextureFormatFeatureFlags::STORAGE_READ_WRITE,
                    ) {
                        return Err(CreateBindGroupError::StorageReadNotSupported(view.desc.format));
                    }
                    TextureUses::STORAGE_READ
                },
                StorageTextureAccess::ReadWrite => {
                    if !view.format_features.flags.contains(
                        TextureFormatFeatureFlags::STORAGE_READ_WRITE,
                    ) {
                        return Err(CreateBindGroupError::StorageReadNotSupported(view.desc.format));
                    }
                    TextureUses::STORAGE_READ_WRITE
                },
            };
            Ok(
                (
                    TextureUsages::from_bits(TextureUsages::STORAGE_BINDING),
                    TextureUses::from_bits(internal_use),
                ),
            )
        },
        _ => Err(CreateBindGroupError::WrongBindingType { binding, actual: decl.ty, expected }),
    }
}

/// What the tables of `wgpu_types` and `wgpu_hal` say of the format of `view`, for a
/// binding to a slot declared as `decl`.
pub open spec fn spec_view_binding_info<R>(
    decl: &BindGroupLayoutEntry,
    view: &TextureView<R>,
) -> ViewBindingInfo {
    ViewBindingInfo {
        aspects: format_aspects(view.desc.format).only(view.desc.range.aspect.spec_mask()),
        sample_type: format_sample_type(view.desc.format, view.desc.range.aspect),
        is_declared_format: match decl.ty {
            BindingType::StorageTexture { format, .. } => format == view.desc.format,
            _ => false,
        },
    }
}

/// Looks up what the binding of `view` reads of its format.
pub fn view_binding_info<R>(decl: &BindGroupLayoutEntry, view: &TextureView<R>) -> (r:
    ViewBindingInfo)
    ensures
        r == spec_view_binding_info(decl, view),
{
    ViewBindingInfo {
        aspects: aspects_of_selection(&view.desc.format, view.desc.range.aspect),
        sample_type: sample_type(&view.desc.format, view.desc.range.aspect),
        is_declared_format: match decl.ty {
            BindingType::StorageTexture { format, .. } => same_format(&format, &view.desc.format),
            _ => false,
        },
    }
}

/// Holds a texture view to the rules on a binding to a slot declared as `decl`, and
/// says how the binding uses the texture. `expected` is what to report as expected if
/// the slot takes no texture view at all.
pub fn texture_use_parameters<R>(
    binding: u32,
    decl: &BindGroupLayoutEntry,
    view: &TextureView<R>,
    expected: &'static str,
) -> (r: Result<(TextureUsages, TextureUses), CreateBindGroupError>)
    ensures
        r == spec_texture_use_parameters_with(
            binding,
            decl,
            view,
            spec_view_binding_info(decl, view),
            expected,
        ),
{
    let info = view_binding_info(decl, view);
    texture_use_parameters_with(binding, decl, view, info, expected)
}

/// A binding must be to a buffer that was created with the usage that the binding needs.
pub open spec fn spec_check_buffer_usage(actual: BufferUsages, expected: u32) -> Result<
    (),
    MissingBufferUsageError,
> {
    if !actual.contains(expected) {
        Err(MissingBufferUsageError { actual, expected: BufferUsages { bits: expected } })
    } else {
        Ok(())
    }
}

/// Fails if a buffer was created without one of the usages of `expected`.
pub fn check_buffer_usage(actual: BufferUsages, expected: u32) -> (r: Result<
    (),
    MissingBufferUsageError,
>)
    ensures
        r == spec_check_buffer_usage(actual, expected),
{
    if !actual.contains(expected) {
        Err(MissingBufferUsageError { actual, expected: BufferUsages::from_bits(expected) })
    } else {
        Ok(())
    }
}

/// A binding must be to a texture that was created with the usage that the binding needs.
pub open spec fn spec_check_texture_usage(actual: TextureUsages, expected: TextureUsages) -> Result<
    (),
    MissingTextureUsageError,
> {
    if !actual.contains(expected.bits) {
        Err(MissingTextureUsageError { actual, expected })
    } else {
        Ok(())
    }
}

/// Fails if a texture was created without one of the usages of `expected`.
pub fn check_texture_usage(actual: TextureUsages, expected: TextureUsages) -> (r: Result<
    (),
    MissingTextureUsageError,
>)
    ensures
        r == spec_check_texture_usage(actual, expected),
{
    if !actual.contains(expected.bits) {
        Err(MissingTextureUsageError { actual, expected })
    } else {
        Ok(())
    }
}

/// The limit that the offset of a buffer binding must be a multiple of, and its name.
pub open spec fn spec_buffer_binding_type_alignment(
    limits: &Limits,
    binding_type: BufferBindingType,
) -> (u32, &'static str) {
    match binding_type {
        BufferBindingType::Uniform => (
            limits.min_uniform_buffer_offset_alignment,
            UNIFORM_OFFSET_LIMIT,
        ),
        BufferBindingType::Storage { .. } => (
            limits.min_storage_buffer_offset_alignment,
            STORAGE_OFFSET_LIMIT,
        ),
    }
}

/// The limit that the offset of a buffer binding must be a multiple of, and its name.
pub fn buffer_binding_type_alignment(limits: &Limits, binding_type: BufferBindingType) -> (r: (
    u32,
    &'static str,
))
    ensures
        r == spec_buffer_binding_type_alignment(limits, binding_type),
{
    match binding_type {
        BufferBindingType::Uniform => (
            limits.min_uniform_buffer_offset_alignment,
            UNIFORM_OFFSET_LIMIT,
        ),
        BufferBindingType::Storage { .. } => (
            limits.min_storage_buffer_offset_alignment,
            STORAGE_OFFSET_LIMIT,
        ),
    }
}

/// What comes of the binding of one buffer that passed.
#[derive(Debug, PartialEq, Eq)]
pub struct BufferBindingOutcome {
    pub hal: HalBufferBinding,
    /// How the binding uses the buffer.
    pub usage: BufferUses,
    /// What to check dynamic offsets by, if the binding takes one.
    pub dynamic: Option<BindGroupDynamicBindingData>,
    /// The number of bytes bound, where the layout leaves the least size to the shader.
    pub late_size: Option<u64>,
    /// The part of the bound range that has never been written, if there is one.
    pub init_action: Option<BufferInitTrackerAction>,
}

/// The buffer usage and the hardware usage that a binding of a type needs, and the most
/// bytes it may bind.
pub open spec fn spec_buffer_binding_needs(limits: &Limits, binding_type: BufferBindingType) -> (
    u32,
    u16,
    u32,
) {
    match binding_type {
        BufferBindingType::Uniform => (
            BufferUsages::UNIFORM,
            BufferUses::UNIFORM,
            limits.max_uniform_buffer_binding_size,
        ),
        BufferBindingType::Storage { read_only } => (
            BufferUsages::STORAGE,
            if read_only {
                BufferUses::STORAGE_READ
            } else {
                BufferUses::STORAGE_READ_WRITE
            },
            limits.max_storage_buffer_binding_size,
        ),
    }
}

/// `n` as a 32-bit number, held at the largest such number.
pub open spec fn spec_clamp_u32(n: int) -> u32 {
    if n > u32::MAX {
        u32::MAX
    } else if n < 0 {
        0
    } else {
        n as u32
    }
}

fn clamp_u64(n: u64) -> (r: u32)
    ensures
        r == spec_clamp_u32(n as int),
{
    if n > u32::MAX as u64 {
        u32::MAX
    } else {
        n as u32
    }
}

fn clamp_usize(n: usize) -> (r: u32)
    ensures
        r == spec_clamp_u32(n as int),
{
    if n > u32::MAX as usize {
        u32::MAX
    } else {
        n as u32
    }
}

/// The rules the binding of one buffer is held to, in the order in which they are
/// tried, and what comes of a binding that passes them all. `buffer` is what the table
/// of buffers holds at the identity that the binding names.
///
/// - The slot must be declared to take a buffer.
/// - The offset must be a multiple of the alignment that the device asks of bindings of
///   this type.
/// - The buffer must exist, must have been created with the usage that the binding
///   needs, and must not have been destroyed.
/// - The bytes bound, which are all that is left of the buffer from the offset on
///   unless a size is given, must lie within the buffer, and be no more than the device
///   lets a binding of this type hold.
/// - Where the layout declares a least size, they must be at least as many; where it
///   leaves that to the shader, there must be at least one.
pub open spec fn spec_buffer_binding<R>(
    bb: BufferBinding,
    binding: u32,
    decl: &BindGroupLayoutEntry,
    buffer: Option<Buffer<R>>,
    limits: &Limits,
) -> Result<BufferBindingOutcome, CreateBindGroupError> {
    match decl.ty {
        BindingType::Buffer { ty, has_dynamic_offset, min_binding_size } => {
            let (pub_usage, internal_use, range_limit) = spec_buffer_binding_needs(limits, ty);
            let (align, align_limit_name) = spec_buffer_binding_type_alignment(limits, ty);
            if align != 0 && bb.offset % (align as u64) != 0 {
                Err(CreateBindGroupError::UnalignedBufferOffset(bb.offset, align_limit_name, align))
            } else {
                match buffer {
                    None => Err(CreateBindGroupError::InvalidBuffer(bb.buffer_id)),
                    Some(buffer) => {
                        let bind_end: int = match bb.size {
                            Some(size) => bb.offset + size,
                            None => buffer.size as int,
                        };
                        let bind_size: int = bind_end - bb.offset;
                        if spec_check_buffer_usage(buffer.usage, pub_usage) is Err {
                            Err(
                                CreateBindGroupError::MissingBufferUsage(
                                    spec_check_buffer_usage(buffer.usage, pub_usage)->Err_0,
                                ),
                            )
                        } else if buffer.raw is None {
                            Err(CreateBindGroupError::InvalidBuffer(bb.buffer_id))
                        } else if bind_end > buffer.size || bind_size < 0 {
                            Err(
                                CreateBindGroupError::BindingRangeTooLarge {
                                    buffer: bb.buffer_id,
                                    range: bb.offset..(if bind_end > u64::MAX {
                                        u64::MAX
                                    } else {
                                        bind_end as u64
                                    }),
                                    size: buffer.size,
                                },
                            )
                        } else if bind_size > range_limit {
                            Err(
                                CreateBindGroupError::BufferRangeTooLarge {
                                    binding,
                                    given: spec_clamp_u32(bind_size),
                                    limit: range_limit,
                                },
                            )
                        } else if min_binding_size is Some && min_binding_size->Some_0 > bind_size {
                            Err(
                                CreateBindGroupError::BindingSizeTooSmall {
                                    buffer: bb.buffer_id,
                                    actual: bind_size as u64,
                                    min: min_binding_size->Some_0,
                                },
                            )
                        } else if min_binding_size is None && bind_size == 0 {
                            Err(CreateBindGroupError::BindingZeroSize(bb.buffer_id))
                        } else {
                            Ok(
                                BufferBindingOutcome {
                                    hal: HalBufferBinding {
                                        buffer: bb.buffer_id,
                                        offset: bb.offset,
                                        size: bb.size,
                                    },
                                    usage: BufferUses { bits: internal_use },
                                    dynamic: if has_dynamic_offset {
                                        Some(
                                            BindGroupDynamicBindingData {
                                                binding_idx: binding,
                                                buffer_size: buffer.size,
                                                binding_range: bb.offset..(bind_end as u64),
                                                maximum_dynamic_offset: (buffer.size
                                                    - bind_end) as u64,
                                                binding_type: ty,
                                            },
                                        )
                                    } else {
                                        None
                                    },
                                    late_size: if min_binding_size is None {
                                        Some(bind_size as u64)
                                    } else {
                                        None
                                    },
                                    init_action: buffer.initialization_status.spec_create_action(
                                        bb.buffer_id,
                                        bb.offset..(bind_end as u64),
                                        MemoryInitKind::NeedsInitializedMemory,
                                    ),
                                },
                            )
                        }
                    },
                }
            }
        },
        _ => Err(
            CreateBindGroupError::WrongBindingType {
                binding,
                actual: decl.ty,
                expected: EXPECTED_BUFFER,
            },
        ),
    }
}

/// Holds the binding of one buffer to the rules, and says what comes of it. `buffer` is
/// what the table of buffers holds at the identity that the binding names.
pub fn resolve_buffer_binding<R>(
    bb: &BufferBinding,
    binding: u32,
    decl: &BindGroupLayoutEntry,
    buffer: Option<&Buffer<R>>,
    limits: &Limits,
) -> (r: Result<BufferBindingOutcome, CreateBindGroupError>)
    ensures
        r == spec_buffer_binding(
            *bb,
            binding,
            decl,
            match buffer {
                Some(buffer) => Some(*buffer),
                None => None,
            },
            limits,
        ),
{
    let (binding_ty, dynamic, min_size) = match decl.ty {
        BindingType::Buffer { ty, has_dynamic_offset, min_binding_size } => (
            ty,
            has_dynamic_offset,
            min_binding_size,
        ),
        _ => {
            return Err(
                CreateBindGroupError::WrongBindingType {
                    binding,
                    actual: decl.ty,
                    expected: EXPECTED_BUFFER,
                },
            );
        },
    };
    let (pub_usage, internal_use, range_limit): (u32, u16, u32) = match binding_ty {
        BufferBindingType::Uniform => (
            BufferUsages::UNIFORM,
            BufferUses::UNIFORM,
            limits.max_uniform_buffer_binding_size,
        ),
        BufferBindingType::Storage { read_only } => (
            BufferUsages::STORAGE,
            if read_only {
                BufferUses::STORAGE_READ
            } else {
                BufferUses::STORAGE_READ_WRITE
            },
            limits.max_storage_buffer_binding_size,
        ),
    };
    let (align, align_limit_name) = buffer_binding_type_alignment(limits, binding_ty);
    if align != 0 && bb.offset % (align as u64) != 0 {
        return Err(
            CreateBindGroupError::UnalignedBufferOffset(bb.offset, align_limit_name, align),
        );
    }
    let buffer = match buffer {
        Some(buffer) => buffer,
        None => {
            return Err(CreateBindGroupError::InvalidBuffer(bb.buffer_id));
        },
    };
    match check_buffer_usage(buffer.usage, pub_usage) {
        Ok(()) => {},
        Err(missing) => {
            return Err(CreateBindGroupError::MissingBufferUsage(missing));
        },
    }
    if buffer.raw.is_none() {
        return Err(CreateBindGroupError::InvalidBuffer(bb.buffer_id));
    }
    let (bind_size, bind_end): (u64, u64) = match bb.size {
        Some(size) => {
            let end = match bb.offset.checked_add(size) {
                Some(end) => end,
                None => {
                    return Err(
                        CreateBindGroupError::BindingRangeTooLarge {
                            buffer: bb.buffer_id,
                            range: bb.offset..u64::MAX,
                            size: buffer.size,
                        },
                    );
                },
            };
            if end > buffer.size {
                return Err(
                    CreateBindGroupError::BindingRangeTooLarge {
                        buffer: bb.buffer_id,
                        range: bb.offset..end,
                        size: buffer.size,
                    },
                );
            }
            (size, end)
        },
        None => {
            if bb.offset > buffer.size {
                return Err(
                    CreateBindGroupError::BindingRangeTooLarge {
                        buffer: bb.buffer_id,
                        range: bb.offset..buffer.size,
                        size: buffer.size,
                    },
                );
            }
            (buffer.size - bb.offset, buffer.size)
        },
    };
    if bind_size > range_limit as u64 {
        return Err(
            CreateBindGroupError::BufferRangeTooLarge {
                binding,
                given: clamp_u64(bind_size),
                limit: range_limit,
            },
        );
    }
    let dynamic_data = if dynamic {
        Some(
            BindGroupDynamicBindingData {
                binding_idx: binding,
                buffer_size: buffer.size,
                binding_range: bb.offset..bind_end,
                maximum_dynamic_offset: buffer.size - bind_end,
                binding_type: binding_ty,
            },
        )
    } else {
        None
    };
    let late_size = match min_size {
        Some(min) => {
            if min > bind_size {
                return Err(
                    CreateBindGroupError::BindingSizeTooSmall {
                        buffer: bb.buffer_id,
                        actual: bind_size,
                        min,
                    },
                );
            }
            None
        },
        None => {
            if bind_size == 0 {
                return Err(CreateBindGroupError::BindingZeroSize(bb.buffer_id));
            }
            Some(bind_size)
        },
    };
    let touched = bb.offset..bind_end;
    let init_action = buffer.initialization_status.create_action(
        bb.buffer_id,
        &touched,
        MemoryInitKind::NeedsInitializedMemory,
    );
    Ok(
        BufferBindingOutcome {
            hal: HalBufferBinding { buffer: bb.buffer_id, offset: bb.offset, size: bb.size },
            usage: BufferUses::from_bits(internal_use),
            dynamic: dynamic_data,
            late_size,
            init_action,
        },
    )
}

/// A bound buffer lies within its buffer: the bytes bound start at the offset, end
/// no later than the buffer does, and are no more than the device lets a binding of
/// its type hold.
pub proof fn lemma_bound_buffer_lies_within<R>(
    bb: BufferBinding,
    binding: u32,
    decl: BindGroupLayoutEntry,
    buffer: Buffer<R>,
    limits: Limits,
)
    ensures
        spec_buffer_binding(bb, binding, &decl, Some(buffer), &limits) is Ok ==> {
            let end = match bb.size {
                Some(size) => bb.offset + size,
                None => buffer.size as int,
            };
            &&& decl.ty matches BindingType::Buffer { ty, .. }
            &&& bb.offset <= end <= buffer.size
            &&& end - bb.offset <= spec_buffer_binding_needs(&limits, ty).2
            &&& buffer.usage.contains(spec_buffer_binding_needs(&limits, ty).0)
        },
{
}

/// The tables of the resources that can be bound.
pub struct Hub<RB, RT, RV, RS> {
    pub buffers: Storage<Buffer<RB>>,
    pub textures: Storage<Texture<RT, RV>>,
    pub texture_views: Storage<TextureView<RV>>,
    pub samplers: Storage<Sampler<RS>>,
}

/// The mip levels that a range stands for in a texture of `mip_level_count` levels.
pub open spec fn spec_mip_range(range: ImageSubresourceRange, mip_level_count: u32) -> Range<u32> {
    range.base_mip_level..(match range.mip_level_count {
        Some(count) => spec_saturating_add(range.base_mip_level, count),
        None => mip_level_count,
    })
}

/// The array layers that a range stands for in a texture of `array_layer_count` layers.
pub open spec fn spec_layer_range(range: ImageSubresourceRange, array_layer_count: u32) -> Range<
    u32,
> {
    range.base_array_layer..(match range.array_layer_count {
        Some(count) => spec_saturating_add(range.base_array_layer, count),
        None => array_layer_count,
    })
}

/// What comes of the binding of one texture view that passed.
#[derive(Debug, PartialEq, Eq)]
pub struct ViewBindingOutcome {
    pub hal: HalTextureBinding,
    /// How the binding uses the texture behind the view.
    pub texture_use: TextureUse,
    /// The part of the texture that the binding needs written before it is used.
    pub init_action: TextureInitTrackerAction,
}

/// The rules on the texture behind a bound view: it must exist, and must have been
/// created with the usage that the binding needs.
pub open spec fn spec_texture_binding<RT, RV>(
    view_id: TextureViewId,
    view: &TextureView<RV>,
    texture: Option<Texture<RT, RV>>,
    internal_use: TextureUses,
    pub_usage: TextureUsages,
) -> Result<ViewBindingOutcome, CreateBindGroupError> {
    match texture {
        None => Err(CreateBindGroupError::InvalidTexture(view.parent_id)),
        Some(texture) => if spec_check_texture_usage(texture.desc.usage, pub_usage) is Err {
            Err(
                CreateBindGroupError::MissingTextureUsage(
                    spec_check_texture_usage(texture.desc.usage, pub_usage)->Err_0,
                ),
            )
        } else {
            Ok(
                ViewBindingOutcome {
                    hal: HalTextureBinding { view: view_id, usage: internal_use },
                    texture_use: TextureUse {
                        id: view.parent_id,
                        selector: Some(view.selector),
                        usage: internal_use,
                    },
                    init_action: TextureInitTrackerAction {
                        id: view.parent_id,
                        range: TextureInitRange {
                            mip_range: spec_mip_range(view.desc.range, texture.desc.mip_level_count),
                            layer_range: spec_layer_range(
                                view.desc.range,
                                texture.desc.spec_array_layer_count(),
                            ),
                        },
                        kind: MemoryInitKind::NeedsInitializedMemory,
                    },
                },
            )
        },
    }
}

/// The rules the binding of one texture view is held to, in the order in which they are
/// tried: the view must exist; it must fit the declaration of the slot; the texture
/// behind it must exist and have the usage that the binding needs; and the view must
/// not have been destroyed.
pub open spec fn spec_view_binding<RB, RT, RV, RS>(
    binding: u32,
    decl: &BindGroupLayoutEntry,
    id: TextureViewId,
    hub: &Hub<RB, RT, RV, RS>,
    expected: &'static str,
) -> Result<ViewBindingOutcome, CreateBindGroupError> {
    match hub.texture_views.spec_get(id) {
        None => Err(CreateBindGroupError::InvalidTextureView(id)),
        Some(view) => match spec_texture_use_parameters_with(
            binding,
            decl,
            &view,
            spec_view_binding_info(decl, &view),
            expected,
        ) {
            Err(e) => Err(e),
            Ok((pub_usage, internal_use)) => match spec_texture_binding(
                id,
                &view,
                hub.textures.spec_get(view.parent_id),
                internal_use,
                pub_usage,
            ) {
                Err(e) => Err(e),
                Ok(outcome) => if view.raw is None {
                    Err(CreateBindGroupError::InvalidTextureView(id))
                } else {
                    Ok(outcome)
                },
            },
        },
    }
}

/// The rules the binding of a single sampler is held to, in the order in which they
/// are tried: the slot must be declared to take a sampler; the sampler must exist; a
/// slot for a sampler that does not filter takes no sampler that filters; a slot takes
/// a comparison sampler exactly if it is declared for one; and the sampler must not
/// have been destroyed.
pub open spec fn spec_sampler_binding<RS>(
    binding: u32,
    decl: &BindGroupLayoutEntry,
    id: SamplerId,
    sampler: Option<Sampler<RS>>,
) -> Result<(), CreateBindGroupError> {
    match decl.ty {
        BindingType::Sampler(ty) => match sampler {
            None => Err(CreateBindGroupError::InvalidSampler(id)),
            Some(sampler) => if ty == SamplerBindingType::NonFiltering && sampler.filtering {
                Err(
                    CreateBindGroupError::WrongSamplerFiltering {
                        binding,
                        layout_flt: false,
                        sampler_flt: sampler.filtering,
                    },
                )
            } else if (ty == SamplerBindingType::Comparison) != sampler.comparison {
                Err(
                    CreateBindGroupError::WrongSamplerComparison {
                        binding,
                        layout_cmp: ty == SamplerBindingType::Comparison,
                        sampler_cmp: sampler.comparison,
                    },
                )
            } else if sampler.raw is None {
                Err(CreateBindGroupError::InvalidSampler(id))
            } else {
                Ok(())
            },
        },
        _ => Err(
            CreateBindGroupError::WrongBindingType {
                binding,
                actual: decl.ty,
                expected: EXPECTED_SAMPLER,
            },
        ),
    }
}

/// The rule on a sampler bound to an array: it must exist and not have been destroyed.
pub open spec fn spec_array_sampler_binding<RS>(
    id: SamplerId,
    sampler: Option<Sampler<RS>>,
) -> Result<(), CreateBindGroupError> {
    match sampler {
        Some(sampler) => if sampler.raw is None {
            Err(CreateBindGroupError::InvalidSampler(id))
        } else {
            Ok(())
        },
        None => Err(CreateBindGroupError::InvalidSampler(id)),
    }
}

/// What has been gathered for a bind group from the entries looked at so far.
#[verifier::ext_equal]
pub ghost struct BindGroupParts {
    /// For each entry, where its resources stand in the three lists that follow.
    pub entries: Seq<HalBindGroupEntry>,
    pub buffers: Seq<HalBufferBinding>,
    pub samplers: Seq<SamplerId>,
    pub textures: Seq<HalTextureBinding>,
    pub used_buffers: Seq<BufferUse>,
    pub used_textures: Seq<TextureUse>,
    pub used_views: Seq<TextureViewId>,
    pub used_samplers: Seq<SamplerId>,
    pub used_buffer_ranges: Seq<BufferInitTrackerAction>,
    pub used_texture_ranges: Seq<TextureInitTrackerAction>,
    pub dynamic_binding_info: Seq<BindGroupDynamicBindingData>,
    /// By binding, the number of bytes bound where the layout leaves the least size to
    /// the shader.
    pub late_buffer_binding_sizes: Map<u32, u64>,
}

impl BindGroupParts {
    /// Nothing gathered.
    pub open spec fn empty() -> Self {
        BindGroupParts {
            entries: Seq::empty(),
            buffers: Seq::empty(),
            samplers: Seq::empty(),
            textures: Seq::empty(),
            used_buffers: Seq::empty(),
            used_textures: Seq::empty(),
            used_views: Seq::empty(),
            used_samplers: Seq::empty(),
            used_buffer_ranges: Seq::empty(),
            used_texture_ranges: Seq::empty(),
            dynamic_binding_info: Seq::empty(),
            late_buffer_binding_sizes: Map::empty(),
        }
    }

    /// These parts and one more bound buffer.
    pub open spec fn with_buffer(self, binding: u32, outcome: BufferBindingOutcome) -> Self {
        BindGroupParts {
            buffers: self.buffers.push(outcome.hal),
            used_buffers: self.used_buffers.push(
                BufferUse { id: outcome.hal.buffer, usage: outcome.usage },
            ),
            used_buffer_ranges: match outcome.init_action {
                Some(action) => self.used_buffer_ranges.push(action),
                None => self.used_buffer_ranges,
            },
            dynamic_binding_info: match outcome.dynamic {
                Some(data) => self.dynamic_binding_info.push(data),
                None => self.dynamic_binding_info,
            },
            late_buffer_binding_sizes: match outcome.late_size {
                Some(size) => self.late_buffer_binding_sizes.insert(binding, size),
                None => self.late_buffer_binding_sizes,
            },
            ..self
        }
    }

    /// These parts and one more bound sampler.
    pub open spec fn with_sampler(self, id: SamplerId) -> Self {
        BindGroupParts {
            samplers: self.samplers.push(id),
            used_samplers: self.used_samplers.push(id),
            ..self
        }
    }

    /// These parts and one more bound texture view.
    pub open spec fn with_view(self, outcome: ViewBindingOutcome) -> Self {
        BindGroupParts {
            textures: self.textures.push(outcome.hal),
            used_views: self.used_views.push(outcome.hal.view),
            used_textures: self.used_textures.push(outcome.texture_use),
            used_texture_ranges: self.used_texture_ranges.push(outcome.init_action),
            ..self
        }
    }

    /// These parts and one more entry, which holds `count` resources from the place
    /// `resource_index` on.
    pub open spec fn with_entry(self, binding: u32, resource_index: nat, count: nat) -> Self {
        BindGroupParts {
            entries: self.entries.push(
                HalBindGroupEntry {
                    binding,
                    resource_index: spec_clamp_u32(resource_index as int),
                    count: spec_clamp_u32(count as int),
                },
            ),
            ..self
        }
    }
}

/// What comes of binding the first `n` buffers of an array: the first failure among
/// them, or the parts with all of them.
pub open spec fn spec_bind_buffers<RB, RT, RV, RS>(
    parts: BindGroupParts,
    buffers: Seq<BufferBinding>,
    n: int,
    binding: u32,
    decl: &BindGroupLayoutEntry,
    hub: &Hub<RB, RT, RV, RS>,
    limits: &Limits,
) -> Result<BindGroupParts, CreateBindGroupError>
    decreases n,
{
    if n <= 0 {
        Ok(parts)
    } else {
        match spec_bind_buffers(parts, buffers, n - 1, binding, decl, hub, limits) {
            Err(e) => Err(e),
            Ok(parts) => match spec_buffer_binding(
                buffers[n - 1],
                binding,
                decl,
                hub.buffers.spec_get(buffers[n - 1].buffer_id),
                limits,
            ) {
                Err(e) => Err(e),
                Ok(outcome) => Ok(parts.with_buffer(binding, outcome)),
            },
        }
    }
}

/// What comes of binding the first `n` samplers of an array.
pub open spec fn spec_bind_samplers<RB, RT, RV, RS>(
    parts: BindGroupParts,
    samplers: Seq<SamplerId>,
    n: int,
    hub: &Hub<RB, RT, RV, RS>,
) -> Result<BindGroupParts, CreateBindGroupError>
    decreases n,
{
    if n <= 0 {
        Ok(parts)
    } else {
        match spec_bind_samplers(parts, samplers, n - 1, hub) {
            Err(e) => Err(e),
            Ok(parts) => match spec_array_sampler_binding(
                samplers[n - 1],
                hub.samplers.spec_get(samplers[n - 1]),
            ) {
                Err(e) => Err(e),
                Ok(()) => Ok(parts.with_sampler(samplers[n - 1])),
            },
        }
    }
}

/// What comes of binding the first `n` texture views of an array.
pub open spec fn spec_bind_views<RB, RT, RV, RS>(
    parts: BindGroupParts,
    views: Seq<TextureViewId>,
    n: int,
    binding: u32,
    decl: &BindGroupLayoutEntry,
    hub: &Hub<RB, RT, RV, RS>,
) -> Result<BindGroupParts, CreateBindGroupError>
    decreases n,
{
    if n <= 0 {
        Ok(parts)
    } else {
        match spec_bind_views(parts, views, n - 1, binding, decl, hub) {
            Err(e) => Err(e),
            Ok(parts) => match spec_view_binding(
                binding,
                decl,
                views[n - 1],
                hub,
                EXPECTED_TEXTURE_ARRAY,
            ) {
                Err(e) => Err(e),
                Ok(outcome) => Ok(parts.with_view(outcome)),
            },
        }
    }
}

/// What has been gathered once the first `n` buffers of an array were tried: the parts
/// with those of them that come before the first that fails.
pub open spec fn spec_buffers_bound<RB, RT, RV, RS>(
    parts: BindGroupParts,
    buffers: Seq<BufferBinding>,
    n: int,
    binding: u32,
    decl: &BindGroupLayoutEntry,
    hub: &Hub<RB, RT, RV, RS>,
    limits: &Limits,
) -> BindGroupParts
    decreases n,
{
    if n <= 0 {
        parts
    } else {
        match spec_bind_buffers(parts, buffers, n, binding, decl, hub, limits) {
            Ok(bound) => bound,
            Err(_) => spec_buffers_bound(parts, buffers, n - 1, binding, decl, hub, limits),
        }
    }
}

/// What has been gathered once the first `n` samplers of an array were tried: the parts
/// with those of them that come before the first that fails.
pub open spec fn spec_samplers_bound<RB, RT, RV, RS>(
    parts: BindGroupParts,
    samplers: Seq<SamplerId>,
    n: int,
    hub: &Hub<RB, RT, RV, RS>,
) -> BindGroupParts
    decreases n,
{
    if n <= 0 {
        parts
    } else {
        match spec_bind_samplers(parts, samplers, n, hub) {
            Ok(bound) => bound,
            Err(_) => spec_samplers_bound(parts, samplers, n - 1, hub),
        }
    }
}

/// What has been gathered once the first `n` texture views of an array were tried: the
/// parts with those of them that come before the first that fails.
pub open spec fn spec_views_bound<RB, RT, RV, RS>(
    parts: BindGroupParts,
    views: Seq<TextureViewId>,
    n: int,
    binding: u32,
    decl: &BindGroupLayoutEntry,
    hub: &Hub<RB, RT, RV, RS>,
) -> BindGroupParts
    decreases n,
{
    if n <= 0 {
        parts
    } else {
        match spec_bind_views(parts, views, n, binding, decl, hub) {
            Ok(bound) => bound,
            Err(_) => spec_views_bound(parts, views, n - 1, binding, decl, hub),
        }
    }
}

/// What has been gathered when an entry of a request fails. A single resource that
/// fails leaves the parts as they were, and so does an array of the wrong length. Of an
/// array of the right length, the resources before the first that fails have been taken
/// in; the entry itself has not.
pub open spec fn spec_failed_entry_leaves<RB, RT, RV, RS>(
    parts: BindGroupParts,
    entry: &BindGroupEntry,
    decl: &BindGroupLayoutEntry,
    hub: &Hub<RB, RT, RV, RS>,
    features: Features,
    limits: &Limits,
) -> BindGroupParts {
    match entry.resource {
        BindingResource::BufferArray(buffers) => if spec_check_array_binding(
            features,
            decl.count,
            buffers.len(),
        ) is Err {
            parts
        } else {
            spec_buffers_bound(
                parts,
                buffers@,
                buffers@.len() as int,
                entry.binding,
                decl,
                hub,
                limits,
            )
        },
        BindingResource::SamplerArray(samplers) => if spec_check_array_binding(
            features,
            decl.count,
            samplers.len(),
        ) is Err {
            parts
        } else {
            spec_samplers_bound(parts, samplers@, samplers@.len() as int, hub)
        },
        BindingResource::TextureViewArray(views) => if spec_check_array_binding(
            features,
            decl.count,
            views.len(),
        ) is Err {
            parts
        } else {
            spec_views_bound(parts, views@, views@.len() as int, entry.binding, decl, hub)
        },
        _ => parts,
    }
}

/// What comes of one entry of a request for a bind group, where `decl` is what the
/// layout declares at the binding of the entry. An array is first held to the length
/// that the layout declares, and then its resources are bound one after the other.
pub open spec fn spec_bind_entry<RB, RT, RV, RS>(
    parts: BindGroupParts,
    entry: &BindGroupEntry,
    decl: &BindGroupLayoutEntry,
    hub: &Hub<RB, RT, RV, RS>,
    features: Features,
    limits: &Limits,
) -> Result<BindGroupParts, CreateBindGroupError> {
    let binding = entry.binding;
    match entry.resource {
        BindingResource::Buffer(bb) => match spec_buffer_binding(
            bb,
            binding,
            decl,
            hub.buffers.spec_get(bb.buffer_id),
            limits,
        ) {
            Err(e) => Err(e),
            Ok(outcome) => Ok(
                parts.with_buffer(binding, outcome).with_entry(binding, parts.buffers.len(), 1),
            ),
        },
        BindingResource::BufferArray(buffers) => match spec_check_array_binding(
            features,
            decl.count,
            buffers.len(),
        ) {
            Err(e) => Err(e),
            Ok(()) => match spec_bind_buffers(
                parts,
                buffers@,
                buffers@.len() as int,
                binding,
                decl,
                hub,
                limits,
            ) {
                Err(e) => Err(e),
                Ok(bound) => Ok(bound.with_entry(binding, parts.buffers.len(), buffers@.len())),
            },
        },
        BindingResource::Sampler(id) => match spec_sampler_binding(
            binding,
            decl,
            id,
            hub.samplers.spec_get(id),
        ) {
            Err(e) => Err(e),
            Ok(()) => Ok(parts.with_sampler(id).with_entry(binding, parts.samplers.len(), 1)),
        },
        BindingResource::SamplerArray(samplers) => match spec_check_array_binding(
            features,
            decl.count,
            samplers.len(),
        ) {
            Err(e) => Err(e),
            Ok(()) => match spec_bind_samplers(parts, samplers@, samplers@.len() as int, hub) {
                Err(e) => Err(e),
                Ok(bound) => Ok(bound.with_entry(binding, parts.samplers.len(), samplers@.len())),
            },
        },
        BindingResource::TextureView(id) => match spec_view_binding(
            binding,
            decl,
            id,
            hub,
            EXPECTED_TEXTURE,
        ) {
            Err(e) => Err(e),
            Ok(outcome) => Ok(parts.with_view(outcome).with_entry(binding, parts.textures.len(), 1)),
        },
        BindingResource::TextureViewArray(views) => match spec_check_array_binding(
            features,
            decl.count,
            views.len(),
        ) {
            Err(e) => Err(e),
            Ok(()) => match spec_bind_views(
                parts,
                views@,
                views@.len() as int,
                binding,
                decl,
                hub,
            ) {
                Err(e) => Err(e),
                Ok(bound) => Ok(bound.with_entry(binding, parts.textures.len(), views@.len())),
            },
        },
    }
}

/// What comes of the first `n` entries of a request for a bind group against a layout
/// with the given entries: the first failure among them, in the order of the request,
/// or all that they bind. An entry fails if the layout declares nothing at its binding.
pub open spec fn spec_bind_entries<RB, RT, RV, RS>(
    entries: Seq<BindGroupEntry>,
    n: int,
    layout: Seq<BindGroupLayoutEntry>,
    hub: &Hub<RB, RT, RV, RS>,
    features: Features,
    limits: &Limits,
) -> Result<BindGroupParts, CreateBindGroupError>
    decreases n,
{
    if n <= 0 {
        Ok(BindGroupParts::empty())
    } else {
        match spec_bind_entries(entries, n - 1, layout, hub, features, limits) {
            Err(e) => Err(e),
            Ok(parts) => match spec_entry_at(layout, entries[n - 1].binding) {
                None => Err(CreateBindGroupError::MissingBindingDeclaration(entries[n - 1].binding)),
                Some(decl) => spec_bind_entry(parts, &entries[n - 1], &decl, hub, features, limits),
            },
        }
    }
}

/// `sorted` with `entry` put in behind the last entry whose binding is not above its
/// own.
pub open spec fn spec_insert_by_binding(
    sorted: Seq<HalBindGroupEntry>,
    entry: HalBindGroupEntry,
) -> Seq<HalBindGroupEntry>
    decreases sorted.len(),
{
    if sorted.len() == 0 || sorted.last().binding <= entry.binding {
        sorted.push(entry)
    } else {
        spec_insert_by_binding(sorted.drop_last(), entry).push(sorted.last())
    }
}

/// `entries` in the order of their bindings; entries with one binding stay in the
/// order in which they came.
pub open spec fn spec_sort_by_binding(entries: Seq<HalBindGroupEntry>) -> Seq<HalBindGroupEntry>
    decreases entries.len(),
{
    if entries.len() == 0 {
        entries
    } else {
        spec_insert_by_binding(spec_sort_by_binding(entries.drop_last()), entries.last())
    }
}

/// The binding of the first two neighbours among the first `n` of `sorted` that have
/// one binding.
pub open spec fn spec_first_duplicate(sorted: Seq<HalBindGroupEntry>, n: int) -> Option<u32>
    decreases n,
{
    if n <= 1 {
        None
    } else if spec_first_duplicate(sorted, n - 1) is Some {
        spec_first_duplicate(sorted, n - 1)
    } else if sorted[n - 2].binding == sorted[n - 1].binding {
        Some(sorted[n - 2].binding)
    } else {
        None
    }
}

/// Whether the bindings of `entries` go up, with repeats allowed.
pub open spec fn spec_ordered_by_binding(entries: Seq<HalBindGroupEntry>) -> bool {
    forall|i: int, j: int| 0 <= i <= j < entries.len() ==> entries[i].binding <= entries[j].binding
}

proof fn lemma_insert_position(sorted: Seq<HalBindGroupEntry>, entry: HalBindGroupEntry, at: int)
    requires
        0 <= at <= sorted.len(),
        forall|j: int| at <= j < sorted.len() ==> sorted[j].binding > entry.binding,
        at == 0 || sorted[at - 1].binding <= entry.binding,
    ensures
        spec_insert_by_binding(sorted, entry) == sorted.insert(at, entry),
    decreases sorted.len(),
{
    if at == sorted.len() {
        assert(sorted.push(entry) =~= sorted.insert(at, entry));
    } else {
        lemma_insert_position(sorted.drop_last(), entry, at);
        assert(sorted.drop_last().insert(at, entry).push(sorted.last()) =~= sorted.insert(
            at,
            entry,
        ));
    }
}

/// Putting an entry into entries that are in order leaves them in order, with the same
/// entries and the new one.
pub proof fn lemma_insert_by_binding(sorted: Seq<HalBindGroupEntry>, entry: HalBindGroupEntry)
    requires
        spec_ordered_by_binding(sorted),
    ensures
        spec_ordered_by_binding(spec_insert_by_binding(sorted, entry)),
        spec_insert_by_binding(sorted, entry).to_multiset() == sorted.to_multiset().insert(entry),
        spec_insert_by_binding(sorted, entry).len() == sorted.len() + 1,
    decreases sorted.len(),
{
    broadcast use vstd::seq_lib::group_to_multiset_ensures;

    if sorted.len() == 0 || sorted.last().binding <= entry.binding {
    } else {
        let shorter = sorted.drop_last();
        lemma_insert_by_binding(shorter, entry);
        let inner = spec_insert_by_binding(shorter, entry);
        let after = inner.push(sorted.last());
        assert(sorted =~= shorter.push(sorted.last()));
        assert(after.to_multiset() =~= sorted.to_multiset().insert(entry));
        assert forall|i: int, j: int| 0 <= i <= j < after.len() implies after[i].binding
            <= after[j].binding by {
            if j == after.len() - 1 && i < j {
                assert(inner.to_multiset().count(inner[i]) > 0);
                if inner[i] != entry {
                    assert(shorter.to_multiset().count(inner[i]) > 0);
                    assert(shorter.contains(inner[i]));
                    let k = choose|k: int| 0 <= k < shorter.len() && shorter[k] == inner[i];
                    assert(sorted[k] == inner[i]);
                }
            }
        }
    }
}

/// Sorted entries are in the order of their bindings, and are the entries that went in.
pub proof fn lemma_sort_by_binding(entries: Seq<HalBindGroupEntry>)
    ensures
        spec_ordered_by_binding(spec_sort_by_binding(entries)),
        spec_sort_by_binding(entries).to_multiset() == entries.to_multiset(),
        spec_sort_by_binding(entries).len() == entries.len(),
    decreases entries.len(),
{
    broadcast use vstd::seq_lib::group_to_multiset_ensures;

    if entries.len() != 0 {
        lemma_sort_by_binding(entries.drop_last());
        lemma_insert_by_binding(spec_sort_by_binding(entries.drop_last()), entries.last());
        assert(entries =~= entries.drop_last().push(entries.last()));
    }
}

/// Where no two neighbours of entries in order have one binding, the bindings go
/// strictly up, so that no binding occurs twice; and where two have, their binding
/// does occur twice.
pub proof fn lemma_first_duplicate(sorted: Seq<HalBindGroupEntry>, n: int)
    requires
        spec_ordered_by_binding(sorted),
        0 <= n <= sorted.len(),
    ensures
        match spec_first_duplicate(sorted, n) {
            None => forall|i: int, j: int|
                0 <= i < j < n ==> sorted[i].binding < sorted[j].binding,
            Some(binding) => exists|i: int|
                0 <= i < n - 1 && (#[trigger] sorted[i]).binding == binding && sorted[i
                    + 1].binding == binding,
        },
    decreases n,
{
    if n > 1 {
        lemma_first_duplicate(sorted, n - 1);
        if spec_first_duplicate(sorted, n - 1) is None && sorted[n - 2].binding != sorted[n
            - 1].binding {
            assert forall|i: int, j: int| 0 <= i < j < n implies sorted[i].binding
                < sorted[j].binding by {
                if j == n - 1 {
                    assert(sorted[i].binding <= sorted[n - 2].binding);
                }
            }
        } else if spec_first_duplicate(sorted, n - 1) is None {
            assert(sorted[n - 2].binding == sorted[n - 2 + 1].binding);
        }
    }
}

fn insert_by_binding(sorted: &mut Vec<HalBindGroupEntry>, entry: HalBindGroupEntry)
    ensures
        final(sorted)@ == spec_insert_by_binding(old(sorted)@, entry),
{
    let mut at: usize = sorted.len();
    while at > 0 && sorted[at - 1].binding > entry.binding
        invariant
            at <= sorted@.len(),
            sorted@ == old(sorted)@,
            forall|j: int| at <= j < sorted@.len() ==> sorted@[j].binding > entry.binding,
        decreases at,
    {
        at -= 1;
    }
    proof {
        lemma_insert_position(sorted@, entry, at as int);
    }
    sorted.insert(at, entry);
}

/// The entries in the order of their bindings.
pub fn sort_by_binding(entries: &Vec<HalBindGroupEntry>) -> (r: Vec<HalBindGroupEntry>)
    ensures
        r@ == spec_sort_by_binding(entries@),
{
    let mut sorted: Vec<HalBindGroupEntry> = Vec::new();
    let mut i: usize = 0;
    assert(entries@.take(0) =~= Seq::<HalBindGroupEntry>::empty());
    while i < entries.len()
        invariant
            i <= entries@.len(),
            sorted@ == spec_sort_by_binding(entries@.take(i as int)),
        decreases entries@.len() - i,
    {
        insert_by_binding(&mut sorted, entries[i]);
        i += 1;
        assert(entries@.take(i as int).drop_last() =~= entries@.take(i as int - 1));
    }
    assert(entries@.take(i as int) =~= entries@);
    sorted
}

/// The first binding that two neighbours of `sorted` share, if two do.
pub fn first_duplicate(sorted: &Vec<HalBindGroupEntry>) -> (r: Option<u32>)
    ensures
        r == spec_first_duplicate(sorted@, sorted@.len() as int),
{
    let mut i: usize = 1;
    while i < sorted.len()
        invariant
            1 <= i,
            i <= sorted@.len() || sorted@.len() == 0,
            spec_first_duplicate(sorted@, i as int) is None,
        decreases sorted@.len() - i,
    {
        if sorted[i - 1].binding == sorted[i].binding {
            proof {
                lemma_first_duplicate_stays(sorted@, i as int + 1, sorted@.len() as int);
            }
            return Some(sorted[i - 1].binding);
        }
        i += 1;
    }
    None
}

proof fn lemma_first_duplicate_stays(sorted: Seq<HalBindGroupEntry>, from: int, to: int)
    requires
        from <= to,
        spec_first_duplicate(sorted, from) is Some,
    ensures
        spec_first_duplicate(sorted, to) == spec_first_duplicate(sorted, from),
    decreases to - from,
{
    if from < to {
        lemma_first_duplicate_stays(sorted, from, to - 1);
    }
}

/// For each of the first `n` entries of a layout, in order, the size that `late` holds
/// at its binding, if it holds one.
pub open spec fn spec_late_sizes(layout: Seq<BindGroupLayoutEntry>, late: Map<u32, u64>, n: int) -> Seq<
    u64,
>
    decreases n,
{
    if n <= 0 {
        Seq::empty()
    } else if late.contains_key(layout[n - 1].binding) {
        spec_late_sizes(layout, late, n - 1).push(late[layout[n - 1].binding])
    } else {
        spec_late_sizes(layout, late, n - 1)
    }
}

fn mip_range(range: &ImageSubresourceRange, mip_level_count: u32) -> (r: Range<u32>)
    ensures
        r == spec_mip_range(*range, mip_level_count),
{
    let end = match range.mip_level_count {
        Some(count) => range.base_mip_level.saturating_add(count),
        None => mip_level_count,
    };
    range.base_mip_level..end
}

fn layer_range(range: &ImageSubresourceRange, array_layer_count: u32) -> (r: Range<u32>)
    ensures
        r == spec_layer_range(*range, array_layer_count),
{
    let end = match range.array_layer_count {
        Some(count) => range.base_array_layer.saturating_add(count),
        None => array_layer_count,
    };
    range.base_array_layer..end
}

/// Holds the texture behind a bound view to the rules, and says what comes of the
/// binding. `texture` is what the table of textures holds at the identity of the
/// texture that the view was made of.
pub fn create_texture_binding<RT, RV>(
    view_id: TextureViewId,
    view: &TextureView<RV>,
    texture: Option<&Texture<RT, RV>>,
    internal_use: TextureUses,
    pub_usage: TextureUsages,
) -> (r: Result<ViewBindingOutcome, CreateBindGroupError>)
    ensures
        r == spec_texture_binding(
            view_id,
            view,
            match texture {
                Some(texture) => Some(*texture),
                None => None,
            },
            internal_use,
            pub_usage,
        ),
{
    let texture = match texture {
        Some(texture) => texture,
        None => {
            return Err(CreateBindGroupError::InvalidTexture(view.parent_id));
        },
    };
    match check_texture_usage(texture.desc.usage, pub_usage) {
        Ok(()) => {},
        Err(missing) => {
            return Err(CreateBindGroupError::MissingTextureUsage(missing));
        },
    }
    let selector = TextureSelector {
        mips: view.selector.mips.start..view.selector.mips.end,
        layers: view.selector.layers.start..view.selector.layers.end,
    };
    Ok(
        ViewBindingOutcome {
            hal: HalTextureBinding { view: view_id, usage: internal_use },
            texture_use: TextureUse {
                id: view.parent_id,
                selector: Some(selector),
                usage: internal_use,
            },
            init_action: TextureInitTrackerAction {
                id: view.parent_id,
                range: TextureInitRange {
                    mip_range: mip_range(&view.desc.range, texture.desc.mip_level_count),
                    layer_range: layer_range(&view.desc.range, texture.desc.array_layer_count()),
                },
                kind: MemoryInitKind::NeedsInitializedMemory,
            },
        },
    )
}

/// Everything that is gathered for a bind group while its entries are looked at.
#[derive(Debug)]
pub struct BindGroupBuilder {
    pub hal_entries: Vec<HalBindGroupEntry>,
    pub hal_buffers: Vec<HalBufferBinding>,
    pub hal_samplers: Vec<SamplerId>,
    pub hal_textures: Vec<HalTextureBinding>,
    pub used: BindGroupStates,
    pub used_buffer_ranges: Vec<BufferInitTrackerAction>,
    pub used_texture_ranges: Vec<TextureInitTrackerAction>,
    pub dynamic_binding_info: Vec<BindGroupDynamicBindingData>,
    pub late_buffer_binding_sizes: HashMap<u32, u64>,
}

impl View for BindGroupBuilder {
    type V = BindGroupParts;

    open spec fn view(&self) -> BindGroupParts {
        BindGroupParts {
            entries: self.hal_entries@,
            buffers: self.hal_buffers@,
            samplers: self.hal_samplers@,
            textures: self.hal_textures@,
            used_buffers: self.used.buffers@,
            used_textures: self.used.textures@,
            used_views: self.used.views@,
            used_samplers: self.used.samplers@,
            used_buffer_ranges: self.used_buffer_ranges@,
            used_texture_ranges: self.used_texture_ranges@,
            dynamic_binding_info: self.dynamic_binding_info@,
            late_buffer_binding_sizes: self.late_buffer_binding_sizes@,
        }
    }
}

impl BindGroupBuilder {
    /// Nothing gathered.
    pub fn new() -> (r: Self)
        ensures
            r@ == BindGroupParts::empty(),
    {
        let r = BindGroupBuilder {
            hal_entries: Vec::new(),
            hal_buffers: Vec::new(),
            hal_samplers: Vec::new(),
            hal_textures: Vec::new(),
            used: BindGroupStates::new(),
            used_buffer_ranges: Vec::new(),
            used_texture_ranges: Vec::new(),
            dynamic_binding_info: Vec::new(),
            late_buffer_binding_sizes: HashMap::new(),
        };
        assert(r@ =~= BindGroupParts::empty());
        r
    }

    /// Binds one buffer to the slot `binding`, which the layout declares as `decl`: holds
    /// the binding to the rules and, if it passes, takes in what comes of it. A binding
    /// that fails leaves everything as it was.
    pub fn create_buffer_binding<R>(
        &mut self,
        bb: &BufferBinding,
        binding: u32,
        decl: &BindGroupLayoutEntry,
        storage: &Storage<Buffer<R>>,
        limits: &Limits,
    ) -> (r: Result<HalBufferBinding, CreateBindGroupError>)
        ensures
            match spec_buffer_binding(
                *bb,
                binding,
                decl,
                storage.spec_get(bb.buffer_id),
                limits,
            ) {
                Err(e) => r == Err::<HalBufferBinding, CreateBindGroupError>(e) && final(self)@
                    == old(self)@,
                Ok(outcome) => r == Ok::<HalBufferBinding, CreateBindGroupError>(outcome.hal)
                    && final(self)@ == old(self)@.with_buffer(binding, outcome),
            },
    {
        let outcome = resolve_buffer_binding(
            bb,
            binding,
            decl,
            storage.get(bb.buffer_id),
            limits,
        )?;
        let ghost before = self@;
        let hal = outcome.hal;
        self.used.buffers.push(BufferUse { id: hal.buffer, usage: outcome.usage });
        match outcome.dynamic {
            Some(data) => {
                self.dynamic_binding_info.push(data);
            },
            None => {},
        }
        match outcome.late_size {
            Some(size) => {
                self.late_buffer_binding_sizes.insert(binding, size);
            },
            None => {},
        }
        match outcome.init_action {
            Some(action) => {
                self.used_buffer_ranges.push(action);
            },
            None => {},
        }
        self.hal_buffers.push(hal);
        assert(self@ =~= before.with_buffer(binding, outcome));
        Ok(hal)
    }

    /// Binds one sampler of an array: the sampler must exist and not have been
    /// destroyed.
    fn bind_array_sampler<RS>(&mut self, id: SamplerId, storage: &Storage<Sampler<RS>>) -> (r:
        Result<(), CreateBindGroupError>)
        ensures
            match spec_array_sampler_binding(id, storage.spec_get(id)) {
                Err(e) => r == Err::<(), CreateBindGroupError>(e) && final(self)@ == old(self)@,
                Ok(()) => r is Ok && final(self)@ == old(self)@.with_sampler(id),
            },
    {
        let ghost before = self@;
        match storage.get(id) {
            Some(sampler) => {
                if sampler.raw.is_none() {
                    return Err(CreateBindGroupError::InvalidSampler(id));
                }
            },
            None => {
                return Err(CreateBindGroupError::InvalidSampler(id));
            },
        }
        self.used.samplers.push(id);
        self.hal_samplers.push(id);
        assert(self@ =~= before.with_sampler(id));
        Ok(())
    }

    /// Binds a single sampler to the slot `binding`, which the layout declares as `decl`.
    fn bind_sampler<RS>(
        &mut self,
        binding: u32,
        decl: &BindGroupLayoutEntry,
        id: SamplerId,
        storage: &Storage<Sampler<RS>>,
    ) -> (r: Result<(), CreateBindGroupError>)
        ensures
            match spec_sampler_binding(binding, decl, id, storage.spec_get(id)) {
                Err(e) => r == Err::<(), CreateBindGroupError>(e) && final(self)@ == old(self)@,
                Ok(()) => r is Ok && final(self)@ == old(self)@.with_sampler(id),
            },
    {
        let ghost before = self@;
        match decl.ty {
            BindingType::Sampler(ty) => {
                let sampler = match storage.get(id) {
                    Some(sampler) => sampler,
                    None => {
                        return Err(CreateBindGroupError::InvalidSampler(id));
                    },
                };
                let (allowed_filtering, allowed_comparison): (Option<bool>, bool) = match ty {
                    SamplerBindingType::Filtering => (None, false),
                    SamplerBindingType::NonFiltering => (Some(false), false),
                    SamplerBindingType::Comparison => (None, true),
                };
                match allowed_filtering {
                    Some(allowed_filtering) => {
                        if allowed_filtering != sampler.filtering {
                            return Err(
                                CreateBindGroupError::WrongSamplerFiltering {
                                    binding,
                                    layout_flt: allowed_filtering,
                                    sampler_flt: sampler.filtering,
                                },
                            );
                        }
                    },
                    None => {},
                }
                if allowed_comparison != sampler.comparison {
                    return Err(
                        CreateBindGroupError::WrongSamplerComparison {
                            binding,
                            layout_cmp: allowed_comparison,
                            sampler_cmp: sampler.comparison,
                        },
                    );
                }
                if sampler.raw.is_none() {
                    return Err(CreateBindGroupError::InvalidSampler(id));
                }
                self.used.samplers.push(id);
                self.hal_samplers.push(id);
                assert(self@ =~= before.with_sampler(id));
                Ok(())
            },
            _ => Err(
                CreateBindGroupError::WrongBindingType {
                    binding,
                    actual: decl.ty,
                    expected: EXPECTED_SAMPLER,
                },
            ),
        }
    }

    /// Binds one texture view to the slot `binding`, which the layout declares as `decl`.
    fn bind_view<RB, RT, RV, RS>(
        &mut self,
        binding: u32,
        decl: &BindGroupLayoutEntry,
        id: TextureViewId,
        hub: &Hub<RB, RT, RV, RS>,
        expected: &'static str,
    ) -> (r: Result<(), CreateBindGroupError>)
        ensures
            match spec_view_binding(binding, decl, id, hub, expected) {
                Err(e) => r == Err::<(), CreateBindGroupError>(e) && final(self)@ == old(self)@,
                Ok(outcome) => r is Ok && final(self)@ == old(self)@.with_view(outcome),
            },
    {
        let ghost before = self@;
        let view = match hub.texture_views.get(id) {
            Some(view) => view,
            None => {
                return Err(CreateBindGroupError::InvalidTextureView(id));
            },
        };
        let (pub_usage, internal_use) = texture_use_parameters(binding, decl, view, expected)?;
        let outcome = create_texture_binding(
            id,
            view,
            hub.textures.get(view.parent_id),
            internal_use,
            pub_usage,
        )?;
        if view.raw.is_none() {
            return Err(CreateBindGroupError::InvalidTextureView(id));
        }
        let ghost taken = outcome;
        self.used.views.push(id);
        self.used.textures.push(outcome.texture_use);
        self.used_texture_ranges.push(outcome.init_action);
        self.hal_textures.push(outcome.hal);
        assert(self@ =~= before.with_view(taken));
        Ok(())
    }

    /// Notes where the resources of one more entry stand.
    fn push_entry(&mut self, binding: u32, resource_index: usize, count: usize)
        ensures
            final(self)@ == old(self)@.with_entry(binding, resource_index as nat, count as nat),
    {
        let ghost before = self@;
        self.hal_entries.push(
            HalBindGroupEntry {
                binding,
                resource_index: clamp_usize(resource_index),
                count: clamp_usize(count),
            },
        );
        assert(self@ =~= before.with_entry(binding, resource_index as nat, count as nat));
    }

    /// Binds what one entry of a request names to the slot that the layout declares as
    /// `decl`. If the entry fails, nothing of it has been taken in but the resources of
    /// an array that come before the one that fails.
    #[verifier::loop_isolation(false)]
    pub fn bind_entry<RB, RT, RV, RS>(
        &mut self,
        entry: &BindGroupEntry,
        decl: &BindGroupLayoutEntry,
        hub: &Hub<RB, RT, RV, RS>,
        features: Features,
        limits: &Limits,
    ) -> (r: Result<(), CreateBindGroupError>)
        ensures
            match spec_bind_entry(old(self)@, entry, decl, hub, features, limits) {
                Err(e) => r == Err::<(), CreateBindGroupError>(e) && final(self)@
                    == spec_failed_entry_leaves(old(self)@, entry, decl, hub, features, limits),
                Ok(parts) => r is Ok && final(self)@ == parts,
            },
    {
        let binding = entry.binding;
        let ghost before = self@;
        match &entry.resource {
            BindingResource::Buffer(bb) => {
                let res_index = self.hal_buffers.len();
                self.create_buffer_binding(bb, binding, decl, &hub.buffers, limits)?;
                self.push_entry(binding, res_index, 1);
                Ok(())
            },
            BindingResource::BufferArray(bindings_array) => {
                let num_bindings = bindings_array.len();
                check_array_binding(features, decl.count, num_bindings)?;
                let res_index = self.hal_buffers.len();
                let mut i: usize = 0;
                while i < bindings_array.len()
                    invariant
                        i <= bindings_array@.len(),
                        spec_bind_buffers(
                            before,
                            bindings_array@,
                            i as int,
                            binding,
                            decl,
                            hub,
                            limits,
                        ) == Ok::<BindGroupParts, CreateBindGroupError>(self@),
                    decreases bindings_array@.len() - i,
                {
                    match self.create_buffer_binding(
                        &bindings_array[i],
                        binding,
                        decl,
                        &hub.buffers,
                        limits,
                    ) {
                        Ok(_) => {},
                        Err(e) => {
                            proof {
                                assert(spec_bind_buffers(
                                    before,
                                    bindings_array@,
                                    i as int + 1,
                                    binding,
                                    decl,
                                    hub,
                                    limits,
                                ) == Err::<BindGroupParts, CreateBindGroupError>(e));
                                lemma_bind_buffers_error_stays(
                                    before,
                                    bindings_array@,
                                    i as int + 1,
                                    bindings_array@.len() as int,
                                    binding,
                                    decl,
                                    hub,
                                    limits,
                                );
                                lemma_buffers_bound(
                                    before,
                                    bindings_array@,
                                    i as int,
                                    bindings_array@.len() as int,
                                    binding,
                                    decl,
                                    hub,
                                    limits,
                                );
                            }
                            return Err(e);
                        },
                    }
                    i += 1;
                }
                self.push_entry(binding, res_index, num_bindings);
                Ok(())
            },
            BindingResource::Sampler(id) => {
                let res_index = self.hal_samplers.len();
                self.bind_sampler(binding, decl, *id, &hub.samplers)?;
                self.push_entry(binding, res_index, 1);
                Ok(())
            },
            BindingResource::SamplerArray(bindings_array) => {
                let num_bindings = bindings_array.len();
                check_array_binding(features, decl.count, num_bindings)?;
                let res_index = self.hal_samplers.len();
                let mut i: usize = 0;
                while i < bindings_array.len()
                    invariant
                        i <= bindings_array@.len(),
                        spec_bind_samplers(before, bindings_array@, i as int, hub) == Ok::<
                            BindGroupParts,
                            CreateBindGroupError,
                        >(self@),
                    decreases bindings_array@.len() - i,
                {
                    match self.bind_array_sampler(bindings_array[i], &hub.samplers) {
                        Ok(()) => {},
                        Err(e) => {
                            proof {
                                assert(spec_bind_samplers(
                                    before,
                                    bindings_array@,
                                    i as int + 1,
                                    hub,
                                ) == Err::<BindGroupParts, CreateBindGroupError>(e));
                                lemma_bind_samplers_error_stays(
                                    before,
                                    bindings_array@,
                                    i as int + 1,
                                    bindings_array@.len() as int,
                                    hub,
                                );
                                lemma_samplers_bound(
                                    before,
                                    bindings_array@,
                                    i as int,
                                    bindings_array@.len() as int,
                                    hub,
                                );
                            }
                            return Err(e);
                        },
                    }
                    i += 1;
                }
                self.push_entry(binding, res_index, num_bindings);
                Ok(())
            },
            BindingResource::TextureView(id) => {
                let res_index = self.hal_textures.len();
                self.bind_view(binding, decl, *id, hub, EXPECTED_TEXTURE)?;
                self.push_entry(binding, res_index, 1);
                Ok(())
            },
            BindingResource::TextureViewArray(bindings_array) => {
                let num_bindings = bindings_array.len();
                check_array_binding(features, decl.count, num_bindings)?;
                let res_index = self.hal_textures.len();
                let mut i: usize = 0;
                while i < bindings_array.len()
                    invariant
                        i <= bindings_array@.len(),
                        spec_bind_views(before, bindings_array@, i as int, binding, decl, hub)
                            == Ok::<BindGroupParts, CreateBindGroupError>(self@),
                    decreases bindings_array@.len() - i,
                {
                    match self.bind_view(
                        binding,
                        decl,
                        bindings_array[i],
                        hub,
                        EXPECTED_TEXTURE_ARRAY,
                    ) {
                        Ok(()) => {},
                        Err(e) => {
                            proof {
                                assert(spec_bind_views(
                                    before,
                                    bindings_array@,
                                    i as int + 1,
                                    binding,
                                    decl,
                                    hub,
                                ) == Err::<BindGroupParts, CreateBindGroupError>(e));
                                lemma_bind_views_error_stays(
                                    before,
                                    bindings_array@,
                                    i as int + 1,
                                    bindings_array@.len() as int,
                                    binding,
                                    decl,
                                    hub,
                                );
                                lemma_views_bound(
                                    before,
                                    bindings_array@,
                                    i as int,
                                    bindings_array@.len() as int,
                                    binding,
                                    decl,
                                    hub,
                                );
                            }
                            return Err(e);
                        },
                    }
                    i += 1;
                }
                self.push_entry(binding, res_index, num_bindings);
                Ok(())
            },
        }
    }
}

/// Where the buffer at `at` is the first of an array to fail, what has been gathered
/// is the parts with the buffers before it, however many more are tried.
proof fn lemma_buffers_bound<RB, RT, RV, RS>(
    parts: BindGroupParts,
    buffers: Seq<BufferBinding>,
    at: int,
    n: int,
    binding: u32,
    decl: &BindGroupLayoutEntry,
    hub: &Hub<RB, RT, RV, RS>,
    limits: &Limits,
)
    requires
        0 <= at < n,
        spec_bind_buffers(parts, buffers, at, binding, decl, hub, limits) is Ok,
        spec_bind_buffers(parts, buffers, at + 1, binding, decl, hub, limits) is Err,
    ensures
        spec_buffers_bound(parts, buffers, n, binding, decl, hub, limits) == spec_bind_buffers(
            parts,
            buffers,
            at,
            binding,
            decl,
            hub,
            limits,
        )->Ok_0,
    decreases n,
{
    lemma_bind_buffers_error_stays(parts, buffers, at + 1, n, binding, decl, hub, limits);
    if n > at + 1 {
        lemma_buffers_bound(parts, buffers, at, n - 1, binding, decl, hub, limits);
    } else {
        reveal_with_fuel(spec_buffers_bound, 2);
    }
}

/// Where the sampler at `at` is the first of an array to fail, what has been gathered
/// is the parts with the samplers before it, however many more are tried.
proof fn lemma_samplers_bound<RB, RT, RV, RS>(
    parts: BindGroupParts,
    samplers: Seq<SamplerId>,
    at: int,
    n: int,
    hub: &Hub<RB, RT, RV, RS>,
)
    requires
        0 <= at < n,
        spec_bind_samplers(parts, samplers, at, hub) is Ok,
        spec_bind_samplers(parts, samplers, at + 1, hub) is Err,
    ensures
        spec_samplers_bound(parts, samplers, n, hub) == spec_bind_samplers(
            parts,
            samplers,
            at,
            hub,
        )->Ok_0,
    decreases n,
{
    lemma_bind_samplers_error_stays(parts, samplers, at + 1, n, hub);
    if n > at + 1 {
        lemma_samplers_bound(parts, samplers, at, n - 1, hub);
    } else {
        reveal_with_fuel(spec_samplers_bound, 2);
    }
}

/// Where the texture view at `at` is the first of an array to fail, what has been
/// gathered is the parts with the views before it, however many more are tried.
proof fn lemma_views_bound<RB, RT, RV, RS>(
    parts: BindGroupParts,
    views: Seq<TextureViewId>,
    at: int,
    n: int,
    binding: u32,
    decl: &BindGroupLayoutEntry,
    hub: &Hub<RB, RT, RV, RS>,
)
    requires
        0 <= at < n,
        spec_bind_views(parts, views, at, binding, decl, hub) is Ok,
        spec_bind_views(parts, views, at + 1, binding, decl, hub) is Err,
    ensures
        spec_views_bound(parts, views, n, binding, decl, hub) == spec_bind_views(
            parts,
            views,
            at,
            binding,
            decl,
            hub,
        )->Ok_0,
    decreases n,
{
    lemma_bind_views_error_stays(parts, views, at + 1, n, binding, decl, hub);
    if n > at + 1 {
        lemma_views_bound(parts, views, at, n - 1, binding, decl, hub);
    } else {
        reveal_with_fuel(spec_views_bound, 2);
    }
}

proof fn lemma_bind_buffers_error_stays<RB, RT, RV, RS>(
    parts: BindGroupParts,
    buffers: Seq<BufferBinding>,
    from: int,
    to: int,
    binding: u32,
    decl: &BindGroupLayoutEntry,
    hub: &Hub<RB, RT, RV, RS>,
    limits: &Limits,
)
    requires
        from <= to,
        spec_bind_buffers(parts, buffers, from, binding, decl, hub, limits) is Err,
    ensures
        spec_bind_buffers(parts, buffers, to, binding, decl, hub, limits) == spec_bind_buffers(
            parts,
            buffers,
            from,
            binding,
            decl,
            hub,
            limits,
        ),
    decreases to - from,
{
    if from < to {
        lemma_bind_buffers_error_stays(parts, buffers, from, to - 1, binding, decl, hub, limits);
    }
}

proof fn lemma_bind_samplers_error_stays<RB, RT, RV, RS>(
    parts: BindGroupParts,
    samplers: Seq<SamplerId>,
    from: int,
    to: int,
    hub: &Hub<RB, RT, RV, RS>,
)
    requires
        from <= to,
        spec_bind_samplers(parts, samplers, from, hub) is Err,
    ensures
        spec_bind_samplers(parts, samplers, to, hub) == spec_bind_samplers(
            parts,
            samplers,
            from,
            hub,
        ),
    decreases to - from,
{
    if from < to {
        lemma_bind_samplers_error_stays(parts, samplers, from, to - 1, hub);
    }
}

proof fn lemma_bind_views_error_stays<RB, RT, RV, RS>(
    parts: BindGroupParts,
    views: Seq<TextureViewId>,
    from: int,
    to: int,
    binding: u32,
    decl: &BindGroupLayoutEntry,
    hub: &Hub<RB, RT, RV, RS>,
)
    requires
        from <= to,
        spec_bind_views(parts, views, from, binding, decl, hub) is Err,
    ensures
        spec_bind_views(parts, views, to, binding, decl, hub) == spec_bind_views(
            parts,
            views,
            from,
            binding,
            decl,
            hub,
        ),
    decreases to - from,
{
    if from < to {
        lemma_bind_views_error_stays(parts, views, from, to - 1, binding, decl, hub);
    }
}

proof fn lemma_bind_entries_error_stays<RB, RT, RV, RS>(
    entries: Seq<BindGroupEntry>,
    from: int,
    to: int,
    layout: Seq<BindGroupLayoutEntry>,
    hub: &Hub<RB, RT, RV, RS>,
    features: Features,
    limits: &Limits,
)
    requires
        from <= to,
        spec_bind_entries(entries, from, layout, hub, features, limits) is Err,
    ensures
        spec_bind_entries(entries, to, layout, hub, features, limits) == spec_bind_entries(
            entries,
            from,
            layout,
            hub,
            features,
            limits,
        ),
    decreases to - from,
{
    if from < to {
        lemma_bind_entries_error_stays(entries, from, to - 1, layout, hub, features, limits);
    }
}

/// What comes of a request for a bind group that passed.
#[derive(Debug, PartialEq, Eq)]
pub struct BindGroupPlan {
    /// For each entry, where its resources stand in the three lists that follow, in the
    /// order of the bindings.
    pub entries: Vec<HalBindGroupEntry>,
    pub buffers: Vec<HalBufferBinding>,
    pub samplers: Vec<SamplerId>,
    pub textures: Vec<HalTextureBinding>,
    /// Everything that the bind group uses, and how.
    pub used: BindGroupStates,
    /// The ranges of buffers that must be written before the bind group is used.
    pub used_buffer_ranges: Vec<BufferInitTrackerAction>,
    /// The parts of textures that must be written before the bind group is used.
    pub used_texture_ranges: Vec<TextureInitTrackerAction>,
    pub dynamic_binding_info: Vec<BindGroupDynamicBindingData>,
    /// The sizes of the buffers bound where the layout leaves the least size to the
    /// shader, in the order of the layout.
    pub late_buffer_binding_sizes: Vec<u64>,
}

impl BindGroupPlan {
    /// Whether the plan is what comes of `parts`, gathered against a layout with the
    /// given entries: the entries are those gathered, in the order of their bindings;
    /// the uses of buffers and textures, and the texture views and samplers used, are
    /// those gathered, each once and in the order of the identities of what is used; the
    /// late sizes are picked in the order of the layout; and everything else is as it
    /// was gathered.
    pub open spec fn holds(&self, parts: BindGroupParts, layout: Seq<BindGroupLayoutEntry>) -> bool {
        &&& self.entries@ == spec_sort_by_binding(parts.entries)
        &&& self.buffers@ == parts.buffers
        &&& self.samplers@ == parts.samplers
        &&& self.textures@ == parts.textures
        &&& spec_buffers_sorted(self.used.buffers@)
        &&& self.used.buffers@.no_duplicates()
        &&& self.used.buffers@.to_set() == parts.used_buffers.to_set()
        &&& spec_textures_sorted(self.used.textures@)
        &&& self.used.textures@.no_duplicates()
        &&& self.used.textures@.to_set() == parts.used_textures.to_set()
        &&& spec_strictly_sorted(self.used.views@)
        &&& self.used.views@.to_set() == parts.used_views.to_set()
        &&& spec_strictly_sorted(self.used.samplers@)
        &&& self.used.samplers@.to_set() == parts.used_samplers.to_set()
        &&& self.used_buffer_ranges@ == parts.used_buffer_ranges
        &&& self.used_texture_ranges@ == parts.used_texture_ranges
        &&& self.dynamic_binding_info@ == parts.dynamic_binding_info
        &&& self.late_buffer_binding_sizes@ == spec_late_sizes(
            layout,
            parts.late_buffer_binding_sizes,
            layout.len() as int,
        )
    }
}

impl Device {
    /// The rules a request for a bind group is held to, and all that its entries bind
    /// when it passes them:
    /// - the request must have as many entries as the layout;
    /// - the layout must not have been destroyed;
    /// - each entry, in the order of the request, must name a binding that the layout
    ///   declares, and what it binds must pass the rules on bindings;
    /// - no binding may be named twice; of the bindings that are, the least is reported.
    pub open spec fn spec_create_bind_group<RL, RB, RT, RV, RS>(
        &self,
        layout: &BindGroupLayout<RL>,
        desc: &BindGroupDescriptor,
        hub: &Hub<RB, RT, RV, RS>,
    ) -> Result<BindGroupParts, CreateBindGroupError> {
        if desc.entries@.len() != layout.entries@.len() {
            Err(
                CreateBindGroupError::BindingsNumMismatch {
                    expected: layout.entries@.len() as usize,
                    actual: desc.entries@.len() as usize,
                },
            )
        } else if layout.raw is None {
            Err(CreateBindGroupError::InvalidLayout)
        } else {
            match spec_bind_entries(
                desc.entries@,
                desc.entries@.len() as int,
                layout.entries@,
                hub,
                self.features,
                &self.limits,
            ) {
                Err(e) => Err(e),
                Ok(parts) => match spec_first_duplicate(
                    spec_sort_by_binding(parts.entries),
                    parts.entries.len() as int,
                ) {
                    Some(binding) => Err(CreateBindGroupError::DuplicateBinding(binding)),
                    None => Ok(parts),
                },
            }
        }
    }

    /// Checks a request for a bind group against `layout` and the tables of resources,
    /// and says what to ask of the hardware.
    ///
    /// Nothing has been asked of the hardware when this returns.
    #[verifier::loop_isolation(false)]
    pub fn create_bind_group<RL, RB, RT, RV, RS>(
        &self,
        layout: &BindGroupLayout<RL>,
        desc: &BindGroupDescriptor,
        hub: &Hub<RB, RT, RV, RS>,
    ) -> (r: Result<BindGroupPlan, CreateBindGroupError>)
        ensures
            match self.spec_create_bind_group(layout, desc, hub) {
                Err(e) => r == Err::<BindGroupPlan, CreateBindGroupError>(e),
                Ok(parts) => r matches Ok(plan) && plan.holds(parts, layout.entries@),
            },
    {
        let actual = desc.entries.len();
        let expected = layout.entries.len();
        if actual != expected {
            return Err(CreateBindGroupError::BindingsNumMismatch { expected, actual });
        }
        if layout.raw.is_none() {
            return Err(CreateBindGroupError::InvalidLayout);
        }
        let mut builder = BindGroupBuilder::new();
        let mut i: usize = 0;
        while i < desc.entries.len()
            invariant
                i <= desc.entries@.len(),
                spec_bind_entries(
                    desc.entries@,
                    i as int,
                    layout.entries@,
                    hub,
                    self.features,
                    &self.limits,
                ) == Ok::<BindGroupParts, CreateBindGroupError>(builder@),
            decreases desc.entries@.len() - i,
        {
            let entry = &desc.entries[i];
            let outcome = match layout.entries.get(entry.binding) {
                Some(decl) => builder.bind_entry(entry, decl, hub, self.features, &self.limits),
                None => Err(CreateBindGroupError::MissingBindingDeclaration(entry.binding)),
            };
            match outcome {
                Ok(()) => {},
                Err(e) => {
                    proof {
                        assert(spec_bind_entries(
                            desc.entries@,
                            i as int + 1,
                            layout.entries@,
                            hub,
                            self.features,
                            &self.limits,
                        ) == Err::<BindGroupParts, CreateBindGroupError>(e));
                        lemma_bind_entries_error_stays(
                            desc.entries@,
                            i as int + 1,
                            desc.entries@.len() as int,
                            layout.entries@,
                            hub,
                            self.features,
                            &self.limits,
                        );
                    }
                    return Err(e);
                },
            }
            i += 1;
        }
        let ghost parts = builder@;
        let BindGroupBuilder {
            hal_entries,
            hal_buffers,
            hal_samplers,
            hal_textures,
            mut used,
            used_buffer_ranges,
            used_texture_ranges,
            dynamic_binding_info,
            late_buffer_binding_sizes,
        } = builder;
        used.optimize();
        let entries = sort_by_binding(&hal_entries);
        proof {
            lemma_sort_by_binding(parts.entries);
        }
        match first_duplicate(&entries) {
            Some(binding) => {
                return Err(CreateBindGroupError::DuplicateBinding(binding));
            },
            None => {},
        }
        let declared = layout.entries.entries();
        let mut late_sizes: Vec<u64> = Vec::new();
        let mut i: usize = 0;
        while i < declared.len()
            invariant
                i <= declared@.len(),
                late_sizes@ == spec_late_sizes(declared@, late_buffer_binding_sizes@, i as int),
            decreases declared@.len() - i,
        {
            match late_buffer_binding_sizes.get(&declared[i].binding) {
                Some(size) => {
                    late_sizes.push(*size);
                },
                None => {},
            }
            i += 1;
        }
        Ok(
            BindGroupPlan {
                entries,
                buffers: hal_buffers,
                samplers: hal_samplers,
                textures: hal_textures,
                used,
                used_buffer_ranges,
                used_texture_ranges,
                dynamic_binding_info,
                late_buffer_binding_sizes: late_sizes,
            },
        )
    }
}

/// A bind group that was created. `R` is the handle of the hardware bind group.
#[derive(Debug, PartialEq, Eq)]
pub struct BindGroup<R> {
    /// The hardware bind group; gone once the bind group has been destroyed.
    pub raw: Option<R>,
    pub layout_id: BindGroupLayoutId,
    pub info: ResourceInfo,
    pub used: BindGroupStates,
    pub used_buffer_ranges: Vec<BufferInitTrackerAction>,
    pub used_texture_ranges: Vec<TextureInitTrackerAction>,
    pub dynamic_binding_info: Vec<BindGroupDynamicBindingData>,
    pub late_buffer_binding_sizes: Vec<u64>,
}

/// The record of the bind group that the hardware made to `plan`, or the failure of the
/// hardware to make one.
pub fn create_bind_group_from_hal<R>(
    plan: BindGroupPlan,
    layout_id: BindGroupLayoutId,
    label: String,
    raw: Result<R, DeviceError>,
) -> (r: Result<BindGroup<R>, CreateBindGroupError>)
    ensures
        match raw {
            Err(e) => r == Err::<BindGroup<R>, CreateBindGroupError>(
                CreateBindGroupError::Device(e),
            ),
            Ok(handle) => r matches Ok(group) && {
                &&& group.raw == Some(handle)
                &&& group.layout_id == layout_id
                &&& group.used == plan.used
                &&& group.used_buffer_ranges == plan.used_buffer_ranges
                &&& group.used_texture_ranges == plan.used_texture_ranges
                &&& group.dynamic_binding_info == plan.dynamic_binding_info
                &&& group.late_buffer_binding_sizes == plan.late_buffer_binding_sizes
                &&& group.info.label == label
                &&& group.info.id is None
            },
        },
{
    match raw {
        Err(e) => Err(CreateBindGroupError::Device(e)),
        Ok(handle) => Ok(
            BindGroup {
                raw: Some(handle),
                layout_id,
                info: ResourceInfo::new(label),
                used: plan.used,
                used_buffer_ranges: plan.used_buffer_ranges,
                used_texture_ranges: plan.used_texture_ranges,
                dynamic_binding_info: plan.dynamic_binding_info,
                late_buffer_binding_sizes: plan.late_buffer_binding_sizes,
            },
        ),
    }
}

/// A request with another number of entries than the layout fails with a mismatch of
/// the two numbers, whatever the entries are.
pub proof fn lemma_entry_count_mismatch<RL, RB, RT, RV, RS>(
    device: Device,
    layout: BindGroupLayout<RL>,
    desc: BindGroupDescriptor,
    hub: Hub<RB, RT, RV, RS>,
)
    requires
        desc.entries@.len() != layout.entries@.len(),
    ensures
        device.spec_create_bind_group(&layout, &desc, &hub) == Err::<
            BindGroupParts,
            CreateBindGroupError,
        >(
            CreateBindGroupError::BindingsNumMismatch {
                expected: layout.entries@.len() as usize,
                actual: desc.entries@.len() as usize,
            },
        ),
{
}

/// In a bind group that is created, the entries stand in the order of their bindings,
/// no binding occurs twice, and they are the entries that were gathered.
pub proof fn lemma_created_entries_are_sorted<RL, RB, RT, RV, RS>(
    device: Device,
    layout: BindGroupLayout<RL>,
    desc: BindGroupDescriptor,
    hub: Hub<RB, RT, RV, RS>,
)
    ensures
        device.spec_create_bind_group(&layout, &desc, &hub) matches Ok(parts) ==> {
            let sorted = spec_sort_by_binding(parts.entries);
            &&& forall|i: int, j: int|
                0 <= i < j < sorted.len() ==> sorted[i].binding < sorted[j].binding
            &&& sorted.to_multiset() == parts.entries.to_multiset()
        },
{
    if device.spec_create_bind_group(&layout, &desc, &hub) is Ok {
        let parts = device.spec_create_bind_group(&layout, &desc, &hub)->Ok_0;
        lemma_sort_by_binding(parts.entries);
        lemma_first_duplicate(spec_sort_by_binding(parts.entries), parts.entries.len() as int);
    }
}

} // verus!
