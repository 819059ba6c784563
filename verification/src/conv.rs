//! From what a user declares to what the hardware layer is asked for.

use crate::flags::{
    BindGroupLayoutFlags, BufferUsages, BufferUses, Features, FormatAspects, TextureUsages,
    TextureUses,
};
use vstd::prelude::*;

verus! {

pub open spec fn spec_is_power_of_two_u32(val: u32) -> bool {
    val != 0 && (val & ((val - 1) as u32)) == 0
}

/// Whether exactly one bit of `val` is set.
#[verifier::when_used_as_spec(spec_is_power_of_two_u32)]
pub fn is_power_of_two_u32(val: u32) -> (r: bool)
    ensures
        r == spec_is_power_of_two_u32(val),
{
    val != 0 && (val & (val - 1)) == 0
}

/// Each declared usage turns on its hardware usage; storage turns on both reading and
/// writing storage.
pub open spec fn spec_map_buffer_usage(usage: BufferUsages) -> BufferUses {
    BufferUses { bits: 0 }.with_if(
        BufferUses::MAP_READ,
        usage.contains(BufferUsages::MAP_READ),
    ).with_if(BufferUses::MAP_WRITE, usage.contains(BufferUsages::MAP_WRITE)).with_if(
        BufferUses::COPY_SRC,
        usage.contains(BufferUsages::COPY_SRC),
    ).with_if(BufferUses::COPY_DST, usage.contains(BufferUsages::COPY_DST)).with_if(
        BufferUses::INDEX,
        usage.contains(BufferUsages::INDEX),
    ).with_if(BufferUses::VERTEX, usage.contains(BufferUsages::VERTEX)).with_if(
        BufferUses::UNIFORM,
        usage.contains(BufferUsages::UNIFORM),
    ).with_if(
        BufferUses::STORAGE_READ | BufferUses::STORAGE_READ_WRITE,
        usage.contains(BufferUsages::STORAGE),
    ).with_if(BufferUses::INDIRECT, usage.contains(BufferUsages::INDIRECT))
}

/// The hardware usages that the declared usages of a buffer stand for.
#[verifier::when_used_as_spec(spec_map_buffer_usage)]
pub fn map_buffer_usage(usage: BufferUsages) -> (u: BufferUses)
    ensures
        u == spec_map_buffer_usage(usage),
{
    let u = BufferUses::empty();
    let u = u.with_if(BufferUses::MAP_READ, usage.contains(BufferUsages::MAP_READ));
    let u = u.with_if(BufferUses::MAP_WRITE, usage.contains(BufferUsages::MAP_WRITE));
    let u = u.with_if(BufferUses::COPY_SRC, usage.contains(BufferUsages::COPY_SRC));
    let u = u.with_if(BufferUses::COPY_DST, usage.contains(BufferUsages::COPY_DST));
    let u = u.with_if(BufferUses::INDEX, usage.contains(BufferUsages::INDEX));
    let u = u.with_if(BufferUses::VERTEX, usage.contains(BufferUsages::VERTEX));
    let u = u.with_if(BufferUses::UNIFORM, usage.contains(BufferUsages::UNIFORM));
    let u = u.with_if(
        BufferUses::STORAGE_READ | BufferUses::STORAGE_READ_WRITE,
        usage.contains(BufferUsages::STORAGE),
    );
    u.with_if(BufferUses::INDIRECT, usage.contains(BufferUsages::INDIRECT))
}

/// Each declared usage turns on its hardware usage. A render attachment is a color target
/// where the format has a color aspect, and a depth-stencil target, read and written,
/// where it has not.
pub open spec fn spec_map_texture_usage(usage: TextureUsages, aspect: FormatAspects) -> TextureUses {
    let is_color = aspect.contains(FormatAspects::COLOR);
    TextureUses { bits: 0 }.with_if(
        TextureUses::COPY_SRC,
        usage.contains(TextureUsages::COPY_SRC),
    ).with_if(TextureUses::COPY_DST, usage.contains(TextureUsages::COPY_DST)).with_if(
        TextureUses::RESOURCE,
        usage.contains(TextureUsages::TEXTURE_BINDING),
    ).with_if(
        TextureUses::STORAGE_READ | TextureUses::STORAGE_READ_WRITE,
        usage.contains(TextureUsages::STORAGE_BINDING),
    ).with_if(
        TextureUses::COLOR_TARGET,
        usage.contains(TextureUsages::RENDER_ATTACHMENT) && is_color,
    ).with_if(
        TextureUses::DEPTH_STENCIL_READ | TextureUses::DEPTH_STENCIL_WRITE,
        usage.contains(TextureUsages::RENDER_ATTACHMENT) && !is_color,
    )
}

/// The hardware usages that the declared usages of a texture stand for.
#[verifier::when_used_as_spec(spec_map_texture_usage)]
pub fn map_texture_usage(usage: TextureUsages, aspect: FormatAspects) -> (u: TextureUses)
    ensures
        u == spec_map_texture_usage(usage, aspect),
{
    let is_color = aspect.contains(FormatAspects::COLOR);
    let u = TextureUses::empty();
    let u = u.with_if(TextureUses::COPY_SRC, usage.contains(TextureUsages::COPY_SRC));
    let u = u.with_if(TextureUses::COPY_DST, usage.contains(TextureUsages::COPY_DST));
    let u = u.with_if(TextureUses::RESOURCE, usage.contains(TextureUsages::TEXTURE_BINDING));
    let u = u.with_if(
        TextureUses::STORAGE_READ | TextureUses::STORAGE_READ_WRITE,
        usage.contains(TextureUsages::STORAGE_BINDING),
    );
    let u = u.with_if(
        TextureUses::COLOR_TARGET,
        usage.contains(TextureUsages::RENDER_ATTACHMENT) && is_color,
    );
    u.with_if(
        TextureUses::DEPTH_STENCIL_READ | TextureUses::DEPTH_STENCIL_WRITE,
        usage.contains(TextureUsages::RENDER_ATTACHMENT) && !is_color,
    )
}

pub open spec fn spec_bind_group_layout_flags(features: Features) -> BindGroupLayoutFlags {
    BindGroupLayoutFlags { bits: 0 }.with_if(
        BindGroupLayoutFlags::PARTIALLY_BOUND,
        features.contains(Features::PARTIALLY_BOUND_BINDING_ARRAY),
    )
}

/// A bind group layout is partially bound where the device has that feature.
#[verifier::when_used_as_spec(spec_bind_group_layout_flags)]
pub fn bind_group_layout_flags(features: Features) -> (r: BindGroupLayoutFlags)
    ensures
        r == spec_bind_group_layout_flags(features),
{
    BindGroupLayoutFlags::empty().with_if(
        BindGroupLayoutFlags::PARTIALLY_BOUND,
        features.contains(Features::PARTIALLY_BOUND_BINDING_ARRAY),
    )
}

} // verus!
