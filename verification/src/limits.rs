//! The numeric limits and the alignments a device works under.

use crate::flags::DownlevelFlags;
use vstd::prelude::*;

verus! {

/// Buffer copies must start at a multiple of this many bytes, and so must buffer sizes
/// that are mapped at creation.
pub const COPY_BUFFER_ALIGNMENT: u64 = 4;

/// Vertex buffer strides must be a multiple of this many bytes.
pub const VERTEX_STRIDE_ALIGNMENT: u64 = 4;

/// Both ends of a push-constant range must be a multiple of this many bytes.
pub const PUSH_CONSTANT_ALIGNMENT: u32 = 4;

/// A query set holds at most this many queries.
pub const QUERY_SET_MAX_QUERIES: u32 = 8192;

/// A texture has at most this many mip levels.
pub const MAX_MIP_LEVELS: u32 = 16;

/// A pipeline layout has at most this many bind groups, whatever the device allows.
pub const MAX_BIND_GROUPS: usize = 8;

/// A render pipeline has at most this many color targets.
pub const MAX_COLOR_ATTACHMENTS: usize = 8;

/// The largest anisotropy clamp the hardware layer accepts.
pub const MAX_ANISOTROPY: u16 = 16;

/// Size in bytes of the zero-filled buffer a device keeps for clearing textures.
pub const ZERO_BUFFER_SIZE: u64 = 0x8_0000;

/// How long, in milliseconds, a maintenance pass waits on the fence.
pub const CLEANUP_WAIT_MS: u32 = 5000;

/// The limits a device was opened with. A request beyond one of them is rejected.
#[derive(Clone, Debug, PartialEq, Eq)]
pub struct Limits {
    pub max_texture_dimension_1d: u32,
    pub max_texture_dimension_2d: u32,
    pub max_texture_dimension_3d: u32,
    pub max_texture_array_layers: u32,
    pub max_bind_groups: u32,
    pub max_bindings_per_bind_group: u32,
    pub max_dynamic_uniform_buffers_per_pipeline_layout: u32,
    pub max_dynamic_storage_buffers_per_pipeline_layout: u32,
    pub max_sampled_textures_per_shader_stage: u32,
    pub max_samplers_per_shader_stage: u32,
    pub max_storage_buffers_per_shader_stage: u32,
    pub max_storage_textures_per_shader_stage: u32,
    pub max_uniform_buffers_per_shader_stage: u32,
    pub max_uniform_buffer_binding_size: u32,
    pub max_storage_buffer_binding_size: u32,
    pub max_vertex_buffers: u32,
    pub max_buffer_size: u64,
    pub max_vertex_attributes: u32,
    pub max_vertex_buffer_array_stride: u32,
    pub min_uniform_buffer_offset_alignment: u32,
    pub min_storage_buffer_offset_alignment: u32,
    pub max_inter_stage_shader_components: u32,
    pub max_compute_workgroup_storage_size: u32,
    pub max_compute_invocations_per_workgroup: u32,
    pub max_compute_workgroup_size_x: u32,
    pub max_compute_workgroup_size_y: u32,
    pub max_compute_workgroup_size_z: u32,
    pub max_compute_workgroups_per_dimension: u32,
    pub max_push_constant_size: u32,
}

/// Alignments the hardware asks of buffer copies.
#[derive(Clone, Copy, Debug, PartialEq, Eq, Structural)]
pub struct Alignments {
    /// Alignment of the start of a buffer used as a copy source; not zero.
    pub buffer_copy_offset: u64,
    /// Alignment of the row pitch of texture data in a buffer; not zero.
    pub buffer_copy_pitch: u64,
}

/// Tiers of shader features, from the oldest to the newest.
#[derive(Clone, Copy, Debug, PartialEq, Eq, Structural)]
pub enum ShaderModel {
    Sm2,
    Sm4,
    Sm5,
}

/// The ways in which a platform falls short of the baseline standard.
#[derive(Clone, Copy, Debug, PartialEq, Eq, Structural)]
pub struct DownlevelCapabilities {
    pub flags: DownlevelFlags,
    pub shader_model: ShaderModel,
}

impl DownlevelCapabilities {
    /// A platform is compliant when it has every flag but, possibly, anisotropic
    /// filtering, and the newest shader model.
    pub open spec fn spec_is_webgpu_compliant(self) -> bool {
        self.flags.contains(DownlevelFlags::COMPLIANT) && self.shader_model == ShaderModel::Sm5
    }

    /// Whether the platform supports the whole baseline standard.
    #[verifier::when_used_as_spec(spec_is_webgpu_compliant)]
    pub fn is_webgpu_compliant(self) -> (r: bool)
        ensures
            r == self.spec_is_webgpu_compliant(),
    {
        downlevel_is_compliant(self)
    }
}

/// Trusted: calls `wgpu_types::DownlevelCapabilities::is_webgpu_compliant` on the same flags
/// and shader model. That function asks for all of the compliant flags, for a shader model
/// of at least `Sm5`, which is the newest there is, and for downlevel limits equal to the
/// default ones, which they always are, as the type of those limits has no field.
#[verifier::external_body]
fn downlevel_is_compliant(caps: DownlevelCapabilities) -> (r: bool)
    ensures
        r == caps.spec_is_webgpu_compliant(),
{
    wgpu_types::DownlevelCapabilities {
        flags: wgpu_types::DownlevelFlags::from_bits_retain(caps.flags.bits),
        limits: wgpu_types::DownlevelLimits {},
        shader_model: match caps.shader_model {
            ShaderModel::Sm2 => wgpu_types::ShaderModel::Sm2,
            ShaderModel::Sm4 => wgpu_types::ShaderModel::Sm4,
            ShaderModel::Sm5 => wgpu_types::ShaderModel::Sm5,
        },
    }.is_webgpu_compliant()
}

} // verus!
