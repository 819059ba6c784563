//! Bit sets of capabilities and usages.
//!
//! Every set is a thin wrapper over an unsigned integer. A method that asks about, adds or
//! removes flags takes them as a raw mask, so that the named constants can be combined with
//! `|` at the call site.

use vstd::prelude::*;

verus! {

/// Optional capabilities a device was opened with.
#[derive(Clone, Copy, Debug, PartialEq, Eq, Hash, Structural)]
pub struct Features {
    pub bits: u64,
}

impl Features {
    pub const DEPTH_CLIP_CONTROL: u64 = 0x0000_0000_0000_0001;
    pub const TIMESTAMP_QUERY: u64 = 0x0000_0000_0000_0002;
    pub const INDIRECT_FIRST_INSTANCE: u64 = 0x0000_0000_0000_0004;
    pub const SHADER_F16: u64 = 0x0000_0000_0000_0100;
    pub const RG11B10UFLOAT_RENDERABLE: u64 = 0x0000_0000_0080_0000;
    pub const DEPTH32FLOAT_STENCIL8: u64 = 0x0000_0000_0100_0000;
    pub const TEXTURE_COMPRESSION_BC: u64 = 0x0000_0000_0200_0000;
    pub const TEXTURE_COMPRESSION_ETC2: u64 = 0x0000_0000_0400_0000;
    pub const TEXTURE_COMPRESSION_ASTC: u64 = 0x0000_0000_0800_0000;
    pub const TEXTURE_FORMAT_16BIT_NORM: u64 = 0x0000_0000_2000_0000;
    pub const TEXTURE_COMPRESSION_ASTC_HDR: u64 = 0x0000_0000_4000_0000;
    pub const TEXTURE_ADAPTER_SPECIFIC_FORMAT_FEATURES: u64 = 0x0000_0000_8000_0000;
    pub const PIPELINE_STATISTICS_QUERY: u64 = 0x0000_0001_0000_0000;
    pub const TIMESTAMP_QUERY_INSIDE_PASSES: u64 = 0x0000_0002_0000_0000;
    pub const MAPPABLE_PRIMARY_BUFFERS: u64 = 0x0000_0004_0000_0000;
    pub const TEXTURE_BINDING_ARRAY: u64 = 0x0000_0008_0000_0000;
    pub const BUFFER_BINDING_ARRAY: u64 = 0x0000_0010_0000_0000;
    pub const STORAGE_RESOURCE_BINDING_ARRAY: u64 = 0x0000_0020_0000_0000;
    pub const SAMPLED_TEXTURE_AND_STORAGE_BUFFER_ARRAY_NON_UNIFORM_INDEXING: u64 = 0x0000_0040_0000_0000;
    pub const UNIFORM_BUFFER_AND_STORAGE_TEXTURE_ARRAY_NON_UNIFORM_INDEXING: u64 = 0x0000_0080_0000_0000;
    pub const PARTIALLY_BOUND_BINDING_ARRAY: u64 = 0x0000_0100_0000_0000;
    pub const MULTI_DRAW_INDIRECT: u64 = 0x0000_0200_0000_0000;
    pub const MULTI_DRAW_INDIRECT_COUNT: u64 = 0x0000_0400_0000_0000;
    pub const PUSH_CONSTANTS: u64 = 0x0000_0800_0000_0000;
    pub const ADDRESS_MODE_CLAMP_TO_ZERO: u64 = 0x0000_1000_0000_0000;
    pub const ADDRESS_MODE_CLAMP_TO_BORDER: u64 = 0x0000_2000_0000_0000;
    pub const POLYGON_MODE_LINE: u64 = 0x0000_4000_0000_0000;
    pub const POLYGON_MODE_POINT: u64 = 0x0000_8000_0000_0000;
    pub const CONSERVATIVE_RASTERIZATION: u64 = 0x0001_0000_0000_0000;
    pub const VERTEX_WRITABLE_STORAGE: u64 = 0x0002_0000_0000_0000;
    pub const CLEAR_TEXTURE: u64 = 0x0004_0000_0000_0000;
    pub const SPIRV_SHADER_PASSTHROUGH: u64 = 0x0008_0000_0000_0000;
    pub const MULTIVIEW: u64 = 0x0010_0000_0000_0000;
    pub const VERTEX_ATTRIBUTE_64BIT: u64 = 0x0020_0000_0000_0000;
    pub const SHADER_F64: u64 = 0x0800_0000_0000_0000;
    pub const SHADER_I16: u64 = 0x1000_0000_0000_0000;
    pub const SHADER_PRIMITIVE_INDEX: u64 = 0x2000_0000_0000_0000;
    pub const SHADER_EARLY_DEPTH_TEST: u64 = 0x4000_0000_0000_0000;
    /// Every flag this set knows.
    pub const ALL: u64 = 0x783F_FFFF_EF80_0107;

    /// The set with no flag in it.
    pub fn empty() -> (r: Self)
        ensures
            r.bits == 0,
    {
        Features { bits: 0 }
    }

    /// The set whose flags are the bits of `bits`, known or not.
    pub fn from_bits(bits: u64) -> (r: Self)
        ensures
            r.bits == bits,
    {
        Features { bits }
    }

    pub open spec fn spec_is_empty(self) -> bool {
        self.bits == 0
    }

    /// Whether no flag is set.
    #[verifier::when_used_as_spec(spec_is_empty)]
    pub fn is_empty(self) -> (r: bool)
        ensures
            r == self.spec_is_empty(),
    {
        self.bits == 0
    }

    pub open spec fn spec_contains(self, mask: u64) -> bool {
        self.bits & mask == mask
    }

    /// Whether every flag of `mask` is set.
    #[verifier::when_used_as_spec(spec_contains)]
    pub fn contains(self, mask: u64) -> (r: bool)
        ensures
            r == self.spec_contains(mask),
    {
        self.bits & mask == mask
    }

    pub open spec fn spec_intersects(self, mask: u64) -> bool {
        self.bits & mask != 0
    }

    /// Whether some flag of `mask` is set.
    #[verifier::when_used_as_spec(spec_intersects)]
    pub fn intersects(self, mask: u64) -> (r: bool)
        ensures
            r == self.spec_intersects(mask),
    {
        self.bits & mask != 0
    }

    pub open spec fn spec_with(self, mask: u64) -> Self {
        Features { bits: self.bits | mask }
    }

    /// This set and the flags of `mask`.
    #[verifier::when_used_as_spec(spec_with)]
    pub fn with(self, mask: u64) -> (r: Self)
        ensures
            r == self.spec_with(mask),
    {
        Features { bits: self.bits | mask }
    }

    pub open spec fn spec_only(self, mask: u64) -> Self {
        Features { bits: self.bits & mask }
    }

    /// The flags of this set that are also in `mask`.
    #[verifier::when_used_as_spec(spec_only)]
    pub fn only(self, mask: u64) -> (r: Self)
        ensures
            r == self.spec_only(mask),
    {
        Features { bits: self.bits & mask }
    }

    pub open spec fn spec_without(self, mask: u64) -> Self {
        Features { bits: self.bits & !mask }
    }

    /// The flags of this set that are not in `mask`.
    #[verifier::when_used_as_spec(spec_without)]
    pub fn without(self, mask: u64) -> (r: Self)
        ensures
            r == self.spec_without(mask),
    {
        Features { bits: self.bits & !mask }
    }

    pub open spec fn spec_with_if(self, mask: u64, on: bool) -> Self {
        if on {
            self.spec_with(mask)
        } else {
            self.spec_without(mask)
        }
    }

    /// This set with the flags of `mask` added if `on`, removed if not.
    #[verifier::when_used_as_spec(spec_with_if)]
    pub fn with_if(self, mask: u64, on: bool) -> (r: Self)
        ensures
            r == self.spec_with_if(mask, on),
    {
        if on {
            self.with(mask)
        } else {
            self.without(mask)
        }
    }

}

/// What a backend below the baseline standard still supports.
#[derive(Clone, Copy, Debug, PartialEq, Eq, Hash, Structural)]
pub struct DownlevelFlags {
    pub bits: u32,
}

impl DownlevelFlags {
    pub const COMPUTE_SHADERS: u32 = 0x0000_0001;
    pub const FRAGMENT_WRITABLE_STORAGE: u32 = 0x0000_0002;
    pub const INDIRECT_EXECUTION: u32 = 0x0000_0004;
    pub const BASE_VERTEX: u32 = 0x0000_0008;
    pub const READ_ONLY_DEPTH_STENCIL: u32 = 0x0000_0010;
    pub const NON_POWER_OF_TWO_MIPMAPPED_TEXTURES: u32 = 0x0000_0020;
    pub const CUBE_ARRAY_TEXTURES: u32 = 0x0000_0040;
    pub const COMPARISON_SAMPLERS: u32 = 0x0000_0080;
    pub const INDEPENDENT_BLEND: u32 = 0x0000_0100;
    pub const VERTEX_STORAGE: u32 = 0x0000_0200;
    pub const ANISOTROPIC_FILTERING: u32 = 0x0000_0400;
    pub const FRAGMENT_STORAGE: u32 = 0x0000_0800;
    pub const MULTISAMPLED_SHADING: u32 = 0x0000_1000;
    pub const DEPTH_TEXTURE_AND_BUFFER_COPIES: u32 = 0x0000_2000;
    pub const WEBGPU_TEXTURE_FORMAT_SUPPORT: u32 = 0x0000_4000;
    pub const BUFFER_BINDINGS_NOT_16_BYTE_ALIGNED: u32 = 0x0000_8000;
    pub const UNRESTRICTED_INDEX_BUFFER: u32 = 0x0001_0000;
    pub const FULL_DRAW_INDEX_UINT32: u32 = 0x0002_0000;
    pub const DEPTH_BIAS_CLAMP: u32 = 0x0004_0000;
    pub const VIEW_FORMATS: u32 = 0x0008_0000;
    pub const UNRESTRICTED_EXTERNAL_TEXTURE_COPIES: u32 = 0x0010_0000;
    pub const SURFACE_VIEW_FORMATS: u32 = 0x0020_0000;
    /// Every flag a compliant backend has: all of them but anisotropic filtering.
    pub const COMPLIANT: u32 = 0x003F_FBFF;
    /// Every flag this set knows.
    pub const ALL: u32 = 0x003F_FFFF;

    /// The set with no flag in it.
    pub fn empty() -> (r: Self)
        ensures
            r.bits == 0,
    {
        DownlevelFlags { bits: 0 }
    }

    /// The set whose flags are the bits of `bits`, known or not.
    pub fn from_bits(bits: u32) -> (r: Self)
        ensures
            r.bits == bits,
    {
        DownlevelFlags { bits }
    }

    pub open spec fn spec_is_empty(self) -> bool {
        self.bits == 0
    }

    /// Whether no flag is set.
    #[verifier::when_used_as_spec(spec_is_empty)]
    pub fn is_empty(self) -> (r: bool)
        ensures
            r == self.spec_is_empty(),
    {
        self.bits == 0
    }

    pub open spec fn spec_contains(self, mask: u32) -> bool {
        self.bits & mask == mask
    }

    /// Whether every flag of `mask` is set.
    #[verifier::when_used_as_spec(spec_contains)]
    pub fn contains(self, mask: u32) -> (r: bool)
        ensures
            r == self.spec_contains(mask),
    {
        self.bits & mask == mask
    }

    pub open spec fn spec_intersects(self, mask: u32) -> bool {
        self.bits & mask != 0
    }

    /// Whether some flag of `mask` is set.
    #[verifier::when_used_as_spec(spec_intersects)]
    pub fn intersects(self, mask: u32) -> (r: bool)
        ensures
            r == self.spec_intersects(mask),
    {
        self.bits & mask != 0
    }

    pub open spec fn spec_with(self, mask: u32) -> Self {
        DownlevelFlags { bits: self.bits | mask }
    }

    /// This set and the flags of `mask`.
    #[verifier::when_used_as_spec(spec_with)]
    pub fn with(self, mask: u32) -> (r: Self)
        ensures
            r == self.spec_with(mask),
    {
        DownlevelFlags { bits: self.bits | mask }
    }

    pub open spec fn spec_only(self, mask: u32) -> Self {
        DownlevelFlags { bits: self.bits & mask }
    }

    /// The flags of this set that are also in `mask`.
    #[verifier::when_used_as_spec(spec_only)]
    pub fn only(self, mask: u32) -> (r: Self)
        ensures
            r == self.spec_only(mask),
    {
        DownlevelFlags { bits: self.bits & mask }
    }

    pub open spec fn spec_without(self, mask: u32) -> Self {
        DownlevelFlags { bits: self.bits & !mask }
    }

    /// The flags of this set that are not in `mask`.
    #[verifier::when_used_as_spec(spec_without)]
    pub fn without(self, mask: u32) -> (r: Self)
        ensures
            r == self.spec_without(mask),
    {
        DownlevelFlags { bits: self.bits & !mask }
    }

    pub open spec fn spec_with_if(self, mask: u32, on: bool) -> Self {
        if on {
            self.spec_with(mask)
        } else {
            self.spec_without(mask)
        }
    }

    /// This set with the flags of `mask` added if `on`, removed if not.
    #[verifier::when_used_as_spec(spec_with_if)]
    pub fn with_if(self, mask: u32, on: bool) -> (r: Self)
        ensures
            r == self.spec_with_if(mask, on),
    {
        if on {
            self.with(mask)
        } else {
            self.without(mask)
        }
    }

}

/// Shader stages a binding or a push-constant range is visible to.
#[derive(Clone, Copy, Debug, PartialEq, Eq, Hash, Structural)]
pub struct ShaderStages {
    pub bits: u32,
}

impl ShaderStages {
    pub const VERTEX: u32 = 0x0000_0001;
    pub const FRAGMENT: u32 = 0x0000_0002;
    pub const COMPUTE: u32 = 0x0000_0004;
    /// No stage.
    pub const NONE: u32 = 0x0000_0000;
    /// Vertex and fragment stages.
    pub const VERTEX_FRAGMENT: u32 = 0x0000_0003;
    /// Every flag this set knows.
    pub const ALL: u32 = 0x0000_0007;

    /// The set with no flag in it.
    pub fn empty() -> (r: Self)
        ensures
            r.bits == 0,
    {
        ShaderStages { bits: 0 }
    }

    /// The set whose flags are the bits of `bits`, known or not.
    pub fn from_bits(bits: u32) -> (r: Self)
        ensures
            r.bits == bits,
    {
        ShaderStages { bits }
    }

    pub open spec fn spec_is_empty(self) -> bool {
        self.bits == 0
    }

    /// Whether no flag is set.
    #[verifier::when_used_as_spec(spec_is_empty)]
    pub fn is_empty(self) -> (r: bool)
        ensures
            r == self.spec_is_empty(),
    {
        self.bits == 0
    }

    pub open spec fn spec_contains(self, mask: u32) -> bool {
        self.bits & mask == mask
    }

    /// Whether every flag of `mask` is set.
    #[verifier::when_used_as_spec(spec_contains)]
    pub fn contains(self, mask: u32) -> (r: bool)
        ensures
            r == self.spec_contains(mask),
    {
        self.bits & mask == mask
    }

    pub open spec fn spec_intersects(self, mask: u32) -> bool {
        self.bits & mask != 0
    }

    /// Whether some flag of `mask` is set.
    #[verifier::when_used_as_spec(spec_intersects)]
    pub fn intersects(self, mask: u32) -> (r: bool)
        ensures
            r == self.spec_intersects(mask),
    {
        self.bits & mask != 0
    }

    pub open spec fn spec_with(self, mask: u32) -> Self {
        ShaderStages { bits: self.bits | mask }
    }

    /// This set and the flags of `mask`.
    #[verifier::when_used_as_spec(spec_with)]
    pub fn with(self, mask: u32) -> (r: Self)
        ensures
            r == self.spec_with(mask),
    {
        ShaderStages { bits: self.bits | mask }
    }

    pub open spec fn spec_only(self, mask: u32) -> Self {
        ShaderStages { bits: self.bits & mask }
    }

    /// The flags of this set that are also in `mask`.
    #[verifier::when_used_as_spec(spec_only)]
    pub fn only(self, mask: u32) -> (r: Self)
        ensures
            r == self.spec_only(mask),
    {
        ShaderStages { bits: self.bits & mask }
    }

    pub open spec fn spec_without(self, mask: u32) -> Self {
        ShaderStages { bits: self.bits & !mask }
    }

    /// The flags of this set that are not in `mask`.
    #[verifier::when_used_as_spec(spec_without)]
    pub fn without(self, mask: u32) -> (r: Self)
        ensures
            r == self.spec_without(mask),
    {
        ShaderStages { bits: self.bits & !mask }
    }

    pub open spec fn spec_with_if(self, mask: u32, on: bool) -> Self {
        if on {
            self.spec_with(mask)
        } else {
            self.spec_without(mask)
        }
    }

    /// This set with the flags of `mask` added if `on`, removed if not.
    #[verifier::when_used_as_spec(spec_with_if)]
    pub fn with_if(self, mask: u32, on: bool) -> (r: Self)
        ensures
            r == self.spec_with_if(mask, on),
    {
        if on {
            self.with(mask)
        } else {
            self.without(mask)
        }
    }

    pub open spec fn spec_contains_invalid_bits(self) -> bool {
        (self.bits | Self::ALL) != Self::ALL
    }

    /// Whether a bit is set that is none of the known flags.
    #[verifier::when_used_as_spec(spec_contains_invalid_bits)]
    pub fn contains_invalid_bits(self) -> (r: bool)
        ensures
            r == self.spec_contains_invalid_bits(),
    {
        (self.bits | Self::ALL) != Self::ALL
    }

}

/// Ways a buffer may be used, as its creator declared them.
#[derive(Clone, Copy, Debug, PartialEq, Eq, Hash, Structural)]
pub struct BufferUsages {
    pub bits: u32,
}

impl BufferUsages {
    pub const MAP_READ: u32 = 0x0000_0001;
    pub const MAP_WRITE: u32 = 0x0000_0002;
    pub const COPY_SRC: u32 = 0x0000_0004;
    pub const COPY_DST: u32 = 0x0000_0008;
    pub const INDEX: u32 = 0x0000_0010;
    pub const VERTEX: u32 = 0x0000_0020;
    pub const UNIFORM: u32 = 0x0000_0040;
    pub const STORAGE: u32 = 0x0000_0080;
    pub const INDIRECT: u32 = 0x0000_0100;
    pub const QUERY_RESOLVE: u32 = 0x0000_0200;
    /// Every flag this set knows.
    pub const ALL: u32 = 0x0000_03FF;

    /// The set with no flag in it.
    pub fn empty() -> (r: Self)
        ensures
            r.bits == 0,
    {
        BufferUsages { bits: 0 }
    }

    /// The set whose flags are the bits of `bits`, known or not.
    pub fn from_bits(bits: u32) -> (r: Self)
        ensures
            r.bits == bits,
    {
        BufferUsages { bits }
    }

    pub open spec fn spec_is_empty(self) -> bool {
        self.bits == 0
    }

    /// Whether no flag is set.
    #[verifier::when_used_as_spec(spec_is_empty)]
    pub fn is_empty(self) -> (r: bool)
        ensures
            r == self.spec_is_empty(),
    {
        self.bits == 0
    }

    pub open spec fn spec_contains(self, mask: u32) -> bool {
        self.bits & mask == mask
    }

    /// Whether every flag of `mask` is set.
    #[verifier::when_used_as_spec(spec_contains)]
    pub fn contains(self, mask: u32) -> (r: bool)
        ensures
            r == self.spec_contains(mask),
    {
        self.bits & mask == mask
    }

    pub open spec fn spec_intersects(self, mask: u32) -> bool {
        self.bits & mask != 0
    }

    /// Whether some flag of `mask` is set.
    #[verifier::when_used_as_spec(spec_intersects)]
    pub fn intersects(self, mask: u32) -> (r: bool)
        ensures
            r == self.spec_intersects(mask),
    {
        self.bits & mask != 0
    }

    pub open spec fn spec_with(self, mask: u32) -> Self {
        BufferUsages { bits: self.bits | mask }
    }

    /// This set and the flags of `mask`.
    #[verifier::when_used_as_spec(spec_with)]
    pub fn with(self, mask: u32) -> (r: Self)
        ensures
            r == self.spec_with(mask),
    {
        BufferUsages { bits: self.bits | mask }
    }

    pub open spec fn spec_only(self, mask: u32) -> Self {
        BufferUsages { bits: self.bits & mask }
    }

    /// The flags of this set that are also in `mask`.
    #[verifier::when_used_as_spec(spec_only)]
    pub fn only(self, mask: u32) -> (r: Self)
        ensures
            r == self.spec_only(mask),
    {
        BufferUsages { bits: self.bits & mask }
    }

    pub open spec fn spec_without(self, mask: u32) -> Self {
        BufferUsages { bits: self.bits & !mask }
    }

    /// The flags of this set that are not in `mask`.
    #[verifier::when_used_as_spec(spec_without)]
    pub fn without(self, mask: u32) -> (r: Self)
        ensures
            r == self.spec_without(mask),
    {
        BufferUsages { bits: self.bits & !mask }
    }

    pub open spec fn spec_with_if(self, mask: u32, on: bool) -> Self {
        if on {
            self.spec_with(mask)
        } else {
            self.spec_without(mask)
        }
    }

    /// This set with the flags of `mask` added if `on`, removed if not.
    #[verifier::when_used_as_spec(spec_with_if)]
    pub fn with_if(self, mask: u32, on: bool) -> (r: Self)
        ensures
            r == self.spec_with_if(mask, on),
    {
        if on {
            self.with(mask)
        } else {
            self.without(mask)
        }
    }

    pub open spec fn spec_contains_invalid_bits(self) -> bool {
        (self.bits | Self::ALL) != Self::ALL
    }

    /// Whether a bit is set that is none of the known flags.
    #[verifier::when_used_as_spec(spec_contains_invalid_bits)]
    pub fn contains_invalid_bits(self) -> (r: bool)
        ensures
            r == self.spec_contains_invalid_bits(),
    {
        (self.bits | Self::ALL) != Self::ALL
    }

}

/// Ways a texture may be used, as its creator declared them.
#[derive(Clone, Copy, Debug, PartialEq, Eq, Hash, Structural)]
pub struct TextureUsages {
    pub bits: u32,
}

impl TextureUsages {
    pub const COPY_SRC: u32 = 0x0000_0001;
    pub const COPY_DST: u32 = 0x0000_0002;
    pub const TEXTURE_BINDING: u32 = 0x0000_0004;
    pub const STORAGE_BINDING: u32 = 0x0000_0008;
    pub const RENDER_ATTACHMENT: u32 = 0x0000_0010;
    /// Every flag this set knows.
    pub const ALL: u32 = 0x0000_001F;

    /// The set with no flag in it.
    pub fn empty() -> (r: Self)
        ensures
            r.bits == 0,
    {
        TextureUsages { bits: 0 }
    }

    /// The set whose flags are the bits of `bits`, known or not.
    pub fn from_bits(bits: u32) -> (r: Self)
        ensures
            r.bits == bits,
    {
        TextureUsages { bits }
    }

    pub open spec fn spec_is_empty(self) -> bool {
        self.bits == 0
    }

    /// Whether no flag is set.
    #[verifier::when_used_as_spec(spec_is_empty)]
    pub fn is_empty(self) -> (r: bool)
        ensures
            r == self.spec_is_empty(),
    {
        self.bits == 0
    }

    pub open spec fn spec_contains(self, mask: u32) -> bool {
        self.bits & mask == mask
    }

    /// Whether every flag of `mask` is set.
    #[verifier::when_used_as_spec(spec_contains)]
    pub fn contains(self, mask: u32) -> (r: bool)
        ensures
            r == self.spec_contains(mask),
    {
        self.bits & mask == mask
    }

    pub open spec fn spec_intersects(self, mask: u32) -> bool {
        self.bits & mask != 0
    }

    /// Whether some flag of `mask` is set.
    #[verifier::when_used_as_spec(spec_intersects)]
    pub fn intersects(self, mask: u32) -> (r: bool)
        ensures
            r == self.spec_intersects(mask),
    {
        self.bits & mask != 0
    }

    pub open spec fn spec_with(self, mask: u32) -> Self {
        TextureUsages { bits: self.bits | mask }
    }

    /// This set and the flags of `mask`.
    #[verifier::when_used_as_spec(spec_with)]
    pub fn with(self, mask: u32) -> (r: Self)
        ensures
            r == self.spec_with(mask),
    {
        TextureUsages { bits: self.bits | mask }
    }

    pub open spec fn spec_only(self, mask: u32) -> Self {
        TextureUsages { bits: self.bits & mask }
    }

    /// The flags of this set that are also in `mask`.
    #[verifier::when_used_as_spec(spec_only)]
    pub fn only(self, mask: u32) -> (r: Self)
        ensures
            r == self.spec_only(mask),
    {
        TextureUsages { bits: self.bits & mask }
    }

    pub open spec fn spec_without(self, mask: u32) -> Self {
        TextureUsages { bits: self.bits & !mask }
    }

    /// The flags of this set that are not in `mask`.
    #[verifier::when_used_as_spec(spec_without)]
    pub fn without(self, mask: u32) -> (r: Self)
        ensures
            r == self.spec_without(mask),
    {
        TextureUsages { bits: self.bits & !mask }
    }

    pub open spec fn spec_with_if(self, mask: u32, on: bool) -> Self {
        if on {
            self.spec_with(mask)
        } else {
            self.spec_without(mask)
        }
    }

    /// This set with the flags of `mask` added if `on`, removed if not.
    #[verifier::when_used_as_spec(spec_with_if)]
    pub fn with_if(self, mask: u32, on: bool) -> (r: Self)
        ensures
            r == self.spec_with_if(mask, on),
    {
        if on {
            self.with(mask)
        } else {
            self.without(mask)
        }
    }

    pub open spec fn spec_contains_invalid_bits(self) -> bool {
        (self.bits | Self::ALL) != Self::ALL
    }

    /// Whether a bit is set that is none of the known flags.
    #[verifier::when_used_as_spec(spec_contains_invalid_bits)]
    pub fn contains_invalid_bits(self) -> (r: bool)
        ensures
            r == self.spec_contains_invalid_bits(),
    {
        (self.bits | Self::ALL) != Self::ALL
    }

}

/// Properties of a texture format on a given device.
#[derive(Clone, Copy, Debug, PartialEq, Eq, Hash, Structural)]
pub struct TextureFormatFeatureFlags {
    pub bits: u32,
}

impl TextureFormatFeatureFlags {
    pub const FILTERABLE: u32 = 0x0000_0001;
    pub const MULTISAMPLE_X2: u32 = 0x0000_0002;
    pub const MULTISAMPLE_X4: u32 = 0x0000_0004;
    pub const MULTISAMPLE_X8: u32 = 0x0000_0008;
    pub const MULTISAMPLE_X16: u32 = 0x0000_0010;
    pub const MULTISAMPLE_RESOLVE: u32 = 0x0000_0020;
    pub const STORAGE_READ_WRITE: u32 = 0x0000_0040;
    pub const BLENDABLE: u32 = 0x0000_0080;
    /// Every flag this set knows.
    pub const ALL: u32 = 0x0000_00FF;

    /// The set with no flag in it.
    pub fn empty() -> (r: Self)
        ensures
            r.bits == 0,
    {
        TextureFormatFeatureFlags { bits: 0 }
    }

    /// The set whose flags are the bits of `bits`, known or not.
    pub fn from_bits(bits: u32) -> (r: Self)
        ensures
            r.bits == bits,
    {
        TextureFormatFeatureFlags { bits }
    }

    pub open spec fn spec_is_empty(self) -> bool {
        self.bits == 0
    }

    /// Whether no flag is set.
    #[verifier::when_used_as_spec(spec_is_empty)]
    pub fn is_empty(self) -> (r: bool)
        ensures
            r == self.spec_is_empty(),
    {
        self.bits == 0
    }

    pub open spec fn spec_contains(self, mask: u32) -> bool {
        self.bits & mask == mask
    }

    /// Whether every flag of `mask` is set.
    #[verifier::when_used_as_spec(spec_contains)]
    pub fn contains(self, mask: u32) -> (r: bool)
        ensures
            r == self.spec_contains(mask),
    {
        self.bits & mask == mask
    }

    pub open spec fn spec_intersects(self, mask: u32) -> bool {
        self.bits & mask != 0
    }

    /// Whether some flag of `mask` is set.
    #[verifier::when_used_as_spec(spec_intersects)]
    pub fn intersects(self, mask: u32) -> (r: bool)
        ensures
            r == self.spec_intersects(mask),
    {
        self.bits & mask != 0
    }

    pub open spec fn spec_with(self, mask: u32) -> Self {
        TextureFormatFeatureFlags { bits: self.bits | mask }
    }

    /// This set and the flags of `mask`.
    #[verifier::when_used_as_spec(spec_with)]
    pub fn with(self, mask: u32) -> (r: Self)
        ensures
            r == self.spec_with(mask),
    {
        TextureFormatFeatureFlags { bits: self.bits | mask }
    }

    pub open spec fn spec_only(self, mask: u32) -> Self {
        TextureFormatFeatureFlags { bits: self.bits & mask }
    }

    /// The flags of this set that are also in `mask`.
    #[verifier::when_used_as_spec(spec_only)]
    pub fn only(self, mask: u32) -> (r: Self)
        ensures
            r == self.spec_only(mask),
    {
        TextureFormatFeatureFlags { bits: self.bits & mask }
    }

    pub open spec fn spec_without(self, mask: u32) -> Self {
        TextureFormatFeatureFlags { bits: self.bits & !mask }
    }

    /// The flags of this set that are not in `mask`.
    #[verifier::when_used_as_spec(spec_without)]
    pub fn without(self, mask: u32) -> (r: Self)
        ensures
            r == self.spec_without(mask),
    {
        TextureFormatFeatureFlags { bits: self.bits & !mask }
    }

    pub open spec fn spec_with_if(self, mask: u32, on: bool) -> Self {
        if on {
            self.spec_with(mask)
        } else {
            self.spec_without(mask)
        }
    }

    /// This set with the flags of `mask` added if `on`, removed if not.
    #[verifier::when_used_as_spec(spec_with_if)]
    pub fn with_if(self, mask: u32, on: bool) -> (r: Self)
        ensures
            r == self.spec_with_if(mask, on),
    {
        if on {
            self.with(mask)
        } else {
            self.without(mask)
        }
    }

}

/// Color channels a render target lets through.
#[derive(Clone, Copy, Debug, PartialEq, Eq, Hash, Structural)]
pub struct ColorWrites {
    pub bits: u32,
}

impl ColorWrites {
    pub const RED: u32 = 0x0000_0001;
    pub const GREEN: u32 = 0x0000_0002;
    pub const BLUE: u32 = 0x0000_0004;
    pub const ALPHA: u32 = 0x0000_0008;
    /// Red, green and blue.
    pub const COLOR: u32 = 0x0000_0007;
    /// Every flag this set knows.
    pub const ALL: u32 = 0x0000_000F;

    /// The set with no flag in it.
    pub fn empty() -> (r: Self)
        ensures
            r.bits == 0,
    {
        ColorWrites { bits: 0 }
    }

    /// The set whose flags are the bits of `bits`, known or not.
    pub fn from_bits(bits: u32) -> (r: Self)
        ensures
            r.bits == bits,
    {
        ColorWrites { bits }
    }

    pub open spec fn spec_is_empty(self) -> bool {
        self.bits == 0
    }

    /// Whether no flag is set.
    #[verifier::when_used_as_spec(spec_is_empty)]
    pub fn is_empty(self) -> (r: bool)
        ensures
            r == self.spec_is_empty(),
    {
        self.bits == 0
    }

    pub open spec fn spec_contains(self, mask: u32) -> bool {
        self.bits & mask == mask
    }

    /// Whether every flag of `mask` is set.
    #[verifier::when_used_as_spec(spec_contains)]
    pub fn contains(self, mask: u32) -> (r: bool)
        ensures
            r == self.spec_contains(mask),
    {
        self.bits & mask == mask
    }

    pub open spec fn spec_intersects(self, mask: u32) -> bool {
        self.bits & mask != 0
    }

    /// Whether some flag of `mask` is set.
    #[verifier::when_used_as_spec(spec_intersects)]
    pub fn intersects(self, mask: u32) -> (r: bool)
        ensures
            r == self.spec_intersects(mask),
    {
        self.bits & mask != 0
    }

    pub open spec fn spec_with(self, mask: u32) -> Self {
        ColorWrites { bits: self.bits | mask }
    }

    /// This set and the flags of `mask`.
    #[verifier::when_used_as_spec(spec_with)]
    pub fn with(self, mask: u32) -> (r: Self)
        ensures
            r == self.spec_with(mask),
    {
        ColorWrites { bits: self.bits | mask }
    }

    pub open spec fn spec_only(self, mask: u32) -> Self {
        ColorWrites { bits: self.bits & mask }
    }

    /// The flags of this set that are also in `mask`.
    #[verifier::when_used_as_spec(spec_only)]
    pub fn only(self, mask: u32) -> (r: Self)
        ensures
            r == self.spec_only(mask),
    {
        ColorWrites { bits: self.bits & mask }
    }

    pub open spec fn spec_without(self, mask: u32) -> Self {
        ColorWrites { bits: self.bits & !mask }
    }

    /// The flags of this set that are not in `mask`.
    #[verifier::when_used_as_spec(spec_without)]
    pub fn without(self, mask: u32) -> (r: Self)
        ensures
            r == self.spec_without(mask),
    {
        ColorWrites { bits: self.bits & !mask }
    }

    pub open spec fn spec_with_if(self, mask: u32, on: bool) -> Self {
        if on {
            self.spec_with(mask)
        } else {
            self.spec_without(mask)
        }
    }

    /// This set with the flags of `mask` added if `on`, removed if not.
    #[verifier::when_used_as_spec(spec_with_if)]
    pub fn with_if(self, mask: u32, on: bool) -> (r: Self)
        ensures
            r == self.spec_with_if(mask, on),
    {
        if on {
            self.with(mask)
        } else {
            self.without(mask)
        }
    }

    pub open spec fn spec_contains_invalid_bits(self) -> bool {
        (self.bits | Self::ALL) != Self::ALL
    }

    /// Whether a bit is set that is none of the known flags.
    #[verifier::when_used_as_spec(spec_contains_invalid_bits)]
    pub fn contains_invalid_bits(self) -> (r: bool)
        ensures
            r == self.spec_contains_invalid_bits(),
    {
        (self.bits | Self::ALL) != Self::ALL
    }

}

/// Hardware-level buffer usages, internal ones included.
#[derive(Clone, Copy, Debug, PartialEq, Eq, Hash, Structural)]
pub struct BufferUses {
    pub bits: u16,
}

impl BufferUses {
    pub const MAP_READ: u16 = 0x0001;
    pub const MAP_WRITE: u16 = 0x0002;
    pub const COPY_SRC: u16 = 0x0004;
    pub const COPY_DST: u16 = 0x0008;
    pub const INDEX: u16 = 0x0010;
    pub const VERTEX: u16 = 0x0020;
    pub const UNIFORM: u16 = 0x0040;
    pub const STORAGE_READ: u16 = 0x0080;
    pub const STORAGE_READ_WRITE: u16 = 0x0100;
    pub const INDIRECT: u16 = 0x0200;
    /// Every flag this set knows.
    pub const ALL: u16 = 0x03FF;

    /// The set with no flag in it.
    pub fn empty() -> (r: Self)
        ensures
            r.bits == 0,
    {
        BufferUses { bits: 0 }
    }

    /// The set whose flags are the bits of `bits`, known or not.
    pub fn from_bits(bits: u16) -> (r: Self)
        ensures
            r.bits == bits,
    {
        BufferUses { bits }
    }

    pub open spec fn spec_is_empty(self) -> bool {
        self.bits == 0
    }

    /// Whether no flag is set.
    #[verifier::when_used_as_spec(spec_is_empty)]
    pub fn is_empty(self) -> (r: bool)
        ensures
            r == self.spec_is_empty(),
    {
        self.bits == 0
    }

    pub open spec fn spec_contains(self, mask: u16) -> bool {
        self.bits & mask == mask
    }

    /// Whether every flag of `mask` is set.
    #[verifier::when_used_as_spec(spec_contains)]
    pub fn contains(self, mask: u16) -> (r: bool)
        ensures
            r == self.spec_contains(mask),
    {
        self.bits & mask == mask
    }

    pub open spec fn spec_intersects(self, mask: u16) -> bool {
        self.bits & mask != 0
    }

    /// Whether some flag of `mask` is set.
    #[verifier::when_used_as_spec(spec_intersects)]
    pub fn intersects(self, mask: u16) -> (r: bool)
        ensures
            r == self.spec_intersects(mask),
    {
        self.bits & mask != 0
    }

    pub open spec fn spec_with(self, mask: u16) -> Self {
        BufferUses { bits: self.bits | mask }
    }

    /// This set and the flags of `mask`.
    #[verifier::when_used_as_spec(spec_with)]
    pub fn with(self, mask: u16) -> (r: Self)
        ensures
            r == self.spec_with(mask),
    {
        BufferUses { bits: self.bits | mask }
    }

    pub open spec fn spec_only(self, mask: u16) -> Self {
        BufferUses { bits: self.bits & mask }
    }

    /// The flags of this set that are also in `mask`.
    #[verifier::when_used_as_spec(spec_only)]
    pub fn only(self, mask: u16) -> (r: Self)
        ensures
            r == self.spec_only(mask),
    {
        BufferUses { bits: self.bits & mask }
    }

    pub open spec fn spec_without(self, mask: u16) -> Self {
        BufferUses { bits: self.bits & !mask }
    }

    /// The flags of this set that are not in `mask`.
    #[verifier::when_used_as_spec(spec_without)]
    pub fn without(self, mask: u16) -> (r: Self)
        ensures
            r == self.spec_without(mask),
    {
        BufferUses { bits: self.bits & !mask }
    }

    pub open spec fn spec_with_if(self, mask: u16, on: bool) -> Self {
        if on {
            self.spec_with(mask)
        } else {
            self.spec_without(mask)
        }
    }

    /// This set with the flags of `mask` added if `on`, removed if not.
    #[verifier::when_used_as_spec(spec_with_if)]
    pub fn with_if(self, mask: u16, on: bool) -> (r: Self)
        ensures
            r == self.spec_with_if(mask, on),
    {
        if on {
            self.with(mask)
        } else {
            self.without(mask)
        }
    }

}

/// Hardware-level texture usages, internal ones included.
#[derive(Clone, Copy, Debug, PartialEq, Eq, Hash, Structural)]
pub struct TextureUses {
    pub bits: u16,
}

impl TextureUses {
    pub const UNINITIALIZED: u16 = 0x0001;
    pub const PRESENT: u16 = 0x0002;
    pub const COPY_SRC: u16 = 0x0004;
    pub const COPY_DST: u16 = 0x0008;
    pub const RESOURCE: u16 = 0x0010;
    pub const COLOR_TARGET: u16 = 0x0020;
    pub const DEPTH_STENCIL_READ: u16 = 0x0040;
    pub const DEPTH_STENCIL_WRITE: u16 = 0x0080;
    pub const STORAGE_READ: u16 = 0x0100;
    pub const STORAGE_READ_WRITE: u16 = 0x0200;
    pub const COMPLEX: u16 = 0x0400;
    pub const UNKNOWN: u16 = 0x0800;
    /// Every flag this set knows.
    pub const ALL: u16 = 0x0FFF;

    /// The set with no flag in it.
    pub fn empty() -> (r: Self)
        ensures
            r.bits == 0,
    {
        TextureUses { bits: 0 }
    }

    /// The set whose flags are the bits of `bits`, known or not.
    pub fn from_bits(bits: u16) -> (r: Self)
        ensures
            r.bits == bits,
    {
        TextureUses { bits }
    }

    pub open spec fn spec_is_empty(self) -> bool {
        self.bits == 0
    }

    /// Whether no flag is set.
    #[verifier::when_used_as_spec(spec_is_empty)]
    pub fn is_empty(self) -> (r: bool)
        ensures
            r == self.spec_is_empty(),
    {
        self.bits == 0
    }

    pub open spec fn spec_contains(self, mask: u16) -> bool {
        self.bits & mask == mask
    }

    /// Whether every flag of `mask` is set.
    #[verifier::when_used_as_spec(spec_contains)]
    pub fn contains(self, mask: u16) -> (r: bool)
        ensures
            r == self.spec_contains(mask),
    {
        self.bits & mask == mask
    }

    pub open spec fn spec_intersects(self, mask: u16) -> bool {
        self.bits & mask != 0
    }

    /// Whether some flag of `mask` is set.
    #[verifier::when_used_as_spec(spec_intersects)]
    pub fn intersects(self, mask: u16) -> (r: bool)
        ensures
            r == self.spec_intersects(mask),
    {
        self.bits & mask != 0
    }

    pub open spec fn spec_with(self, mask: u16) -> Self {
        TextureUses { bits: self.bits | mask }
    }

    /// This set and the flags of `mask`.
    #[verifier::when_used_as_spec(spec_with)]
    pub fn with(self, mask: u16) -> (r: Self)
        ensures
            r == self.spec_with(mask),
    {
        TextureUses { bits: self.bits | mask }
    }

    pub open spec fn spec_only(self, mask: u16) -> Self {
        TextureUses { bits: self.bits & mask }
    }

    /// The flags of this set that are also in `mask`.
    #[verifier::when_used_as_spec(spec_only)]
    pub fn only(self, mask: u16) -> (r: Self)
        ensures
            r == self.spec_only(mask),
    {
        TextureUses { bits: self.bits & mask }
    }

    pub open spec fn spec_without(self, mask: u16) -> Self {
        TextureUses { bits: self.bits & !mask }
    }

    /// The flags of this set that are not in `mask`.
    #[verifier::when_used_as_spec(spec_without)]
    pub fn without(self, mask: u16) -> (r: Self)
        ensures
            r == self.spec_without(mask),
    {
        TextureUses { bits: self.bits & !mask }
    }

    pub open spec fn spec_with_if(self, mask: u16, on: bool) -> Self {
        if on {
            self.spec_with(mask)
        } else {
            self.spec_without(mask)
        }
    }

    /// This set with the flags of `mask` added if `on`, removed if not.
    #[verifier::when_used_as_spec(spec_with_if)]
    pub fn with_if(self, mask: u16, on: bool) -> (r: Self)
        ensures
            r == self.spec_with_if(mask, on),
    {
        if on {
            self.with(mask)
        } else {
            self.without(mask)
        }
    }

}

/// The aspects (color, depth, stencil) a format or a view has.
#[derive(Clone, Copy, Debug, PartialEq, Eq, Hash, Structural)]
pub struct FormatAspects {
    pub bits: u8,
}

impl FormatAspects {
    pub const COLOR: u8 = 0x01;
    pub const DEPTH: u8 = 0x02;
    pub const STENCIL: u8 = 0x04;
    /// Every flag this set knows.
    pub const ALL: u8 = 0x07;

    /// The set with no flag in it.
    pub fn empty() -> (r: Self)
        ensures
            r.bits == 0,
    {
        FormatAspects { bits: 0 }
    }

    /// The set whose flags are the bits of `bits`, known or not.
    pub fn from_bits(bits: u8) -> (r: Self)
        ensures
            r.bits == bits,
    {
        FormatAspects { bits }
    }

    pub open spec fn spec_is_empty(self) -> bool {
        self.bits == 0
    }

    /// Whether no flag is set.
    #[verifier::when_used_as_spec(spec_is_empty)]
    pub fn is_empty(self) -> (r: bool)
        ensures
            r == self.spec_is_empty(),
    {
        self.bits == 0
    }

    pub open spec fn spec_contains(self, mask: u8) -> bool {
        self.bits & mask == mask
    }

    /// Whether every flag of `mask` is set.
    #[verifier::when_used_as_spec(spec_contains)]
    pub fn contains(self, mask: u8) -> (r: bool)
        ensures
            r == self.spec_contains(mask),
    {
        self.bits & mask == mask
    }

    pub open spec fn spec_intersects(self, mask: u8) -> bool {
        self.bits & mask != 0
    }

    /// Whether some flag of `mask` is set.
    #[verifier::when_used_as_spec(spec_intersects)]
    pub fn intersects(self, mask: u8) -> (r: bool)
        ensures
            r == self.spec_intersects(mask),
    {
        self.bits & mask != 0
    }

    pub open spec fn spec_with(self, mask: u8) -> Self {
        FormatAspects { bits: self.bits | mask }
    }

    /// This set and the flags of `mask`.
    #[verifier::when_used_as_spec(spec_with)]
    pub fn with(self, mask: u8) -> (r: Self)
        ensures
            r == self.spec_with(mask),
    {
        FormatAspects { bits: self.bits | mask }
    }

    pub open spec fn spec_only(self, mask: u8) -> Self {
        FormatAspects { bits: self.bits & mask }
    }

    /// The flags of this set that are also in `mask`.
    #[verifier::when_used_as_spec(spec_only)]
    pub fn only(self, mask: u8) -> (r: Self)
        ensures
            r == self.spec_only(mask),
    {
        FormatAspects { bits: self.bits & mask }
    }

    pub open spec fn spec_without(self, mask: u8) -> Self {
        FormatAspects { bits: self.bits & !mask }
    }

    /// The flags of this set that are not in `mask`.
    #[verifier::when_used_as_spec(spec_without)]
    pub fn without(self, mask: u8) -> (r: Self)
        ensures
            r == self.spec_without(mask),
    {
        FormatAspects { bits: self.bits & !mask }
    }

    pub open spec fn spec_with_if(self, mask: u8, on: bool) -> Self {
        if on {
            self.spec_with(mask)
        } else {
            self.spec_without(mask)
        }
    }

    /// This set with the flags of `mask` added if `on`, removed if not.
    #[verifier::when_used_as_spec(spec_with_if)]
    pub fn with_if(self, mask: u8, on: bool) -> (r: Self)
        ensures
            r == self.spec_with_if(mask, on),
    {
        if on {
            self.with(mask)
        } else {
            self.without(mask)
        }
    }

}

/// Hints on where a hardware allocation should live.
#[derive(Clone, Copy, Debug, PartialEq, Eq, Hash, Structural)]
pub struct MemoryFlags {
    pub bits: u32,
}

impl MemoryFlags {
    pub const TRANSIENT: u32 = 0x0000_0001;
    pub const PREFER_COHERENT: u32 = 0x0000_0002;
    /// Every flag this set knows.
    pub const ALL: u32 = 0x0000_0003;

    /// The set with no flag in it.
    pub fn empty() -> (r: Self)
        ensures
            r.bits == 0,
    {
        MemoryFlags { bits: 0 }
    }

    /// The set whose flags are the bits of `bits`, known or not.
    pub fn from_bits(bits: u32) -> (r: Self)
        ensures
            r.bits == bits,
    {
        MemoryFlags { bits }
    }

    pub open spec fn spec_is_empty(self) -> bool {
        self.bits == 0
    }

    /// Whether no flag is set.
    #[verifier::when_used_as_spec(spec_is_empty)]
    pub fn is_empty(self) -> (r: bool)
        ensures
            r == self.spec_is_empty(),
    {
        self.bits == 0
    }

    pub open spec fn spec_contains(self, mask: u32) -> bool {
        self.bits & mask == mask
    }

    /// Whether every flag of `mask` is set.
    #[verifier::when_used_as_spec(spec_contains)]
    pub fn contains(self, mask: u32) -> (r: bool)
        ensures
            r == self.spec_contains(mask),
    {
        self.bits & mask == mask
    }

    pub open spec fn spec_intersects(self, mask: u32) -> bool {
        self.bits & mask != 0
    }

    /// Whether some flag of `mask` is set.
    #[verifier::when_used_as_spec(spec_intersects)]
    pub fn intersects(self, mask: u32) -> (r: bool)
        ensures
            r == self.spec_intersects(mask),
    {
        self.bits & mask != 0
    }

    pub open spec fn spec_with(self, mask: u32) -> Self {
        MemoryFlags { bits: self.bits | mask }
    }

    /// This set and the flags of `mask`.
    #[verifier::when_used_as_spec(spec_with)]
    pub fn with(self, mask: u32) -> (r: Self)
        ensures
            r == self.spec_with(mask),
    {
        MemoryFlags { bits: self.bits | mask }
    }

    pub open spec fn spec_only(self, mask: u32) -> Self {
        MemoryFlags { bits: self.bits & mask }
    }

    /// The flags of this set that are also in `mask`.
    #[verifier::when_used_as_spec(spec_only)]
    pub fn only(self, mask: u32) -> (r: Self)
        ensures
            r == self.spec_only(mask),
    {
        MemoryFlags { bits: self.bits & mask }
    }

    pub open spec fn spec_without(self, mask: u32) -> Self {
        MemoryFlags { bits: self.bits & !mask }
    }

    /// The flags of this set that are not in `mask`.
    #[verifier::when_used_as_spec(spec_without)]
    pub fn without(self, mask: u32) -> (r: Self)
        ensures
            r == self.spec_without(mask),
    {
        MemoryFlags { bits: self.bits & !mask }
    }

    pub open spec fn spec_with_if(self, mask: u32, on: bool) -> Self {
        if on {
            self.spec_with(mask)
        } else {
            self.spec_without(mask)
        }
    }

    /// This set with the flags of `mask` added if `on`, removed if not.
    #[verifier::when_used_as_spec(spec_with_if)]
    pub fn with_if(self, mask: u32, on: bool) -> (r: Self)
        ensures
            r == self.spec_with_if(mask, on),
    {
        if on {
            self.with(mask)
        } else {
            self.without(mask)
        }
    }

}

/// Hardware-level options of a bind group layout.
#[derive(Clone, Copy, Debug, PartialEq, Eq, Hash, Structural)]
pub struct BindGroupLayoutFlags {
    pub bits: u32,
}

impl BindGroupLayoutFlags {
    pub const PARTIALLY_BOUND: u32 = 0x0000_0001;
    /// Every flag this set knows.
    pub const ALL: u32 = 0x0000_0001;

    /// The set with no flag in it.
    pub fn empty() -> (r: Self)
        ensures
            r.bits == 0,
    {
        BindGroupLayoutFlags { bits: 0 }
    }

    /// The set whose flags are the bits of `bits`, known or not.
    pub fn from_bits(bits: u32) -> (r: Self)
        ensures
            r.bits == bits,
    {
        BindGroupLayoutFlags { bits }
    }

    pub open spec fn spec_is_empty(self) -> bool {
        self.bits == 0
    }

    /// Whether no flag is set.
    #[verifier::when_used_as_spec(spec_is_empty)]
    pub fn is_empty(self) -> (r: bool)
        ensures
            r == self.spec_is_empty(),
    {
        self.bits == 0
    }

    pub open spec fn spec_contains(self, mask: u32) -> bool {
        self.bits & mask == mask
    }

    /// Whether every flag of `mask` is set.
    #[verifier::when_used_as_spec(spec_contains)]
    pub fn contains(self, mask: u32) -> (r: bool)
        ensures
            r == self.spec_contains(mask),
    {
        self.bits & mask == mask
    }

    pub open spec fn spec_intersects(self, mask: u32) -> bool {
        self.bits & mask != 0
    }

    /// Whether some flag of `mask` is set.
    #[verifier::when_used_as_spec(spec_intersects)]
    pub fn intersects(self, mask: u32) -> (r: bool)
        ensures
            r == self.spec_intersects(mask),
    {
        self.bits & mask != 0
    }

    pub open spec fn spec_with(self, mask: u32) -> Self {
        BindGroupLayoutFlags { bits: self.bits | mask }
    }

    /// This set and the flags of `mask`.
    #[verifier::when_used_as_spec(spec_with)]
    pub fn with(self, mask: u32) -> (r: Self)
        ensures
            r == self.spec_with(mask),
    {
        BindGroupLayoutFlags { bits: self.bits | mask }
    }

    pub open spec fn spec_only(self, mask: u32) -> Self {
        BindGroupLayoutFlags { bits: self.bits & mask }
    }

    /// The flags of this set that are also in `mask`.
    #[verifier::when_used_as_spec(spec_only)]
    pub fn only(self, mask: u32) -> (r: Self)
        ensures
            r == self.spec_only(mask),
    {
        BindGroupLayoutFlags { bits: self.bits & mask }
    }

    pub open spec fn spec_without(self, mask: u32) -> Self {
        BindGroupLayoutFlags { bits: self.bits & !mask }
    }

    /// The flags of this set that are not in `mask`.
    #[verifier::when_used_as_spec(spec_without)]
    pub fn without(self, mask: u32) -> (r: Self)
        ensures
            r == self.spec_without(mask),
    {
        BindGroupLayoutFlags { bits: self.bits & !mask }
    }

    pub open spec fn spec_with_if(self, mask: u32, on: bool) -> Self {
        if on {
            self.spec_with(mask)
        } else {
            self.spec_without(mask)
        }
    }

    /// This set with the flags of `mask` added if `on`, removed if not.
    #[verifier::when_used_as_spec(spec_with_if)]
    pub fn with_if(self, mask: u32, on: bool) -> (r: Self)
        ensures
            r == self.spec_with_if(mask, on),
    {
        if on {
            self.with(mask)
        } else {
            self.without(mask)
        }
    }

}

/// Hardware-level options of a pipeline layout.
#[derive(Clone, Copy, Debug, PartialEq, Eq, Hash, Structural)]
pub struct PipelineLayoutFlags {
    pub bits: u32,
}

impl PipelineLayoutFlags {
    pub const BASE_VERTEX_INSTANCE: u32 = 0x0000_0001;
    pub const NUM_WORK_GROUPS: u32 = 0x0000_0002;
    /// Every flag this set knows.
    pub const ALL: u32 = 0x0000_0003;

    /// The set with no flag in it.
    pub fn empty() -> (r: Self)
        ensures
            r.bits == 0,
    {
        PipelineLayoutFlags { bits: 0 }
    }

    /// The set whose flags are the bits of `bits`, known or not.
    pub fn from_bits(bits: u32) -> (r: Self)
        ensures
            r.bits == bits,
    {
        PipelineLayoutFlags { bits }
    }

    pub open spec fn spec_is_empty(self) -> bool {
        self.bits == 0
    }

    /// Whether no flag is set.
    #[verifier::when_used_as_spec(spec_is_empty)]
    pub fn is_empty(self) -> (r: bool)
        ensures
            r == self.spec_is_empty(),
    {
        self.bits == 0
    }

    pub open spec fn spec_contains(self, mask: u32) -> bool {
        self.bits & mask == mask
    }

    /// Whether every flag of `mask` is set.
    #[verifier::when_used_as_spec(spec_contains)]
    pub fn contains(self, mask: u32) -> (r: bool)
        ensures
            r == self.spec_contains(mask),
    {
        self.bits & mask == mask
    }

    pub open spec fn spec_intersects(self, mask: u32) -> bool {
        self.bits & mask != 0
    }

    /// Whether some flag of `mask` is set.
    #[verifier::when_used_as_spec(spec_intersects)]
    pub fn intersects(self, mask: u32) -> (r: bool)
        ensures
            r == self.spec_intersects(mask),
    {
        self.bits & mask != 0
    }

    pub open spec fn spec_with(self, mask: u32) -> Self {
        PipelineLayoutFlags { bits: self.bits | mask }
    }

    /// This set and the flags of `mask`.
    #[verifier::when_used_as_spec(spec_with)]
    pub fn with(self, mask: u32) -> (r: Self)
        ensures
            r == self.spec_with(mask),
    {
        PipelineLayoutFlags { bits: self.bits | mask }
    }

    pub open spec fn spec_only(self, mask: u32) -> Self {
        PipelineLayoutFlags { bits: self.bits & mask }
    }

    /// The flags of this set that are also in `mask`.
    #[verifier::when_used_as_spec(spec_only)]
    pub fn only(self, mask: u32) -> (r: Self)
        ensures
            r == self.spec_only(mask),
    {
        PipelineLayoutFlags { bits: self.bits & mask }
    }

    pub open spec fn spec_without(self, mask: u32) -> Self {
        PipelineLayoutFlags { bits: self.bits & !mask }
    }

    /// The flags of this set that are not in `mask`.
    #[verifier::when_used_as_spec(spec_without)]
    pub fn without(self, mask: u32) -> (r: Self)
        ensures
            r == self.spec_without(mask),
    {
        PipelineLayoutFlags { bits: self.bits & !mask }
    }

    pub open spec fn spec_with_if(self, mask: u32, on: bool) -> Self {
        if on {
            self.spec_with(mask)
        } else {
            self.spec_without(mask)
        }
    }

    /// This set with the flags of `mask` added if `on`, removed if not.
    #[verifier::when_used_as_spec(spec_with_if)]
    pub fn with_if(self, mask: u32, on: bool) -> (r: Self)
        ensures
            r == self.spec_with_if(mask, on),
    {
        if on {
            self.with(mask)
        } else {
            self.without(mask)
        }
    }

}

/// What a render pipeline needs set, or writes, when it runs.
#[derive(Clone, Copy, Debug, PartialEq, Eq, Hash, Structural)]
pub struct PipelineFlags {
    pub bits: u32,
}

impl PipelineFlags {
    pub const BLEND_CONSTANT: u32 = 0x0000_0001;
    pub const STENCIL_REFERENCE: u32 = 0x0000_0002;
    pub const WRITES_DEPTH: u32 = 0x0000_0004;
    pub const WRITES_STENCIL: u32 = 0x0000_0008;
    /// Every flag this set knows.
    pub const ALL: u32 = 0x0000_000F;

    /// The set with no flag in it.
    pub fn empty() -> (r: Self)
        ensures
            r.bits == 0,
    {
        PipelineFlags { bits: 0 }
    }

    /// The set whose flags are the bits of `bits`, known or not.
    pub fn from_bits(bits: u32) -> (r: Self)
        ensures
            r.bits == bits,
    {
        PipelineFlags { bits }
    }

    pub open spec fn spec_is_empty(self) -> bool {
        self.bits == 0
    }

    /// Whether no flag is set.
    #[verifier::when_used_as_spec(spec_is_empty)]
    pub fn is_empty(self) -> (r: bool)
        ensures
            r == self.spec_is_empty(),
    {
        self.bits == 0
    }

    pub open spec fn spec_contains(self, mask: u32) -> bool {
        self.bits & mask == mask
    }

    /// Whether every flag of `mask` is set.
    #[verifier::when_used_as_spec(spec_contains)]
    pub fn contains(self, mask: u32) -> (r: bool)
        ensures
            r == self.spec_contains(mask),
    {
        self.bits & mask == mask
    }

    pub open spec fn spec_intersects(self, mask: u32) -> bool {
        self.bits & mask != 0
    }

    /// Whether some flag of `mask` is set.
    #[verifier::when_used_as_spec(spec_intersects)]
    pub fn intersects(self, mask: u32) -> (r: bool)
        ensures
            r == self.spec_intersects(mask),
    {
        self.bits & mask != 0
    }

    pub open spec fn spec_with(self, mask: u32) -> Self {
        PipelineFlags { bits: self.bits | mask }
    }

    /// This set and the flags of `mask`.
    #[verifier::when_used_as_spec(spec_with)]
    pub fn with(self, mask: u32) -> (r: Self)
        ensures
            r == self.spec_with(mask),
    {
        PipelineFlags { bits: self.bits | mask }
    }

    pub open spec fn spec_only(self, mask: u32) -> Self {
        PipelineFlags { bits: self.bits & mask }
    }

    /// The flags of this set that are also in `mask`.
    #[verifier::when_used_as_spec(spec_only)]
    pub fn only(self, mask: u32) -> (r: Self)
        ensures
            r == self.spec_only(mask),
    {
        PipelineFlags { bits: self.bits & mask }
    }

    pub open spec fn spec_without(self, mask: u32) -> Self {
        PipelineFlags { bits: self.bits & !mask }
    }

    /// The flags of this set that are not in `mask`.
    #[verifier::when_used_as_spec(spec_without)]
    pub fn without(self, mask: u32) -> (r: Self)
        ensures
            r == self.spec_without(mask),
    {
        PipelineFlags { bits: self.bits & !mask }
    }

    pub open spec fn spec_with_if(self, mask: u32, on: bool) -> Self {
        if on {
            self.spec_with(mask)
        } else {
            self.spec_without(mask)
        }
    }

    /// This set with the flags of `mask` added if `on`, removed if not.
    #[verifier::when_used_as_spec(spec_with_if)]
    pub fn with_if(self, mask: u32, on: bool) -> (r: Self)
        ensures
            r == self.spec_with_if(mask, on),
    {
        if on {
            self.with(mask)
        } else {
            self.without(mask)
        }
    }

}

/// Language features the shader validator is told to accept.
#[derive(Clone, Copy, Debug, PartialEq, Eq, Hash, Structural)]
pub struct ShaderCapabilities {
    pub bits: u16,
}

impl ShaderCapabilities {
    pub const PUSH_CONSTANT: u16 = 0x0001;
    pub const FLOAT64: u16 = 0x0002;
    pub const PRIMITIVE_INDEX: u16 = 0x0004;
    pub const SAMPLED_TEXTURE_AND_STORAGE_BUFFER_ARRAY_NON_UNIFORM_INDEXING: u16 = 0x0008;
    pub const UNIFORM_BUFFER_AND_STORAGE_TEXTURE_ARRAY_NON_UNIFORM_INDEXING: u16 = 0x0010;
    pub const SAMPLER_NON_UNIFORM_INDEXING: u16 = 0x0020;
    pub const CLIP_DISTANCE: u16 = 0x0040;
    pub const CULL_DISTANCE: u16 = 0x0080;
    pub const STORAGE_TEXTURE_16BIT_NORM_FORMATS: u16 = 0x0100;
    pub const MULTIVIEW: u16 = 0x0200;
    pub const EARLY_DEPTH_TEST: u16 = 0x0400;
    pub const MULTISAMPLED_SHADING: u16 = 0x0800;
    pub const RAY_QUERY: u16 = 0x1000;
    /// Every flag this set knows.
    pub const ALL: u16 = 0x1FFF;

    /// The set with no flag in it.
    pub fn empty() -> (r: Self)
        ensures
            r.bits == 0,
    {
        ShaderCapabilities { bits: 0 }
    }

    /// The set whose flags are the bits of `bits`, known or not.
    pub fn from_bits(bits: u16) -> (r: Self)
        ensures
            r.bits == bits,
    {
        ShaderCapabilities { bits }
    }

    pub open spec fn spec_is_empty(self) -> bool {
        self.bits == 0
    }

    /// Whether no flag is set.
    #[verifier::when_used_as_spec(spec_is_empty)]
    pub fn is_empty(self) -> (r: bool)
        ensures
            r == self.spec_is_empty(),
    {
        self.bits == 0
    }

    pub open spec fn spec_contains(self, mask: u16) -> bool {
        self.bits & mask == mask
    }

    /// Whether every flag of `mask` is set.
    #[verifier::when_used_as_spec(spec_contains)]
    pub fn contains(self, mask: u16) -> (r: bool)
        ensures
            r == self.spec_contains(mask),
    {
        self.bits & mask == mask
    }

    pub open spec fn spec_intersects(self, mask: u16) -> bool {
        self.bits & mask != 0
    }

    /// Whether some flag of `mask` is set.
    #[verifier::when_used_as_spec(spec_intersects)]
    pub fn intersects(self, mask: u16) -> (r: bool)
        ensures
            r == self.spec_intersects(mask),
    {
        self.bits & mask != 0
    }

    pub open spec fn spec_with(self, mask: u16) -> Self {
        ShaderCapabilities { bits: self.bits | mask }
    }

    /// This set and the flags of `mask`.
    #[verifier::when_used_as_spec(spec_with)]
    pub fn with(self, mask: u16) -> (r: Self)
        ensures
            r == self.spec_with(mask),
    {
        ShaderCapabilities { bits: self.bits | mask }
    }

    pub open spec fn spec_only(self, mask: u16) -> Self {
        ShaderCapabilities { bits: self.bits & mask }
    }

    /// The flags of this set that are also in `mask`.
    #[verifier::when_used_as_spec(spec_only)]
    pub fn only(self, mask: u16) -> (r: Self)
        ensures
            r == self.spec_only(mask),
    {
        ShaderCapabilities { bits: self.bits & mask }
    }

    pub open spec fn spec_without(self, mask: u16) -> Self {
        ShaderCapabilities { bits: self.bits & !mask }
    }

    /// The flags of this set that are not in `mask`.
    #[verifier::when_used_as_spec(spec_without)]
    pub fn without(self, mask: u16) -> (r: Self)
        ensures
            r == self.spec_without(mask),
    {
        ShaderCapabilities { bits: self.bits & !mask }
    }

    pub open spec fn spec_with_if(self, mask: u16, on: bool) -> Self {
        if on {
            self.spec_with(mask)
        } else {
            self.spec_without(mask)
        }
    }

    /// This set with the flags of `mask` added if `on`, removed if not.
    #[verifier::when_used_as_spec(spec_with_if)]
    pub fn with_if(self, mask: u16, on: bool) -> (r: Self)
        ensures
            r == self.spec_with_if(mask, on),
    {
        if on {
            self.with(mask)
        } else {
            self.without(mask)
        }
    }

}

} // verus!
