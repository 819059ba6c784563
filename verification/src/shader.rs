//! Shader modules: what the device decides before and after a shader goes through the
//! parser, the validator and the hardware.

use crate::device::{Device, DeviceError, MissingFeatures};
use crate::flags::{DownlevelFlags, Features, ShaderCapabilities};
use crate::pipeline::ShaderModule;
use crate::storage::ResourceInfo;
use vstd::prelude::*;

verus! {

/// Where a shader finds a resource: the bind group, and the binding within it.
#[derive(Clone, Copy, Debug, PartialEq, Eq, Structural)]
pub struct ResourceBinding {
    pub group: u32,
    pub binding: u32,
}

/// Why a request for a shader module was turned down.
#[derive(Debug, PartialEq, Eq)]
pub enum CreateShaderModuleError {
    /// The shader could not be parsed; why, in words.
    Parsing(String),
    /// The hardware layer could not turn the shader into what the hardware takes.
    Generation,
    Device(DeviceError),
    /// The shader is not valid; why, in words.
    Validation(String),
    MissingFeatures(MissingFeatures),
    /// A resource of the shader is in a bind group that the device does not have.
    InvalidGroupIndex { bind: ResourceBinding, group: u32, limit: u32 },
}

/// Why the hardware layer could not make a shader module.
#[derive(Debug, PartialEq, Eq)]
pub enum HalShaderError {
    /// The shader could not be compiled; why, in words.
    Compilation(String),
    Device(DeviceError),
}

/// The first of the first `n` bindings whose bind group the device does not have.
pub open spec fn spec_first_invalid_group(bindings: Seq<ResourceBinding>, n: int, limit: u32) -> Option<
    ResourceBinding,
>
    decreases n,
{
    if n <= 0 {
        None
    } else if spec_first_invalid_group(bindings, n - 1, limit) is Some {
        spec_first_invalid_group(bindings, n - 1, limit)
    } else if bindings[n - 1].group >= limit {
        Some(bindings[n - 1])
    } else {
        None
    }
}

proof fn lemma_first_invalid_group_stays(bindings: Seq<ResourceBinding>, from: int, to: int, limit: u32)
    requires
        from <= to,
        spec_first_invalid_group(bindings, from, limit) is Some,
    ensures
        spec_first_invalid_group(bindings, to, limit) == spec_first_invalid_group(
            bindings,
            from,
            limit,
        ),
    decreases to - from,
{
    if from < to {
        lemma_first_invalid_group_stays(bindings, from, to - 1, limit);
    }
}

impl Device {
    /// The language features that the validator is told to accept: each follows from a
    /// feature of the device, but shading per sample, which follows from a downlevel
    /// flag. Indexing samplers without uniformity goes with doing so for sampled
    /// textures and storage buffers.
    pub open spec fn spec_shader_capabilities(&self) -> ShaderCapabilities {
        ShaderCapabilities { bits: 0 }.with_if(
            ShaderCapabilities::PUSH_CONSTANT,
            self.features.contains(Features::PUSH_CONSTANTS),
        ).with_if(ShaderCapabilities::FLOAT64, self.features.contains(Features::SHADER_F64)).with_if(
            ShaderCapabilities::PRIMITIVE_INDEX,
            self.features.contains(Features::SHADER_PRIMITIVE_INDEX),
        ).with_if(
            ShaderCapabilities::SAMPLED_TEXTURE_AND_STORAGE_BUFFER_ARRAY_NON_UNIFORM_INDEXING,
            self.features.contains(
                Features::SAMPLED_TEXTURE_AND_STORAGE_BUFFER_ARRAY_NON_UNIFORM_INDEXING,
            ),
        ).with_if(
            ShaderCapabilities::UNIFORM_BUFFER_AND_STORAGE_TEXTURE_ARRAY_NON_UNIFORM_INDEXING,
            self.features.contains(
                Features::UNIFORM_BUFFER_AND_STORAGE_TEXTURE_ARRAY_NON_UNIFORM_INDEXING,
            ),
        ).with_if(
            ShaderCapabilities::SAMPLER_NON_UNIFORM_INDEXING,
            self.features.contains(
                Features::SAMPLED_TEXTURE_AND_STORAGE_BUFFER_ARRAY_NON_UNIFORM_INDEXING,
            ),
        ).with_if(
            ShaderCapabilities::STORAGE_TEXTURE_16BIT_NORM_FORMATS,
            self.features.contains(Features::TEXTURE_FORMAT_16BIT_NORM),
        ).with_if(ShaderCapabilities::MULTIVIEW, self.features.contains(Features::MULTIVIEW)).with_if(
            ShaderCapabilities::EARLY_DEPTH_TEST,
            self.features.contains(Features::SHADER_EARLY_DEPTH_TEST),
        ).with_if(
            ShaderCapabilities::MULTISAMPLED_SHADING,
            self.downlevel.flags.contains(DownlevelFlags::MULTISAMPLED_SHADING),
        )
    }

    /// The language features that the validator is told to accept.
    pub fn shader_capabilities(&self) -> (r: ShaderCapabilities)
        ensures
            r == self.spec_shader_capabilities(),
    {
        let caps = ShaderCapabilities::empty();
        let caps = caps.with_if(
            ShaderCapabilities::PUSH_CONSTANT,
            self.features.contains(Features::PUSH_CONSTANTS),
        );
        let caps = caps.with_if(
            ShaderCapabilities::FLOAT64,
            self.features.contains(Features::SHADER_F64),
        );
        let caps = caps.with_if(
            ShaderCapabilities::PRIMITIVE_INDEX,
            self.features.contains(Features::SHADER_PRIMITIVE_INDEX),
        );
        let caps = caps.with_if(
            ShaderCapabilities::SAMPLED_TEXTURE_AND_STORAGE_BUFFER_ARRAY_NON_UNIFORM_INDEXING,
            self.features.contains(
                Features::SAMPLED_TEXTURE_AND_STORAGE_BUFFER_ARRAY_NON_UNIFORM_INDEXING,
            ),
        );
        let caps = caps.with_if(
            ShaderCapabilities::UNIFORM_BUFFER_AND_STORAGE_TEXTURE_ARRAY_NON_UNIFORM_INDEXING,
            self.features.contains(
                Features::UNIFORM_BUFFER_AND_STORAGE_TEXTURE_ARRAY_NON_UNIFORM_INDEXING,
            ),
        );
        let caps = caps.with_if(
            ShaderCapabilities::SAMPLER_NON_UNIFORM_INDEXING,
            self.features.contains(
                Features::SAMPLED_TEXTURE_AND_STORAGE_BUFFER_ARRAY_NON_UNIFORM_INDEXING,
            ),
        );
        let caps = caps.with_if(
            ShaderCapabilities::STORAGE_TEXTURE_16BIT_NORM_FORMATS,
            self.features.contains(Features::TEXTURE_FORMAT_16BIT_NORM),
        );
        let caps = caps.with_if(
            ShaderCapabilities::MULTIVIEW,
            self.features.contains(Features::MULTIVIEW),
        );
        let caps = caps.with_if(
            ShaderCapabilities::EARLY_DEPTH_TEST,
            self.features.contains(Features::SHADER_EARLY_DEPTH_TEST),
        );
        caps.with_if(
            ShaderCapabilities::MULTISAMPLED_SHADING,
            self.downlevel.flags.contains(DownlevelFlags::MULTISAMPLED_SHADING),
        )
    }

    /// The rule on the resources of a shader, which are given in the order of its
    /// global variables: each is in a bind group that the device has. The first that is
    /// not is reported.
    pub open spec fn spec_check_shader_bindings(&self, bindings: Seq<ResourceBinding>) -> Result<
        (),
        CreateShaderModuleError,
    > {
        match spec_first_invalid_group(bindings, bindings.len() as int, self.limits.max_bind_groups) {
            Some(bind) => Err(
                CreateShaderModuleError::InvalidGroupIndex {
                    bind,
                    group: bind.group,
                    limit: self.limits.max_bind_groups,
                },
            ),
            None => Ok(()),
        }
    }

    /// Holds the resources of a parsed shader to the number of bind groups of the
    /// device, before the shader is validated. If this passes and the shader is valid,
    /// the hardware is asked for the shader module.
    pub fn create_shader_module(&self, bindings: &Vec<ResourceBinding>) -> (r: Result<
        ShaderCapabilities,
        CreateShaderModuleError,
    >)
        ensures
            r == match self.spec_check_shader_bindings(bindings@) {
                Err(e) => Err::<ShaderCapabilities, CreateShaderModuleError>(e),
                Ok(()) => Ok::<ShaderCapabilities, CreateShaderModuleError>(
                    self.spec_shader_capabilities(),
                ),
            },
    {
        let mut i: usize = 0;
        while i < bindings.len()
            invariant
                i <= bindings@.len(),
                spec_first_invalid_group(bindings@, i as int, self.limits.max_bind_groups) is None,
            decreases bindings@.len() - i,
        {
            let br = bindings[i];
            if br.group >= self.limits.max_bind_groups {
                proof {
                    lemma_first_invalid_group_stays(
                        bindings@,
                        i as int + 1,
                        bindings@.len() as int,
                        self.limits.max_bind_groups,
                    );
                }
                return Err(
                    CreateShaderModuleError::InvalidGroupIndex {
                        bind: br,
                        group: br.group,
                        limit: self.limits.max_bind_groups,
                    },
                );
            }
            i += 1;
        }
        Ok(self.shader_capabilities())
    }

    /// A shader that goes to the hardware as it came takes a feature.
    pub open spec fn spec_create_shader_module_spirv(&self) -> Result<(), CreateShaderModuleError> {
        if self.features.contains(Features::SPIRV_SHADER_PASSTHROUGH) {
            Ok(())
        } else {
            Err(
                CreateShaderModuleError::MissingFeatures(
                    MissingFeatures(Features { bits: Features::SPIRV_SHADER_PASSTHROUGH }),
                ),
            )
        }
    }

    /// Checks that the device lets a shader go to the hardware as it came. If it does,
    /// the hardware is asked for the shader module, which cannot be looked into.
    pub fn create_shader_module_spirv(&self) -> (r: Result<(), CreateShaderModuleError>)
        ensures
            r == self.spec_create_shader_module_spirv(),
    {
        match self.require_features(Features::SPIRV_SHADER_PASSTHROUGH) {
            Ok(()) => Ok(()),
            Err(missing) => Err(CreateShaderModuleError::MissingFeatures(missing)),
        }
    }
}

/// The record of the shader module that the hardware made, or the failure of the
/// hardware to make one. A shader that the hardware layer could not compile counts as
/// one that could not be generated.
pub fn create_shader_module_from_hal<R>(
    has_interface: bool,
    label: String,
    raw: Result<R, HalShaderError>,
) -> (r: Result<ShaderModule<R>, CreateShaderModuleError>)
    ensures
        match raw {
            Ok(handle) => r matches Ok(module) && {
                &&& module.raw == Some(handle)
                &&& module.has_interface == has_interface
                &&& module.info.label == label
                &&& module.info.id is None
            },
            Err(HalShaderError::Device(e)) => r == Err::<ShaderModule<R>, CreateShaderModuleError>(
                CreateShaderModuleError::Device(e),
            ),
            Err(HalShaderError::Compilation(_)) => r == Err::<
                ShaderModule<R>,
                CreateShaderModuleError,
            >(CreateShaderModuleError::Generation),
        },
{
    match raw {
        Ok(handle) => Ok(
            ShaderModule { raw: Some(handle), has_interface, info: ResourceInfo::new(label) },
        ),
        Err(HalShaderError::Device(e)) => Err(CreateShaderModuleError::Device(e)),
        Err(HalShaderError::Compilation(_)) => Err(CreateShaderModuleError::Generation),
    }
}

} // verus!
