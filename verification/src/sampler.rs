//! Samplers: the request and the rules it is held to.

use crate::device::{Device, DeviceError, MissingFeatures};
use crate::flags::{DownlevelFlags, Features};
use crate::limits::MAX_ANISOTROPY;
use crate::storage::ResourceInfo;
use vstd::prelude::*;

verus! {

/// What a sampler does with a coordinate outside the texture.
#[derive(Clone, Copy, Debug, PartialEq, Eq, Structural)]
pub enum AddressMode {
    ClampToEdge,
    Repeat,
    MirrorRepeat,
    ClampToBorder,
}

/// How a sampler picks a value between texels, or between mip levels.
#[derive(Clone, Copy, Debug, PartialEq, Eq, Structural)]
pub enum FilterMode {
    Nearest,
    Linear,
}

/// The test a comparison sampler, or a depth or stencil test, applies.
#[derive(Clone, Copy, Debug, PartialEq, Eq, Structural)]
pub enum CompareFunction {
    Never,
    Less,
    Equal,
    LessEqual,
    Greater,
    NotEqual,
    GreaterEqual,
    Always,
}

/// The color a sampler gives outside the texture, when it clamps to the border.
#[derive(Clone, Copy, Debug, PartialEq, Eq, Structural)]
pub enum SamplerBorderColor {
    TransparentBlack,
    OpaqueBlack,
    OpaqueWhite,
    Zero,
}

/// What the rules read of the level-of-detail clamps of a sampler. The clamps
/// themselves are for the hardware alone and stay with the caller.
#[derive(Clone, Copy, Debug, PartialEq, Eq, Structural)]
pub struct LodClamp {
    /// Whether the lower clamp is zero or more. A clamp that is no number is not.
    pub min_is_non_negative: bool,
    /// Whether the upper clamp is the lower one or more. It is not if either is no
    /// number.
    pub max_is_at_least_min: bool,
}

/// A request for a sampler.
#[derive(Debug, PartialEq, Eq)]
pub struct SamplerDescriptor {
    pub label: Option<String>,
    /// One mode for each of the three texture coordinates.
    pub address_modes: [AddressMode; 3],
    pub mag_filter: FilterMode,
    pub min_filter: FilterMode,
    pub mipmap_filter: FilterMode,
    pub lod_clamp: LodClamp,
    pub compare: Option<CompareFunction>,
    /// At least 1. Any other value than 1 asks for anisotropic filtering.
    pub anisotropy_clamp: u16,
    pub border_color: Option<SamplerBorderColor>,
}

/// One of the three filters of a sampler.
#[derive(Clone, Copy, Debug, PartialEq, Eq, Structural)]
pub enum SamplerFilterErrorType {
    MagFilter,
    MinFilter,
    MipmapFilter,
}

/// Why a request for a sampler was turned down.
#[derive(Clone, Copy, Debug, PartialEq, Eq, Structural)]
pub enum CreateSamplerError {
    Device(DeviceError),
    /// The lower level-of-detail clamp is below zero.
    InvalidLodMinClamp,
    /// The upper level-of-detail clamp is below the lower one.
    InvalidLodMaxClamp,
    InvalidAnisotropy(u16),
    /// Anisotropic filtering was asked for with a filter that is not linear.
    InvalidFilterModeWithAnisotropy {
        filter_type: SamplerFilterErrorType,
        filter_mode: FilterMode,
        anisotropic_clamp: u16,
    },
    MissingFeatures(MissingFeatures),
}

/// What the hardware layer is asked for when a sampler is created, but for the
/// level-of-detail clamps, which go through as they came.
#[derive(Clone, Copy, Debug, PartialEq, Eq)]
pub struct HalSamplerDescriptor {
    pub address_modes: [AddressMode; 3],
    pub mag_filter: FilterMode,
    pub min_filter: FilterMode,
    pub mipmap_filter: FilterMode,
    pub compare: Option<CompareFunction>,
    pub anisotropy_clamp: u16,
    pub border_color: Option<SamplerBorderColor>,
}

/// What comes of a request for a sampler that passed.
#[derive(Clone, Copy, Debug, PartialEq, Eq)]
pub struct SamplerPlan {
    pub hal: HalSamplerDescriptor,
    /// Whether the sampler compares.
    pub comparison: bool,
    /// Whether the sampler filters when it magnifies or when it minifies.
    pub filtering: bool,
}

impl SamplerDescriptor {
    /// Whether one of the three coordinates clamps to the border.
    pub open spec fn spec_clamps_to_border(&self) -> bool {
        self.address_modes@[0] == AddressMode::ClampToBorder || self.address_modes@[1]
            == AddressMode::ClampToBorder || self.address_modes@[2] == AddressMode::ClampToBorder
    }

    /// With anisotropic filtering, all three filters must be linear. They are looked at
    /// in the order minifying, magnifying, mipmapping.
    pub open spec fn spec_check_anisotropy_filters(&self) -> Result<(), CreateSamplerError> {
        if self.min_filter != FilterMode::Linear {
            Err(
                CreateSamplerError::InvalidFilterModeWithAnisotropy {
                    filter_type: SamplerFilterErrorType::MinFilter,
                    filter_mode: self.min_filter,
                    anisotropic_clamp: self.anisotropy_clamp,
                },
            )
        } else if self.mag_filter != FilterMode::Linear {
            Err(
                CreateSamplerError::InvalidFilterModeWithAnisotropy {
                    filter_type: SamplerFilterErrorType::MagFilter,
                    filter_mode: self.mag_filter,
                    anisotropic_clamp: self.anisotropy_clamp,
                },
            )
        } else if self.mipmap_filter != FilterMode::Linear {
            Err(
                CreateSamplerError::InvalidFilterModeWithAnisotropy {
                    filter_type: SamplerFilterErrorType::MipmapFilter,
                    filter_mode: self.mipmap_filter,
                    anisotropic_clamp: self.anisotropy_clamp,
                },
            )
        } else {
            Ok(())
        }
    }
}

impl Device {
    /// The anisotropy clamp the hardware is given: the one asked for, capped at the most
    /// the hardware layer takes, where the platform filters anisotropically, and 1
    /// where it does not.
    pub open spec fn spec_effective_anisotropy(&self, requested: u16) -> u16 {
        if self.downlevel.flags.contains(DownlevelFlags::ANISOTROPIC_FILTERING) {
            if requested <= MAX_ANISOTROPY {
                requested
            } else {
                MAX_ANISOTROPY
            }
        } else {
            1
        }
    }

    /// The rules a request for a sampler is held to, in the order in which they are
    /// tried, and what is asked of the hardware when it passes them all.
    pub open spec fn spec_create_sampler(&self, desc: &SamplerDescriptor) -> Result<
        SamplerPlan,
        CreateSamplerError,
    > {
        if desc.spec_clamps_to_border() && !self.features.contains(
            Features::ADDRESS_MODE_CLAMP_TO_BORDER,
        ) {
            Err(
                CreateSamplerError::MissingFeatures(
                    MissingFeatures(Features { bits: Features::ADDRESS_MODE_CLAMP_TO_BORDER }),
                ),
            )
        } else if desc.border_color == Some(SamplerBorderColor::Zero) && !self.features.contains(
            Features::ADDRESS_MODE_CLAMP_TO_ZERO,
        ) {
            Err(
                CreateSamplerError::MissingFeatures(
                    MissingFeatures(Features { bits: Features::ADDRESS_MODE_CLAMP_TO_ZERO }),
                ),
            )
        } else if !desc.lod_clamp.min_is_non_negative {
            Err(CreateSamplerError::InvalidLodMinClamp)
        } else if !desc.lod_clamp.max_is_at_least_min {
            Err(CreateSamplerError::InvalidLodMaxClamp)
        } else if desc.anisotropy_clamp < 1 {
            Err(CreateSamplerError::InvalidAnisotropy(desc.anisotropy_clamp))
        } else if desc.anisotropy_clamp != 1 && desc.spec_check_anisotropy_filters() is Err {
            Err(desc.spec_check_anisotropy_filters()->Err_0)
        } else {
            Ok(
                SamplerPlan {
                    hal: HalSamplerDescriptor {
                        address_modes: desc.address_modes,
                        mag_filter: desc.mag_filter,
                        min_filter: desc.min_filter,
                        mipmap_filter: desc.mipmap_filter,
                        compare: desc.compare,
                        anisotropy_clamp: self.spec_effective_anisotropy(desc.anisotropy_clamp),
                        border_color: desc.border_color,
                    },
                    comparison: desc.compare is Some,
                    filtering: desc.min_filter == FilterMode::Linear || desc.mag_filter
                        == FilterMode::Linear,
                },
            )
        }
    }

    /// Checks a request for a sampler and says what to ask of the hardware.
    ///
    /// The request is turned down, with the first reason that applies, when
    /// - a coordinate clamps to the border and the device lacks that feature;
    /// - the border color is zero and the device lacks that feature;
    /// - the lower level-of-detail clamp is negative, or the upper one is below it;
    /// - the anisotropy clamp is 0;
    /// - the anisotropy clamp is over 1 and a filter is not linear.
    ///
    /// Nothing has been asked of the hardware when this returns.
    pub fn create_sampler(&self, desc: &SamplerDescriptor) -> (r: Result<
        SamplerPlan,
        CreateSamplerError,
    >)
        ensures
            r == self.spec_create_sampler(desc),
    {
        if desc.address_modes[0] == AddressMode::ClampToBorder || desc.address_modes[1]
            == AddressMode::ClampToBorder || desc.address_modes[2] == AddressMode::ClampToBorder {
            match self.require_features(Features::ADDRESS_MODE_CLAMP_TO_BORDER) {
                Ok(()) => {},
                Err(missing) => {
                    return Err(CreateSamplerError::MissingFeatures(missing));
                },
            }
        }
        let zero_border = match desc.border_color {
            Some(SamplerBorderColor::Zero) => true,
            _ => false,
        };
        if zero_border {
            match self.require_features(Features::ADDRESS_MODE_CLAMP_TO_ZERO) {
                Ok(()) => {},
                Err(missing) => {
                    return Err(CreateSamplerError::MissingFeatures(missing));
                },
            }
        }
        if !desc.lod_clamp.min_is_non_negative {
            return Err(CreateSamplerError::InvalidLodMinClamp);
        }
        if !desc.lod_clamp.max_is_at_least_min {
            return Err(CreateSamplerError::InvalidLodMaxClamp);
        }
        if desc.anisotropy_clamp < 1 {
            return Err(CreateSamplerError::InvalidAnisotropy(desc.anisotropy_clamp));
        }
        if desc.anisotropy_clamp != 1 {
            if desc.min_filter != FilterMode::Linear {
                return Err(
                    CreateSamplerError::InvalidFilterModeWithAnisotropy {
                        filter_type: SamplerFilterErrorType::MinFilter,
                        filter_mode: desc.min_filter,
                        anisotropic_clamp: desc.anisotropy_clamp,
                    },
                );
            }
            if desc.mag_filter != FilterMode::Linear {
                return Err(
                    CreateSamplerError::InvalidFilterModeWithAnisotropy {
                        filter_type: SamplerFilterErrorType::MagFilter,
                        filter_mode: desc.mag_filter,
                        anisotropic_clamp: desc.anisotropy_clamp,
                    },
                );
            }
            if desc.mipmap_filter != FilterMode::Linear {
                return Err(
                    CreateSamplerError::InvalidFilterModeWithAnisotropy {
                        filter_type: SamplerFilterErrorType::MipmapFilter,
                        filter_mode: desc.mipmap_filter,
                        anisotropic_clamp: desc.anisotropy_clamp,
                    },
                );
            }
        }
        let anisotropy_clamp = if self.downlevel.flags.contains(
            DownlevelFlags::ANISOTROPIC_FILTERING,
        ) {
            if desc.anisotropy_clamp <= MAX_ANISOTROPY {
                desc.anisotropy_clamp
            } else {
                MAX_ANISOTROPY
            }
        } else {
            1
        };
        Ok(
            SamplerPlan {
                hal: HalSamplerDescriptor {
                    address_modes: desc.address_modes,
                    mag_filter: desc.mag_filter,
                    min_filter: desc.min_filter,
                    mipmap_filter: desc.mipmap_filter,
                    compare: desc.compare,
                    anisotropy_clamp,
                    border_color: desc.border_color,
                },
                comparison: desc.compare.is_some(),
                filtering: desc.min_filter == FilterMode::Linear || desc.mag_filter
                    == FilterMode::Linear,
            },
        )
    }
}

/// The anisotropy clamp that reaches the hardware is between 1 and the most the
/// hardware layer takes, and it is 1 on a platform without anisotropic filtering.
pub proof fn lemma_effective_anisotropy_is_in_range(device: Device, desc: SamplerDescriptor)
    ensures
        device.spec_create_sampler(&desc) matches Ok(plan) ==> {
            &&& 1 <= plan.hal.anisotropy_clamp <= MAX_ANISOTROPY
            &&& !device.downlevel.flags.contains(DownlevelFlags::ANISOTROPIC_FILTERING)
                ==> plan.hal.anisotropy_clamp == 1
        },
{
}

/// A sampler that was created. `R` is the handle of the hardware sampler.
#[derive(Debug, PartialEq, Eq)]
pub struct Sampler<R> {
    /// The hardware sampler; gone once the sampler has been destroyed.
    pub raw: Option<R>,
    pub info: ResourceInfo,
    /// Whether the sampler compares.
    pub comparison: bool,
    /// Whether the sampler filters when it magnifies or when it minifies.
    pub filtering: bool,
}

impl Device {
    /// The record of the sampler that the hardware made to `plan`, or the failure of
    /// the hardware to make one.
    pub fn create_sampler_from_hal<R>(
        &self,
        plan: &SamplerPlan,
        label: String,
        raw: Result<R, DeviceError>,
    ) -> (r: Result<Sampler<R>, CreateSamplerError>)
        ensures
            match raw {
                Err(e) => r == Err::<Sampler<R>, CreateSamplerError>(CreateSamplerError::Device(e)),
                Ok(handle) => r matches Ok(sampler) && {
                    &&& sampler.raw == Some(handle)
                    &&& sampler.comparison == plan.comparison
                    &&& sampler.filtering == plan.filtering
                    &&& sampler.info.label == label
                    &&& sampler.info.id is None
                },
            },
    {
        match raw {
            Err(e) => Err(CreateSamplerError::Device(e)),
            Ok(handle) => Ok(
                Sampler {
                    raw: Some(handle),
                    info: ResourceInfo::new(label),
                    comparison: plan.comparison,
                    filtering: plan.filtering,
                },
            ),
        }
    }
}

} // verus!
