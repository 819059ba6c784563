use device_core::device::{Device, DeviceError, DeviceState, MissingFeatures};
use device_core::flags::{DownlevelFlags, Features};
use device_core::limits::{Alignments, DownlevelCapabilities, Limits, ShaderModel, MAX_ANISOTROPY};
use device_core::sampler::{
    AddressMode, CompareFunction, CreateSamplerError, FilterMode, LodClamp, SamplerBorderColor,
    SamplerDescriptor, SamplerFilterErrorType,
};

fn limits() -> Limits {
    let l = wgpu_types::Limits::default();
    Limits {
        max_texture_dimension_1d: l.max_texture_dimension_1d,
        max_texture_dimension_2d: l.max_texture_dimension_2d,
        max_texture_dimension_3d: l.max_texture_dimension_3d,
        max_texture_array_layers: l.max_texture_array_layers,
        max_bind_groups: l.max_bind_groups,
        max_bindings_per_bind_group: l.max_bindings_per_bind_group,
        max_dynamic_uniform_buffers_per_pipeline_layout: l
            .max_dynamic_uniform_buffers_per_pipeline_layout,
        max_dynamic_storage_buffers_per_pipeline_layout: l
            .max_dynamic_storage_buffers_per_pipeline_layout,
        max_sampled_textures_per_shader_stage: l.max_sampled_textures_per_shader_stage,
        max_samplers_per_shader_stage: l.max_samplers_per_shader_stage,
        max_storage_buffers_per_shader_stage: l.max_storage_buffers_per_shader_stage,
        max_storage_textures_per_shader_stage: l.max_storage_textures_per_shader_stage,
        max_uniform_buffers_per_shader_stage: l.max_uniform_buffers_per_shader_stage,
        max_uniform_buffer_binding_size: l.max_uniform_buffer_binding_size,
        max_storage_buffer_binding_size: l.max_storage_buffer_binding_size,
        max_vertex_buffers: l.max_vertex_buffers,
        max_buffer_size: l.max_buffer_size,
        max_vertex_attributes: l.max_vertex_attributes,
        max_vertex_buffer_array_stride: l.max_vertex_buffer_array_stride,
        min_uniform_buffer_offset_alignment: l.min_uniform_buffer_offset_alignment,
        min_storage_buffer_offset_alignment: l.min_storage_buffer_offset_alignment,
        max_inter_stage_shader_components: l.max_inter_stage_shader_components,
        max_compute_workgroup_storage_size: l.max_compute_workgroup_storage_size,
        max_compute_invocations_per_workgroup: l.max_compute_invocations_per_workgroup,
        max_compute_workgroup_size_x: l.max_compute_workgroup_size_x,
        max_compute_workgroup_size_y: l.max_compute_workgroup_size_y,
        max_compute_workgroup_size_z: l.max_compute_workgroup_size_z,
        max_compute_workgroups_per_dimension: l.max_compute_workgroups_per_dimension,
        max_push_constant_size: l.max_push_constant_size,
    }
}

fn device(features: u64, downlevel: u32) -> Device {
    Device {
        adapter_id: 1,
        alignments: Alignments { buffer_copy_offset: 4, buffer_copy_pitch: 256 },
        limits: limits(),
        features: Features::from_bits(features),
        downlevel: DownlevelCapabilities {
            flags: DownlevelFlags::from_bits(downlevel),
            shader_model: ShaderModel::Sm5,
        },
        state: DeviceState::new(),
    }
}

fn desc() -> SamplerDescriptor {
    SamplerDescriptor {
        label: None,
        address_modes: [AddressMode::ClampToEdge; 3],
        mag_filter: FilterMode::Linear,
        min_filter: FilterMode::Linear,
        mipmap_filter: FilterMode::Linear,
        lod_clamp: LodClamp { min_is_non_negative: true, max_is_at_least_min: true },
        compare: None,
        anisotropy_clamp: 1,
        border_color: None,
    }
}

#[test]
fn plain_sampler_passes() {
    let device = device(0, DownlevelFlags::ALL);
    let plan = device.create_sampler(&desc()).unwrap();
    assert_eq!(plan.hal.anisotropy_clamp, 1);
    assert!(plan.filtering);
    assert!(!plan.comparison);
    assert_eq!(plan.hal.address_modes, [AddressMode::ClampToEdge; 3]);
    let mut nearest = desc();
    nearest.mag_filter = FilterMode::Nearest;
    nearest.min_filter = FilterMode::Nearest;
    nearest.compare = Some(CompareFunction::Less);
    let plan = device.create_sampler(&nearest).unwrap();
    assert!(!plan.filtering);
    assert!(plan.comparison);
    assert_eq!(plan.hal.compare, Some(CompareFunction::Less));
}

#[test]
fn clamp_to_border_needs_its_feature() {
    let plain = device(0, DownlevelFlags::ALL);
    for at in 0..3 {
        let mut request = desc();
        request.address_modes[at] = AddressMode::ClampToBorder;
        assert_eq!(
            plain.create_sampler(&request),
            Err(CreateSamplerError::MissingFeatures(MissingFeatures(Features::from_bits(
                Features::ADDRESS_MODE_CLAMP_TO_BORDER
            ))))
        );
    }
    let mut request = desc();
    request.address_modes[1] = AddressMode::ClampToBorder;
    let with = device(Features::ADDRESS_MODE_CLAMP_TO_BORDER, DownlevelFlags::ALL);
    assert!(with.create_sampler(&request).is_ok());
}

#[test]
fn zero_border_color_needs_its_feature() {
    let plain = device(0, DownlevelFlags::ALL);
    let mut request = desc();
    request.border_color = Some(SamplerBorderColor::Zero);
    assert_eq!(
        plain.create_sampler(&request),
        Err(CreateSamplerError::MissingFeatures(MissingFeatures(Features::from_bits(
            Features::ADDRESS_MODE_CLAMP_TO_ZERO
        ))))
    );
    request.border_color = Some(SamplerBorderColor::OpaqueBlack);
    assert!(plain.create_sampler(&request).is_ok());
    request.border_color = Some(SamplerBorderColor::Zero);
    assert!(device(Features::ADDRESS_MODE_CLAMP_TO_ZERO, DownlevelFlags::ALL)
        .create_sampler(&request)
        .is_ok());
}

#[test]
fn lod_clamps_must_be_in_order() {
    let device = device(0, DownlevelFlags::ALL);
    let mut request = desc();
    request.lod_clamp = LodClamp { min_is_non_negative: false, max_is_at_least_min: false };
    assert_eq!(device.create_sampler(&request), Err(CreateSamplerError::InvalidLodMinClamp));
    request.lod_clamp = LodClamp { min_is_non_negative: false, max_is_at_least_min: true };
    assert_eq!(device.create_sampler(&request), Err(CreateSamplerError::InvalidLodMinClamp));
    request.lod_clamp = LodClamp { min_is_non_negative: true, max_is_at_least_min: false };
    assert_eq!(device.create_sampler(&request), Err(CreateSamplerError::InvalidLodMaxClamp));
    request.lod_clamp = LodClamp { min_is_non_negative: true, max_is_at_least_min: true };
    assert!(device.create_sampler(&request).is_ok());
}

#[test]
fn anisotropy_needs_linear_filters() {
    let device = device(0, DownlevelFlags::ALL);
    let mut request = desc();
    request.anisotropy_clamp = 0;
    assert_eq!(device.create_sampler(&request), Err(CreateSamplerError::InvalidAnisotropy(0)));
    request.anisotropy_clamp = 4;
    request.min_filter = FilterMode::Nearest;
    request.mag_filter = FilterMode::Nearest;
    assert_eq!(
        device.create_sampler(&request),
        Err(CreateSamplerError::InvalidFilterModeWithAnisotropy {
            filter_type: SamplerFilterErrorType::MinFilter,
            filter_mode: FilterMode::Nearest,
            anisotropic_clamp: 4
        })
    );
    request.min_filter = FilterMode::Linear;
    assert_eq!(
        device.create_sampler(&request),
        Err(CreateSamplerError::InvalidFilterModeWithAnisotropy {
            filter_type: SamplerFilterErrorType::MagFilter,
            filter_mode: FilterMode::Nearest,
            anisotropic_clamp: 4
        })
    );
    request.mag_filter = FilterMode::Linear;
    request.mipmap_filter = FilterMode::Nearest;
    assert_eq!(
        device.create_sampler(&request),
        Err(CreateSamplerError::InvalidFilterModeWithAnisotropy {
            filter_type: SamplerFilterErrorType::MipmapFilter,
            filter_mode: FilterMode::Nearest,
            anisotropic_clamp: 4
        })
    );
    request.anisotropy_clamp = 1;
    assert!(device.create_sampler(&request).is_ok());
}

#[test]
fn anisotropy_is_capped_or_switched_off() {
    let with = device(0, DownlevelFlags::ALL);
    let without = device(0, DownlevelFlags::ALL & !DownlevelFlags::ANISOTROPIC_FILTERING);
    let mut request = desc();
    for (asked, expected) in [(1u16, 1u16), (2, 2), (16, 16), (17, 16), (u16::MAX, 16)] {
        request.anisotropy_clamp = asked;
        assert_eq!(with.create_sampler(&request).unwrap().hal.anisotropy_clamp, expected);
        assert_eq!(without.create_sampler(&request).unwrap().hal.anisotropy_clamp, 1);
    }
    assert_eq!(MAX_ANISOTROPY as u8, wgpu_hal::MAX_ANISOTROPY);
}

#[test]
fn sampler_record_from_the_hardware() {
    let device = device(0, DownlevelFlags::ALL);
    let plan = device.create_sampler(&desc()).unwrap();
    assert_eq!(
        device.create_sampler_from_hal::<u8>(&plan, String::new(), Err(DeviceError::OutOfMemory)),
        Err(CreateSamplerError::Device(DeviceError::OutOfMemory))
    );
    let made = device.create_sampler_from_hal(&plan, String::from("s"), Ok(9u8)).unwrap();
    assert_eq!(made.raw, Some(9));
    assert!(made.filtering);
    assert!(!made.comparison);
    assert_eq!(made.info.label, "s");
}
