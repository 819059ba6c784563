use device_core::device::{Device, DeviceState, MissingDownlevelFlags, MissingFeatures};
use device_core::flags::{
    DownlevelFlags, Features, MemoryFlags, TextureFormatFeatureFlags, TextureUsages, TextureUses,
};
use device_core::format::{format_info, TextureFormatFeatures};
use device_core::limits::{Alignments, DownlevelCapabilities, Limits, ShaderModel, MAX_MIP_LEVELS};
use device_core::texture::{
    check_texture_dimension_size, view_format_kind, CreateTextureError, Extent3d,
    TextureClearKind, TextureClearMode, TextureDescriptor, TextureDimension, TextureDimensionError,
    TextureErrorDimension, TextureInner, ViewFormatKind,
};
use wgpu_types::TextureFormat;

fn limits() -> Limits {
    let l = wgpu_types::Limits::default();
    Limits {
        max_texture_dimension_1d: l.max_texture_dimension_1d,
        max_texture_dimension_2d: l.max_texture_dimension_2d,
        max_texture_dimension_3d: l.max_texture_dimension_3d,
        max_texture_array_layers: l.max_texture_array_layers,
        max_bind_groups: l.max_bind_groups,
        max_bindings_per_bind_group: l.max_bindings_per_bind_group,
        max_dynamic_uniform_buffers_per_pipeline_layout: l
            .max_dynamic_uniform_buffers_per_pipeline_layout,
        max_dynamic_storage_buffers_per_pipeline_layout: l
            .max_dynamic_storage_buffers_per_pipeline_layout,
        max_sampled_textures_per_shader_stage: l.max_sampled_textures_per_shader_stage,
        max_samplers_per_shader_stage: l.max_samplers_per_shader_stage,
        max_storage_buffers_per_shader_stage: l.max_storage_buffers_per_shader_stage,
        max_storage_textures_per_shader_stage: l.max_storage_textures_per_shader_stage,
        max_uniform_buffers_per_shader_stage: l.max_uniform_buffers_per_shader_stage,
        max_uniform_buffer_binding_size: l.max_uniform_buffer_binding_size,
        max_storage_buffer_binding_size: l.max_storage_buffer_binding_size,
        max_vertex_buffers: l.max_vertex_buffers,
        max_buffer_size: l.max_buffer_size,
        max_vertex_attributes: l.max_vertex_attributes,
        max_vertex_buffer_array_stride: l.max_vertex_buffer_array_stride,
        min_uniform_buffer_offset_alignment: l.min_uniform_buffer_offset_alignment,
        min_storage_buffer_offset_alignment: l.min_storage_buffer_offset_alignment,
        max_inter_stage_shader_components: l.max_inter_stage_shader_components,
        max_compute_workgroup_storage_size: l.max_compute_workgroup_storage_size,
        max_compute_invocations_per_workgroup: l.max_compute_invocations_per_workgroup,
        max_compute_workgroup_size_x: l.max_compute_workgroup_size_x,
        max_compute_workgroup_size_y: l.max_compute_workgroup_size_y,
        max_compute_workgroup_size_z: l.max_compute_workgroup_size_z,
        max_compute_workgroups_per_dimension: l.max_compute_workgroups_per_dimension,
        max_push_constant_size: l.max_push_constant_size,
    }
}

fn device(features: u64, downlevel: u32) -> Device {
    Device {
        adapter_id: 1,
        alignments: Alignments { buffer_copy_offset: 4, buffer_copy_pitch: 256 },
        limits: limits(),
        features: Features::from_bits(features),
        downlevel: DownlevelCapabilities {
            flags: DownlevelFlags::from_bits(downlevel),
            shader_model: ShaderModel::Sm5,
        },
        state: DeviceState::new(),
    }
}

fn ignored() -> TextureFormatFeatures {
    TextureFormatFeatures {
        allowed_usages: TextureUsages::empty(),
        flags: TextureFormatFeatureFlags::empty(),
    }
}

fn desc(format: TextureFormat, width: u32, height: u32, usage: u32) -> TextureDescriptor {
    TextureDescriptor {
        label: None,
        size: Extent3d { width, height, depth_or_array_layers: 1 },
        mip_level_count: 1,
        sample_count: 1,
        dimension: TextureDimension::D2,
        format,
        usage: TextureUsages::from_bits(usage),
        view_formats: vec![],
    }
}

#[test]
fn sampled_texture_with_copy_destination_is_cleared_by_copy() {
    let device = device(0, DownlevelFlags::ALL);
    let request = desc(
        TextureFormat::Rgba8Unorm,
        64,
        64,
        TextureUsages::TEXTURE_BINDING | TextureUsages::COPY_DST,
    );
    let plan = device.create_texture(ignored(), &request).unwrap();
    assert_eq!(
        plan.hal.usage,
        TextureUses::from_bits(TextureUses::RESOURCE | TextureUses::COPY_DST)
    );
    assert_eq!(plan.clear_mode, TextureClearKind::BufferCopy);
    assert_eq!(plan.hal.size, request.size);
    assert_eq!(plan.hal.format, TextureFormat::Rgba8Unorm);
    assert_eq!(plan.hal.memory_flags, MemoryFlags::empty());
    assert!(plan.hal.view_formats.is_empty());
    let guaranteed = TextureFormat::Rgba8Unorm.guaranteed_format_features(wgpu_types::Features::empty());
    assert_eq!(plan.format_features.allowed_usages.bits, guaranteed.allowed_usages.bits());
    assert_eq!(plan.format_features.flags.bits, guaranteed.flags.bits());
}

#[test]
fn sampled_texture_without_copy_destination_becomes_a_color_target() {
    let device = device(0, DownlevelFlags::ALL);
    let request = desc(TextureFormat::Rgba8Unorm, 64, 64, TextureUsages::TEXTURE_BINDING);
    let plan = device.create_texture(ignored(), &request).unwrap();
    assert_eq!(
        plan.hal.usage,
        TextureUses::from_bits(TextureUses::RESOURCE | TextureUses::COLOR_TARGET)
    );
    assert_eq!(plan.clear_mode, TextureClearKind::RenderPass { is_color: true });
}

#[test]
fn texture_that_cannot_be_rendered_to_is_cleared_by_copy() {
    let device = device(0, DownlevelFlags::ALL);
    let request = desc(TextureFormat::Rgba8Snorm, 64, 64, TextureUsages::TEXTURE_BINDING);
    let plan = device.create_texture(ignored(), &request).unwrap();
    assert_eq!(
        plan.hal.usage,
        TextureUses::from_bits(TextureUses::RESOURCE | TextureUses::COPY_DST)
    );
    assert_eq!(plan.clear_mode, TextureClearKind::BufferCopy);
}

#[test]
fn depth_texture_is_cleared_as_a_depth_target() {
    let device = device(0, DownlevelFlags::ALL);
    let request = desc(TextureFormat::Depth32Float, 16, 16, TextureUsages::RENDER_ATTACHMENT);
    let plan = device.create_texture(ignored(), &request).unwrap();
    assert_eq!(
        plan.hal.usage,
        TextureUses::from_bits(TextureUses::DEPTH_STENCIL_READ | TextureUses::DEPTH_STENCIL_WRITE)
    );
    assert_eq!(plan.clear_mode, TextureClearKind::RenderPass { is_color: false });
}

#[test]
fn textures_that_are_not_2d_are_cleared_by_copy() {
    let device = device(0, DownlevelFlags::ALL);
    for dimension in [TextureDimension::D1, TextureDimension::D3] {
        let mut request = desc(TextureFormat::Rgba8Unorm, 16, 1, TextureUsages::TEXTURE_BINDING);
        request.dimension = dimension;
        let plan = device.create_texture(ignored(), &request).unwrap();
        assert_eq!(plan.clear_mode, TextureClearKind::BufferCopy);
        assert_eq!(
            plan.hal.usage,
            TextureUses::from_bits(TextureUses::RESOURCE | TextureUses::COPY_DST)
        );
    }
}

#[test]
fn texture_usage_must_be_known_and_not_empty() {
    let device = device(0, DownlevelFlags::ALL);
    assert_eq!(
        device.create_texture(ignored(), &desc(TextureFormat::Rgba8Unorm, 4, 4, 0)),
        Err(CreateTextureError::InvalidUsage(TextureUsages::empty()))
    );
    assert_eq!(
        device.create_texture(ignored(), &desc(TextureFormat::Rgba8Unorm, 4, 4, 1 << 9)),
        Err(CreateTextureError::InvalidUsage(TextureUsages::from_bits(1 << 9)))
    );
}

#[test]
fn texture_size_is_held_to_the_limits() {
    let device = device(0, DownlevelFlags::ALL);
    let usage = TextureUsages::TEXTURE_BINDING;
    assert_eq!(
        device.create_texture(ignored(), &desc(TextureFormat::Rgba8Unorm, 0, 4, usage)),
        Err(CreateTextureError::InvalidDimension(TextureDimensionError::Zero(
            TextureErrorDimension::X
        )))
    );
    assert_eq!(
        device.create_texture(ignored(), &desc(TextureFormat::Rgba8Unorm, 4, 8193, usage)),
        Err(CreateTextureError::InvalidDimension(TextureDimensionError::LimitExceeded {
            dim: TextureErrorDimension::Y,
            given: 8193,
            limit: 8192,
        }))
    );
    let mut deep = desc(TextureFormat::Rgba8Unorm, 4, 4, usage);
    deep.size.depth_or_array_layers = 257;
    assert_eq!(
        device.create_texture(ignored(), &deep),
        Err(CreateTextureError::InvalidDimension(TextureDimensionError::LimitExceeded {
            dim: TextureErrorDimension::Z,
            given: 257,
            limit: 256,
        }))
    );
    let mut odd = desc(TextureFormat::Rgba8Unorm, 4, 4, usage);
    odd.sample_count = 3;
    assert_eq!(
        device.create_texture(ignored(), &odd),
        Err(CreateTextureError::InvalidDimension(TextureDimensionError::InvalidSampleCount(3)))
    );
}

#[test]
fn dimension_size_check_by_dimension() {
    let limits = limits();
    let one = Extent3d { width: 8192, height: 1, depth_or_array_layers: 1 };
    assert_eq!(check_texture_dimension_size(TextureDimension::D1, one, 1, &limits), Ok(()));
    let tall = Extent3d { width: 8, height: 2, depth_or_array_layers: 1 };
    assert_eq!(
        check_texture_dimension_size(TextureDimension::D1, tall, 1, &limits),
        Err(TextureDimensionError::LimitExceeded {
            dim: TextureErrorDimension::Y,
            given: 2,
            limit: 1
        })
    );
    let cube = Extent3d { width: 2048, height: 2048, depth_or_array_layers: 2048 };
    assert_eq!(check_texture_dimension_size(TextureDimension::D3, cube, 1, &limits), Ok(()));
    assert_eq!(
        check_texture_dimension_size(TextureDimension::D3, cube, 2, &limits),
        Err(TextureDimensionError::InvalidSampleCount(2))
    );
    let flat = Extent3d { width: 16, height: 16, depth_or_array_layers: 1 };
    assert_eq!(check_texture_dimension_size(TextureDimension::D2, flat, 32, &limits), Ok(()));
    assert_eq!(
        check_texture_dimension_size(TextureDimension::D2, flat, 64, &limits),
        Err(TextureDimensionError::InvalidSampleCount(64))
    );
    assert_eq!(
        check_texture_dimension_size(TextureDimension::D2, flat, 0, &limits),
        Err(TextureDimensionError::InvalidSampleCount(0))
    );
}

#[test]
fn only_2d_textures_can_be_depth_renderable_or_compressed() {
    let device = device(Features::TEXTURE_COMPRESSION_BC, DownlevelFlags::ALL);
    let mut depth = desc(TextureFormat::Depth32Float, 4, 4, TextureUsages::TEXTURE_BINDING);
    depth.dimension = TextureDimension::D3;
    assert_eq!(
        device.create_texture(ignored(), &depth),
        Err(CreateTextureError::InvalidDepthDimension(
            TextureDimension::D3,
            TextureFormat::Depth32Float
        ))
    );
    let mut line = desc(TextureFormat::Rgba8Unorm, 4, 1, TextureUsages::RENDER_ATTACHMENT);
    line.dimension = TextureDimension::D1;
    assert_eq!(
        device.create_texture(ignored(), &line),
        Err(CreateTextureError::InvalidDimensionUsages(
            TextureUsages::from_bits(TextureUsages::RENDER_ATTACHMENT),
            TextureDimension::D1
        ))
    );
    let mut block = desc(TextureFormat::Bc1RgbaUnorm, 4, 4, TextureUsages::TEXTURE_BINDING);
    block.dimension = TextureDimension::D3;
    assert_eq!(
        device.create_texture(ignored(), &block),
        Err(CreateTextureError::InvalidCompressedDimension(
            TextureDimension::D3,
            TextureFormat::Bc1RgbaUnorm
        ))
    );
}

#[test]
fn compressed_texture_size_must_be_whole_blocks() {
    let device = device(Features::TEXTURE_COMPRESSION_BC, DownlevelFlags::ALL);
    assert_eq!(
        device.create_texture(
            ignored(),
            &desc(TextureFormat::Bc1RgbaUnorm, 6, 8, TextureUsages::TEXTURE_BINDING)
        ),
        Err(CreateTextureError::InvalidDimension(
            TextureDimensionError::NotMultipleOfBlockWidth {
                width: 6,
                block_width: 4,
                format: TextureFormat::Bc1RgbaUnorm
            }
        ))
    );
    assert_eq!(
        device.create_texture(
            ignored(),
            &desc(TextureFormat::Bc1RgbaUnorm, 8, 6, TextureUsages::TEXTURE_BINDING)
        ),
        Err(CreateTextureError::InvalidDimension(
            TextureDimensionError::NotMultipleOfBlockHeight {
                height: 6,
                block_height: 4,
                format: TextureFormat::Bc1RgbaUnorm
            }
        ))
    );
    assert!(device
        .create_texture(
            ignored(),
            &desc(TextureFormat::Bc1RgbaUnorm, 8, 8, TextureUsages::TEXTURE_BINDING)
        )
        .is_ok());
}

#[test]
fn format_needs_its_feature() {
    let device = device(0, DownlevelFlags::ALL);
    assert_eq!(
        device.create_texture(
            ignored(),
            &desc(TextureFormat::Bc1RgbaUnorm, 8, 8, TextureUsages::TEXTURE_BINDING)
        ),
        Err(CreateTextureError::MissingFeatures(
            TextureFormat::Bc1RgbaUnorm,
            MissingFeatures(Features::from_bits(Features::TEXTURE_COMPRESSION_BC))
        ))
    );
}

#[test]
fn multisampled_texture_rules() {
    let device = device(0, DownlevelFlags::ALL);
    let base = |usage: u32| {
        let mut request = desc(TextureFormat::Rgba8Unorm, 64, 64, usage);
        request.sample_count = 4;
        request
    };
    let mut mips = base(TextureUsages::RENDER_ATTACHMENT);
    mips.mip_level_count = 2;
    assert_eq!(
        device.create_texture(ignored(), &mips),
        Err(CreateTextureError::InvalidMipLevelCount { requested: 2, maximum: 1 })
    );
    let mut layers = base(TextureUsages::RENDER_ATTACHMENT);
    layers.size.depth_or_array_layers = 2;
    assert_eq!(
        device.create_texture(ignored(), &layers),
        Err(CreateTextureError::InvalidDimension(
            TextureDimensionError::MultisampledDepthOrArrayLayer(2)
        ))
    );
    assert_eq!(
        device.create_texture(
            ignored(),
            &base(TextureUsages::RENDER_ATTACHMENT | TextureUsages::STORAGE_BINDING)
        ),
        Err(CreateTextureError::InvalidMultisampledStorageBinding)
    );
    assert_eq!(
        device.create_texture(ignored(), &base(TextureUsages::TEXTURE_BINDING)),
        Err(CreateTextureError::MultisampledNotRenderAttachment)
    );
    let mut snorm = base(TextureUsages::RENDER_ATTACHMENT);
    snorm.format = TextureFormat::Rgba8Snorm;
    assert_eq!(
        device.create_texture(ignored(), &snorm),
        Err(CreateTextureError::InvalidSampleCount(4, TextureFormat::Rgba8Snorm))
    );
    let mut eight = base(TextureUsages::RENDER_ATTACHMENT);
    eight.sample_count = 8;
    assert_eq!(
        device.create_texture(ignored(), &eight),
        Err(CreateTextureError::InvalidSampleCount(8, TextureFormat::Rgba8Unorm))
    );
    assert!(device.create_texture(ignored(), &base(TextureUsages::RENDER_ATTACHMENT)).is_ok());
}

#[test]
fn four_samples_need_the_format_to_advertise_them() {
    let device = device(
        Features::TEXTURE_COMPRESSION_BC | Features::TEXTURE_ADAPTER_SPECIFIC_FORMAT_FEATURES,
        DownlevelFlags::ALL,
    );
    let mut request =
        desc(TextureFormat::Bc1RgbaUnorm, 64, 64, TextureUsages::RENDER_ATTACHMENT);
    request.sample_count = 4;
    let two_only = TextureFormatFeatures {
        allowed_usages: TextureUsages::from_bits(TextureUsages::ALL),
        flags: TextureFormatFeatureFlags::from_bits(TextureFormatFeatureFlags::MULTISAMPLE_X2),
    };
    assert_eq!(
        device.create_texture(two_only, &request),
        Err(CreateTextureError::InvalidSampleCount(4, TextureFormat::Bc1RgbaUnorm))
    );
    let none = TextureFormatFeatures {
        allowed_usages: TextureUsages::from_bits(TextureUsages::ALL),
        flags: TextureFormatFeatureFlags::empty(),
    };
    assert_eq!(
        device.create_texture(none, &request),
        Err(CreateTextureError::InvalidSampleCount(4, TextureFormat::Bc1RgbaUnorm))
    );
    let all_but_four = TextureFormatFeatures {
        allowed_usages: TextureUsages::from_bits(TextureUsages::ALL),
        flags: TextureFormatFeatureFlags::from_bits(
            TextureFormatFeatureFlags::ALL & !TextureFormatFeatureFlags::MULTISAMPLE_X4,
        ),
    };
    assert_eq!(
        device.create_texture(all_but_four, &request),
        Err(CreateTextureError::InvalidSampleCount(4, TextureFormat::Bc1RgbaUnorm))
    );
    let four = TextureFormatFeatures {
        allowed_usages: TextureUsages::from_bits(TextureUsages::ALL),
        flags: TextureFormatFeatureFlags::from_bits(TextureFormatFeatureFlags::MULTISAMPLE_X4),
    };
    assert!(device.create_texture(four, &request).is_ok());
}

#[test]
fn mip_level_count_is_held_to_the_size() {
    let mut device = device(0, DownlevelFlags::ALL);
    let usage = TextureUsages::TEXTURE_BINDING;
    let mut request = desc(TextureFormat::Rgba8Unorm, 64, 32, usage);
    request.mip_level_count = 7;
    assert!(device.create_texture(ignored(), &request).is_ok());
    request.mip_level_count = 8;
    assert_eq!(
        device.create_texture(ignored(), &request),
        Err(CreateTextureError::InvalidMipLevelCount { requested: 8, maximum: 7 })
    );
    request.mip_level_count = 0;
    assert_eq!(
        device.create_texture(ignored(), &request),
        Err(CreateTextureError::InvalidMipLevelCount { requested: 0, maximum: 7 })
    );
    device.limits.max_texture_dimension_2d = 1 << 20;
    let mut huge = desc(TextureFormat::Rgba8Unorm, 1 << 17, 1, usage);
    huge.mip_level_count = 17;
    assert_eq!(
        device.create_texture(ignored(), &huge),
        Err(CreateTextureError::InvalidMipLevelCount { requested: 17, maximum: MAX_MIP_LEVELS })
    );
    huge.mip_level_count = 16;
    assert!(device.create_texture(ignored(), &huge).is_ok());
}

#[test]
fn max_mips_counts_the_halvings() {
    let cases = [(1u32, 1u32, 1u32), (2, 1, 1), (64, 32, 1), (100, 50, 300), (8192, 8192, 1), (0, 0, 0)];
    for (width, height, depth) in cases {
        let size = Extent3d { width, height, depth_or_array_layers: depth };
        let outside = wgpu_types::Extent3d { width, height, depth_or_array_layers: depth };
        assert_eq!(size.max_mips(TextureDimension::D1), 1);
        assert_eq!(
            size.max_mips(TextureDimension::D2),
            outside.max_mips(wgpu_types::TextureDimension::D2)
        );
        assert_eq!(
            size.max_mips(TextureDimension::D3),
            outside.max_mips(wgpu_types::TextureDimension::D3)
        );
    }
    assert_eq!(
        Extent3d { width: 64, height: 32, depth_or_array_layers: 1 }.max_mips(TextureDimension::D2),
        7
    );
    assert_eq!(
        Extent3d { width: 4, height: 4, depth_or_array_layers: 300 }.max_mips(TextureDimension::D3),
        9
    );
}

#[test]
fn usages_must_be_allowed_by_the_format() {
    let plain = device(0, DownlevelFlags::ALL);
    assert_eq!(
        plain.create_texture(
            ignored(),
            &desc(TextureFormat::Rgba8Snorm, 4, 4, TextureUsages::RENDER_ATTACHMENT)
        ),
        Err(CreateTextureError::InvalidFormatUsages(
            TextureUsages::from_bits(TextureUsages::RENDER_ATTACHMENT),
            TextureFormat::Rgba8Snorm,
            false
        ))
    );
    let by_adapter = device(Features::TEXTURE_ADAPTER_SPECIFIC_FORMAT_FEATURES, DownlevelFlags::ALL);
    let narrow = TextureFormatFeatures {
        allowed_usages: TextureUsages::from_bits(TextureUsages::TEXTURE_BINDING),
        flags: TextureFormatFeatureFlags::empty(),
    };
    assert_eq!(
        by_adapter.create_texture(
            narrow,
            &desc(
                TextureFormat::Rgba8Unorm,
                4,
                4,
                TextureUsages::TEXTURE_BINDING | TextureUsages::STORAGE_BINDING
            )
        ),
        Err(CreateTextureError::InvalidFormatUsages(
            TextureUsages::from_bits(TextureUsages::STORAGE_BINDING),
            TextureFormat::Rgba8Unorm,
            true
        ))
    );
}

#[test]
fn adapter_counts_on_a_platform_that_is_not_compliant() {
    let downlevel = device(0, DownlevelFlags::ALL & !DownlevelFlags::COMPUTE_SHADERS);
    let narrow = TextureFormatFeatures {
        allowed_usages: TextureUsages::from_bits(TextureUsages::TEXTURE_BINDING),
        flags: TextureFormatFeatureFlags::empty(),
    };
    let request = desc(TextureFormat::Rgba8Unorm, 4, 4, TextureUsages::TEXTURE_BINDING);
    assert_eq!(downlevel.create_texture(narrow, &request).unwrap().format_features, narrow);
    assert!(downlevel.uses_adapter_format_features());
    let no_aniso = device(0, DownlevelFlags::ALL & !DownlevelFlags::ANISOTROPIC_FILTERING);
    assert!(!no_aniso.uses_adapter_format_features());
    assert!(no_aniso.downlevel.is_webgpu_compliant());
    let mut old_shaders = device(0, DownlevelFlags::ALL);
    old_shaders.downlevel.shader_model = ShaderModel::Sm4;
    assert!(!old_shaders.downlevel.is_webgpu_compliant());
}

#[test]
fn view_formats_must_be_reinterpretations() {
    let device = device(0, DownlevelFlags::ALL);
    let usage = TextureUsages::TEXTURE_BINDING;
    let mut request = desc(TextureFormat::Rgba8Unorm, 4, 4, usage);
    request.view_formats =
        vec![TextureFormat::Rgba8Unorm, TextureFormat::Rgba8UnormSrgb, TextureFormat::Rgba8Unorm];
    let plan = device.create_texture(ignored(), &request).unwrap();
    assert_eq!(plan.hal.view_formats, vec![TextureFormat::Rgba8UnormSrgb]);
    request.view_formats = vec![TextureFormat::Rgba8UnormSrgb, TextureFormat::Bgra8Unorm];
    assert_eq!(
        device.create_texture(ignored(), &request),
        Err(CreateTextureError::InvalidViewFormat(
            TextureFormat::Bgra8Unorm,
            TextureFormat::Rgba8Unorm
        ))
    );
    let old = device_without_view_formats();
    request.view_formats = vec![TextureFormat::Rgba8UnormSrgb];
    assert_eq!(
        old.create_texture(old_adapter(), &request),
        Err(CreateTextureError::MissingDownlevelFlags(MissingDownlevelFlags(
            DownlevelFlags::from_bits(DownlevelFlags::VIEW_FORMATS)
        )))
    );
    request.view_formats = vec![TextureFormat::Rgba8Unorm];
    assert!(old.create_texture(old_adapter(), &request).is_ok());
}

fn device_without_view_formats() -> Device {
    device(0, DownlevelFlags::ALL & !DownlevelFlags::VIEW_FORMATS)
}

fn old_adapter() -> TextureFormatFeatures {
    TextureFormatFeatures {
        allowed_usages: TextureUsages::from_bits(TextureUsages::ALL),
        flags: TextureFormatFeatureFlags::empty(),
    }
}

#[test]
fn view_format_kinds() {
    assert_eq!(
        view_format_kind(&TextureFormat::Rgba8Unorm, &TextureFormat::Rgba8Unorm),
        ViewFormatKind::Same
    );
    assert_eq!(
        view_format_kind(&TextureFormat::Rgba8UnormSrgb, &TextureFormat::Rgba8Unorm),
        ViewFormatKind::Reinterpretation
    );
    assert_eq!(
        view_format_kind(&TextureFormat::Rgba8Unorm, &TextureFormat::R8Unorm),
        ViewFormatKind::Unrelated
    );
}

#[test]
fn format_info_reads_the_outside_tables() {
    let features = Features::from_bits(Features::RG11B10UFLOAT_RENDERABLE);
    let info = format_info(&TextureFormat::Bc1RgbaUnorm, features);
    assert!(!info.is_depth_stencil);
    assert_eq!((info.block_width, info.block_height), (4, 4));
    assert!(info.is_compressed);
    assert_eq!(info.required_features.bits, Features::TEXTURE_COMPRESSION_BC);
    assert_eq!(info.aspects.bits, wgpu_hal::FormatAspects::COLOR.bits());
    let info = format_info(&TextureFormat::Depth24PlusStencil8, features);
    assert!(info.is_depth_stencil);
    assert!(!info.is_compressed);
    assert_eq!(info.required_features.bits, 0);
    assert_eq!(
        info.aspects.bits,
        (wgpu_hal::FormatAspects::DEPTH | wgpu_hal::FormatAspects::STENCIL).bits()
    );
    let plain = format_info(&TextureFormat::Rg11b10Float, Features::empty());
    let renderable = format_info(&TextureFormat::Rg11b10Float, features);
    assert!(!plain.guaranteed.allowed_usages.contains(TextureUsages::RENDER_ATTACHMENT));
    assert!(renderable.guaranteed.allowed_usages.contains(TextureUsages::RENDER_ATTACHMENT));
}

#[test]
fn texture_record_starts_unwritten() {
    let device = device(0, DownlevelFlags::ALL);
    let mut request = desc(TextureFormat::Rgba8Unorm, 64, 64, TextureUsages::TEXTURE_BINDING);
    request.size.depth_or_array_layers = 3;
    request.mip_level_count = 2;
    let plan = device.create_texture(ignored(), &request).unwrap();
    assert_eq!(plan.clear_mode, TextureClearKind::RenderPass { is_color: true });
    let texture = device.create_texture_from_hal(
        7u32,
        plan.hal.usage,
        request,
        String::from("tex"),
        plan.format_features,
        TextureClearMode::<u8>::new(plan.clear_mode),
    );
    assert_eq!(
        texture.clear_mode,
        TextureClearMode::RenderPass { clear_views: vec![], is_color: true }
    );
    assert_eq!(
        TextureClearMode::<u8>::new(TextureClearKind::BufferCopy),
        TextureClearMode::BufferCopy
    );
    assert_eq!(
        TextureClearMode::<u8>::new(TextureClearKind::RenderPass { is_color: false }),
        TextureClearMode::RenderPass { clear_views: vec![], is_color: false }
    );
    assert_eq!(texture.inner, Some(TextureInner::Native { raw: Some(7) }));
    assert_eq!(texture.initialization_status.mips, vec![0..3, 0..3]);
    assert_eq!(texture.full_range.mips, 0..2);
    assert_eq!(texture.full_range.layers, 0..3);
    assert_eq!(texture.info.label, "tex");
    assert_eq!(texture.hal_usage, plan.hal.usage);
}
