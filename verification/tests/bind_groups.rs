use device_core::bind_group::{
    BindGroupBuilder, check_array_binding, check_buffer_usage, create_bind_group_from_hal, first_duplicate,
    sort_by_binding, texture_use_parameters, BindGroupDescriptor, BindGroupDynamicBindingData,
    BindGroupEntry, BindingResource, BufferBinding, CreateBindGroupError, HalBindGroupEntry,
    HalBufferBinding, HalTextureBinding, Hub, MissingBufferUsageError, MissingTextureUsageError,
    EXPECTED_BUFFER, EXPECTED_SAMPLER, EXPECTED_TEXTURE, STORAGE_OFFSET_LIMIT,
    UNIFORM_OFFSET_LIMIT,
};
use device_core::binding_model::{
    BindEntryMap, BindGroupLayout, BindGroupLayoutEntry, BindingType, BindingTypeMaxCountValidator,
    BufferBindingType, SamplerBindingType, StorageTextureAccess,
};
use device_core::buffer::{Buffer, BufferMapState};
use device_core::device::{Device, DeviceError, DeviceState};
use device_core::flags::{
    BufferUsages, BufferUses, DownlevelFlags, Features, ShaderStages, TextureFormatFeatureFlags,
    TextureUsages, TextureUses,
};
use device_core::format::{TextureAspect, TextureFormatFeatures, TextureSampleType};
use device_core::init_tracker::{
    BufferInitTracker, BufferInitTrackerAction, MemoryInitKind, TextureInitRange,
    TextureInitTrackerAction,
};
use device_core::limits::{Alignments, DownlevelCapabilities, Limits, ShaderModel};
use device_core::sampler::Sampler;
use device_core::storage::{ResourceInfo, Storage};
use device_core::texture::{
    Extent3d, Texture, TextureClearMode, TextureDescriptor, TextureDimension, TextureInitTracker,
    TextureInner,
};
use device_core::texture_view::{
    ImageSubresourceRange, ResolvedTextureViewDescriptor, TextureSelector, TextureView,
    TextureViewDimension, TextureViewNotRenderableReason,
};
use device_core::track::{BufferUse, TextureUse};
use wgpu_types::TextureFormat;

fn limits() -> Limits {
    let l = wgpu_types::Limits::default();
    Limits {
        max_texture_dimension_1d: l.max_texture_dimension_1d,
        max_texture_dimension_2d: l.max_texture_dimension_2d,
        max_texture_dimension_3d: l.max_texture_dimension_3d,
        max_texture_array_layers: l.max_texture_array_layers,
        max_bind_groups: l.max_bind_groups,
        max_bindings_per_bind_group: l.max_bindings_per_bind_group,
        max_dynamic_uniform_buffers_per_pipeline_layout: l
            .max_dynamic_uniform_buffers_per_pipeline_layout,
        max_dynamic_storage_buffers_per_pipeline_layout: l
            .max_dynamic_storage_buffers_per_pipeline_layout,
        max_sampled_textures_per_shader_stage: l.max_sampled_textures_per_shader_stage,
        max_samplers_per_shader_stage: l.max_samplers_per_shader_stage,
        max_storage_buffers_per_shader_stage: l.max_storage_buffers_per_shader_stage,
        max_storage_textures_per_shader_stage: l.max_storage_textures_per_shader_stage,
        max_uniform_buffers_per_shader_stage: l.max_uniform_buffers_per_shader_stage,
        max_uniform_buffer_binding_size: l.max_uniform_buffer_binding_size,
        max_storage_buffer_binding_size: l.max_storage_buffer_binding_size,
        max_vertex_buffers: l.max_vertex_buffers,
        max_buffer_size: l.max_buffer_size,
        max_vertex_attributes: l.max_vertex_attributes,
        max_vertex_buffer_array_stride: l.max_vertex_buffer_array_stride,
        min_uniform_buffer_offset_alignment: l.min_uniform_buffer_offset_alignment,
        min_storage_buffer_offset_alignment: l.min_storage_buffer_offset_alignment,
        max_inter_stage_shader_components: l.max_inter_stage_shader_components,
        max_compute_workgroup_storage_size: l.max_compute_workgroup_storage_size,
        max_compute_invocations_per_workgroup: l.max_compute_invocations_per_workgroup,
        max_compute_workgroup_size_x: l.max_compute_workgroup_size_x,
        max_compute_workgroup_size_y: l.max_compute_workgroup_size_y,
        max_compute_workgroup_size_z: l.max_compute_workgroup_size_z,
        max_compute_workgroups_per_dimension: l.max_compute_workgroups_per_dimension,
        max_push_constant_size: l.max_push_constant_size,
    }
}

fn device(features: u64, downlevel: u32) -> Device {
    Device {
        adapter_id: 1,
        alignments: Alignments { buffer_copy_offset: 4, buffer_copy_pitch: 256 },
        limits: limits(),
        features: Features::from_bits(features),
        downlevel: DownlevelCapabilities {
            flags: DownlevelFlags::from_bits(downlevel),
            shader_model: ShaderModel::Sm5,
        },
        state: DeviceState::new(),
    }
}

fn buffer(size: u64, usage: u32) -> Buffer<u8> {
    Buffer {
        raw: Some(1),
        usage: BufferUsages::from_bits(usage),
        size,
        initialization_status: BufferInitTracker::new(size),
        map_state: BufferMapState::Idle,
        info: ResourceInfo::new(String::new()),
    }
}

fn texture(format: TextureFormat, usage: u32) -> Texture<u8, u8> {
    Texture {
        inner: Some(TextureInner::Native { raw: Some(1) }),
        desc: TextureDescriptor {
            label: None,
            size: Extent3d { width: 16, height: 16, depth_or_array_layers: 1 },
            mip_level_count: 3,
            sample_count: 1,
            dimension: TextureDimension::D2,
            format,
            usage: TextureUsages::from_bits(usage),
            view_formats: vec![],
        },
        hal_usage: TextureUses::from_bits(TextureUses::RESOURCE),
        format_features: features(0),
        initialization_status: TextureInitTracker::new(3, 1),
        full_range: TextureSelector { mips: 0..3, layers: 0..1 },
        info: ResourceInfo::new(String::new()),
        clear_mode: TextureClearMode::BufferCopy,
    }
}

fn features(flags: u32) -> TextureFormatFeatures {
    TextureFormatFeatures {
        allowed_usages: TextureUsages::from_bits(TextureUsages::ALL),
        flags: TextureFormatFeatureFlags::from_bits(flags),
    }
}

fn view(parent: u64, format: TextureFormat, mips: u32) -> TextureView<u8> {
    TextureView {
        raw: Some(1),
        parent_id: parent,
        holds_parent: true,
        desc: ResolvedTextureViewDescriptor {
            format,
            dimension: TextureViewDimension::D2,
            range: ImageSubresourceRange {
                aspect: TextureAspect::All,
                base_mip_level: 0,
                mip_level_count: Some(mips),
                base_array_layer: 0,
                array_layer_count: Some(1),
            },
        },
        format_features: features(TextureFormatFeatureFlags::FILTERABLE),
        render_extent: Err(TextureViewNotRenderableReason::MipLevelCount(mips)),
        samples: 1,
        selector: TextureSelector { mips: 0..mips, layers: 0..1 },
        info: ResourceInfo::new(String::new()),
    }
}

fn sampler(filtering: bool, comparison: bool) -> Sampler<u8> {
    Sampler { raw: Some(1), info: ResourceInfo::new(String::new()), comparison, filtering }
}

fn hub() -> Hub<u8, u8, u8, u8> {
    let mut hub = Hub {
        buffers: Storage::new(),
        textures: Storage::new(),
        texture_views: Storage::new(),
        samplers: Storage::new(),
    };
    hub.buffers.force_replace(1, buffer(1024, BufferUsages::UNIFORM | BufferUsages::STORAGE));
    hub.buffers.force_replace(2, buffer(64, BufferUsages::COPY_DST));
    let mut destroyed = buffer(64, BufferUsages::UNIFORM);
    destroyed.raw = None;
    hub.buffers.force_replace(3, destroyed);
    hub.textures.force_replace(
        1,
        texture(
            TextureFormat::Rgba8Unorm,
            TextureUsages::TEXTURE_BINDING | TextureUsages::STORAGE_BINDING,
        ),
    );
    hub.textures.force_replace(2, texture(TextureFormat::Rgba8Unorm, TextureUsages::COPY_DST));
    hub.texture_views.force_replace(1, view(1, TextureFormat::Rgba8Unorm, 1));
    hub.texture_views.force_replace(2, view(2, TextureFormat::Rgba8Unorm, 1));
    hub.texture_views.force_replace(3, view(1, TextureFormat::Rgba8Unorm, 3));
    hub.texture_views.force_replace(4, view(9, TextureFormat::Rgba8Unorm, 1));
    hub.texture_views.force_replace(5, view(1, TextureFormat::Depth24PlusStencil8, 1));
    hub.samplers.force_replace(1, sampler(true, false));
    hub.samplers.force_replace(2, sampler(false, true));
    hub.samplers.force_replace(3, sampler(false, false));
    hub
}

fn entry(binding: u32, ty: BindingType, count: Option<u32>) -> BindGroupLayoutEntry {
    BindGroupLayoutEntry {
        binding,
        visibility: ShaderStages::from_bits(ShaderStages::COMPUTE),
        ty,
        count,
    }
}

fn uniform_decl(binding: u32, dynamic: bool, min: Option<u64>) -> BindGroupLayoutEntry {
    entry(
        binding,
        BindingType::Buffer {
            ty: BufferBindingType::Uniform,
            has_dynamic_offset: dynamic,
            min_binding_size: min,
        },
        None,
    )
}

fn sampled_decl(binding: u32) -> BindGroupLayoutEntry {
    entry(
        binding,
        BindingType::Texture {
            sample_type: TextureSampleType::Float { filterable: true },
            view_dimension: TextureViewDimension::D2,
            multisampled: false,
        },
        None,
    )
}

fn sampler_decl(binding: u32, ty: SamplerBindingType) -> BindGroupLayoutEntry {
    entry(binding, BindingType::Sampler(ty), None)
}

fn layout(entries: &[BindGroupLayoutEntry]) -> BindGroupLayout<u8> {
    let mut map = BindEntryMap::new();
    for entry in entries {
        map.insert(*entry);
    }
    BindGroupLayout {
        raw: Some(1),
        device_id: 0,
        count_validator: BindingTypeMaxCountValidator::new(),
        entries: map,
        info: ResourceInfo::new(String::new()),
    }
}

fn bind(binding: u32, resource: BindingResource) -> BindGroupEntry {
    BindGroupEntry { binding, resource }
}

fn buf(buffer_id: u64, offset: u64, size: Option<u64>) -> BindingResource {
    BindingResource::Buffer(BufferBinding { buffer_id, offset, size })
}

fn group(entries: Vec<BindGroupEntry>) -> BindGroupDescriptor {
    BindGroupDescriptor { label: None, layout: 0, entries }
}

#[test]
fn entry_count_must_match_the_layout() {
    let device = device(0, DownlevelFlags::ALL);
    let two = layout(&[uniform_decl(0, false, None), uniform_decl(1, false, None)]);
    assert_eq!(
        device.create_bind_group(&two, &group(vec![bind(0, buf(1, 0, None))]), &hub()),
        Err(CreateBindGroupError::BindingsNumMismatch { expected: 2, actual: 1 })
    );
    assert_eq!(
        device.create_bind_group(&two, &group(vec![]), &hub()),
        Err(CreateBindGroupError::BindingsNumMismatch { expected: 2, actual: 0 })
    );
}

#[test]
fn bind_group_of_buffers_sampler_and_texture() {
    let device = device(0, DownlevelFlags::ALL);
    let declared = layout(&[
        uniform_decl(0, true, None),
        sampler_decl(1, SamplerBindingType::Filtering),
        sampled_decl(2),
        uniform_decl(3, false, Some(16)),
    ]);
    let request = group(vec![
        bind(2, BindingResource::TextureView(1)),
        bind(3, buf(1, 512, Some(64))),
        bind(0, buf(1, 256, None)),
        bind(1, BindingResource::Sampler(1)),
    ]);
    let plan = device.create_bind_group(&declared, &request, &hub()).unwrap();
    assert_eq!(
        plan.entries,
        vec![
            HalBindGroupEntry { binding: 0, resource_index: 1, count: 1 },
            HalBindGroupEntry { binding: 1, resource_index: 0, count: 1 },
            HalBindGroupEntry { binding: 2, resource_index: 0, count: 1 },
            HalBindGroupEntry { binding: 3, resource_index: 0, count: 1 },
        ]
    );
    assert_eq!(
        plan.buffers,
        vec![
            HalBufferBinding { buffer: 1, offset: 512, size: Some(64) },
            HalBufferBinding { buffer: 1, offset: 256, size: None },
        ]
    );
    assert_eq!(plan.samplers, vec![1]);
    assert_eq!(
        plan.textures,
        vec![HalTextureBinding { view: 1, usage: TextureUses::from_bits(TextureUses::RESOURCE) }]
    );
    assert_eq!(
        plan.used.buffers,
        vec![BufferUse { id: 1, usage: BufferUses::from_bits(BufferUses::UNIFORM) }]
    );
    assert_eq!(
        plan.used.textures,
        vec![TextureUse {
            id: 1,
            selector: Some(TextureSelector { mips: 0..1, layers: 0..1 }),
            usage: TextureUses::from_bits(TextureUses::RESOURCE),
        }]
    );
    assert_eq!(plan.used.views, vec![1]);
    assert_eq!(plan.used.samplers, vec![1]);
    assert_eq!(
        plan.dynamic_binding_info,
        vec![BindGroupDynamicBindingData {
            binding_idx: 0,
            buffer_size: 1024,
            binding_range: 256..1024,
            maximum_dynamic_offset: 0,
            binding_type: BufferBindingType::Uniform,
        }]
    );
    assert_eq!(plan.late_buffer_binding_sizes, vec![768]);
    assert_eq!(
        plan.used_buffer_ranges,
        vec![
            BufferInitTrackerAction {
                id: 1,
                range: 512..576,
                kind: MemoryInitKind::NeedsInitializedMemory
            },
            BufferInitTrackerAction {
                id: 1,
                range: 256..1024,
                kind: MemoryInitKind::NeedsInitializedMemory
            },
        ]
    );
    assert_eq!(
        plan.used_texture_ranges,
        vec![TextureInitTrackerAction {
            id: 1,
            range: TextureInitRange { mip_range: 0..1, layer_range: 0..1 },
            kind: MemoryInitKind::NeedsInitializedMemory,
        }]
    );
    let made = create_bind_group_from_hal(plan, 4, String::from("g"), Ok(2u8)).unwrap();
    assert_eq!(made.raw, Some(2));
    assert_eq!(made.layout_id, 4);
    assert_eq!(made.late_buffer_binding_sizes, vec![768]);
    let plan = device.create_bind_group(&declared, &request, &hub()).unwrap();
    assert_eq!(
        create_bind_group_from_hal::<u8>(plan, 4, String::new(), Err(DeviceError::Lost)),
        Err(CreateBindGroupError::Device(DeviceError::Lost))
    );
}

fn one_buffer(decl: BindGroupLayoutEntry, resource: BindingResource) -> Result<(), CreateBindGroupError> {
    let device = device(Features::BUFFER_BINDING_ARRAY, DownlevelFlags::ALL);
    device.create_bind_group(&layout(&[decl]), &group(vec![bind(decl.binding, resource)]), &hub()).map(|_| ())
}

#[test]
fn buffer_binding_rules() {
    assert_eq!(
        one_buffer(sampled_decl(0), buf(1, 0, None)),
        Err(CreateBindGroupError::WrongBindingType {
            binding: 0,
            actual: sampled_decl(0).ty,
            expected: EXPECTED_BUFFER
        })
    );
    assert_eq!(
        one_buffer(uniform_decl(0, false, None), buf(1, 100, None)),
        Err(CreateBindGroupError::UnalignedBufferOffset(100, UNIFORM_OFFSET_LIMIT, 256))
    );
    let storage = entry(
        0,
        BindingType::Buffer {
            ty: BufferBindingType::Storage { read_only: true },
            has_dynamic_offset: false,
            min_binding_size: None,
        },
        None,
    );
    assert_eq!(
        one_buffer(storage, buf(1, 4, None)),
        Err(CreateBindGroupError::UnalignedBufferOffset(4, STORAGE_OFFSET_LIMIT, 256))
    );
    assert_eq!(
        one_buffer(uniform_decl(0, false, None), buf(8, 0, None)),
        Err(CreateBindGroupError::InvalidBuffer(8))
    );
    assert_eq!(
        one_buffer(uniform_decl(0, false, None), buf(2, 0, None)),
        Err(CreateBindGroupError::MissingBufferUsage(MissingBufferUsageError {
            actual: BufferUsages::from_bits(BufferUsages::COPY_DST),
            expected: BufferUsages::from_bits(BufferUsages::UNIFORM),
        }))
    );
    assert_eq!(
        one_buffer(uniform_decl(0, false, None), buf(3, 0, None)),
        Err(CreateBindGroupError::InvalidBuffer(3))
    );
    assert_eq!(
        one_buffer(uniform_decl(0, false, None), buf(1, 512, Some(513))),
        Err(CreateBindGroupError::BindingRangeTooLarge { buffer: 1, range: 512..1025, size: 1024 })
    );
    assert_eq!(
        one_buffer(uniform_decl(0, false, None), buf(1, 2048, None)),
        Err(CreateBindGroupError::BindingRangeTooLarge { buffer: 1, range: 2048..1024, size: 1024 })
    );
    assert_eq!(
        one_buffer(uniform_decl(0, false, None), buf(1, 256, Some(u64::MAX))),
        Err(CreateBindGroupError::BindingRangeTooLarge {
            buffer: 1,
            range: 256..u64::MAX,
            size: 1024
        })
    );
    assert_eq!(
        one_buffer(uniform_decl(0, false, Some(32)), buf(1, 0, Some(16))),
        Err(CreateBindGroupError::BindingSizeTooSmall { buffer: 1, actual: 16, min: 32 })
    );
    assert_eq!(
        one_buffer(uniform_decl(0, false, None), buf(1, 1024, None)),
        Err(CreateBindGroupError::BindingZeroSize(1))
    );
    assert_eq!(one_buffer(uniform_decl(0, false, Some(16)), buf(1, 0, Some(16))), Ok(()));
    assert_eq!(one_buffer(storage, buf(1, 0, None)), Ok(()));
}

#[test]
fn buffer_binding_is_held_to_the_binding_size_limit() {
    let mut device = device(0, DownlevelFlags::ALL);
    device.limits.max_uniform_buffer_binding_size = 512;
    assert_eq!(
        device.create_bind_group(
            &layout(&[uniform_decl(5, false, None)]),
            &group(vec![bind(5, buf(1, 0, None))]),
            &hub()
        ),
        Err(CreateBindGroupError::BufferRangeTooLarge { binding: 5, given: 1024, limit: 512 })
    );
    assert!(device
        .create_bind_group(
            &layout(&[uniform_decl(5, false, None)]),
            &group(vec![bind(5, buf(1, 512, None))]),
            &hub()
        )
        .is_ok());
}

#[test]
fn written_buffer_needs_no_initialization() {
    let device = device(0, DownlevelFlags::ALL);
    let mut tables = hub();
    let mut written = buffer(1024, BufferUsages::UNIFORM);
    written.initialization_status.uninitialized_ranges = vec![0..100, 900..1024];
    tables.buffers.force_replace(1, written);
    let declared = layout(&[uniform_decl(0, false, None)]);
    let plan = device
        .create_bind_group(&declared, &group(vec![bind(0, buf(1, 256, Some(256)))]), &tables)
        .unwrap();
    assert!(plan.used_buffer_ranges.is_empty());
    let plan = device
        .create_bind_group(&declared, &group(vec![bind(0, buf(1, 0, Some(1024)))]), &tables)
        .unwrap();
    assert_eq!(
        plan.used_buffer_ranges,
        vec![BufferInitTrackerAction {
            id: 1,
            range: 0..1024,
            kind: MemoryInitKind::NeedsInitializedMemory
        }]
    );
    let plan = device
        .create_bind_group(&declared, &group(vec![bind(0, buf(1, 768, Some(256)))]), &tables)
        .unwrap();
    assert_eq!(plan.used_buffer_ranges[0].range, 900..1024);
}

#[test]
fn missing_declaration_and_duplicates() {
    let device = device(0, DownlevelFlags::ALL);
    let declared = layout(&[uniform_decl(0, false, None), uniform_decl(1, false, None)]);
    assert_eq!(
        device.create_bind_group(
            &declared,
            &group(vec![bind(0, buf(1, 0, None)), bind(7, buf(1, 0, None))]),
            &hub()
        ),
        Err(CreateBindGroupError::MissingBindingDeclaration(7))
    );
    assert_eq!(
        device.create_bind_group(
            &declared,
            &group(vec![bind(1, buf(1, 0, None)), bind(1, buf(1, 256, None))]),
            &hub()
        ),
        Err(CreateBindGroupError::DuplicateBinding(1))
    );
    let mut gone = layout(&[uniform_decl(0, false, None)]);
    gone.raw = None;
    assert_eq!(
        device.create_bind_group(&gone, &group(vec![bind(0, buf(1, 0, None))]), &hub()),
        Err(CreateBindGroupError::InvalidLayout)
    );
}

#[test]
fn sampler_binding_rules() {
    let device = device(0, DownlevelFlags::ALL);
    let run = |decl: BindGroupLayoutEntry, id: u64| {
        device
            .create_bind_group(
                &layout(&[decl]),
                &group(vec![bind(0, BindingResource::Sampler(id))]),
                &hub(),
            )
            .map(|_| ())
    };
    assert_eq!(run(sampler_decl(0, SamplerBindingType::Filtering), 1), Ok(()));
    assert_eq!(run(sampler_decl(0, SamplerBindingType::Filtering), 3), Ok(()));
    assert_eq!(
        run(sampler_decl(0, SamplerBindingType::NonFiltering), 1),
        Err(CreateBindGroupError::WrongSamplerFiltering {
            binding: 0,
            layout_flt: false,
            sampler_flt: true
        })
    );
    assert_eq!(run(sampler_decl(0, SamplerBindingType::NonFiltering), 3), Ok(()));
    assert_eq!(
        run(sampler_decl(0, SamplerBindingType::Comparison), 1),
        Err(CreateBindGroupError::WrongSamplerComparison {
            binding: 0,
            layout_cmp: true,
            sampler_cmp: false
        })
    );
    assert_eq!(
        run(sampler_decl(0, SamplerBindingType::Filtering), 2),
        Err(CreateBindGroupError::WrongSamplerComparison {
            binding: 0,
            layout_cmp: false,
            sampler_cmp: true
        })
    );
    assert_eq!(run(sampler_decl(0, SamplerBindingType::Comparison), 2), Ok(()));
    assert_eq!(
        run(sampler_decl(0, SamplerBindingType::Filtering), 9),
        Err(CreateBindGroupError::InvalidSampler(9))
    );
    assert_eq!(
        run(uniform_decl(0, false, None), 1),
        Err(CreateBindGroupError::WrongBindingType {
            binding: 0,
            actual: uniform_decl(0, false, None).ty,
            expected: EXPECTED_SAMPLER
        })
    );
}

#[test]
fn texture_binding_rules() {
    let device = device(0, DownlevelFlags::ALL);
    let run = |decl: BindGroupLayoutEntry, id: u64| {
        device
            .create_bind_group(
                &layout(&[decl]),
                &group(vec![bind(0, BindingResource::TextureView(id))]),
                &hub(),
            )
            .map(|_| ())
    };
    assert_eq!(run(sampled_decl(0), 1), Ok(()));
    assert_eq!(run(sampled_decl(0), 8), Err(CreateBindGroupError::InvalidTextureView(8)));
    assert_eq!(run(sampled_decl(0), 4), Err(CreateBindGroupError::InvalidTexture(9)));
    assert_eq!(
        run(sampled_decl(0), 2),
        Err(CreateBindGroupError::MissingTextureUsage(MissingTextureUsageError {
            actual: TextureUsages::from_bits(TextureUsages::COPY_DST),
            expected: TextureUsages::from_bits(TextureUsages::TEXTURE_BINDING),
        }))
    );
    assert_eq!(run(sampled_decl(0), 5), Err(CreateBindGroupError::DepthStencilAspect));
    assert_eq!(
        run(uniform_decl(0, false, None), 1),
        Err(CreateBindGroupError::WrongBindingType {
            binding: 0,
            actual: uniform_decl(0, false, None).ty,
            expected: EXPECTED_TEXTURE
        })
    );
    let storage = |access: StorageTextureAccess, format: TextureFormat| {
        entry(
            0,
            BindingType::StorageTexture { access, format, view_dimension: TextureViewDimension::D2 },
            None,
        )
    };
    assert_eq!(run(storage(StorageTextureAccess::WriteOnly, TextureFormat::Rgba8Unorm), 1), Ok(()));
    assert_eq!(
        run(storage(StorageTextureAccess::WriteOnly, TextureFormat::Rgba8Uint), 1),
        Err(CreateBindGroupError::InvalidStorageTextureFormat {
            binding: 0,
            layout_format: TextureFormat::Rgba8Uint,
            view_format: TextureFormat::Rgba8Unorm
        })
    );
    assert_eq!(
        run(storage(StorageTextureAccess::WriteOnly, TextureFormat::Rgba8Unorm), 3),
        Err(CreateBindGroupError::InvalidStorageTextureMipLevelCount {
            binding: 0,
            mip_level_count: 3
        })
    );
    assert_eq!(
        run(storage(StorageTextureAccess::ReadOnly, TextureFormat::Rgba8Unorm), 1),
        Err(CreateBindGroupError::StorageReadNotSupported(TextureFormat::Rgba8Unorm))
    );
}

#[test]
fn texture_use_parameters_by_declaration() {
    let sampled = |sample_type: TextureSampleType, multisampled: bool| {
        entry(
            3,
            BindingType::Texture { sample_type, view_dimension: TextureViewDimension::D2, multisampled },
            None,
        )
    };
    let float = view(1, TextureFormat::Rgba8Unorm, 1);
    assert_eq!(
        texture_use_parameters(
            3,
            &sampled(TextureSampleType::Float { filterable: true }, false),
            &float,
            EXPECTED_TEXTURE
        ),
        Ok((
            TextureUsages::from_bits(TextureUsages::TEXTURE_BINDING),
            TextureUses::from_bits(TextureUses::RESOURCE)
        ))
    );
    assert_eq!(
        texture_use_parameters(3, &sampled(TextureSampleType::Uint, false), &float, EXPECTED_TEXTURE),
        Err(CreateBindGroupError::InvalidTextureSampleType {
            binding: 3,
            layout_sample_type: TextureSampleType::Uint,
            view_format: TextureFormat::Rgba8Unorm
        })
    );
    assert_eq!(
        texture_use_parameters(
            3,
            &sampled(TextureSampleType::Float { filterable: true }, true),
            &float,
            EXPECTED_TEXTURE
        ),
        Err(CreateBindGroupError::InvalidTextureMultisample {
            binding: 3,
            layout_multisampled: true,
            view_samples: 1
        })
    );
    let mut unfilterable = view(1, TextureFormat::R32Float, 1);
    unfilterable.format_features = features(0);
    assert_eq!(
        texture_use_parameters(
            3,
            &sampled(TextureSampleType::Float { filterable: true }, false),
            &unfilterable,
            EXPECTED_TEXTURE
        ),
        Err(CreateBindGroupError::InvalidTextureSampleType {
            binding: 3,
            layout_sample_type: TextureSampleType::Float { filterable: true },
            view_format: TextureFormat::R32Float
        })
    );
    assert!(texture_use_parameters(
        3,
        &sampled(TextureSampleType::Float { filterable: false }, false),
        &unfilterable,
        EXPECTED_TEXTURE
    )
    .is_ok());
    unfilterable.format_features = features(TextureFormatFeatureFlags::FILTERABLE);
    assert!(texture_use_parameters(
        3,
        &sampled(TextureSampleType::Float { filterable: true }, false),
        &unfilterable,
        EXPECTED_TEXTURE
    )
    .is_ok());
    let mut depth = view(1, TextureFormat::Depth32Float, 1);
    depth.desc.range.aspect = TextureAspect::DepthOnly;
    assert!(texture_use_parameters(
        3,
        &sampled(TextureSampleType::Depth, false),
        &depth,
        EXPECTED_TEXTURE
    )
    .is_ok());
    assert!(texture_use_parameters(
        3,
        &sampled(TextureSampleType::Float { filterable: false }, false),
        &depth,
        EXPECTED_TEXTURE
    )
    .is_ok());
    let mut cube = view(1, TextureFormat::Rgba8Unorm, 1);
    cube.desc.dimension = TextureViewDimension::Cube;
    assert_eq!(
        texture_use_parameters(
            3,
            &sampled(TextureSampleType::Float { filterable: true }, false),
            &cube,
            EXPECTED_TEXTURE
        ),
        Err(CreateBindGroupError::InvalidTextureDimension {
            binding: 3,
            layout_dimension: TextureViewDimension::D2,
            view_dimension: TextureViewDimension::Cube
        })
    );
    let mut readable = view(1, TextureFormat::Rgba8Unorm, 1);
    readable.format_features = features(TextureFormatFeatureFlags::STORAGE_READ_WRITE);
    let storage = |access: StorageTextureAccess| {
        entry(
            3,
            BindingType::StorageTexture {
                access,
                format: TextureFormat::Rgba8Unorm,
                view_dimension: TextureViewDimension::D2,
            },
            None,
        )
    };
    assert_eq!(
        texture_use_parameters(3, &storage(StorageTextureAccess::ReadOnly), &readable, EXPECTED_TEXTURE),
        Ok((
            TextureUsages::from_bits(TextureUsages::STORAGE_BINDING),
            TextureUses::from_bits(TextureUses::STORAGE_READ)
        ))
    );
    assert_eq!(
        texture_use_parameters(3, &storage(StorageTextureAccess::ReadWrite), &readable, EXPECTED_TEXTURE),
        Ok((
            TextureUsages::from_bits(TextureUsages::STORAGE_BINDING),
            TextureUses::from_bits(TextureUses::STORAGE_READ_WRITE)
        ))
    );
    assert_eq!(
        texture_use_parameters(3, &storage(StorageTextureAccess::WriteOnly), &float, EXPECTED_TEXTURE),
        Ok((
            TextureUsages::from_bits(TextureUsages::STORAGE_BINDING),
            TextureUses::from_bits(TextureUses::STORAGE_READ_WRITE)
        ))
    );
}

#[test]
fn array_binding_length_rules() {
    let plain = Features::empty();
    let partial = Features::from_bits(Features::PARTIALLY_BOUND_BINDING_ARRAY);
    assert_eq!(check_array_binding(plain, None, 1), Err(CreateBindGroupError::SingleBindingExpected));
    assert_eq!(check_array_binding(plain, Some(4), 4), Ok(()));
    assert_eq!(
        check_array_binding(plain, Some(4), 5),
        Err(CreateBindGroupError::BindingArrayPartialLengthMismatch { actual: 5, expected: 4 })
    );
    assert_eq!(
        check_array_binding(partial, Some(4), 5),
        Err(CreateBindGroupError::BindingArrayPartialLengthMismatch { actual: 5, expected: 4 })
    );
    assert_eq!(
        check_array_binding(plain, Some(4), 3),
        Err(CreateBindGroupError::BindingArrayLengthMismatch { actual: 3, expected: 4 })
    );
    assert_eq!(check_array_binding(partial, Some(4), 3), Ok(()));
    assert_eq!(
        check_array_binding(partial, Some(4), 0),
        Err(CreateBindGroupError::BindingArrayZeroLength)
    );
    assert_eq!(
        check_array_binding(plain, Some(4), 0),
        Err(CreateBindGroupError::BindingArrayLengthMismatch { actual: 0, expected: 4 })
    );
}

#[test]
fn arrays_of_buffers_samplers_and_views() {
    let device = device(Features::PARTIALLY_BOUND_BINDING_ARRAY, DownlevelFlags::ALL);
    let declared = layout(&[
        entry(
            0,
            BindingType::Buffer {
                ty: BufferBindingType::Uniform,
                has_dynamic_offset: false,
                min_binding_size: Some(4),
            },
            Some(3),
        ),
        entry(1, BindingType::Sampler(SamplerBindingType::Filtering), Some(2)),
        entry(
            2,
            BindingType::Texture {
                sample_type: TextureSampleType::Float { filterable: true },
                view_dimension: TextureViewDimension::D2,
                multisampled: false,
            },
            Some(2),
        ),
    ]);
    let buffers = vec![
        BufferBinding { buffer_id: 1, offset: 0, size: Some(16) },
        BufferBinding { buffer_id: 1, offset: 256, size: Some(16) },
    ];
    let request = group(vec![
        bind(1, BindingResource::SamplerArray(vec![3, 1])),
        bind(0, BindingResource::BufferArray(buffers)),
        bind(2, BindingResource::TextureViewArray(vec![1, 1])),
    ]);
    let plan = device.create_bind_group(&declared, &request, &hub()).unwrap();
    assert_eq!(
        plan.entries,
        vec![
            HalBindGroupEntry { binding: 0, resource_index: 0, count: 2 },
            HalBindGroupEntry { binding: 1, resource_index: 0, count: 2 },
            HalBindGroupEntry { binding: 2, resource_index: 0, count: 2 },
        ]
    );
    assert_eq!(plan.samplers, vec![3, 1]);
    assert_eq!(plan.used.samplers, vec![1, 3]);
    assert_eq!(plan.used.views, vec![1]);
    assert_eq!(plan.textures.len(), 2);
    assert_eq!(plan.buffers.len(), 2);
    let failing = group(vec![
        bind(1, BindingResource::SamplerArray(vec![3, 7])),
        bind(0, BindingResource::BufferArray(vec![BufferBinding { buffer_id: 1, offset: 0, size: Some(16) }])),
        bind(2, BindingResource::TextureViewArray(vec![1])),
    ]);
    assert_eq!(
        device.create_bind_group(&declared, &failing, &hub()),
        Err(CreateBindGroupError::InvalidSampler(7))
    );
    let single = layout(&[uniform_decl(0, false, None)]);
    assert_eq!(
        device.create_bind_group(
            &single,
            &group(vec![bind(
                0,
                BindingResource::BufferArray(vec![BufferBinding { buffer_id: 1, offset: 0, size: None }])
            )]),
            &hub()
        ),
        Err(CreateBindGroupError::SingleBindingExpected)
    );
}

#[test]
fn entries_are_sorted_by_binding_and_duplicates_found() {
    let at = |binding: u32, resource_index: u32| HalBindGroupEntry { binding, resource_index, count: 1 };
    let sorted = sort_by_binding(&vec![at(5, 0), at(1, 1), at(5, 2), at(0, 3), at(1, 4)]);
    assert_eq!(sorted, vec![at(0, 3), at(1, 1), at(1, 4), at(5, 0), at(5, 2)]);
    assert_eq!(first_duplicate(&sorted), Some(1));
    assert_eq!(first_duplicate(&sort_by_binding(&vec![at(3, 0), at(2, 0), at(9, 0)])), None);
    assert_eq!(first_duplicate(&vec![]), None);
}

#[test]
fn buffer_usage_check() {
    let both = BufferUsages::from_bits(BufferUsages::UNIFORM | BufferUsages::COPY_DST);
    assert_eq!(check_buffer_usage(both, BufferUsages::UNIFORM), Ok(()));
    assert_eq!(
        check_buffer_usage(both, BufferUsages::STORAGE),
        Err(MissingBufferUsageError {
            actual: both,
            expected: BufferUsages::from_bits(BufferUsages::STORAGE)
        })
    );
}

#[test]
fn rejected_buffer_binding_leaves_the_builder_as_it_was() {
    let hub = hub();
    let limits = limits();
    let decl = uniform_decl(4, true, None);
    let mut builder = BindGroupBuilder::new();
    let bound = builder.create_buffer_binding(
        &BufferBinding { buffer_id: 1, offset: 256, size: Some(64) },
        4,
        &decl,
        &hub.buffers,
        &limits,
    );
    assert_eq!(bound, Ok(HalBufferBinding { buffer: 1, offset: 256, size: Some(64) }));
    assert_eq!(builder.hal_buffers.len(), 1);
    assert_eq!(builder.used.buffers.len(), 1);
    assert_eq!(builder.dynamic_binding_info.len(), 1);
    assert_eq!(builder.dynamic_binding_info[0].binding_idx, 4);
    assert_eq!(builder.dynamic_binding_info[0].buffer_size, 1024);
    assert_eq!(builder.dynamic_binding_info[0].binding_range, 256..320);
    assert_eq!(builder.dynamic_binding_info[0].maximum_dynamic_offset, 704);
    assert_eq!(builder.late_buffer_binding_sizes.get(&4), Some(&64));
    let rejected = [
        (BufferBinding { buffer_id: 1, offset: 512, size: Some(0) }, CreateBindGroupError::BindingZeroSize(1)),
        (BufferBinding { buffer_id: 9, offset: 0, size: None }, CreateBindGroupError::InvalidBuffer(9)),
        (
            BufferBinding { buffer_id: 1, offset: 3, size: None },
            CreateBindGroupError::UnalignedBufferOffset(3, UNIFORM_OFFSET_LIMIT, 256),
        ),
        (
            BufferBinding { buffer_id: 1, offset: 768, size: Some(512) },
            CreateBindGroupError::BindingRangeTooLarge { buffer: 1, range: 768..1280, size: 1024 },
        ),
    ];
    for (binding, error) in rejected {
        assert_eq!(builder.create_buffer_binding(&binding, 4, &decl, &hub.buffers, &limits), Err(error));
        assert_eq!(builder.hal_buffers, vec![HalBufferBinding { buffer: 1, offset: 256, size: Some(64) }]);
        assert_eq!(builder.used.buffers.len(), 1);
        assert_eq!(builder.dynamic_binding_info.len(), 1);
        assert_eq!(builder.late_buffer_binding_sizes.len(), 1);
        assert_eq!(builder.late_buffer_binding_sizes.get(&4), Some(&64));
        assert!(builder.hal_entries.is_empty());
    }
    let sized = uniform_decl(5, false, Some(128));
    assert_eq!(
        builder.create_buffer_binding(
            &BufferBinding { buffer_id: 1, offset: 0, size: Some(64) },
            5,
            &sized,
            &hub.buffers,
            &limits,
        ),
        Err(CreateBindGroupError::BindingSizeTooSmall { buffer: 1, actual: 64, min: 128 })
    );
    assert_eq!(builder.late_buffer_binding_sizes.len(), 1);
    assert_eq!(builder.dynamic_binding_info.len(), 1);
    assert_eq!(builder.used_buffer_ranges.len(), 1);
}

#[test]
fn failed_entry_takes_in_only_what_came_before_the_failure() {
    let hub = hub();
    let limits = limits();
    let features = Features::from_bits(0);
    let array = entry(
        0,
        BindingType::Buffer {
            ty: BufferBindingType::Uniform,
            has_dynamic_offset: false,
            min_binding_size: None,
        },
        Some(3),
    );
    let mut builder = BindGroupBuilder::new();
    let three = vec![
        BufferBinding { buffer_id: 1, offset: 0, size: Some(16) },
        BufferBinding { buffer_id: 1, offset: 256, size: Some(32) },
        BufferBinding { buffer_id: 2, offset: 0, size: Some(16) },
    ];
    let failed = builder.bind_entry(
        &bind(0, BindingResource::BufferArray(three)),
        &array,
        &hub,
        features,
        &limits,
    );
    assert!(matches!(failed, Err(CreateBindGroupError::MissingBufferUsage(_))));
    assert_eq!(
        builder.hal_buffers,
        vec![
            HalBufferBinding { buffer: 1, offset: 0, size: Some(16) },
            HalBufferBinding { buffer: 1, offset: 256, size: Some(32) },
        ]
    );
    assert_eq!(builder.used.buffers.len(), 2);
    assert_eq!(builder.late_buffer_binding_sizes.get(&0), Some(&32));
    assert!(builder.hal_entries.is_empty());

    let mut builder = BindGroupBuilder::new();
    let too_few = vec![BufferBinding { buffer_id: 1, offset: 0, size: Some(16) }];
    let failed = builder.bind_entry(
        &bind(0, BindingResource::BufferArray(too_few)),
        &array,
        &hub,
        features,
        &limits,
    );
    assert_eq!(failed, Err(CreateBindGroupError::BindingArrayLengthMismatch { actual: 1, expected: 3 }));
    assert!(builder.hal_buffers.is_empty());
    assert!(builder.used.buffers.is_empty());

    let samplers = entry(1, BindingType::Sampler(SamplerBindingType::Filtering), Some(3));
    let failed = builder.bind_entry(
        &bind(1, BindingResource::SamplerArray(vec![3, 1, 7])),
        &samplers,
        &hub,
        features,
        &limits,
    );
    assert_eq!(failed, Err(CreateBindGroupError::InvalidSampler(7)));
    assert_eq!(builder.hal_samplers, vec![3, 1]);
    assert_eq!(builder.used.samplers, vec![3, 1]);

    let single = sampler_decl(2, SamplerBindingType::Comparison);
    let failed = builder.bind_entry(&bind(2, BindingResource::Sampler(1)), &single, &hub, features, &limits);
    assert!(matches!(failed, Err(CreateBindGroupError::WrongSamplerComparison { .. })));
    assert_eq!(builder.hal_samplers, vec![3, 1]);

    let views = entry(
        3,
        BindingType::Texture {
            sample_type: TextureSampleType::Float { filterable: true },
            view_dimension: TextureViewDimension::D2,
            multisampled: false,
        },
        Some(2),
    );
    let failed = builder.bind_entry(
        &bind(3, BindingResource::TextureViewArray(vec![1, 8])),
        &views,
        &hub,
        features,
        &limits,
    );
    assert_eq!(failed, Err(CreateBindGroupError::InvalidTextureView(8)));
    assert_eq!(builder.hal_textures.len(), 1);
    assert_eq!(builder.used.views, vec![1]);
    assert!(builder.hal_entries.is_empty());
}
