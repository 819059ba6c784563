use device_core::buffer::{BufferDescriptor, BufferMapState, CreateBufferError};
use device_core::conv::{
    bind_group_layout_flags, is_power_of_two_u32, map_buffer_usage, map_texture_usage,
};
use device_core::device::{Device, DeviceError, DeviceState, MissingFeatures};
use device_core::flags::{
    BindGroupLayoutFlags, BufferUsages, BufferUses, ColorWrites, DownlevelFlags, Features,
    FormatAspects, MemoryFlags, ShaderCapabilities, ShaderStages, TextureFormatFeatureFlags,
    TextureUsages, TextureUses,
};
use device_core::init_tracker::{BufferInitTracker, BufferInitTrackerAction, MemoryInitKind};
use device_core::limits::{
    Alignments, DownlevelCapabilities, Limits, ShaderModel, COPY_BUFFER_ALIGNMENT,
    MAX_BIND_GROUPS, MAX_COLOR_ATTACHMENTS, MAX_MIP_LEVELS, PUSH_CONSTANT_ALIGNMENT,
    QUERY_SET_MAX_QUERIES, VERTEX_STRIDE_ALIGNMENT,
};
use device_core::query_set::{
    create_query_set_from_hal, CreateQuerySetError, QuerySetDescriptor, QueryType,
};
use device_core::shader::{
    create_shader_module_from_hal, CreateShaderModuleError, HalShaderError, ResourceBinding,
};
use device_core::storage::Storage;
use device_core::texture_view::TextureSelector;
use device_core::track::{BindGroupStates, BufferUse, TextureUse};

fn limits() -> Limits {
    let l = wgpu_types::Limits::default();
    Limits {
        max_texture_dimension_1d: l.max_texture_dimension_1d,
        max_texture_dimension_2d: l.max_texture_dimension_2d,
        max_texture_dimension_3d: l.max_texture_dimension_3d,
        max_texture_array_layers: l.max_texture_array_layers,
        max_bind_groups: l.max_bind_groups,
        max_bindings_per_bind_group: l.max_bindings_per_bind_group,
        max_dynamic_uniform_buffers_per_pipeline_layout: l
            .max_dynamic_uniform_buffers_per_pipeline_layout,
        max_dynamic_storage_buffers_per_pipeline_layout: l
            .max_dynamic_storage_buffers_per_pipeline_layout,
        max_sampled_textures_per_shader_stage: l.max_sampled_textures_per_shader_stage,
        max_samplers_per_shader_stage: l.max_samplers_per_shader_stage,
        max_storage_buffers_per_shader_stage: l.max_storage_buffers_per_shader_stage,
        max_storage_textures_per_shader_stage: l.max_storage_textures_per_shader_stage,
        max_uniform_buffers_per_shader_stage: l.max_uniform_buffers_per_shader_stage,
        max_uniform_buffer_binding_size: l.max_uniform_buffer_binding_size,
        max_storage_buffer_binding_size: l.max_storage_buffer_binding_size,
        max_vertex_buffers: l.max_vertex_buffers,
        max_buffer_size: l.max_buffer_size,
        max_vertex_attributes: l.max_vertex_attributes,
        max_vertex_buffer_array_stride: l.max_vertex_buffer_array_stride,
        min_uniform_buffer_offset_alignment: l.min_uniform_buffer_offset_alignment,
        min_storage_buffer_offset_alignment: l.min_storage_buffer_offset_alignment,
        max_inter_stage_shader_components: l.max_inter_stage_shader_components,
        max_compute_workgroup_storage_size: l.max_compute_workgroup_storage_size,
        max_compute_invocations_per_workgroup: l.max_compute_invocations_per_workgroup,
        max_compute_workgroup_size_x: l.max_compute_workgroup_size_x,
        max_compute_workgroup_size_y: l.max_compute_workgroup_size_y,
        max_compute_workgroup_size_z: l.max_compute_workgroup_size_z,
        max_compute_workgroups_per_dimension: l.max_compute_workgroups_per_dimension,
        max_push_constant_size: l.max_push_constant_size,
    }
}

fn device(features: u64, downlevel: u32) -> Device {
    Device {
        adapter_id: 1,
        alignments: Alignments { buffer_copy_offset: 4, buffer_copy_pitch: 256 },
        limits: limits(),
        features: Features::from_bits(features),
        downlevel: DownlevelCapabilities {
            flags: DownlevelFlags::from_bits(downlevel),
            shader_model: ShaderModel::Sm5,
        },
        state: DeviceState::new(),
    }
}

#[test]
fn constants_match_the_outside_crates() {
    assert_eq!(COPY_BUFFER_ALIGNMENT, wgpu_types::COPY_BUFFER_ALIGNMENT);
    assert_eq!(VERTEX_STRIDE_ALIGNMENT, wgpu_types::VERTEX_STRIDE_ALIGNMENT);
    assert_eq!(PUSH_CONSTANT_ALIGNMENT, wgpu_types::PUSH_CONSTANT_ALIGNMENT);
    assert_eq!(QUERY_SET_MAX_QUERIES, wgpu_types::QUERY_SET_MAX_QUERIES);
    assert_eq!(MAX_MIP_LEVELS, wgpu_hal::MAX_MIP_LEVELS);
    assert_eq!(MAX_BIND_GROUPS, wgpu_hal::MAX_BIND_GROUPS);
    assert_eq!(MAX_COLOR_ATTACHMENTS, wgpu_hal::MAX_COLOR_ATTACHMENTS);
}

#[test]
fn flag_bits_match_the_outside_crates() {
    assert_eq!(Features::ALL, wgpu_types::Features::all().bits());
    assert_eq!(Features::PUSH_CONSTANTS, wgpu_types::Features::PUSH_CONSTANTS.bits());
    assert_eq!(Features::MULTIVIEW, wgpu_types::Features::MULTIVIEW.bits());
    assert_eq!(
        Features::TEXTURE_ADAPTER_SPECIFIC_FORMAT_FEATURES,
        wgpu_types::Features::TEXTURE_ADAPTER_SPECIFIC_FORMAT_FEATURES.bits()
    );
    assert_eq!(
        Features::PARTIALLY_BOUND_BINDING_ARRAY,
        wgpu_types::Features::PARTIALLY_BOUND_BINDING_ARRAY.bits()
    );
    assert_eq!(Features::SHADER_EARLY_DEPTH_TEST, wgpu_types::Features::SHADER_EARLY_DEPTH_TEST.bits());
    assert_eq!(DownlevelFlags::ALL, wgpu_types::DownlevelFlags::all().bits());
    assert_eq!(DownlevelFlags::COMPLIANT, wgpu_types::DownlevelFlags::compliant().bits());
    assert_eq!(DownlevelFlags::VIEW_FORMATS, wgpu_types::DownlevelFlags::VIEW_FORMATS.bits());
    assert_eq!(ShaderStages::ALL, wgpu_types::ShaderStages::all().bits());
    assert_eq!(ShaderStages::VERTEX_FRAGMENT, wgpu_types::ShaderStages::VERTEX_FRAGMENT.bits());
    assert_eq!(BufferUsages::ALL, wgpu_types::BufferUsages::all().bits());
    assert_eq!(TextureUsages::ALL, wgpu_types::TextureUsages::all().bits());
    assert_eq!(
        TextureFormatFeatureFlags::ALL,
        wgpu_types::TextureFormatFeatureFlags::all().bits()
    );
    assert_eq!(
        TextureFormatFeatureFlags::STORAGE_READ_WRITE,
        wgpu_types::TextureFormatFeatureFlags::STORAGE_READ_WRITE.bits()
    );
    assert_eq!(ColorWrites::ALL, wgpu_types::ColorWrites::ALL.bits());
    assert_eq!(ColorWrites::COLOR, wgpu_types::ColorWrites::COLOR.bits());
    assert_eq!(BufferUses::ALL, wgpu_hal::BufferUses::all().bits());
    assert_eq!(TextureUses::ALL, wgpu_hal::TextureUses::all().bits());
    assert_eq!(TextureUses::COLOR_TARGET, wgpu_hal::TextureUses::COLOR_TARGET.bits());
    assert_eq!(FormatAspects::ALL, wgpu_hal::FormatAspects::all().bits());
    assert_eq!(MemoryFlags::ALL, wgpu_hal::MemoryFlags::all().bits());
    assert_eq!(BindGroupLayoutFlags::ALL, wgpu_hal::BindGroupLayoutFlags::all().bits());
    assert_eq!(ShaderCapabilities::ALL, naga::valid::Capabilities::all().bits());
    assert_eq!(
        ShaderCapabilities::MULTISAMPLED_SHADING,
        naga::valid::Capabilities::MULTISAMPLED_SHADING.bits()
    );
}

#[test]
fn flag_sets_behave_as_sets() {
    let both = BufferUsages::from_bits(BufferUsages::MAP_READ | BufferUsages::COPY_DST);
    assert!(both.contains(BufferUsages::MAP_READ));
    assert!(both.contains(BufferUsages::MAP_READ | BufferUsages::COPY_DST));
    assert!(!both.contains(BufferUsages::MAP_READ | BufferUsages::VERTEX));
    assert!(both.intersects(BufferUsages::MAP_READ | BufferUsages::VERTEX));
    assert!(!both.intersects(BufferUsages::VERTEX));
    assert!(!both.is_empty());
    assert!(BufferUsages::empty().is_empty());
    assert_eq!(both.with(BufferUsages::VERTEX).bits, 0x29);
    assert_eq!(both.only(BufferUsages::MAP_READ | BufferUsages::VERTEX).bits, 0x1);
    assert_eq!(both.without(BufferUsages::MAP_READ).bits, BufferUsages::COPY_DST);
    assert_eq!(both.with_if(BufferUsages::VERTEX, true).bits, 0x29);
    assert_eq!(both.with_if(BufferUsages::MAP_READ, false).bits, BufferUsages::COPY_DST);
    assert!(!both.contains_invalid_bits());
    assert!(BufferUsages::from_bits(1 << 10).contains_invalid_bits());
    assert!(is_power_of_two_u32(1) && is_power_of_two_u32(1 << 31));
    assert!(!is_power_of_two_u32(0) && !is_power_of_two_u32(6));
}

#[test]
fn usages_are_mapped_to_hardware_usages() {
    assert_eq!(map_buffer_usage(BufferUsages::empty()), BufferUses::empty());
    assert_eq!(
        map_buffer_usage(BufferUsages::from_bits(BufferUsages::ALL)),
        BufferUses::from_bits(BufferUses::ALL)
    );
    assert_eq!(
        map_buffer_usage(BufferUsages::from_bits(BufferUsages::STORAGE | BufferUsages::INDEX)),
        BufferUses::from_bits(
            BufferUses::STORAGE_READ | BufferUses::STORAGE_READ_WRITE | BufferUses::INDEX
        )
    );
    assert_eq!(
        map_buffer_usage(BufferUsages::from_bits(BufferUsages::QUERY_RESOLVE)),
        BufferUses::empty()
    );
    let color = FormatAspects::from_bits(FormatAspects::COLOR);
    let depth = FormatAspects::from_bits(FormatAspects::DEPTH);
    let all = TextureUsages::from_bits(TextureUsages::ALL);
    assert_eq!(
        map_texture_usage(all, color),
        TextureUses::from_bits(
            TextureUses::COPY_SRC
                | TextureUses::COPY_DST
                | TextureUses::RESOURCE
                | TextureUses::STORAGE_READ
                | TextureUses::STORAGE_READ_WRITE
                | TextureUses::COLOR_TARGET
        )
    );
    assert_eq!(
        map_texture_usage(TextureUsages::from_bits(TextureUsages::RENDER_ATTACHMENT), depth),
        TextureUses::from_bits(TextureUses::DEPTH_STENCIL_READ | TextureUses::DEPTH_STENCIL_WRITE)
    );
    assert_eq!(
        bind_group_layout_flags(Features::from_bits(Features::PARTIALLY_BOUND_BINDING_ARRAY)),
        BindGroupLayoutFlags::from_bits(BindGroupLayoutFlags::PARTIALLY_BOUND)
    );
    assert_eq!(bind_group_layout_flags(Features::empty()), BindGroupLayoutFlags::empty());
}

#[test]
fn query_set_rules() {
    let plain = device(0, DownlevelFlags::ALL);
    let desc = |ty: QueryType, count: u32| QuerySetDescriptor { label: None, ty, count };
    assert_eq!(plain.create_query_set(&desc(QueryType::Occlusion, 8192)), Ok(()));
    assert_eq!(
        plain.create_query_set(&desc(QueryType::Occlusion, 0)),
        Err(CreateQuerySetError::ZeroCount)
    );
    assert_eq!(
        plain.create_query_set(&desc(QueryType::Occlusion, 8193)),
        Err(CreateQuerySetError::TooManyQueries { count: 8193, maximum: 8192 })
    );
    assert_eq!(
        plain.create_query_set(&desc(QueryType::Timestamp, 0)),
        Err(CreateQuerySetError::MissingFeatures(MissingFeatures(Features::from_bits(
            Features::TIMESTAMP_QUERY
        ))))
    );
    assert_eq!(
        plain.create_query_set(&desc(QueryType::PipelineStatistics(3), 1)),
        Err(CreateQuerySetError::MissingFeatures(MissingFeatures(Features::from_bits(
            Features::PIPELINE_STATISTICS_QUERY
        ))))
    );
    let with = device(Features::TIMESTAMP_QUERY | Features::PIPELINE_STATISTICS_QUERY, DownlevelFlags::ALL);
    assert_eq!(with.create_query_set(&desc(QueryType::Timestamp, 4)), Ok(()));
    assert_eq!(with.create_query_set(&desc(QueryType::PipelineStatistics(3), 1)), Ok(()));
    let made = create_query_set_from_hal(&desc(QueryType::Timestamp, 4), Ok(1u8)).unwrap();
    assert_eq!((made.raw, made.ty, made.count), (Some(1), QueryType::Timestamp, 4));
    assert_eq!(
        create_query_set_from_hal::<u8>(&desc(QueryType::Timestamp, 4), Err(DeviceError::Lost)),
        Err(CreateQuerySetError::Device(DeviceError::Lost))
    );
}

#[test]
fn shader_module_rules() {
    let device = device(Features::PUSH_CONSTANTS | Features::MULTIVIEW, DownlevelFlags::ALL);
    let at = |group: u32, binding: u32| ResourceBinding { group, binding };
    assert_eq!(
        device.create_shader_module(&vec![at(0, 0), at(3, 1)]),
        Ok(ShaderCapabilities::from_bits(
            ShaderCapabilities::PUSH_CONSTANT
                | ShaderCapabilities::MULTIVIEW
                | ShaderCapabilities::MULTISAMPLED_SHADING
        ))
    );
    assert_eq!(
        device.create_shader_module(&vec![at(0, 0), at(4, 7), at(9, 1)]),
        Err(CreateShaderModuleError::InvalidGroupIndex { bind: at(4, 7), group: 4, limit: 4 })
    );
    let indexing = Device {
        features: Features::from_bits(
            Features::SAMPLED_TEXTURE_AND_STORAGE_BUFFER_ARRAY_NON_UNIFORM_INDEXING
                | Features::SHADER_F64,
        ),
        ..self::device(0, 0)
    };
    assert_eq!(
        indexing.shader_capabilities(),
        ShaderCapabilities::from_bits(
            ShaderCapabilities::SAMPLED_TEXTURE_AND_STORAGE_BUFFER_ARRAY_NON_UNIFORM_INDEXING
                | ShaderCapabilities::SAMPLER_NON_UNIFORM_INDEXING
                | ShaderCapabilities::FLOAT64
        )
    );
    assert_eq!(
        device.create_shader_module_spirv(),
        Err(CreateShaderModuleError::MissingFeatures(MissingFeatures(Features::from_bits(
            Features::SPIRV_SHADER_PASSTHROUGH
        ))))
    );
    assert_eq!(
        self::device(Features::SPIRV_SHADER_PASSTHROUGH, 0).create_shader_module_spirv(),
        Ok(())
    );
    let made = create_shader_module_from_hal(true, String::from("m"), Ok(2u8)).unwrap();
    assert_eq!((made.raw, made.has_interface), (Some(2), true));
    assert_eq!(
        create_shader_module_from_hal::<u8>(
            true,
            String::new(),
            Err(HalShaderError::Compilation(String::from("x")))
        ),
        Err(CreateShaderModuleError::Generation)
    );
    assert_eq!(
        create_shader_module_from_hal::<u8>(
            false,
            String::new(),
            Err(HalShaderError::Device(DeviceError::OutOfMemory))
        ),
        Err(CreateShaderModuleError::Device(DeviceError::OutOfMemory))
    );
}

#[test]
fn buffer_record_from_the_hardware() {
    let device = device(0, DownlevelFlags::ALL);
    let desc = BufferDescriptor {
        label: None,
        size: 100,
        usage: BufferUsages::from_bits(BufferUsages::STORAGE),
        mapped_at_creation: false,
    };
    assert_eq!(
        device.create_buffer_from_hal::<u8>(&desc, String::new(), Err(DeviceError::OutOfMemory)),
        Err(CreateBufferError::Device(DeviceError::OutOfMemory))
    );
    let made = device.create_buffer_from_hal(&desc, String::from("b"), Ok(5u8)).unwrap();
    assert_eq!(made.raw, Some(5));
    assert_eq!(made.size, 100);
    assert_eq!(made.usage, desc.usage);
    assert_eq!(made.map_state, BufferMapState::Idle);
    assert_eq!(made.initialization_status.uninitialized_ranges, vec![0..100]);
    assert_eq!(made.info.label, "b");
    assert_eq!(made.info.id, None);
}

#[test]
fn init_tracker_finds_what_was_never_written() {
    let tracker = BufferInitTracker { uninitialized_ranges: vec![10..20, 40..50, 70..70] };
    assert_eq!(tracker.check(&(0..10)), None);
    assert_eq!(tracker.check(&(20..40)), None);
    assert_eq!(tracker.check(&(0..15)), Some(10..15));
    assert_eq!(tracker.check(&(15..45)), Some(15..45));
    assert_eq!(tracker.check(&(12..18)), Some(12..18));
    assert_eq!(tracker.check(&(0..100)), Some(10..50));
    assert_eq!(tracker.check(&(45..45)), None);
    assert_eq!(tracker.check(&(60..80)), None);
    assert_eq!(
        tracker.create_action(3, &(0..15), MemoryInitKind::ImplicitlyInitialized),
        Some(BufferInitTrackerAction {
            id: 3,
            range: 10..15,
            kind: MemoryInitKind::ImplicitlyInitialized
        })
    );
    assert_eq!(tracker.create_action(3, &(20..40), MemoryInitKind::NeedsInitializedMemory), None);
    assert_eq!(BufferInitTracker::new(8).check(&(2..4)), Some(2..4));
}

#[test]
fn bind_group_states_record_and_compact() {
    let mut buffers: Storage<u32> = Storage::new();
    buffers.force_replace(2, 22);
    let mut used = BindGroupStates::new();
    assert_eq!(used.add_buffer(&buffers, 2, BufferUses::from_bits(BufferUses::UNIFORM)), Some(&22));
    assert_eq!(used.add_buffer(&buffers, 3, BufferUses::from_bits(BufferUses::UNIFORM)), None);
    assert_eq!(used.add_texture(&buffers, 2, None, TextureUses::from_bits(TextureUses::RESOURCE)), Some(&22));
    for id in [2u64, 9, 2] {
        used.add_view(&buffers, id);
        used.add_sampler(&buffers, id);
    }
    assert_eq!(used.views, vec![2, 2]);
    used.views = vec![5, 1, 5, 3, 1];
    used.samplers = vec![4, 4, 4];
    used.optimize();
    assert_eq!(used.views, vec![1, 3, 5]);
    assert_eq!(used.samplers, vec![4]);
    assert_eq!(used.buffers.len(), 1);
    assert_eq!(used.textures.len(), 1);
}

#[test]
fn compaction_orders_the_uses_of_buffers_and_textures_and_keeps_each_once() {
    let uniform = BufferUses::from_bits(BufferUses::UNIFORM);
    let storage = BufferUses::from_bits(BufferUses::STORAGE_READ_WRITE);
    let resource = TextureUses::from_bits(TextureUses::RESOURCE);
    let written = TextureUses::from_bits(TextureUses::STORAGE_READ_WRITE);
    let mut used = BindGroupStates::new();
    used.buffers = vec![
        BufferUse { id: 7, usage: uniform },
        BufferUse { id: 2, usage: storage },
        BufferUse { id: 7, usage: storage },
        BufferUse { id: 2, usage: storage },
        BufferUse { id: 1, usage: uniform },
        BufferUse { id: 7, usage: uniform },
    ];
    let part = |mips, layers| Some(TextureSelector { mips, layers });
    used.textures = vec![
        TextureUse { id: 4, selector: None, usage: resource },
        TextureUse { id: 3, selector: part(0..1, 0..2), usage: resource },
        TextureUse { id: 4, selector: None, usage: resource },
        TextureUse { id: 3, selector: part(0..1, 0..2), usage: resource },
        TextureUse { id: 3, selector: part(0..1, 0..1), usage: resource },
        TextureUse { id: 3, selector: part(0..1, 0..2), usage: written },
        TextureUse { id: 4, selector: part(0..1, 0..1), usage: resource },
    ];
    used.optimize();
    let ids: Vec<_> = used.buffers.iter().map(|u| u.id).collect();
    assert_eq!(ids, vec![1, 2, 7, 7]);
    for expected in [
        BufferUse { id: 1, usage: uniform },
        BufferUse { id: 2, usage: storage },
        BufferUse { id: 7, usage: uniform },
        BufferUse { id: 7, usage: storage },
    ] {
        assert_eq!(used.buffers.iter().filter(|u| **u == expected).count(), 1);
    }
    let ids: Vec<_> = used.textures.iter().map(|u| u.id).collect();
    assert_eq!(ids, vec![3, 3, 3, 4, 4]);
    for expected in [
        TextureUse { id: 3, selector: part(0..1, 0..2), usage: resource },
        TextureUse { id: 3, selector: part(0..1, 0..1), usage: resource },
        TextureUse { id: 3, selector: part(0..1, 0..2), usage: written },
        TextureUse { id: 4, selector: None, usage: resource },
        TextureUse { id: 4, selector: part(0..1, 0..1), usage: resource },
    ] {
        assert_eq!(used.textures.iter().filter(|u| **u == expected).count(), 1);
    }
    let mut nothing = BindGroupStates::new();
    nothing.optimize();
    assert_eq!(nothing, BindGroupStates::new());
}
