use device_core::binding_model::{
    BindEntryMap, BindGroupLayout, BindGroupLayoutEntry, BindGroupLayoutEntryError, BindingType,
    BindingTypeMaxCountErrorKind, BufferBindingType, CreateBindGroupLayoutError,
};
use device_core::device::{Device, DeviceError, DeviceState, MissingFeatures};
use device_core::flags::{DownlevelFlags, Features, PipelineLayoutFlags, ShaderStages};
use device_core::limits::{Alignments, DownlevelCapabilities, Limits, ShaderModel};
use device_core::pipeline_layout::{
    attach_bind_group_layout, attach_pipeline_layout, check_bind_group_layouts_have_raw,
    create_pipeline_layout_from_hal, deduplicate_bind_group_layout, empty_derived_layouts,
    get_introspection_bind_group_layouts, make_late_sized_buffer_groups, shader_size,
    CreatePipelineLayoutError, DerivedGroupLayouts, ImplicitLayoutError, ImplicitPipelineContext,
    LateSizedBufferGroup, PipelineLayout, PipelineLayoutDescriptor, PushConstantRange,
    ShaderBindingSize,
};
use device_core::storage::{Element, ResourceInfo, Storage};

fn limits() -> Limits {
    let l = wgpu_types::Limits::default();
    Limits {
        max_texture_dimension_1d: l.max_texture_dimension_1d,
        max_texture_dimension_2d: l.max_texture_dimension_2d,
        max_texture_dimension_3d: l.max_texture_dimension_3d,
        max_texture_array_layers: l.max_texture_array_layers,
        max_bind_groups: l.max_bind_groups,
        max_bindings_per_bind_group: l.max_bindings_per_bind_group,
        max_dynamic_uniform_buffers_per_pipeline_layout: l
            .max_dynamic_uniform_buffers_per_pipeline_layout,
        max_dynamic_storage_buffers_per_pipeline_layout: l
            .max_dynamic_storage_buffers_per_pipeline_layout,
        max_sampled_textures_per_shader_stage: l.max_sampled_textures_per_shader_stage,
        max_samplers_per_shader_stage: l.max_samplers_per_shader_stage,
        max_storage_buffers_per_shader_stage: l.max_storage_buffers_per_shader_stage,
        max_storage_textures_per_shader_stage: l.max_storage_textures_per_shader_stage,
        max_uniform_buffers_per_shader_stage: l.max_uniform_buffers_per_shader_stage,
        max_uniform_buffer_binding_size: l.max_uniform_buffer_binding_size,
        max_storage_buffer_binding_size: l.max_storage_buffer_binding_size,
        max_vertex_buffers: l.max_vertex_buffers,
        max_buffer_size: l.max_buffer_size,
        max_vertex_attributes: l.max_vertex_attributes,
        max_vertex_buffer_array_stride: l.max_vertex_buffer_array_stride,
        min_uniform_buffer_offset_alignment: l.min_uniform_buffer_offset_alignment,
        min_storage_buffer_offset_alignment: l.min_storage_buffer_offset_alignment,
        max_inter_stage_shader_components: l.max_inter_stage_shader_components,
        max_compute_workgroup_storage_size: l.max_compute_workgroup_storage_size,
        max_compute_invocations_per_workgroup: l.max_compute_invocations_per_workgroup,
        max_compute_workgroup_size_x: l.max_compute_workgroup_size_x,
        max_compute_workgroup_size_y: l.max_compute_workgroup_size_y,
        max_compute_workgroup_size_z: l.max_compute_workgroup_size_z,
        max_compute_workgroups_per_dimension: l.max_compute_workgroups_per_dimension,
        max_push_constant_size: l.max_push_constant_size,
    }
}

fn device(features: u64, downlevel: u32) -> Device {
    Device {
        adapter_id: 1,
        alignments: Alignments { buffer_copy_offset: 4, buffer_copy_pitch: 256 },
        limits: limits(),
        features: Features::from_bits(features),
        downlevel: DownlevelCapabilities {
            flags: DownlevelFlags::from_bits(downlevel),
            shader_model: ShaderModel::Sm5,
        },
        state: DeviceState::new(),
    }
}

fn uniform(binding: u32, dynamic: bool, min: Option<u64>) -> BindGroupLayoutEntry {
    BindGroupLayoutEntry {
        binding,
        visibility: ShaderStages::from_bits(ShaderStages::COMPUTE),
        ty: BindingType::Buffer {
            ty: BufferBindingType::Uniform,
            has_dynamic_offset: dynamic,
            min_binding_size: min,
        },
        count: None,
    }
}

fn map(entries: &[BindGroupLayoutEntry]) -> BindEntryMap {
    let mut map = BindEntryMap::new();
    for entry in entries {
        map.insert(*entry);
    }
    map
}

fn made(device: &Device, device_id: u64, entries: &[BindGroupLayoutEntry]) -> BindGroupLayout<u8> {
    let entries = map(entries);
    let plan = device.create_bind_group_layout(&entries).unwrap();
    device
        .create_bind_group_layout_from_hal(device_id, &plan, entries, String::new(), Ok(1u8))
        .unwrap()
}

fn desc(layouts: Vec<u64>, ranges: Vec<PushConstantRange>) -> PipelineLayoutDescriptor {
    PipelineLayoutDescriptor { label: None, bind_group_layouts: layouts, push_constant_ranges: ranges }
}

fn range(stages: u32, start: u32, end: u32) -> PushConstantRange {
    PushConstantRange { stages: ShaderStages::from_bits(stages), range: start..end }
}

fn table(device: &Device) -> Storage<BindGroupLayout<u8>> {
    let mut table = Storage::new();
    table.force_replace(0, made(device, 0, &[uniform(0, false, None)]));
    table.force_replace(2, made(device, 0, &[uniform(0, true, None), uniform(1, true, Some(8))]));
    table
}

#[test]
fn plain_pipeline_layout_passes() {
    let device = device(0, DownlevelFlags::ALL);
    let plan = device.create_pipeline_layout(&desc(vec![0, 2], vec![]), &table(&device)).unwrap();
    assert_eq!(
        plan.flags,
        PipelineLayoutFlags::from_bits(PipelineLayoutFlags::BASE_VERTEX_INSTANCE)
    );
    assert_eq!(
        PipelineLayoutFlags::BASE_VERTEX_INSTANCE,
        wgpu_hal::PipelineLayoutFlags::BASE_VERTEX_INSTANCE.bits()
    );
}

#[test]
fn bind_group_layouts_are_counted_and_must_exist() {
    let device = device(0, DownlevelFlags::ALL);
    assert_eq!(
        device.create_pipeline_layout(&desc(vec![0, 0, 0, 0, 0], vec![]), &table(&device)),
        Err(CreatePipelineLayoutError::TooManyGroups { actual: 5, max: 4 })
    );
    assert_eq!(
        device.create_pipeline_layout(&desc(vec![0, 1], vec![]), &table(&device)),
        Err(CreatePipelineLayoutError::InvalidBindGroupLayout(1))
    );
    assert_eq!(
        device.create_pipeline_layout(&desc(vec![0, 5], vec![]), &table(&device)),
        Err(CreatePipelineLayoutError::InvalidBindGroupLayout(5))
    );
}

#[test]
fn push_constant_range_rules() {
    let plain = device(0, DownlevelFlags::ALL);
    assert_eq!(
        plain.create_pipeline_layout(&desc(vec![], vec![range(ShaderStages::VERTEX, 0, 4)]), &table(&plain)),
        Err(CreatePipelineLayoutError::MissingFeatures(MissingFeatures(Features::from_bits(
            Features::PUSH_CONSTANTS
        ))))
    );
    let mut device = device(Features::PUSH_CONSTANTS, DownlevelFlags::ALL);
    device.limits.max_push_constant_size = 128;
    let layouts = table(&device);
    assert!(device
        .create_pipeline_layout(
            &desc(
                vec![],
                vec![range(ShaderStages::VERTEX, 0, 64), range(ShaderStages::FRAGMENT, 64, 128)]
            ),
            &layouts
        )
        .is_ok());
    assert_eq!(
        device.create_pipeline_layout(
            &desc(
                vec![],
                vec![
                    range(ShaderStages::VERTEX | ShaderStages::FRAGMENT, 0, 64),
                    range(ShaderStages::COMPUTE, 64, 128),
                    range(ShaderStages::FRAGMENT | ShaderStages::COMPUTE, 0, 4)
                ]
            ),
            &layouts
        ),
        Err(CreatePipelineLayoutError::MoreThanOnePushConstantRangePerStage {
            index: 2,
            provided: ShaderStages::from_bits(ShaderStages::FRAGMENT | ShaderStages::COMPUTE),
            intersected: ShaderStages::from_bits(ShaderStages::FRAGMENT | ShaderStages::COMPUTE),
        })
    );
    assert_eq!(
        device.create_pipeline_layout(&desc(vec![], vec![range(ShaderStages::VERTEX, 0, 132)]), &layouts),
        Err(CreatePipelineLayoutError::PushConstantRangeTooLarge { index: 0, range: 0..132, max: 128 })
    );
    assert_eq!(
        device.create_pipeline_layout(&desc(vec![], vec![range(ShaderStages::VERTEX, 2, 8)]), &layouts),
        Err(CreatePipelineLayoutError::MisalignedPushConstantRange { index: 0, bound: 2 })
    );
    assert_eq!(
        device.create_pipeline_layout(
            &desc(vec![], vec![range(ShaderStages::VERTEX, 0, 8), range(ShaderStages::COMPUTE, 8, 14)]),
            &layouts
        ),
        Err(CreatePipelineLayoutError::MisalignedPushConstantRange { index: 1, bound: 14 })
    );
}

#[test]
fn bindings_of_all_layouts_together_are_held_to_the_limits() {
    let device = device(0, DownlevelFlags::ALL);
    let mut layouts: Storage<BindGroupLayout<u8>> = Storage::new();
    let dynamic: Vec<BindGroupLayoutEntry> = (0..3).map(|b| uniform(b, true, None)).collect();
    for id in 0..3 {
        layouts.force_replace(id, made(&device, 0, &dynamic));
    }
    assert!(device.create_pipeline_layout(&desc(vec![0, 1], vec![]), &layouts).is_ok());
    match device.create_pipeline_layout(&desc(vec![0, 1, 2], vec![]), &layouts) {
        Err(CreatePipelineLayoutError::TooManyBindings(error)) => {
            assert_eq!(error.kind, BindingTypeMaxCountErrorKind::DynamicUniformBuffers);
            assert_eq!((error.limit, error.count), (8, 9));
        }
        other => panic!("{:?}", other),
    }
}

#[test]
fn layouts_must_have_their_hardware_layouts() {
    let device = device(0, DownlevelFlags::ALL);
    let mut layouts = table(&device);
    assert_eq!(check_bind_group_layouts_have_raw(&vec![0, 2], &layouts), Ok(()));
    assert_eq!(
        check_bind_group_layouts_have_raw(&vec![0, 1, 2], &layouts),
        Err(CreatePipelineLayoutError::InvalidBindGroupLayout(1))
    );
    let mut pending = made(&device, 0, &[]);
    pending.raw = None;
    layouts.force_replace(1, pending);
    assert_eq!(
        check_bind_group_layouts_have_raw(&vec![0, 1, 2], &layouts),
        Err(CreatePipelineLayoutError::InvalidBindGroupLayout(1))
    );
    attach_bind_group_layout(&mut layouts, 1, 7);
    assert_eq!(layouts.get(1).unwrap().raw, Some(7));
    assert_eq!(check_bind_group_layouts_have_raw(&vec![0, 1, 2], &layouts), Ok(()));
    attach_bind_group_layout(&mut layouts, 9, 7);
    assert!(layouts.get(9).is_none());
}

#[test]
fn identical_layout_of_the_same_device_is_found() {
    let device = device(0, DownlevelFlags::ALL);
    let mut layouts = table(&device);
    layouts.force_replace(1, made(&device, 5, &[uniform(3, false, None)]));
    layouts.force_replace(4, made(&device, 0, &[uniform(0, false, None)]));
    assert_eq!(deduplicate_bind_group_layout(0, &map(&[uniform(0, false, None)]), &layouts), Some(0));
    assert_eq!(
        deduplicate_bind_group_layout(
            0,
            &map(&[uniform(1, true, Some(8)), uniform(0, true, None)]),
            &layouts
        ),
        Some(2)
    );
    assert_eq!(deduplicate_bind_group_layout(0, &map(&[uniform(3, false, None)]), &layouts), None);
    assert_eq!(deduplicate_bind_group_layout(5, &map(&[uniform(3, false, None)]), &layouts), Some(1));
    assert_eq!(deduplicate_bind_group_layout(0, &map(&[]), &layouts), None);
}

fn derived(maps: Vec<BindEntryMap>) -> DerivedGroupLayouts {
    let mut layouts = DerivedGroupLayouts::new();
    for map in maps {
        layouts.push(map);
    }
    layouts
}

fn context(root_id: u64, group_ids: Vec<u64>) -> Option<ImplicitPipelineContext> {
    Some(ImplicitPipelineContext { root_id, group_ids })
}

#[test]
fn second_derivation_reuses_the_layouts_of_the_first() {
    let device = device(0, DownlevelFlags::ALL);
    let mut layouts: Storage<BindGroupLayout<u8>> = Storage::new();
    let mut pipeline_layouts: Storage<PipelineLayout<u8>> = Storage::new();
    let reflected = || {
        derived(vec![
            map(&[uniform(0, false, None)]),
            map(&[uniform(0, false, None), uniform(1, false, None)]),
            map(&[]),
            map(&[]),
        ])
    };
    let first = device
        .derive_pipeline_layout(0, context(10, vec![20, 21, 22, 23]), reflected(), &mut layouts, &mut pipeline_layouts)
        .unwrap();
    assert_eq!(first.root_id, 10);
    assert_eq!(first.group_ids, vec![20, 21]);
    assert_eq!(first.created, vec![20, 21]);
    assert_eq!(layouts.get(20).unwrap().raw, None);
    assert_eq!(layouts.get(20).unwrap().entries.len(), 1);
    assert_eq!(layouts.get(21).unwrap().entries.len(), 2);
    assert!(layouts.get(22).is_none());
    assert_eq!(pipeline_layouts.get(10).unwrap().bind_group_layout_ids, vec![20, 21]);
    assert_eq!(pipeline_layouts.get(10).unwrap().raw, None);
    attach_bind_group_layout(&mut layouts, 20, 1);
    attach_bind_group_layout(&mut layouts, 21, 2);
    attach_pipeline_layout(&mut pipeline_layouts, 10, 3);
    assert_eq!(pipeline_layouts.get(10).unwrap().raw, Some(3));
    let second = device
        .derive_pipeline_layout(0, context(11, vec![30, 31, 32, 33]), reflected(), &mut layouts, &mut pipeline_layouts)
        .unwrap();
    assert_eq!(second.root_id, 11);
    assert_eq!(second.group_ids, vec![20, 21]);
    assert!(second.created.is_empty());
    assert!(layouts.get(30).is_none());
    assert!(layouts.get(31).is_none());
    assert_eq!(pipeline_layouts.get(11).unwrap().bind_group_layout_ids, vec![20, 21]);
}

#[test]
fn identical_groups_of_one_derivation_share_a_layout() {
    let device = device(0, DownlevelFlags::ALL);
    let mut layouts: Storage<BindGroupLayout<u8>> = Storage::new();
    let mut pipeline_layouts: Storage<PipelineLayout<u8>> = Storage::new();
    let reflected = derived(vec![
        map(&[uniform(0, false, None)]),
        map(&[]),
        map(&[uniform(0, false, None)]),
    ]);
    let found = device
        .derive_pipeline_layout(0, context(1, vec![5, 6, 7]), reflected, &mut layouts, &mut pipeline_layouts)
        .unwrap();
    assert_eq!(found.group_ids, vec![5, 6, 5]);
    assert_eq!(found.created, vec![5, 6]);
    assert!(layouts.get(7).is_none());
}

#[test]
fn layout_of_another_device_is_not_reused() {
    let device = device(0, DownlevelFlags::ALL);
    let mut layouts: Storage<BindGroupLayout<u8>> = Storage::new();
    layouts.force_replace(0, made(&device, 9, &[uniform(0, false, None)]));
    let mut pipeline_layouts: Storage<PipelineLayout<u8>> = Storage::new();
    let found = device
        .derive_pipeline_layout(
            0,
            context(1, vec![5]),
            derived(vec![map(&[uniform(0, false, None)])]),
            &mut layouts,
            &mut pipeline_layouts,
        )
        .unwrap();
    assert_eq!(found.group_ids, vec![5]);
    assert_eq!(found.created, vec![5]);
    assert_eq!(layouts.get(5).unwrap().device_id, 0);
}

#[test]
fn derivation_needs_identities() {
    let device = device(0, DownlevelFlags::ALL);
    let mut layouts: Storage<BindGroupLayout<u8>> = Storage::new();
    let mut pipeline_layouts: Storage<PipelineLayout<u8>> = Storage::new();
    let reflected = || derived(vec![map(&[uniform(0, false, None)]), map(&[uniform(1, false, None)]), map(&[])]);
    assert_eq!(
        device.derive_pipeline_layout(0, None, reflected(), &mut layouts, &mut pipeline_layouts),
        Err(ImplicitLayoutError::MissingIds(0))
    );
    assert_eq!(
        device.derive_pipeline_layout(0, context(1, vec![5]), reflected(), &mut layouts, &mut pipeline_layouts),
        Err(ImplicitLayoutError::MissingIds(2))
    );
    assert_eq!(layouts.len(), 0);
    assert_eq!(pipeline_layouts.len(), 0);
    let empty = device
        .derive_pipeline_layout(0, context(1, vec![]), derived(vec![map(&[]), map(&[])]), &mut layouts, &mut pipeline_layouts)
        .unwrap();
    assert!(empty.group_ids.is_empty());
    assert!(pipeline_layouts.get(1).unwrap().bind_group_layout_ids.is_empty());
}

#[test]
fn derivation_holds_new_layouts_to_the_rules() {
    let device = device(0, DownlevelFlags::ALL);
    let mut layouts: Storage<BindGroupLayout<u8>> = Storage::new();
    let mut pipeline_layouts: Storage<PipelineLayout<u8>> = Storage::new();
    let mut array = uniform(0, false, None);
    array.count = Some(2);
    let reflected = derived(vec![map(&[uniform(0, false, None)]), map(&[array])]);
    assert_eq!(
        device.derive_pipeline_layout(0, context(1, vec![5, 6]), reflected, &mut layouts, &mut pipeline_layouts),
        Err(ImplicitLayoutError::BindGroup(CreateBindGroupLayoutError::Entry {
            binding: 0,
            error: BindGroupLayoutEntryError::MissingFeatures(MissingFeatures(Features::from_bits(
                Features::BUFFER_BINDING_ARRAY
            )))
        }))
    );
    assert!(layouts.get(5).is_some());
    assert!(layouts.get(6).is_none());
    assert_eq!(pipeline_layouts.len(), 0);
    let dynamic: Vec<BindGroupLayoutEntry> = (0..5).map(|b| uniform(b, true, None)).collect();
    let mut other = dynamic.clone();
    other.push(uniform(9, false, None));
    let reflected = derived(vec![map(&dynamic), map(&other)]);
    match device.derive_pipeline_layout(0, context(1, vec![7, 8]), reflected, &mut layouts, &mut pipeline_layouts) {
        Err(ImplicitLayoutError::Pipeline(CreatePipelineLayoutError::TooManyBindings(error))) => {
            assert_eq!(error.kind, BindingTypeMaxCountErrorKind::DynamicUniformBuffers);
            assert_eq!((error.limit, error.count), (8, 10));
        }
        other => panic!("{:?}", other),
    }
}

#[test]
fn empty_derived_layouts_hold_what_the_device_allows() {
    assert_eq!(empty_derived_layouts(0).len(), 0);
    assert_eq!(empty_derived_layouts(4).len(), 4);
    assert_eq!(empty_derived_layouts(8).len(), 8);
    assert_eq!(empty_derived_layouts(100).len(), 8);
    assert!(empty_derived_layouts(4).iter().all(|map| map.is_empty()));
    assert_eq!(wgpu_hal::MAX_BIND_GROUPS, 8);
}

#[test]
fn late_sizes_follow_the_layout() {
    let device = device(0, DownlevelFlags::ALL);
    let mut layouts: Storage<BindGroupLayout<u8>> = Storage::new();
    layouts.force_replace(
        0,
        made(&device, 0, &[uniform(0, false, None), uniform(1, false, Some(16)), uniform(4, false, None)]),
    );
    layouts.force_replace(1, made(&device, 0, &[uniform(0, false, None)]));
    let layout = PipelineLayout::<u8> {
        raw: Some(1),
        info: ResourceInfo::new(String::new()),
        bind_group_layout_ids: vec![0, 1],
        push_constant_ranges: vec![],
    };
    let sizes = vec![
        ShaderBindingSize { group: 1, binding: 0, size: 48 },
        ShaderBindingSize { group: 0, binding: 4, size: 32 },
        ShaderBindingSize { group: 0, binding: 1, size: 64 },
        ShaderBindingSize { group: 0, binding: 4, size: 99 },
    ];
    assert_eq!(
        make_late_sized_buffer_groups(&sizes, &layout, &layouts),
        Some(vec![
            LateSizedBufferGroup { shader_sizes: vec![0, 32] },
            LateSizedBufferGroup { shader_sizes: vec![48] },
        ])
    );
    assert_eq!(shader_size(&sizes, 0, 4), Some(32));
    assert_eq!(shader_size(&sizes, 2, 4), None);
    let found = get_introspection_bind_group_layouts(&layout, &layouts).unwrap();
    assert_eq!(found.len(), 2);
    assert_eq!(found[0].len(), 3);
    assert_eq!(found[1].len(), 1);
    let broken = PipelineLayout::<u8> {
        raw: Some(1),
        info: ResourceInfo::new(String::new()),
        bind_group_layout_ids: vec![0, 3],
        push_constant_ranges: vec![],
    };
    assert_eq!(make_late_sized_buffer_groups(&sizes, &broken, &layouts), None);
    assert!(get_introspection_bind_group_layouts(&broken, &layouts).is_none());
}

#[test]
fn pipeline_layout_record_from_the_hardware() {
    assert_eq!(
        create_pipeline_layout_from_hal::<u8>(desc(vec![1], vec![]), String::new(), Err(DeviceError::Lost)),
        Err(CreatePipelineLayoutError::Device(DeviceError::Lost))
    );
    let made = create_pipeline_layout_from_hal(
        desc(vec![1, 2], vec![range(ShaderStages::VERTEX, 0, 4)]),
        String::from("p"),
        Ok(4u8),
    )
    .unwrap();
    assert_eq!(made.raw, Some(4));
    assert_eq!(made.bind_group_layout_ids, vec![1, 2]);
    assert_eq!(made.push_constant_ranges, vec![range(ShaderStages::VERTEX, 0, 4)]);
}

#[test]
fn storage_keeps_marks_and_gaps() {
    let mut table: Storage<u32> = Storage::new();
    table.insert_error(3, "failed");
    assert_eq!(table.len(), 4);
    assert_eq!(table.get(3), None);
    assert!(!table.contains(3));
    table.force_replace(1, 11);
    table.force_replace(3, 33);
    assert_eq!(table.get(1), Some(&11));
    assert_eq!(table.get(3), Some(&33));
    assert_eq!(table.get(0), None);
    assert_eq!(table.get(100), None);
    assert_eq!(table.take(1), Some(11));
    assert_eq!(table.take(1), None);
    assert_eq!(table.take(50), None);
    assert_eq!(table.get(3), Some(&33));
    assert_eq!(table.len(), 4);
    let expected: Storage<u32> = {
        let mut t = Storage::new();
        t.force_replace(3, 33);
        t
    };
    assert_eq!(table, expected);
    assert_ne!(Element::<u32>::Vacant, Element::Error("x"));
}

#[test]
fn derivation_without_enough_identities_leaves_the_tables_as_they_were() {
    let device = device(0, DownlevelFlags::ALL);
    let mut layouts = table(&device);
    layouts.insert_error(5, "failed implicit");
    let mut pipeline_layouts: Storage<PipelineLayout<u8>> = Storage::new();
    pipeline_layouts.insert_error(1, "failed implicit");
    let reflected = || {
        derived(vec![map(&[uniform(7, false, None)]), map(&[uniform(8, false, None)]), map(&[])])
    };
    let before = layouts.len();
    let first = layouts.get(0).map(|layout| layout.entries.len());
    assert_eq!(
        device.derive_pipeline_layout(0, None, reflected(), &mut layouts, &mut pipeline_layouts),
        Err(ImplicitLayoutError::MissingIds(0))
    );
    assert_eq!(
        device.derive_pipeline_layout(0, context(1, vec![5]), reflected(), &mut layouts, &mut pipeline_layouts),
        Err(ImplicitLayoutError::MissingIds(2))
    );
    assert_eq!(layouts.len(), before);
    assert_eq!(layouts.get(0).map(|layout| layout.entries.len()), first);
    assert!(layouts.get(5).is_none());
    assert!(!layouts.contains(5));
    assert!(pipeline_layouts.get(1).is_none());
    assert_eq!(pipeline_layouts.len(), 2);
}

#[test]
fn derivation_makes_nothing_where_every_group_has_its_layout() {
    let device = device(0, DownlevelFlags::ALL);
    let mut layouts: Storage<BindGroupLayout<u8>> = Storage::new();
    layouts.force_replace(0, made(&device, 9, &[uniform(0, false, None)]));
    layouts.force_replace(1, made(&device, 0, &[uniform(1, false, None)]));
    layouts.force_replace(2, made(&device, 0, &[uniform(0, false, None)]));
    layouts.force_replace(3, made(&device, 0, &[uniform(0, false, None)]));
    layouts.force_replace(4, made(&device, 0, &[]));
    let mut pipeline_layouts: Storage<PipelineLayout<u8>> = Storage::new();
    let reflected = derived(vec![
        map(&[uniform(0, false, None)]),
        map(&[]),
        map(&[uniform(1, false, None)]),
        map(&[uniform(0, false, None)]),
        map(&[]),
    ]);
    let found = device
        .derive_pipeline_layout(0, context(10, vec![20, 21, 22, 23]), reflected, &mut layouts, &mut pipeline_layouts)
        .unwrap();
    assert_eq!(found.group_ids, vec![2, 4, 1, 2]);
    assert!(found.created.is_empty());
    assert_eq!(layouts.len(), 5);
    for id in 20..24 {
        assert!(layouts.get(id).is_none());
    }
    assert_eq!(layouts.get(0).unwrap().device_id, 9);
    assert_eq!(pipeline_layouts.get(10).unwrap().bind_group_layout_ids, vec![2, 4, 1, 2]);
    assert!(pipeline_layouts.get(10).unwrap().push_constant_ranges.is_empty());
    assert_eq!(pipeline_layouts.get(10).unwrap().raw, None);
}
