use device_core::binding_model::{
    BindEntryMap, BindGroupLayout, BindGroupLayoutEntry, BindingType, BufferBindingType,
};
use device_core::device::{Device, DeviceError, DeviceState, MissingDownlevelFlags, MissingFeatures};
use device_core::flags::{
    ColorWrites, DownlevelFlags, Features, PipelineFlags, ShaderStages, TextureFormatFeatureFlags,
    TextureUsages,
};
use device_core::format::TextureFormatFeatures;
use device_core::limits::{Alignments, DownlevelCapabilities, Limits, ShaderModel};
use device_core::pipeline::{
    create_compute_pipeline_from_hal, mark_implicit_layouts, ComputePipelineDescriptor,
    CreateComputePipelineError, HalPipelineError, ProgrammableStageDescriptor, ShaderModule,
    ShaderStage, StageError, EP_FAILURE, IMPLICIT_FAILURE,
};
use device_core::pipeline_layout::{
    DerivedPipelineLayout, ImplicitLayoutError, ImplicitPipelineContext, LateSizedBufferGroup,
    PipelineLayout, ShaderBindingSize,
};
use device_core::render_pipeline::{
    check_render_stages, create_render_pipeline_from_hal, pipeline_flags, reflects_fragment,
    reflects_fragment_after,
    reflects_vertex, BlendComponent, BlendFactor, BlendOperation, BlendState, ColorStateError,
    ColorTargetState, CreateRenderPipelineError, DepthStencilState, DepthStencilStateError,
    FragmentOutput, FragmentState, FrontFace, IndexFormat, MultisampleState, NumericDimension,
    NumericType, PolygonMode, PrimitiveState, PrimitiveTopology, RenderPipelineDescriptor,
    ScalarKind, VertexAttribute, VertexBufferLayout, VertexFormat, VertexState,
    VertexStep, VertexStepMode,
};
use device_core::sampler::CompareFunction;
use device_core::storage::{Element, ResourceInfo, Storage};
use wgpu_types::TextureFormat;

fn limits() -> Limits {
    let l = wgpu_types::Limits::default();
    Limits {
        max_texture_dimension_1d: l.max_texture_dimension_1d,
        max_texture_dimension_2d: l.max_texture_dimension_2d,
        max_texture_dimension_3d: l.max_texture_dimension_3d,
        max_texture_array_layers: l.max_texture_array_layers,
        max_bind_groups: l.max_bind_groups,
        max_bindings_per_bind_group: l.max_bindings_per_bind_group,
        max_dynamic_uniform_buffers_per_pipeline_layout: l
            .max_dynamic_uniform_buffers_per_pipeline_layout,
        max_dynamic_storage_buffers_per_pipeline_layout: l
            .max_dynamic_storage_buffers_per_pipeline_layout,
        max_sampled_textures_per_shader_stage: l.max_sampled_textures_per_shader_stage,
        max_samplers_per_shader_stage: l.max_samplers_per_shader_stage,
        max_storage_buffers_per_shader_stage: l.max_storage_buffers_per_shader_stage,
        max_storage_textures_per_shader_stage: l.max_storage_textures_per_shader_stage,
        max_uniform_buffers_per_shader_stage: l.max_uniform_buffers_per_shader_stage,
        max_uniform_buffer_binding_size: l.max_uniform_buffer_binding_size,
        max_storage_buffer_binding_size: l.max_storage_buffer_binding_size,
        max_vertex_buffers: l.max_vertex_buffers,
        max_buffer_size: l.max_buffer_size,
        max_vertex_attributes: l.max_vertex_attributes,
        max_vertex_buffer_array_stride: l.max_vertex_buffer_array_stride,
        min_uniform_buffer_offset_alignment: l.min_uniform_buffer_offset_alignment,
        min_storage_buffer_offset_alignment: l.min_storage_buffer_offset_alignment,
        max_inter_stage_shader_components: l.max_inter_stage_shader_components,
        max_compute_workgroup_storage_size: l.max_compute_workgroup_storage_size,
        max_compute_invocations_per_workgroup: l.max_compute_invocations_per_workgroup,
        max_compute_workgroup_size_x: l.max_compute_workgroup_size_x,
        max_compute_workgroup_size_y: l.max_compute_workgroup_size_y,
        max_compute_workgroup_size_z: l.max_compute_workgroup_size_z,
        max_compute_workgroups_per_dimension: l.max_compute_workgroups_per_dimension,
        max_push_constant_size: l.max_push_constant_size,
    }
}

fn device(features: u64, downlevel: u32) -> Device {
    Device {
        adapter_id: 1,
        alignments: Alignments { buffer_copy_offset: 4, buffer_copy_pitch: 256 },
        limits: limits(),
        features: Features::from_bits(features),
        downlevel: DownlevelCapabilities {
            flags: DownlevelFlags::from_bits(downlevel),
            shader_model: ShaderModel::Sm5,
        },
        state: DeviceState::new(),
    }
}

fn module(has_interface: bool) -> ShaderModule<u8> {
    ShaderModule { raw: Some(1), has_interface, info: ResourceInfo::new(String::new()) }
}

fn modules() -> Storage<ShaderModule<u8>> {
    let mut modules = Storage::new();
    modules.force_replace(1, module(true));
    modules.force_replace(2, module(false));
    modules.force_replace(3, module(true));
    modules
}

fn stage(module: u64) -> ProgrammableStageDescriptor {
    ProgrammableStageDescriptor { module, entry_point: String::from("main") }
}

fn uniform(binding: u32) -> BindGroupLayoutEntry {
    BindGroupLayoutEntry {
        binding,
        visibility: ShaderStages::from_bits(ShaderStages::COMPUTE),
        ty: BindingType::Buffer {
            ty: BufferBindingType::Uniform,
            has_dynamic_offset: false,
            min_binding_size: None,
        },
        count: None,
    }
}

fn tables(device: &Device) -> (Storage<PipelineLayout<u8>>, Storage<BindGroupLayout<u8>>) {
    let mut entries = BindEntryMap::new();
    entries.insert(uniform(0));
    let plan = device.create_bind_group_layout(&entries).unwrap();
    let layout = device
        .create_bind_group_layout_from_hal(0, &plan, entries, String::new(), Ok(1u8))
        .unwrap();
    let mut layouts = Storage::new();
    layouts.force_replace(0, layout);
    let mut pipeline_layouts = Storage::new();
    pipeline_layouts.force_replace(
        0,
        PipelineLayout {
            raw: Some(1u8),
            info: ResourceInfo::new(String::new()),
            bind_group_layout_ids: vec![0],
            push_constant_ranges: vec![],
        },
    );
    pipeline_layouts.force_replace(
        1,
        PipelineLayout {
            raw: Some(1u8),
            info: ResourceInfo::new(String::new()),
            bind_group_layout_ids: vec![0, 7],
            push_constant_ranges: vec![],
        },
    );
    (pipeline_layouts, layouts)
}

fn compute(layout: Option<u64>, module: u64) -> ComputePipelineDescriptor {
    ComputePipelineDescriptor { label: None, layout, stage: stage(module) }
}

fn context() -> Option<ImplicitPipelineContext> {
    Some(ImplicitPipelineContext { root_id: 5, group_ids: vec![6, 7, 8, 9] })
}

#[test]
fn compute_pipeline_with_a_given_layout() {
    let device = device(0, DownlevelFlags::ALL);
    let (mut pipeline_layouts, mut layouts) = tables(&device);
    let desc = compute(Some(0), 1);
    let request = device
        .begin_compute_pipeline(&desc, &None, &modules(), &mut pipeline_layouts, &mut layouts)
        .unwrap();
    assert!(request.reflect);
    assert!(request.derived_group_layouts.is_empty());
    let sizes = vec![ShaderBindingSize { group: 0, binding: 0, size: 64 }];
    let plan = device
        .finish_compute_pipeline(
            0,
            &desc,
            None,
            Ok(()),
            request.derived_group_layouts,
            &sizes,
            &mut pipeline_layouts,
            &mut layouts,
        )
        .unwrap();
    assert_eq!(plan.settled.layout_id, 0);
    assert_eq!(plan.settled.derived, None);
    assert_eq!(
        plan.settled.late_sized_buffer_groups,
        vec![LateSizedBufferGroup { shader_sizes: vec![64] }]
    );
    let made = create_compute_pipeline_from_hal(plan, String::from("c"), Ok(3u8)).unwrap();
    assert_eq!(made.raw, Some(3));
    assert_eq!(made.layout_id, 0);
    assert_eq!(made.late_sized_buffer_groups.len(), 1);
}

#[test]
fn compute_pipeline_first_step_rules() {
    let old = device(0, DownlevelFlags::ALL & !DownlevelFlags::COMPUTE_SHADERS);
    let (mut pipeline_layouts, mut layouts) = tables(&old);
    assert_eq!(
        old.begin_compute_pipeline(&compute(Some(0), 1), &None, &modules(), &mut pipeline_layouts, &mut layouts)
            .err(),
        Some(CreateComputePipelineError::MissingDownlevelFlags(MissingDownlevelFlags(
            DownlevelFlags::from_bits(DownlevelFlags::COMPUTE_SHADERS)
        )))
    );
    let device = device(0, DownlevelFlags::ALL);
    assert_eq!(
        device
            .begin_compute_pipeline(&compute(Some(0), 9), &None, &modules(), &mut pipeline_layouts, &mut layouts)
            .err(),
        Some(CreateComputePipelineError::Stage(StageError::InvalidModule))
    );
    assert_eq!(
        device
            .begin_compute_pipeline(&compute(Some(4), 1), &None, &modules(), &mut pipeline_layouts, &mut layouts)
            .err(),
        Some(CreateComputePipelineError::InvalidLayout)
    );
    assert_eq!(
        device
            .begin_compute_pipeline(&compute(Some(1), 1), &None, &modules(), &mut pipeline_layouts, &mut layouts)
            .err(),
        Some(CreateComputePipelineError::InvalidLayout)
    );
    let request = device
        .begin_compute_pipeline(&compute(Some(0), 2), &None, &modules(), &mut pipeline_layouts, &mut layouts)
        .unwrap();
    assert!(!request.reflect);
}

#[test]
fn compute_pipeline_with_a_derived_layout() {
    let device = device(0, DownlevelFlags::ALL);
    let (mut pipeline_layouts, mut layouts) = tables(&device);
    let desc = compute(None, 1);
    let mut request = device
        .begin_compute_pipeline(&desc, &context(), &modules(), &mut pipeline_layouts, &mut layouts)
        .unwrap();
    assert_eq!(request.derived_group_layouts.len(), 4);
    assert_eq!(pipeline_layouts.get(5), None);
    assert_eq!(pipeline_layouts.len(), 6);
    assert_eq!(layouts.len(), 10);
    assert!(layouts.get(6).is_none());
    request.derived_group_layouts[0].insert(uniform(0));
    request.derived_group_layouts[1].insert(uniform(2));
    let plan = device
        .finish_compute_pipeline(
            0,
            &desc,
            context(),
            Ok(()),
            request.derived_group_layouts,
            &vec![],
            &mut pipeline_layouts,
            &mut layouts,
        )
        .unwrap();
    assert_eq!(plan.settled.layout_id, 5);
    let found = ids_of(&plan.settled.derived);
    assert_eq!(found.0, vec![0, 7]);
    assert_eq!(found.1, vec![7]);
    assert_eq!(pipeline_layouts.get(5).unwrap().bind_group_layout_ids, vec![0, 7]);
    assert_eq!(
        plan.settled.late_sized_buffer_groups,
        vec![
            LateSizedBufferGroup { shader_sizes: vec![0] },
            LateSizedBufferGroup { shader_sizes: vec![0] },
        ]
    );
}

fn ids_of(derived: &Option<DerivedPipelineLayout>) -> (Vec<u64>, Vec<u64>) {
    let derived = derived.as_ref().unwrap();
    (derived.group_ids.clone(), derived.created.clone())
}

#[test]
fn compute_pipeline_second_step_failures() {
    let device = device(0, DownlevelFlags::ALL);
    let (mut pipeline_layouts, mut layouts) = tables(&device);
    let desc = compute(None, 1);
    let request = device
        .begin_compute_pipeline(&desc, &context(), &modules(), &mut pipeline_layouts, &mut layouts)
        .unwrap();
    assert_eq!(
        device.finish_compute_pipeline(
            0,
            &desc,
            context(),
            Err(StageError::Reflection(String::from("no entry point"))),
            request.derived_group_layouts,
            &vec![],
            &mut pipeline_layouts,
            &mut layouts,
        ),
        Err(CreateComputePipelineError::Stage(StageError::Reflection(String::from(
            "no entry point"
        ))))
    );
    assert_eq!(pipeline_layouts.get(5), None);
    let request = device
        .begin_compute_pipeline(&desc, &None, &modules(), &mut pipeline_layouts, &mut layouts)
        .unwrap();
    assert_eq!(
        device.finish_compute_pipeline(
            0,
            &desc,
            None,
            Ok(()),
            request.derived_group_layouts,
            &vec![],
            &mut pipeline_layouts,
            &mut layouts,
        ),
        Err(CreateComputePipelineError::Implicit(ImplicitLayoutError::MissingIds(0)))
    );
}

#[test]
fn implicit_identities_are_marked_first() {
    let mut pipeline_layouts: Storage<PipelineLayout<u8>> = Storage::new();
    let mut layouts: Storage<BindGroupLayout<u8>> = Storage::new();
    mark_implicit_layouts(&None, &mut pipeline_layouts, &mut layouts);
    assert_eq!(pipeline_layouts.len() + layouts.len(), 0);
    mark_implicit_layouts(
        &Some(ImplicitPipelineContext { root_id: 2, group_ids: vec![1, 3] }),
        &mut pipeline_layouts,
        &mut layouts,
    );
    assert_eq!(pipeline_layouts.len(), 3);
    assert_eq!(layouts.len(), 4);
    let mut expected: Storage<BindGroupLayout<u8>> = Storage::new();
    expected.insert_error(1, IMPLICIT_FAILURE);
    expected.insert_error(3, IMPLICIT_FAILURE);
    assert_eq!(layouts, expected);
    assert_ne!(Element::<u8>::Error(IMPLICIT_FAILURE), Element::Vacant);
}

#[test]
fn hardware_failures_of_a_compute_pipeline() {
    let device = device(0, DownlevelFlags::ALL);
    let plan = || {
        let (mut pipeline_layouts, mut layouts) = tables(&device);
        device
            .finish_compute_pipeline(
                0,
                &compute(Some(0), 1),
                None,
                Ok(()),
                Default::default(),
                &vec![],
                &mut pipeline_layouts,
                &mut layouts,
            )
            .unwrap()
    };
    assert_eq!(
        create_compute_pipeline_from_hal::<u8>(
            plan(),
            String::new(),
            Err(HalPipelineError::Device(DeviceError::OutOfMemory))
        ),
        Err(CreateComputePipelineError::Device(DeviceError::OutOfMemory))
    );
    assert_eq!(
        create_compute_pipeline_from_hal::<u8>(
            plan(),
            String::new(),
            Err(HalPipelineError::Linkage(ShaderStages::from_bits(4), String::from("bad")))
        ),
        Err(CreateComputePipelineError::Internal(String::from("bad")))
    );
    assert_eq!(
        create_compute_pipeline_from_hal::<u8>(
            plan(),
            String::new(),
            Err(HalPipelineError::EntryPoint(ShaderStage::Compute))
        ),
        Err(CreateComputePipelineError::Internal(String::from(EP_FAILURE)))
    );
}

#[test]
fn shader_stage_flags_come_from_the_hardware_layer() {
    assert_eq!(ShaderStage::Vertex.flag(), ShaderStages::from_bits(ShaderStages::VERTEX));
    assert_eq!(ShaderStage::Fragment.flag(), ShaderStages::from_bits(ShaderStages::FRAGMENT));
    assert_eq!(ShaderStage::Compute.flag(), ShaderStages::from_bits(ShaderStages::COMPUTE));
    assert_eq!(
        ShaderStage::Fragment.flag().bits,
        wgpu_hal::auxil::map_naga_stage(naga::ShaderStage::Fragment).bits()
    );
}

fn all_features() -> TextureFormatFeatures {
    TextureFormatFeatures {
        allowed_usages: TextureUsages::from_bits(TextureUsages::ALL),
        flags: TextureFormatFeatureFlags::from_bits(TextureFormatFeatureFlags::ALL),
    }
}

fn float4() -> NumericType {
    NumericType { dim: NumericDimension::Vector(4), kind: ScalarKind::Float, width: 4 }
}

fn target(format: TextureFormat) -> ColorTargetState {
    ColorTargetState {
        format,
        blend: None,
        write_mask: ColorWrites::from_bits(ColorWrites::ALL),
        adapter_features: all_features(),
        output_type: float4(),
    }
}

fn depth(format: TextureFormat) -> DepthStencilState {
    DepthStencilState {
        format,
        depth_compare: CompareFunction::Less,
        is_depth_enabled: true,
        is_stencil_enabled: false,
        stencil_needs_ref_value: false,
        is_depth_read_only: false,
        is_stencil_read_only: true,
        has_depth_bias_clamp: false,
        adapter_features: all_features(),
    }
}

fn render(targets: Vec<Option<ColorTargetState>>) -> RenderPipelineDescriptor {
    RenderPipelineDescriptor {
        label: None,
        layout: Some(0),
        vertex: VertexState { stage: stage(1), buffers: vec![] },
        primitive: PrimitiveState {
            topology: PrimitiveTopology::TriangleList,
            strip_index_format: None,
            front_face: FrontFace::Ccw,
            cull_mode: None,
            unclipped_depth: false,
            polygon_mode: PolygonMode::Fill,
            conservative: false,
        },
        depth_stencil: None,
        multisample: MultisampleState { count: 1, mask: !0, alpha_to_coverage_enabled: false },
        fragment: Some(FragmentState { stage: stage(3), targets }),
        multiview: None,
    }
}

fn attribute(location: u32, offset: u64, format: VertexFormat) -> VertexAttribute {
    VertexAttribute { format, offset, shader_location: location }
}

fn vertex_buffer(stride: u64, attributes: Vec<VertexAttribute>) -> VertexBufferLayout {
    VertexBufferLayout { array_stride: stride, step_mode: VertexStepMode::Vertex, attributes }
}

#[test]
fn render_pipeline_gathers_vertex_inputs() {
    let device = device(0, DownlevelFlags::ALL);
    let mut desc = render(vec![Some(target(TextureFormat::Rgba8Unorm))]);
    desc.vertex.buffers = vec![
        vertex_buffer(16, vec![attribute(0, 0, VertexFormat::Float32x2), attribute(1, 8, VertexFormat::Float32x2)]),
        vertex_buffer(4, vec![]),
        vertex_buffer(12, vec![attribute(5, 0, VertexFormat::Float32x3)]),
    ];
    let checked = device.validate_render_pipeline(&desc).unwrap();
    assert_eq!(checked.samples, 1);
    assert_eq!(
        checked.vertex.steps,
        vec![
            VertexStep { stride: 16, mode: VertexStepMode::Vertex },
            VertexStep { stride: 4, mode: VertexStepMode::Vertex },
            VertexStep { stride: 12, mode: VertexStepMode::Vertex },
        ]
    );
    assert_eq!(checked.vertex.used_buffers, vec![0, 2]);
    assert_eq!(checked.vertex.total_attributes, 3);
    let expected: std::collections::HashMap<u32, VertexFormat> = [
        (0, VertexFormat::Float32x2),
        (1, VertexFormat::Float32x2),
        (5, VertexFormat::Float32x3),
    ]
    .into_iter()
    .collect();
    assert_eq!(checked.vertex.inputs, expected);
}

#[test]
fn vertex_buffer_rules() {
    let device = device(0, DownlevelFlags::ALL);
    let one = |buffers: Vec<VertexBufferLayout>| {
        let mut desc = render(vec![]);
        desc.vertex.buffers = buffers;
        device.validate_render_pipeline(&desc).err()
    };
    assert_eq!(
        one(vec![vertex_buffer(4, vec![]), vertex_buffer(4096, vec![attribute(0, 0, VertexFormat::Float32)])]),
        Some(CreateRenderPipelineError::VertexStrideTooLarge { index: 1, given: 4096, limit: 2048 })
    );
    assert_eq!(one(vec![vertex_buffer(4096, vec![])]), None);
    assert_eq!(
        one(vec![vertex_buffer(6, vec![attribute(0, 0, VertexFormat::Float32)])]),
        Some(CreateRenderPipelineError::UnalignedVertexStride { index: 0, stride: 6 })
    );
    assert_eq!(
        one(vec![vertex_buffer(8, vec![attribute(3, 0x1000_0000, VertexFormat::Float32)])]),
        Some(CreateRenderPipelineError::InvalidVertexAttributeOffset {
            location: 3,
            offset: 0x1000_0000
        })
    );
    assert_eq!(
        one(vec![vertex_buffer(8, vec![attribute(3, 0, VertexFormat::Float64)])]),
        Some(CreateRenderPipelineError::MissingFeatures(MissingFeatures(Features::from_bits(
            Features::VERTEX_ATTRIBUTE_64BIT
        ))))
    );
    assert_eq!(
        one(vec![
            vertex_buffer(8, vec![attribute(3, 0, VertexFormat::Float32)]),
            vertex_buffer(8, vec![attribute(4, 0, VertexFormat::Float32), attribute(3, 4, VertexFormat::Float32)]),
        ]),
        Some(CreateRenderPipelineError::ShaderLocationClash(3))
    );
    let many: Vec<VertexBufferLayout> =
        (0..9).map(|i| vertex_buffer(4, vec![attribute(i, 0, VertexFormat::Float32)])).collect();
    assert_eq!(
        one(many),
        Some(CreateRenderPipelineError::TooManyVertexBuffers { given: 9, limit: 8 })
    );
    let wide: Vec<VertexAttribute> = (0..17).map(|i| attribute(i, 0, VertexFormat::Float32)).collect();
    assert_eq!(
        one(vec![vertex_buffer(4, wide)]),
        Some(CreateRenderPipelineError::TooManyVertexAttributes { given: 17, limit: 16 })
    );
    let wide_device = device_with(Features::VERTEX_ATTRIBUTE_64BIT);
    let mut desc = render(vec![]);
    desc.vertex.buffers = vec![vertex_buffer(8, vec![attribute(3, 0, VertexFormat::Float64x2)])];
    assert!(wide_device.validate_render_pipeline(&desc).is_ok());
}

fn device_with(features: u64) -> Device {
    device(features, DownlevelFlags::ALL)
}

#[test]
fn color_attachment_count_and_independent_blend() {
    let device = device(0, DownlevelFlags::ALL);
    let nine: Vec<Option<ColorTargetState>> = (0..9).map(|_| None).collect();
    assert_eq!(
        device.validate_render_pipeline(&render(nine)).err(),
        Some(CreateRenderPipelineError::TooManyColorAttachments { given: 9, limit: 8 })
    );
    let old = device_old(DownlevelFlags::INDEPENDENT_BLEND);
    let mut masked = target(TextureFormat::Rgba8Unorm);
    masked.write_mask = ColorWrites::from_bits(ColorWrites::RED);
    assert_eq!(
        old.validate_render_pipeline(&render(vec![None, Some(target(TextureFormat::Rgba8Unorm)), Some(masked)]))
            .err(),
        Some(CreateRenderPipelineError::MissingDownlevelFlags(MissingDownlevelFlags(
            DownlevelFlags::from_bits(DownlevelFlags::INDEPENDENT_BLEND)
        )))
    );
    assert!(old
        .validate_render_pipeline(&render(vec![
            Some(target(TextureFormat::Rgba8Unorm)),
            None,
            Some(target(TextureFormat::Bgra8Unorm))
        ]))
        .is_ok());
    let mut blended = target(TextureFormat::Rgba8Unorm);
    blended.blend = Some(blend(BlendFactor::One));
    assert!(old
        .validate_render_pipeline(&render(vec![Some(target(TextureFormat::Rgba8Unorm)), Some(blended)]))
        .is_err());
    assert!(device
        .validate_render_pipeline(&render(vec![Some(target(TextureFormat::Rgba8Unorm)), Some(blended)]))
        .is_ok());
}

fn blend(factor: BlendFactor) -> BlendState {
    let component =
        BlendComponent { src_factor: factor, dst_factor: BlendFactor::Zero, operation: BlendOperation::Add };
    BlendState { color: component, alpha: component }
}

fn device_old(missing: u32) -> Device {
    let mut device = device(0, DownlevelFlags::ALL & !missing);
    device.features = Features::from_bits(Features::TEXTURE_ADAPTER_SPECIFIC_FORMAT_FEATURES);
    device
}

#[test]
fn primitive_state_rules() {
    let plain = device(0, DownlevelFlags::ALL);
    let with = |change: fn(&mut PrimitiveState)| {
        let mut desc = render(vec![]);
        change(&mut desc.primitive);
        desc
    };
    let strip = with(|p| p.strip_index_format = Some(IndexFormat::Uint16));
    assert_eq!(
        plain.validate_render_pipeline(&strip).err(),
        Some(CreateRenderPipelineError::StripIndexFormatForNonStripTopology {
            strip_index_format: Some(IndexFormat::Uint16),
            topology: PrimitiveTopology::TriangleList
        })
    );
    let real_strip = with(|p| {
        p.strip_index_format = Some(IndexFormat::Uint16);
        p.topology = PrimitiveTopology::LineStrip;
    });
    assert!(plain.validate_render_pipeline(&real_strip).is_ok());
    let missing = |feature: u64| {
        Some(CreateRenderPipelineError::MissingFeatures(MissingFeatures(Features::from_bits(feature))))
    };
    assert_eq!(
        plain.validate_render_pipeline(&with(|p| p.unclipped_depth = true)).err(),
        missing(Features::DEPTH_CLIP_CONTROL)
    );
    assert_eq!(
        plain.validate_render_pipeline(&with(|p| p.polygon_mode = PolygonMode::Line)).err(),
        missing(Features::POLYGON_MODE_LINE)
    );
    assert_eq!(
        plain.validate_render_pipeline(&with(|p| p.polygon_mode = PolygonMode::Point)).err(),
        missing(Features::POLYGON_MODE_POINT)
    );
    assert_eq!(
        plain.validate_render_pipeline(&with(|p| p.conservative = true)).err(),
        missing(Features::CONSERVATIVE_RASTERIZATION)
    );
    let all = device_with(Features::ALL);
    assert_eq!(
        all.validate_render_pipeline(&with(|p| {
            p.conservative = true;
            p.polygon_mode = PolygonMode::Line;
        }))
        .err(),
        Some(CreateRenderPipelineError::ConservativeRasterizationNonFillPolygonMode)
    );
    assert!(all.validate_render_pipeline(&with(|p| p.conservative = true)).is_ok());
    for (topology, strip) in [
        (PrimitiveTopology::PointList, false),
        (PrimitiveTopology::LineList, false),
        (PrimitiveTopology::LineStrip, true),
        (PrimitiveTopology::TriangleList, false),
        (PrimitiveTopology::TriangleStrip, true),
    ] {
        assert_eq!(topology.is_strip(), strip);
    }
}

#[test]
fn color_target_rules() {
    let device = device_with(Features::TEXTURE_ADAPTER_SPECIFIC_FORMAT_FEATURES);
    let check = |state: ColorTargetState, count: u32| {
        let mut desc = render(vec![None, Some(state)]);
        desc.multisample.count = count;
        device.validate_render_pipeline(&desc).err()
    };
    let mut state = target(TextureFormat::Rgba8Unorm);
    assert_eq!(check(state, 1), None);
    state.write_mask = ColorWrites::from_bits(0x10);
    assert_eq!(
        check(state, 1),
        Some(CreateRenderPipelineError::ColorState(
            1,
            ColorStateError::InvalidWriteMask(ColorWrites::from_bits(0x10))
        ))
    );
    let mut state = target(TextureFormat::Rgba8Unorm);
    state.adapter_features.allowed_usages = TextureUsages::from_bits(TextureUsages::TEXTURE_BINDING);
    assert_eq!(
        check(state, 1),
        Some(CreateRenderPipelineError::ColorState(
            1,
            ColorStateError::FormatNotRenderable(TextureFormat::Rgba8Unorm)
        ))
    );
    let mut state = target(TextureFormat::Rgba8Unorm);
    state.blend = Some(blend(BlendFactor::One));
    state.adapter_features.flags = TextureFormatFeatureFlags::from_bits(TextureFormatFeatureFlags::FILTERABLE);
    assert_eq!(
        check(state, 1),
        Some(CreateRenderPipelineError::ColorState(
            1,
            ColorStateError::FormatNotBlendable(TextureFormat::Rgba8Unorm)
        ))
    );
    state.adapter_features.flags = TextureFormatFeatureFlags::from_bits(TextureFormatFeatureFlags::BLENDABLE);
    assert_eq!(check(state, 1), None);
    assert_eq!(
        check(target(TextureFormat::Depth32Float), 1),
        Some(CreateRenderPipelineError::ColorState(
            1,
            ColorStateError::FormatNotColor(TextureFormat::Depth32Float)
        ))
    );
    let mut state = target(TextureFormat::Rgba8Unorm);
    state.adapter_features.flags = TextureFormatFeatureFlags::from_bits(TextureFormatFeatureFlags::MULTISAMPLE_X2);
    assert_eq!(
        check(state, 4),
        Some(CreateRenderPipelineError::ColorState(
            1,
            ColorStateError::FormatNotMultisampled(TextureFormat::Rgba8Unorm)
        ))
    );
    assert_eq!(check(state, 2), None);
    assert_eq!(
        check(target(TextureFormat::Bc1RgbaUnorm), 1),
        Some(CreateRenderPipelineError::MissingFeatures(MissingFeatures(Features::from_bits(
            Features::TEXTURE_COMPRESSION_BC
        ))))
    );
    let plain = device_with(0);
    let mut blended = target(TextureFormat::R32Float);
    blended.blend = Some(blend(BlendFactor::One));
    assert_eq!(
        plain.validate_render_pipeline(&render(vec![Some(blended)])).err(),
        Some(CreateRenderPipelineError::ColorState(
            0,
            ColorStateError::FormatNotBlendable(TextureFormat::R32Float)
        ))
    );
}

#[test]
fn depth_stencil_rules_and_sample_count() {
    let device = device_with(Features::TEXTURE_ADAPTER_SPECIFIC_FORMAT_FEATURES);
    let check = |state: DepthStencilState| {
        let mut desc = render(vec![]);
        desc.depth_stencil = Some(state);
        device.validate_render_pipeline(&desc).err()
    };
    assert_eq!(check(depth(TextureFormat::Depth32Float)), None);
    let mut state = depth(TextureFormat::Depth32Float);
    state.adapter_features.allowed_usages = TextureUsages::empty();
    assert_eq!(
        check(state),
        Some(CreateRenderPipelineError::DepthStencilState(
            DepthStencilStateError::FormatNotRenderable(TextureFormat::Depth32Float)
        ))
    );
    assert_eq!(
        check(depth(TextureFormat::Stencil8)),
        Some(CreateRenderPipelineError::DepthStencilState(DepthStencilStateError::FormatNotDepth(
            TextureFormat::Stencil8
        )))
    );
    let mut state = depth(TextureFormat::Depth32Float);
    state.is_stencil_enabled = true;
    assert_eq!(
        check(state),
        Some(CreateRenderPipelineError::DepthStencilState(
            DepthStencilStateError::FormatNotStencil(TextureFormat::Depth32Float)
        ))
    );
    let mut desc = render(vec![]);
    let mut state = depth(TextureFormat::Depth32Float);
    state.adapter_features.flags = TextureFormatFeatureFlags::empty();
    desc.depth_stencil = Some(state);
    desc.multisample.count = 4;
    assert_eq!(
        device.validate_render_pipeline(&desc).err(),
        Some(CreateRenderPipelineError::DepthStencilState(
            DepthStencilStateError::FormatNotMultisampled(TextureFormat::Depth32Float)
        ))
    );
    let old = device_old(DownlevelFlags::DEPTH_BIAS_CLAMP);
    let mut desc = render(vec![]);
    let mut state = depth(TextureFormat::Depth32Float);
    state.has_depth_bias_clamp = true;
    desc.depth_stencil = Some(state);
    assert_eq!(
        old.validate_render_pipeline(&desc).err(),
        Some(CreateRenderPipelineError::MissingDownlevelFlags(MissingDownlevelFlags(
            DownlevelFlags::from_bits(DownlevelFlags::DEPTH_BIAS_CLAMP)
        )))
    );
    for count in [0u32, 3, 33, 64] {
        let mut desc = render(vec![]);
        desc.multisample.count = count;
        assert_eq!(
            device.validate_render_pipeline(&desc).err(),
            Some(CreateRenderPipelineError::InvalidSampleCount(count))
        );
    }
    for count in [1u32, 2, 4, 8, 16, 32] {
        let mut desc = render(vec![]);
        desc.multisample.count = count;
        assert!(device.validate_render_pipeline(&desc).is_ok());
    }
}

#[test]
fn render_stage_rules() {
    let device = device(0, DownlevelFlags::ALL);
    let (pipeline_layouts, layouts) = tables(&device);
    let shaders = modules();
    let desc = render(vec![Some(target(TextureFormat::Rgba8Unorm))]);
    let failed = || Err(StageError::Reflection(String::from("bad")));
    let stage_error = |stage: u32, error: StageError| {
        Err(CreateRenderPipelineError::Stage { stage: ShaderStages::from_bits(stage), error })
    };
    let check = |desc: &RenderPipelineDescriptor,
                 vertex: Result<(), StageError>,
                 fragment: Result<(), StageError>,
                 outputs: &Vec<FragmentOutput>| {
        check_render_stages(desc, &shaders, &pipeline_layouts, &layouts, vertex, fragment, outputs)
    };
    assert_eq!(check(&desc, Ok(()), Ok(()), &vec![]), Ok(()));
    assert!(reflects_vertex(&desc, &shaders));
    assert!(reflects_fragment(&desc, &shaders));
    assert!(reflects_fragment_after(&desc, &shaders, &Ok(())));
    assert!(!reflects_fragment_after(&desc, &shaders, &failed()));
    assert_eq!(
        check(&desc, failed(), Ok(()), &vec![]),
        stage_error(ShaderStages::VERTEX, StageError::Reflection(String::from("bad")))
    );
    assert_eq!(
        check(&desc, Ok(()), failed(), &vec![]),
        stage_error(ShaderStages::FRAGMENT, StageError::Reflection(String::from("bad")))
    );
    let mut missing = render(vec![]);
    missing.vertex.stage.module = 9;
    assert_eq!(
        check(&missing, Ok(()), Ok(()), &vec![]),
        stage_error(ShaderStages::VERTEX, StageError::InvalidModule)
    );
    let mut missing = render(vec![]);
    missing.fragment = Some(FragmentState { stage: stage(9), targets: vec![] });
    assert_eq!(
        check(&missing, Ok(()), Ok(()), &vec![]),
        stage_error(ShaderStages::FRAGMENT, StageError::InvalidModule)
    );
    let mut no_layout = render(vec![]);
    no_layout.layout = Some(4);
    assert_eq!(check(&no_layout, Ok(()), Ok(()), &vec![]), Err(CreateRenderPipelineError::InvalidLayout));
    let mut opaque = render(vec![]);
    opaque.vertex.stage.module = 2;
    assert!(!reflects_vertex(&opaque, &shaders));
    assert!(!reflects_fragment(&opaque, &shaders));
    assert!(!reflects_fragment_after(&opaque, &shaders, &Ok(())));
    assert_eq!(check(&opaque, failed(), failed(), &vec![]), Ok(()));
    opaque.layout = None;
    assert_eq!(
        check(&opaque, Ok(()), Ok(()), &vec![]),
        Err(CreateRenderPipelineError::Implicit(ImplicitLayoutError::ReflectionError(
            ShaderStages::from_bits(ShaderStages::FRAGMENT)
        )))
    );
    opaque.fragment = None;
    assert_eq!(
        check(&opaque, Ok(()), Ok(()), &vec![]),
        Err(CreateRenderPipelineError::Implicit(ImplicitLayoutError::ReflectionError(
            ShaderStages::from_bits(ShaderStages::VERTEX)
        )))
    );
    let int4 = NumericType { dim: NumericDimension::Vector(4), kind: ScalarKind::Sint, width: 4 };
    let outputs = vec![
        FragmentOutput { location: 5, ty: int4 },
        FragmentOutput { location: 0, ty: float4() },
        FragmentOutput { location: 0, ty: int4 },
    ];
    assert_eq!(
        check(&desc, Ok(()), Ok(()), &outputs),
        Err(CreateRenderPipelineError::ColorState(
            0,
            ColorStateError::IncompatibleFormat { pipeline: float4(), shader: int4 }
        ))
    );
}

#[test]
fn numeric_types_fit_wider_outputs() {
    let scalar = NumericType { dim: NumericDimension::Scalar, kind: ScalarKind::Float, width: 4 };
    let vec2 = NumericType { dim: NumericDimension::Vector(2), kind: ScalarKind::Float, width: 4 };
    let matrix = NumericType { dim: NumericDimension::Matrix(2, 2), kind: ScalarKind::Float, width: 4 };
    assert!(scalar.is_subtype_of(scalar));
    assert!(scalar.is_subtype_of(float4()));
    assert!(vec2.is_subtype_of(float4()));
    assert!(!float4().is_subtype_of(vec2));
    assert!(!vec2.is_subtype_of(scalar));
    assert!(matrix.is_subtype_of(matrix));
    assert!(!matrix.is_subtype_of(float4()));
    let half = NumericType { width: 2, ..vec2 };
    assert!(half.is_subtype_of(vec2));
    assert!(!vec2.is_subtype_of(half));
    let uint = NumericType { kind: ScalarKind::Uint, ..vec2 };
    assert!(!uint.is_subtype_of(vec2));
}

#[test]
fn render_pipeline_second_step() {
    let device = device(0, DownlevelFlags::ALL & !DownlevelFlags::BUFFER_BINDINGS_NOT_16_BYTE_ALIGNED);
    let shaders = modules();
    let mut blended = target(TextureFormat::Rgba8Unorm);
    blended.blend = Some(blend(BlendFactor::Constant));
    let mut desc = render(vec![None, Some(blended)]);
    let mut state = depth(TextureFormat::Depth24PlusStencil8);
    state.is_stencil_enabled = true;
    state.stencil_needs_ref_value = true;
    state.is_stencil_read_only = false;
    desc.depth_stencil = Some(state);
    desc.primitive.topology = PrimitiveTopology::TriangleStrip;
    desc.primitive.strip_index_format = Some(IndexFormat::Uint32);
    desc.vertex.buffers = vec![vertex_buffer(8, vec![attribute(0, 0, VertexFormat::Float32x2)])];
    let run = |desc: &RenderPipelineDescriptor, sizes: Vec<ShaderBindingSize>| {
        let (mut pipeline_layouts, mut layouts) = tables(&device);
        let (checked, derived) = device
            .begin_render_pipeline(desc, &None, &mut pipeline_layouts, &mut layouts)
            .unwrap();
        device.finish_render_pipeline(
            0,
            desc,
            checked,
            None,
            Ok(()),
            Ok(()),
            &vec![FragmentOutput { location: 1, ty: float4() }],
            derived,
            &sizes,
            &shaders,
            &mut pipeline_layouts,
            &mut layouts,
        )
    };
    let plan = run(&desc, vec![ShaderBindingSize { group: 0, binding: 0, size: 32 }]).unwrap();
    assert_eq!(plan.settled.layout_id, 0);
    assert_eq!(
        plan.flags,
        PipelineFlags::from_bits(
            PipelineFlags::BLEND_CONSTANT
                | PipelineFlags::STENCIL_REFERENCE
                | PipelineFlags::WRITES_DEPTH
                | PipelineFlags::WRITES_STENCIL
        )
    );
    assert_eq!(plan.flags, pipeline_flags(&desc));
    assert_eq!(plan.strip_index_format, Some(IndexFormat::Uint32));
    assert_eq!(plan.vertex_steps, vec![VertexStep { stride: 8, mode: VertexStepMode::Vertex }]);
    assert_eq!(plan.pass_context.attachments.colors, vec![None, Some(TextureFormat::Rgba8Unorm)]);
    assert_eq!(
        plan.pass_context.attachments.depth_stencil,
        Some(TextureFormat::Depth24PlusStencil8)
    );
    assert_eq!(plan.pass_context.sample_count, 1);
    assert_eq!(
        plan.settled.late_sized_buffer_groups,
        vec![LateSizedBufferGroup { shader_sizes: vec![32] }]
    );
    assert_eq!(
        run(
            &desc,
            vec![
                ShaderBindingSize { group: 0, binding: 0, size: 32 },
                ShaderBindingSize { group: 1, binding: 2, size: 40 },
                ShaderBindingSize { group: 1, binding: 3, size: 8 },
            ]
        ),
        Err(CreateRenderPipelineError::UnalignedShader { group: 1, binding: 2, size: 40 })
    );
    desc.multiview = Some(2);
    assert_eq!(
        run(&desc, vec![]),
        Err(CreateRenderPipelineError::MissingFeatures(MissingFeatures(Features::from_bits(
            Features::MULTIVIEW
        ))))
    );
    desc.multiview = None;
    desc.depth_stencil = None;
    desc.fragment = None;
    assert_eq!(pipeline_flags(&desc), PipelineFlags::empty());
    let made =
        create_render_pipeline_from_hal(run(&desc, vec![]).unwrap(), String::from("r"), Ok(8u8)).unwrap();
    assert_eq!(made.raw, Some(8));
    assert_eq!(made.layout_id, 0);
    assert_eq!(
        create_render_pipeline_from_hal::<u8>(
            run(&desc, vec![]).unwrap(),
            String::new(),
            Err(HalPipelineError::EntryPoint(ShaderStage::Vertex))
        )
        .err(),
        Some(CreateRenderPipelineError::Internal {
            stage: ShaderStages::from_bits(ShaderStages::VERTEX),
            error: String::from(EP_FAILURE)
        })
    );
    assert_eq!(
        create_render_pipeline_from_hal::<u8>(
            run(&desc, vec![]).unwrap(),
            String::new(),
            Err(HalPipelineError::Linkage(ShaderStages::from_bits(3), String::from("link")))
        )
        .err(),
        Some(CreateRenderPipelineError::Internal {
            stage: ShaderStages::from_bits(3),
            error: String::from("link")
        })
    );
}

#[test]
fn render_pipeline_with_a_derived_layout() {
    let device = device(0, DownlevelFlags::ALL);
    let shaders = modules();
    let (mut pipeline_layouts, mut layouts) = tables(&device);
    let mut desc = render(vec![Some(target(TextureFormat::Rgba8Unorm))]);
    desc.layout = None;
    let (checked, mut derived) = device
        .begin_render_pipeline(&desc, &context(), &mut pipeline_layouts, &mut layouts)
        .unwrap();
    assert_eq!(derived.len(), 4);
    derived[0].insert(uniform(0));
    let plan = device
        .finish_render_pipeline(
            0,
            &desc,
            checked,
            context(),
            Ok(()),
            Ok(()),
            &vec![],
            derived,
            &vec![],
            &shaders,
            &mut pipeline_layouts,
            &mut layouts,
        )
        .unwrap();
    assert_eq!(plan.settled.layout_id, 5);
    let found = ids_of(&plan.settled.derived);
    assert_eq!(found.0, vec![0]);
    assert!(found.1.is_empty());
}
