//! Pipelines: what is common to the two kinds, and compute pipelines.
//!
//! A pipeline is checked in steps, because its shaders are looked into by a service that
//! this crate knows only by its answers. A first step checks what can be checked without
//! the shaders and says whether they are to be looked into; the caller has that done;
//! a second step takes the answer and settles the layout.

use crate::binding_model::BindGroupLayout;
use crate::device::{Device, DeviceError, MissingDownlevelFlags};
use crate::flags::{DownlevelFlags, ShaderStages};
use crate::pipeline_layout::{
    derived_layouts, derived_layouts_new, empty_derived_layouts, make_late_sized_buffer_groups,
    spec_introspection_layouts, spec_late_sized_buffer_groups, spec_layout_keys,
    DerivedGroupLayouts, DerivedGroups, DerivedPipelineLayout, ImplicitLayoutError,
    ImplicitPipelineContext, LateSizedBufferGroup, PipelineLayout, ShaderBindingSize,
};
use crate::storage::{
    spec_with_element, DeviceId, Element, Id, PipelineLayoutId, ResourceInfo, ShaderModuleId, Storage,
};
use vstd::prelude::*;

verus! {

/// The word left in the tables where a derived layout has yet to be made, or failed to
/// be.
pub const IMPLICIT_FAILURE: &'static str = "failed implicit";

/// What is reported when the hardware does not find the entry point of a shader.
pub const EP_FAILURE: &'static str = "EP is invalid";

/// Why a shader stage does not fit a pipeline.
#[derive(Debug, PartialEq, Eq)]
pub enum StageError {
    /// The table has no shader module at the identity given.
    InvalidModule,
    /// What the look into the shader found wrong, in words.
    Reflection(String),
}

/// A shader module that was created. `R` is the handle of the hardware module.
#[derive(Debug, PartialEq, Eq)]
pub struct ShaderModule<R> {
    /// The hardware module; gone once the module has been destroyed.
    pub raw: Option<R>,
    /// Whether the module can be looked into. A module passed through to the hardware
    /// as it came cannot.
    pub has_interface: bool,
    pub info: ResourceInfo,
}

/// One shader stage of a pipeline.
#[derive(Debug, PartialEq, Eq)]
pub struct ProgrammableStageDescriptor {
    pub module: ShaderModuleId,
    pub entry_point: String,
}

/// A request for a compute pipeline.
#[derive(Debug, PartialEq, Eq)]
pub struct ComputePipelineDescriptor {
    pub label: Option<String>,
    /// The layout of the pipeline; derived from the shader if left out.
    pub layout: Option<PipelineLayoutId>,
    pub stage: ProgrammableStageDescriptor,
}

/// Why a request for a compute pipeline was turned down.
#[derive(Debug, PartialEq, Eq)]
pub enum CreateComputePipelineError {
    Device(DeviceError),
    InvalidLayout,
    Implicit(ImplicitLayoutError),
    Stage(StageError),
    /// What the hardware layer found wrong, in words.
    Internal(String),
    MissingDownlevelFlags(MissingDownlevelFlags),
}

/// A stage of a shader, as the shader language has it.
#[derive(Clone, Copy, Debug, PartialEq, Eq, Structural)]
pub enum ShaderStage {
    Vertex,
    Fragment,
    Compute,
}

/// Why the hardware layer could not make a pipeline.
#[derive(Debug, PartialEq, Eq)]
pub enum HalPipelineError {
    Device(DeviceError),
    /// The stages could not be linked; the stages, and why.
    Linkage(ShaderStages, String),
    /// The entry point of this stage was not found.
    EntryPoint(ShaderStage),
}

impl ShaderStage {
    pub open spec fn spec_flag(self) -> ShaderStages {
        ShaderStages {
            bits: match self {
                ShaderStage::Vertex => ShaderStages::VERTEX,
                ShaderStage::Fragment => ShaderStages::FRAGMENT,
                ShaderStage::Compute => ShaderStages::COMPUTE,
            },
        }
    }

    /// The stage as a set of stages.
    #[verifier::when_used_as_spec(spec_flag)]
    pub fn flag(self) -> (r: ShaderStages)
        ensures
            r == self.spec_flag(),
    {
        map_naga_stage(self)
    }
}

/// Trusted: the result of `wgpu_hal::auxil::map_naga_stage`, as bits. That function is a
/// match that gives each stage its flag, as the contract spells it out.
#[verifier::external_body]
fn map_naga_stage(stage: ShaderStage) -> (r: ShaderStages)
    ensures
        r == stage.spec_flag(),
{
    let stage = match stage {
        ShaderStage::Vertex => naga::ShaderStage::Vertex,
        ShaderStage::Fragment => naga::ShaderStage::Fragment,
        ShaderStage::Compute => naga::ShaderStage::Compute,
    };
    ShaderStages { bits: wgpu_hal::auxil::map_naga_stage(stage).bits() }
}

/// The table after each of the first `n` of `ids` has been marked as the place of a
/// derived layout that has yet to be made.
pub open spec fn spec_marked<T>(layouts: Seq<Element<T>>, ids: Seq<Id>, n: int) -> Seq<Element<T>>
    decreases n,
{
    if n <= 0 {
        layouts
    } else {
        spec_with_element(spec_marked(layouts, ids, n - 1), ids[n - 1], Element::Error(IMPLICIT_FAILURE))
    }
}

/// Before anything else is done for a pipeline whose layout may be derived, the
/// identities given for the layouts are marked in the tables as places of layouts that
/// failed to be made, so that whoever looks there meanwhile finds a mark rather than a
/// gap. The marks stay if the pipeline is turned down, and give way to the layouts if
/// not.
pub fn mark_implicit_layouts<RL, RP>(
    implicit_context: &Option<ImplicitPipelineContext>,
    pipeline_layout_guard: &mut Storage<PipelineLayout<RP>>,
    bgl_guard: &mut Storage<BindGroupLayout<RL>>,
)
    requires
        implicit_context matches Some(ids) ==> ids.root_id < usize::MAX && forall|i: int|
            0 <= i < ids.group_ids@.len() ==> ids.group_ids@[i] < usize::MAX,
    ensures
        match implicit_context {
            None => final(pipeline_layout_guard)@ == old(pipeline_layout_guard)@
                && final(bgl_guard)@ == old(bgl_guard)@,
            Some(ids) => final(pipeline_layout_guard)@ == spec_with_element(
                old(pipeline_layout_guard)@,
                ids.root_id,
                Element::Error(IMPLICIT_FAILURE),
            ) && final(bgl_guard)@ == spec_marked(
                old(bgl_guard)@,
                ids.group_ids@,
                ids.group_ids@.len() as int,
            ),
        },
{
    match implicit_context {
        None => {},
        Some(ids) => {
            pipeline_layout_guard.insert_error(ids.root_id, IMPLICIT_FAILURE);
            let mut i: usize = 0;
            while i < ids.group_ids.len()
                invariant
                    i <= ids.group_ids@.len(),
                    forall|i: int|
                        0 <= i < ids.group_ids@.len() ==> ids.group_ids@[i] < usize::MAX,
                    bgl_guard@ == spec_marked(old(bgl_guard)@, ids.group_ids@, i as int),
                decreases ids.group_ids@.len() - i,
            {
                bgl_guard.insert_error(ids.group_ids[i], IMPLICIT_FAILURE);
                i += 1;
            }
        },
    }
}

/// What the caller is to do once the first step for a pipeline has passed.
#[derive(Debug)]
pub struct StageRequest {
    /// Whether the shader is to be looked into.
    pub reflect: bool,
    /// Where the look into the shader notes what the shader binds, if the layout is to be
    /// derived: one empty entry map for each bind group that the device allows.
    pub derived_group_layouts: DerivedGroupLayouts,
}

/// What comes of a request for a compute pipeline that passed.
#[derive(Debug, PartialEq, Eq)]
pub struct ComputePipelinePlan {
    /// The layout of the pipeline, given or derived.
    pub settled: SettledLayout,
}

/// A compute pipeline that was created. `R` is the handle of the hardware pipeline.
#[derive(Debug, PartialEq, Eq)]
pub struct ComputePipeline<R> {
    /// The hardware pipeline; gone once the pipeline has been destroyed.
    pub raw: Option<R>,
    pub layout_id: PipelineLayoutId,
    pub late_sized_buffer_groups: Vec<LateSizedBufferGroup>,
    pub info: ResourceInfo,
}

impl Device {
    /// The rules a request for a compute pipeline is held to before its shader is
    /// looked into: the platform must have compute shaders; the shader module must
    /// exist; and a layout that is given must exist, with all its bind group layouts.
    pub open spec fn spec_begin_compute_pipeline<RS, RL, RP>(
        &self,
        desc: &ComputePipelineDescriptor,
        shader_modules: Seq<Element<ShaderModule<RS>>>,
        pipeline_layouts: Seq<Element<PipelineLayout<RP>>>,
        bind_group_layouts: Seq<Element<BindGroupLayout<RL>>>,
    ) -> Result<bool, CreateComputePipelineError> {
        if !self.downlevel.flags.contains(DownlevelFlags::COMPUTE_SHADERS) {
            Err(
                CreateComputePipelineError::MissingDownlevelFlags(
                    MissingDownlevelFlags(DownlevelFlags { bits: DownlevelFlags::COMPUTE_SHADERS }),
                ),
            )
        } else {
            match crate::storage::spec_resource_at(shader_modules, desc.stage.module) {
                None => Err(CreateComputePipelineError::Stage(StageError::InvalidModule)),
                Some(module) => if spec_layout_is_missing(
                    desc.layout,
                    pipeline_layouts,
                    bind_group_layouts,
                ) {
                    Err(CreateComputePipelineError::InvalidLayout)
                } else {
                    Ok(module.has_interface)
                },
            }
        }
    }

    /// The first step for a compute pipeline: marks the identities given for derived
    /// layouts, holds the request to the rules that need no look into the shader, and
    /// says whether the shader is to be looked into.
    ///
    /// Nothing has been asked of the hardware when this returns.
    pub fn begin_compute_pipeline<RS, RL, RP>(
        &self,
        desc: &ComputePipelineDescriptor,
        implicit_context: &Option<ImplicitPipelineContext>,
        shader_modules: &Storage<ShaderModule<RS>>,
        pipeline_layout_guard: &mut Storage<PipelineLayout<RP>>,
        bgl_guard: &mut Storage<BindGroupLayout<RL>>,
    ) -> (r: Result<StageRequest, CreateComputePipelineError>)
        requires
            implicit_context matches Some(ids) ==> ids.root_id < usize::MAX && forall|i: int|
                0 <= i < ids.group_ids@.len() ==> ids.group_ids@[i] < usize::MAX,
        ensures
            match implicit_context {
                None => final(pipeline_layout_guard)@ == old(pipeline_layout_guard)@
                    && final(bgl_guard)@ == old(bgl_guard)@,
                Some(ids) => final(pipeline_layout_guard)@ == spec_with_element(
                    old(pipeline_layout_guard)@,
                    ids.root_id,
                    Element::Error(IMPLICIT_FAILURE),
                ) && final(bgl_guard)@ == spec_marked(
                    old(bgl_guard)@,
                    ids.group_ids@,
                    ids.group_ids@.len() as int,
                ),
            },
            match self.spec_begin_compute_pipeline(
                desc,
                shader_modules@,
                final(pipeline_layout_guard)@,
                final(bgl_guard)@,
            ) {
                Err(e) => r == Err::<StageRequest, CreateComputePipelineError>(e),
                Ok(reflect) => r matches Ok(request) && request.reflect == reflect
                    && spec_is_fresh_derivation(
                    derived_layouts(request.derived_group_layouts),
                    desc.layout,
                    self.limits.max_bind_groups,
                ),
            },
    {
        mark_implicit_layouts(implicit_context, pipeline_layout_guard, bgl_guard);
        match self.require_downlevel_flags(DownlevelFlags::COMPUTE_SHADERS) {
            Ok(()) => {},
            Err(missing) => {
                return Err(CreateComputePipelineError::MissingDownlevelFlags(missing));
            },
        }
        let reflect = match shader_modules.get(desc.stage.module) {
            Some(module) => module.has_interface,
            None => {
                return Err(CreateComputePipelineError::Stage(StageError::InvalidModule));
            },
        };
        if layout_is_missing(desc.layout, pipeline_layout_guard, bgl_guard) {
            return Err(CreateComputePipelineError::InvalidLayout);
        }
        let derived_group_layouts = match desc.layout {
            Some(_) => derived_layouts_new(),
            None => empty_derived_layouts(self.limits.max_bind_groups),
        };
        Ok(StageRequest { reflect, derived_group_layouts })
    }
}

/// Whether a layout is given for a pipeline and the tables lack it, or one of its bind
/// group layouts.
pub open spec fn spec_layout_is_missing<RL, RP>(
    layout: Option<PipelineLayoutId>,
    pipeline_layouts: Seq<Element<PipelineLayout<RP>>>,
    bind_group_layouts: Seq<Element<BindGroupLayout<RL>>>,
) -> bool {
    match layout {
        None => false,
        Some(id) => match crate::storage::spec_resource_at(pipeline_layouts, id) {
            None => true,
            Some(found) => spec_introspection_layouts(
                found.bind_group_layout_ids@,
                found.bind_group_layout_ids@.len() as int,
                bind_group_layouts,
            ) is None,
        },
    }
}

/// Whether a layout is given for a pipeline and the tables lack it, or one of its bind
/// group layouts.
pub fn layout_is_missing<RL, RP>(
    layout: Option<PipelineLayoutId>,
    pipeline_layout_guard: &Storage<PipelineLayout<RP>>,
    bgl_guard: &Storage<BindGroupLayout<RL>>,
) -> (r: bool)
    ensures
        r == spec_layout_is_missing(layout, pipeline_layout_guard@, bgl_guard@),
{
    match layout {
        None => false,
        Some(id) => match pipeline_layout_guard.get(id) {
            None => true,
            Some(found) => crate::pipeline_layout::get_introspection_bind_group_layouts(
                found,
                bgl_guard,
            ).is_none(),
        },
    }
}

/// Where the look into the shaders starts from: nothing if the layout is given, and
/// otherwise one empty entry map for each bind group that the device allows, as far as
/// the list holds them.
pub open spec fn spec_is_fresh_derivation(
    maps: Seq<crate::binding_model::BindEntryMap>,
    layout: Option<PipelineLayoutId>,
    max_bind_groups: u32,
) -> bool {
    &&& maps.len() == if layout is Some {
        0
    } else if max_bind_groups <= 8 {
        max_bind_groups as int
    } else {
        8
    }
    &&& forall|i: int| 0 <= i < maps.len() ==> maps[i]@.len() == 0
}

/// Why the layout of a pipeline could not be settled.
#[derive(Debug, PartialEq, Eq)]
pub enum SettleLayoutError {
    /// The layout that was given, or one of its bind group layouts, is not in the tables.
    InvalidLayout,
    /// The layout could not be derived.
    Implicit(ImplicitLayoutError),
}

/// The layout of a pipeline, given or derived, and what is known late of its buffers.
#[derive(Debug, PartialEq, Eq)]
pub struct SettledLayout {
    pub layout_id: PipelineLayoutId,
    pub late_sized_buffer_groups: Vec<LateSizedBufferGroup>,
    /// The layouts that were derived, if the layout was derived. Those of them that are
    /// new have yet to get their hardware layouts.
    pub derived: Option<DerivedPipelineLayout>,
}

/// Whether `found` holds exactly the sizes `groups`, group by group.
pub open spec fn spec_same_late_sizes(
    found: Seq<LateSizedBufferGroup>,
    groups: Seq<Seq<u64>>,
) -> bool {
    found.len() == groups.len() && forall|i: int|
        0 <= i < groups.len() ==> (#[trigger] found[i]).shader_sizes@ == groups[i]
}

/// The layout of a pipeline as it is settled, as the contracts speak of it.
pub ghost struct SettledLayoutView {
    pub layout_id: PipelineLayoutId,
    /// The sizes that the shaders ask of the buffers whose least size the layout leaves
    /// open, bind group by bind group.
    pub late_sizes: Seq<Seq<u64>>,
    /// What the derivation came to, if the layout was derived.
    pub groups: Option<DerivedGroups>,
}

impl SettledLayout {
    /// Whether this is the settled layout that `view` describes.
    pub open spec fn is(&self, view: SettledLayoutView) -> bool {
        &&& self.layout_id == view.layout_id
        &&& spec_same_late_sizes(self.late_sized_buffer_groups@, view.late_sizes)
        &&& match view.groups {
            None => self.derived is None,
            Some(groups) => self.derived matches Some(derived) && derived.root_id
                == view.layout_id && derived.group_ids@ == groups.group_ids && derived.created@
                == groups.created,
        }
    }
}

impl Device {
    /// How the layout of a pipeline is settled once its shaders have been looked into.
    /// A layout that was given must be in the table, with all its bind group layouts.
    /// One that was not is derived from the entry maps that the shaders gave. Either way
    /// the sizes that the shaders ask of the buffers whose least size the layout leaves
    /// open are put together, bind group by bind group.
    pub open spec fn spec_settle_pipeline_layout<RP>(
        &self,
        self_id: DeviceId,
        layout: Option<PipelineLayoutId>,
        implicit_context: Option<ImplicitPipelineContext>,
        maps: Seq<crate::binding_model::BindEntryMap>,
        sizes: Seq<ShaderBindingSize>,
        pipeline_layouts: Seq<Element<PipelineLayout<RP>>>,
        keys: Seq<Element<crate::pipeline_layout::LayoutKey>>,
    ) -> Result<SettledLayoutView, SettleLayoutError> {
        match layout {
            Some(id) => match crate::storage::spec_resource_at(pipeline_layouts, id) {
                None => Err(SettleLayoutError::InvalidLayout),
                Some(found) => match spec_late_sized_buffer_groups(
                    sizes,
                    found.bind_group_layout_ids@,
                    found.bind_group_layout_ids@.len() as int,
                    keys,
                ) {
                    None => Err(SettleLayoutError::InvalidLayout),
                    Some(late_sizes) => Ok(
                        SettledLayoutView { layout_id: id, late_sizes, groups: None },
                    ),
                },
            },
            None => match self.spec_derive_pipeline_layout(self_id, implicit_context, maps, keys) {
                Err(e) => Err(SettleLayoutError::Implicit(e)),
                Ok(groups) => match spec_late_sized_buffer_groups(
                    sizes,
                    groups.group_ids,
                    groups.group_ids.len() as int,
                    groups.keys,
                ) {
                    None => Err(SettleLayoutError::InvalidLayout),
                    Some(late_sizes) => Ok(
                        SettledLayoutView {
                            layout_id: implicit_context->Some_0.root_id,
                            late_sizes,
                            groups: Some(groups),
                        },
                    ),
                },
            },
        }
    }

    /// Whether the two tables are as the settling of the layout of a pipeline leaves
    /// them, where `bgl_before` and `layouts_before` are the tables as it found them:
    /// as they were if the layout was given, and as the derivation leaves them if not.
    pub open spec fn spec_settling_leaves<RL, RP>(
        &self,
        self_id: DeviceId,
        layout: Option<PipelineLayoutId>,
        implicit_context: Option<ImplicitPipelineContext>,
        maps: Seq<crate::binding_model::BindEntryMap>,
        bgl_before: Seq<Element<BindGroupLayout<RL>>>,
        layouts_before: Seq<Element<PipelineLayout<RP>>>,
        bgl_after: Seq<Element<BindGroupLayout<RL>>>,
        layouts_after: Seq<Element<PipelineLayout<RP>>>,
    ) -> bool {
        match layout {
            Some(_) => bgl_after == bgl_before && layouts_after == layouts_before,
            None => self.spec_derivation_leaves(
                self_id,
                implicit_context,
                maps,
                bgl_before,
                layouts_before,
                bgl_after,
                layouts_after,
            ),
        }
    }

    /// Settles the layout of a pipeline once its shaders have been looked into: takes
    /// the layout that was given from the table, or derives one from the entry maps that
    /// the shaders gave and puts it into the tables.
    ///
    /// The tables stay as they were if the layout was given, and are as the derivation
    /// leaves them if not. Nothing has been asked of the hardware when this returns.
    pub fn settle_pipeline_layout<RL, RP>(
        &self,
        self_id: DeviceId,
        layout: Option<PipelineLayoutId>,
        implicit_context: Option<ImplicitPipelineContext>,
        derived_group_layouts: DerivedGroupLayouts,
        shader_binding_sizes: &Vec<ShaderBindingSize>,
        pipeline_layout_guard: &mut Storage<PipelineLayout<RP>>,
        bgl_guard: &mut Storage<BindGroupLayout<RL>>,
    ) -> (r: Result<SettledLayout, SettleLayoutError>)
        requires
            implicit_context matches Some(ids) ==> ids.root_id < usize::MAX && forall|i: int|
                0 <= i < ids.group_ids@.len() ==> ids.group_ids@[i] < usize::MAX,
        ensures
            match self.spec_settle_pipeline_layout(
                self_id,
                layout,
                implicit_context,
                derived_layouts(derived_group_layouts),
                shader_binding_sizes@,
                old(pipeline_layout_guard)@,
                spec_layout_keys(old(bgl_guard)@),
            ) {
                Err(e) => r == Err::<SettledLayout, SettleLayoutError>(e),
                Ok(view) => r matches Ok(settled) && settled.is(view) && (view.groups matches Some(
                    groups,
                ) ==> spec_layout_keys(final(bgl_guard)@) == groups.keys),
            },
            self.spec_settling_leaves(
                self_id,
                layout,
                implicit_context,
                derived_layouts(derived_group_layouts),
                old(bgl_guard)@,
                old(pipeline_layout_guard)@,
                final(bgl_guard)@,
                final(pipeline_layout_guard)@,
            ),
    {
        let (layout_id, derived) = match layout {
            Some(id) => (id, None),
            None => {
                match self.derive_pipeline_layout(
                    self_id,
                    implicit_context,
                    derived_group_layouts,
                    bgl_guard,
                    pipeline_layout_guard,
                ) {
                    Ok(derived) => (derived.root_id, Some(derived)),
                    Err(e) => {
                        return Err(SettleLayoutError::Implicit(e));
                    },
                }
            },
        };
        let found = match pipeline_layout_guard.get(layout_id) {
            Some(found) => found,
            None => {
                return Err(SettleLayoutError::InvalidLayout);
            },
        };
        match make_late_sized_buffer_groups(shader_binding_sizes, found, bgl_guard) {
            Some(late_sized_buffer_groups) => Ok(
                SettledLayout { layout_id, late_sized_buffer_groups, derived },
            ),
            None => Err(SettleLayoutError::InvalidLayout),
        }
    }

    /// The second step for a compute pipeline: takes what the look into the shader
    /// came to, and settles the layout. `stage` is the outcome of the look, and passes
    /// if the shader cannot be looked into.
    ///
    /// If the look failed, the tables stay as they were; if not, they are as the
    /// settling of the layout leaves them.
    ///
    /// Nothing has been asked of the hardware when this returns.
    pub fn finish_compute_pipeline<RL, RP>(
        &self,
        self_id: DeviceId,
        desc: &ComputePipelineDescriptor,
        implicit_context: Option<ImplicitPipelineContext>,
        stage: Result<(), StageError>,
        derived_group_layouts: DerivedGroupLayouts,
        shader_binding_sizes: &Vec<ShaderBindingSize>,
        pipeline_layout_guard: &mut Storage<PipelineLayout<RP>>,
        bgl_guard: &mut Storage<BindGroupLayout<RL>>,
    ) -> (r: Result<ComputePipelinePlan, CreateComputePipelineError>)
        requires
            implicit_context matches Some(ids) ==> ids.root_id < usize::MAX && forall|i: int|
                0 <= i < ids.group_ids@.len() ==> ids.group_ids@[i] < usize::MAX,
        ensures
            match stage {
                Err(e) => r == Err::<ComputePipelinePlan, CreateComputePipelineError>(
                    CreateComputePipelineError::Stage(e),
                ),
                Ok(()) => match self.spec_settle_pipeline_layout(
                    self_id,
                    desc.layout,
                    implicit_context,
                    derived_layouts(derived_group_layouts),
                    shader_binding_sizes@,
                    old(pipeline_layout_guard)@,
                    spec_layout_keys(old(bgl_guard)@),
                ) {
                    Err(SettleLayoutError::InvalidLayout) => r == Err::<
                        ComputePipelinePlan,
                        CreateComputePipelineError,
                    >(CreateComputePipelineError::InvalidLayout),
                    Err(SettleLayoutError::Implicit(e)) => r == Err::<
                        ComputePipelinePlan,
                        CreateComputePipelineError,
                    >(CreateComputePipelineError::Implicit(e)),
                    Ok(view) => r matches Ok(plan) && plan.settled.is(view) && (
                    view.groups matches Some(groups) ==> spec_layout_keys(final(bgl_guard)@)
                        == groups.keys),
                },
            },
            match stage {
                Err(_) => final(pipeline_layout_guard)@ == old(pipeline_layout_guard)@
                    && final(bgl_guard)@ == old(bgl_guard)@,
                Ok(()) => self.spec_settling_leaves(
                    self_id,
                    desc.layout,
                    implicit_context,
                    derived_layouts(derived_group_layouts),
                    old(bgl_guard)@,
                    old(pipeline_layout_guard)@,
                    final(bgl_guard)@,
                    final(pipeline_layout_guard)@,
                ),
            },
    {
        match stage {
            Ok(()) => {},
            Err(e) => {
                return Err(CreateComputePipelineError::Stage(e));
            },
        }
        match self.settle_pipeline_layout(
            self_id,
            desc.layout,
            implicit_context,
            derived_group_layouts,
            shader_binding_sizes,
            pipeline_layout_guard,
            bgl_guard,
        ) {
            Ok(settled) => Ok(ComputePipelinePlan { settled }),
            Err(SettleLayoutError::InvalidLayout) => Err(CreateComputePipelineError::InvalidLayout),
            Err(SettleLayoutError::Implicit(e)) => Err(CreateComputePipelineError::Implicit(e)),
        }
    }
}

/// The record of the compute pipeline that the hardware made to `plan`, or the failure
/// of the hardware to make one. A failure to link is reported in the words of the
/// hardware layer, and a missing entry point in words of this crate.
pub fn create_compute_pipeline_from_hal<R>(
    plan: ComputePipelinePlan,
    label: String,
    raw: Result<R, HalPipelineError>,
) -> (r: Result<ComputePipeline<R>, CreateComputePipelineError>)
    ensures
        match raw {
            Ok(handle) => r matches Ok(pipeline) && {
                &&& pipeline.raw == Some(handle)
                &&& pipeline.layout_id == plan.settled.layout_id
                &&& pipeline.late_sized_buffer_groups == plan.settled.late_sized_buffer_groups
                &&& pipeline.info.label == label
                &&& pipeline.info.id is None
            },
            Err(HalPipelineError::Device(e)) => r == Err::<
                ComputePipeline<R>,
                CreateComputePipelineError,
            >(CreateComputePipelineError::Device(e)),
            Err(HalPipelineError::Linkage(_, msg)) => r == Err::<
                ComputePipeline<R>,
                CreateComputePipelineError,
            >(CreateComputePipelineError::Internal(msg)),
            Err(HalPipelineError::EntryPoint(_)) => r matches Err(
                CreateComputePipelineError::Internal(msg),
            ) && msg@ == EP_FAILURE@,
        },
{
    match raw {
        Ok(handle) => Ok(
            ComputePipeline {
                raw: Some(handle),
                layout_id: plan.settled.layout_id,
                late_sized_buffer_groups: plan.settled.late_sized_buffer_groups,
                info: ResourceInfo::new(label),
            },
        ),
        Err(HalPipelineError::Device(e)) => Err(CreateComputePipelineError::Device(e)),
        Err(HalPipelineError::Linkage(_, msg)) => Err(CreateComputePipelineError::Internal(msg)),
        Err(HalPipelineError::EntryPoint(_)) => Err(
            CreateComputePipelineError::Internal(EP_FAILURE.to_owned()),
        ),
    }
}

} // verus!
