//! Pipeline layouts: the bind group layouts and push-constant ranges of a pipeline, given
//! by the user or derived from its shaders.

use crate::binding_model::{
    BindEntryMap, BindGroupLayout, BindGroupLayoutEntry, BindingType,
    BindingTypeMaxCountError, BindingTypeMaxCountValidator, CreateBindGroupLayoutError,
};
use crate::device::{Device, DeviceError, MissingFeatures};
use crate::flags::{Features, PipelineLayoutFlags, ShaderStages};
use crate::limits::PUSH_CONSTANT_ALIGNMENT;
use crate::storage::{
    spec_resource_at, spec_with_element, BindGroupLayoutId, DeviceId, Element, Id,
    PipelineLayoutId, ResourceInfo, Storage,
};
use arrayvec::ArrayVec;
use std::ops::Range;
use vstd::prelude::*;

verus! {

/// A range of the push constants of a pipeline, and the stages that see it.
#[derive(Debug, PartialEq, Eq)]
pub struct PushConstantRange {
    pub stages: ShaderStages,
    /// The bytes of the range; both ends must be multiples of the alignment.
    pub range: Range<u32>,
}

/// A request for a pipeline layout.
#[derive(Debug, PartialEq, Eq)]
pub struct PipelineLayoutDescriptor {
    pub label: Option<String>,
    pub bind_group_layouts: Vec<BindGroupLayoutId>,
    pub push_constant_ranges: Vec<PushConstantRange>,
}

/// Why a request for a pipeline layout was turned down.
#[derive(Debug, PartialEq, Eq)]
#[allow(inconsistent_fields)]
pub enum CreatePipelineLayoutError {
    Device(DeviceError),
    InvalidBindGroupLayout(BindGroupLayoutId),
    /// An end of the range at `index` that is no multiple of the alignment.
    MisalignedPushConstantRange { index: usize, bound: u32 },
    MissingFeatures(MissingFeatures),
    /// The range at `index` is seen by a stage that an earlier range is seen by.
    MoreThanOnePushConstantRangePerStage {
        index: usize,
        provided: ShaderStages,
        intersected: ShaderStages,
    },
    PushConstantRangeTooLarge { index: usize, range: Range<u32>, max: u32 },
    TooManyBindings(BindingTypeMaxCountError),
    TooManyGroups { actual: usize, max: usize },
}

/// What comes of a request for a pipeline layout that passed. The hardware is given the
/// bind group layouts and the push-constant ranges of the request as they are.
#[derive(Clone, Copy, Debug, PartialEq, Eq, Structural)]
pub struct PipelineLayoutPlan {
    pub flags: PipelineLayoutFlags,
}

/// A pipeline layout that was created. `R` is the handle of the hardware layout.
#[derive(Debug, PartialEq, Eq)]
pub struct PipelineLayout<R> {
    /// The hardware layout; absent before it is made and after the layout has been
    /// destroyed.
    pub raw: Option<R>,
    pub info: ResourceInfo,
    pub bind_group_layout_ids: Vec<BindGroupLayoutId>,
    pub push_constant_ranges: Vec<PushConstantRange>,
}

/// What the derivation and the checking of pipeline layouts read of a bind group layout.
pub ghost struct LayoutKey {
    /// The device that the layout was created on.
    pub device_id: DeviceId,
    pub entries: Seq<BindGroupLayoutEntry>,
    pub counts: BindingTypeMaxCountValidator,
    /// Whether the layout has its hardware layout.
    pub has_raw: bool,
}

/// What is read of the bind group layout in one place of the table.
pub open spec fn spec_layout_key<R>(element: Element<BindGroupLayout<R>>) -> Element<LayoutKey> {
    match element {
        Element::Vacant => Element::Vacant,
        Element::Error(label) => Element::Error(label),
        Element::Occupied(layout) => Element::Occupied(
            LayoutKey {
                device_id: layout.device_id,
                entries: layout.entries@,
                counts: layout.count_validator,
                has_raw: layout.raw is Some,
            },
        ),
    }
}

/// What is read of the bind group layouts of a table, place by place.
pub open spec fn spec_layout_keys<R>(layouts: Seq<Element<BindGroupLayout<R>>>) -> Seq<
    Element<LayoutKey>,
> {
    Seq::new(layouts.len(), |i: int| spec_layout_key(layouts[i]))
}

/// Putting a layout into the table puts what is read of it into what is read of the
/// table.
pub proof fn lemma_layout_keys_with_element<R>(
    layouts: Seq<Element<BindGroupLayout<R>>>,
    id: Id,
    element: Element<BindGroupLayout<R>>,
)
    ensures
        spec_layout_keys(spec_with_element(layouts, id, element)) == spec_with_element(
            spec_layout_keys(layouts),
            id,
            spec_layout_key(element),
        ),
{
    assert(spec_layout_keys(spec_with_element(layouts, id, element)) =~= spec_with_element(
        spec_layout_keys(layouts),
        id,
        spec_layout_key(element),
    ));
}

/// The stages that see one of the first `n` of `ranges`.
pub open spec fn spec_used_stages(ranges: Seq<PushConstantRange>, n: int) -> ShaderStages
    decreases n,
{
    if n <= 0 {
        ShaderStages { bits: ShaderStages::NONE }
    } else {
        spec_used_stages(ranges, n - 1).with(ranges[n - 1].stages.bits)
    }
}

/// The rules the push-constant range at `index` is held to, in the order in which they
/// are tried: no stage sees it that sees an earlier range; it ends within the push
/// constants that the device has; and both its ends are multiples of the alignment.
pub open spec fn spec_check_push_constant_range(
    ranges: Seq<PushConstantRange>,
    index: int,
    max_push_constant_size: u32,
) -> Result<(), CreatePipelineLayoutError> {
    let pc = ranges[index];
    let used = spec_used_stages(ranges, index);
    if pc.stages.intersects(used.bits) {
        Err(
            CreatePipelineLayoutError::MoreThanOnePushConstantRangePerStage {
                index: index as usize,
                provided: pc.stages,
                intersected: pc.stages.only(used.bits),
            },
        )
    } else if max_push_constant_size < pc.range.end {
        Err(
            CreatePipelineLayoutError::PushConstantRangeTooLarge {
                index: index as usize,
                range: pc.range,
                max: max_push_constant_size,
            },
        )
    } else if pc.range.start % PUSH_CONSTANT_ALIGNMENT != 0 {
        Err(
            CreatePipelineLayoutError::MisalignedPushConstantRange {
                index: index as usize,
                bound: pc.range.start,
            },
        )
    } else if pc.range.end % PUSH_CONSTANT_ALIGNMENT != 0 {
        Err(
            CreatePipelineLayoutError::MisalignedPushConstantRange {
                index: index as usize,
                bound: pc.range.end,
            },
        )
    } else {
        Ok(())
    }
}

/// What comes of the first `n` push-constant ranges: the first failure among them, if
/// there is one.
pub open spec fn spec_check_push_constant_ranges(
    ranges: Seq<PushConstantRange>,
    n: int,
    max_push_constant_size: u32,
) -> Result<(), CreatePipelineLayoutError>
    decreases n,
{
    if n <= 0 {
        Ok(())
    } else if spec_check_push_constant_ranges(ranges, n - 1, max_push_constant_size) is Err {
        spec_check_push_constant_ranges(ranges, n - 1, max_push_constant_size)
    } else {
        spec_check_push_constant_range(ranges, n - 1, max_push_constant_size)
    }
}

/// The counts of the first `n` of the bind group layouts named, taken together; a
/// failure if the table holds no layout at one of the identities.
pub open spec fn spec_merged_counts(
    ids: Seq<BindGroupLayoutId>,
    n: int,
    layouts: Seq<Element<LayoutKey>>,
) -> Result<BindingTypeMaxCountValidator, CreatePipelineLayoutError>
    decreases n,
{
    if n <= 0 {
        Ok(BindingTypeMaxCountValidator::spec_default())
    } else {
        match spec_merged_counts(ids, n - 1, layouts) {
            Err(e) => Err(e),
            Ok(counts) => match spec_resource_at(layouts, ids[n - 1]) {
                None => Err(CreatePipelineLayoutError::InvalidBindGroupLayout(ids[n - 1])),
                Some(layout) => Ok(counts.spec_merge(layout.counts)),
            },
        }
    }
}

impl Device {
    /// The rules a request for a pipeline layout is held to, in the order in which they
    /// are tried:
    /// - it names no more bind group layouts than the device allows;
    /// - it has push-constant ranges only if the device has push constants;
    /// - each range, in order, passes the rules on ranges;
    /// - each bind group layout named exists;
    /// - the bindings of all of them together are within the limits of the device.
    pub open spec fn spec_create_pipeline_layout(
        &self,
        bind_group_layouts: Seq<BindGroupLayoutId>,
        push_constant_ranges: Seq<PushConstantRange>,
        layouts: Seq<Element<LayoutKey>>,
    ) -> Result<PipelineLayoutPlan, CreatePipelineLayoutError> {
        if bind_group_layouts.len() > self.limits.max_bind_groups as usize {
            Err(
                CreatePipelineLayoutError::TooManyGroups {
                    actual: bind_group_layouts.len() as usize,
                    max: self.limits.max_bind_groups as usize,
                },
            )
        } else if push_constant_ranges.len() != 0 && !self.features.contains(
            Features::PUSH_CONSTANTS,
        ) {
            Err(
                CreatePipelineLayoutError::MissingFeatures(
                    MissingFeatures(Features { bits: Features::PUSH_CONSTANTS }),
                ),
            )
        } else if spec_check_push_constant_ranges(
            push_constant_ranges,
            push_constant_ranges.len() as int,
            self.limits.max_push_constant_size,
        ) is Err {
            Err(
                spec_check_push_constant_ranges(
                    push_constant_ranges,
                    push_constant_ranges.len() as int,
                    self.limits.max_push_constant_size,
                )->Err_0,
            )
        } else {
            match spec_merged_counts(
                bind_group_layouts,
                bind_group_layouts.len() as int,
                layouts,
            ) {
                Err(e) => Err(e),
                Ok(counts) => match counts.spec_validate(&self.limits) {
                    Err(e) => Err(CreatePipelineLayoutError::TooManyBindings(e)),
                    Ok(()) => Ok(
                        PipelineLayoutPlan {
                            flags: PipelineLayoutFlags {
                                bits: PipelineLayoutFlags::BASE_VERTEX_INSTANCE,
                            },
                        },
                    ),
                },
            }
        }
    }

    /// Checks a request for a pipeline layout against the table of bind group layouts,
    /// and says what to ask of the hardware.
    ///
    /// Nothing has been asked of the hardware when this returns.
    #[verifier::loop_isolation(false)]
    pub fn create_pipeline_layout<R>(
        &self,
        desc: &PipelineLayoutDescriptor,
        bgl_guard: &Storage<BindGroupLayout<R>>,
    ) -> (r: Result<PipelineLayoutPlan, CreatePipelineLayoutError>)
        ensures
            r == self.spec_create_pipeline_layout(
                desc.bind_group_layouts@,
                desc.push_constant_ranges@,
                spec_layout_keys(bgl_guard@),
            ),
    {
        let bind_group_layouts_count = desc.bind_group_layouts.len();
        let device_max_bind_groups = self.limits.max_bind_groups as usize;
        if bind_group_layouts_count > device_max_bind_groups {
            return Err(
                CreatePipelineLayoutError::TooManyGroups {
                    actual: bind_group_layouts_count,
                    max: device_max_bind_groups,
                },
            );
        }
        if desc.push_constant_ranges.len() != 0 {
            match self.require_features(Features::PUSH_CONSTANTS) {
                Ok(()) => {},
                Err(missing) => {
                    return Err(CreatePipelineLayoutError::MissingFeatures(missing));
                },
            }
        }
        let ranges = &desc.push_constant_ranges;
        let mut used_stages = ShaderStages::from_bits(ShaderStages::NONE);
        let mut index: usize = 0;
        while index < ranges.len()
            invariant
                index <= ranges@.len(),
                used_stages == spec_used_stages(ranges@, index as int),
                spec_check_push_constant_ranges(
                    ranges@,
                    index as int,
                    self.limits.max_push_constant_size,
                ) is Ok,
            decreases ranges@.len() - index,
        {
            let pc = &ranges[index];
            let device_max_pc_size = self.limits.max_push_constant_size;
            let failure = if pc.stages.intersects(used_stages.bits) {
                Some(
                    CreatePipelineLayoutError::MoreThanOnePushConstantRangePerStage {
                        index,
                        provided: pc.stages,
                        intersected: pc.stages.only(used_stages.bits),
                    },
                )
            } else if device_max_pc_size < pc.range.end {
                Some(
                    CreatePipelineLayoutError::PushConstantRangeTooLarge {
                        index,
                        range: pc.range.start..pc.range.end,
                        max: device_max_pc_size,
                    },
                )
            } else if pc.range.start % PUSH_CONSTANT_ALIGNMENT != 0 {
                Some(
                    CreatePipelineLayoutError::MisalignedPushConstantRange {
                        index,
                        bound: pc.range.start,
                    },
                )
            } else if pc.range.end % PUSH_CONSTANT_ALIGNMENT != 0 {
                Some(
                    CreatePipelineLayoutError::MisalignedPushConstantRange {
                        index,
                        bound: pc.range.end,
                    },
                )
            } else {
                None
            };
            match failure {
                Some(e) => {
                    proof {
                        assert(spec_check_push_constant_ranges(
                            ranges@,
                            index as int + 1,
                            self.limits.max_push_constant_size,
                        ) == Err::<(), CreatePipelineLayoutError>(e));
                        lemma_push_constant_error_stays(
                            ranges@,
                            index as int + 1,
                            ranges@.len() as int,
                            self.limits.max_push_constant_size,
                        );
                    }
                    return Err(e);
                },
                None => {},
            }
            used_stages = used_stages.with(pc.stages.bits);
            index += 1;
        }
        let ids = &desc.bind_group_layouts;
        let mut count_validator = BindingTypeMaxCountValidator::new();
        let mut i: usize = 0;
        while i < ids.len()
            invariant
                i <= ids@.len(),
                spec_merged_counts(ids@, i as int, spec_layout_keys(bgl_guard@)) == Ok::<
                    BindingTypeMaxCountValidator,
                    CreatePipelineLayoutError,
                >(count_validator),
            decreases ids@.len() - i,
        {
            match bgl_guard.get(ids[i]) {
                Some(bind_group_layout) => {
                    count_validator.merge(&bind_group_layout.count_validator);
                },
                None => {
                    proof {
                        assert(spec_merged_counts(
                            ids@,
                            i as int + 1,
                            spec_layout_keys(bgl_guard@),
                        ) is Err);
                        lemma_merged_counts_error_stays(
                            ids@,
                            i as int + 1,
                            ids@.len() as int,
                            spec_layout_keys(bgl_guard@),
                        );
                    }
                    return Err(CreatePipelineLayoutError::InvalidBindGroupLayout(ids[i]));
                },
            }
            i += 1;
        }
        match count_validator.validate(&self.limits) {
            Ok(()) => {},
            Err(e) => {
                return Err(CreatePipelineLayoutError::TooManyBindings(e));
            },
        }
        Ok(
            PipelineLayoutPlan {
                flags: PipelineLayoutFlags::from_bits(PipelineLayoutFlags::BASE_VERTEX_INSTANCE),
            },
        )
    }
}

proof fn lemma_push_constant_error_stays(
    ranges: Seq<PushConstantRange>,
    from: int,
    to: int,
    max_push_constant_size: u32,
)
    requires
        from <= to,
        spec_check_push_constant_ranges(ranges, from, max_push_constant_size) is Err,
    ensures
        spec_check_push_constant_ranges(ranges, to, max_push_constant_size)
            == spec_check_push_constant_ranges(ranges, from, max_push_constant_size),
    decreases to - from,
{
    if from < to {
        lemma_push_constant_error_stays(ranges, from, to - 1, max_push_constant_size);
    }
}

proof fn lemma_merged_counts_error_stays(
    ids: Seq<BindGroupLayoutId>,
    from: int,
    to: int,
    layouts: Seq<Element<LayoutKey>>,
)
    requires
        from <= to,
        spec_merged_counts(ids, from, layouts) is Err,
    ensures
        spec_merged_counts(ids, to, layouts) == spec_merged_counts(ids, from, layouts),
    decreases to - from,
{
    if from < to {
        lemma_merged_counts_error_stays(ids, from, to - 1, layouts);
    }
}

/// The first of the bind group layouts named that has no hardware layout, be it that it
/// does not exist, that its hardware layout has yet to be made, or that it has been
/// destroyed.
pub open spec fn spec_first_layout_without_raw(
    ids: Seq<BindGroupLayoutId>,
    n: int,
    layouts: Seq<Element<LayoutKey>>,
) -> Option<BindGroupLayoutId>
    decreases n,
{
    if n <= 0 {
        None
    } else if spec_first_layout_without_raw(ids, n - 1, layouts) is Some {
        spec_first_layout_without_raw(ids, n - 1, layouts)
    } else {
        match spec_resource_at(layouts, ids[n - 1]) {
            Some(layout) => if layout.has_raw {
                None
            } else {
                Some(ids[n - 1])
            },
            None => Some(ids[n - 1]),
        }
    }
}

/// Makes sure, before the hardware is asked for a pipeline layout, that each bind group
/// layout named has its hardware layout. The first that has not is reported.
pub fn check_bind_group_layouts_have_raw<R>(
    ids: &Vec<BindGroupLayoutId>,
    bgl_guard: &Storage<BindGroupLayout<R>>,
) -> (r: Result<(), CreatePipelineLayoutError>)
    ensures
        r == match spec_first_layout_without_raw(
            ids@,
            ids@.len() as int,
            spec_layout_keys(bgl_guard@),
        ) {
            Some(id) => Err::<(), CreatePipelineLayoutError>(
                CreatePipelineLayoutError::InvalidBindGroupLayout(id),
            ),
            None => Ok::<(), CreatePipelineLayoutError>(()),
        },
{
    let mut i: usize = 0;
    while i < ids.len()
        invariant
            i <= ids@.len(),
            spec_first_layout_without_raw(ids@, i as int, spec_layout_keys(bgl_guard@)) is None,
        decreases ids@.len() - i,
    {
        let has_raw = match bgl_guard.get(ids[i]) {
            Some(layout) => layout.raw.is_some(),
            None => false,
        };
        if !has_raw {
            proof {
                lemma_first_without_raw_stays(
                    ids@,
                    i as int + 1,
                    ids@.len() as int,
                    spec_layout_keys(bgl_guard@),
                );
            }
            return Err(CreatePipelineLayoutError::InvalidBindGroupLayout(ids[i]));
        }
        i += 1;
    }
    Ok(())
}

proof fn lemma_first_without_raw_stays(
    ids: Seq<BindGroupLayoutId>,
    from: int,
    to: int,
    layouts: Seq<Element<LayoutKey>>,
)
    requires
        from <= to,
        spec_first_layout_without_raw(ids, from, layouts) is Some,
    ensures
        spec_first_layout_without_raw(ids, to, layouts) == spec_first_layout_without_raw(
            ids,
            from,
            layouts,
        ),
    decreases to - from,
{
    if from < to {
        lemma_first_without_raw_stays(ids, from, to - 1, layouts);
    }
}

#[verifier::external_type_specification]
#[verifier::external_body]
#[verifier::reject_recursive_types(T)]
pub struct ExArrayVec<T, const CAP: usize>(ArrayVec<T, CAP>);

/// The entry maps that are derived from the shaders of a pipeline, one for each bind
/// group, in a list that holds at most as many as a pipeline can have bind groups.
pub type DerivedGroupLayouts = ArrayVec<BindEntryMap, 8>;

/// The entry maps that a list of derived group layouts holds, in order.
pub uninterp spec fn derived_layouts(layouts: DerivedGroupLayouts) -> Seq<BindEntryMap>;

/// Trusted: `arrayvec::ArrayVec::new`, which makes a list that holds nothing.
#[verifier::external_body]
pub(crate) fn derived_layouts_new() -> (r: DerivedGroupLayouts)
    ensures
        derived_layouts(r) == Seq::<BindEntryMap>::empty(),
{
    ArrayVec::new()
}

/// Trusted: `arrayvec::ArrayVec::len`, the number of items held, which is never over the
/// capacity of 8 that the type fixes.
#[verifier::external_body]
pub(crate) fn derived_layouts_len(layouts: &DerivedGroupLayouts) -> (r: usize)
    ensures
        r == derived_layouts(*layouts).len(),
        r <= 8,
{
    layouts.len()
}

/// Trusted: `arrayvec::ArrayVec::push`, which adds an item at the end, and panics if the
/// list is full.
#[verifier::external_body]
pub(crate) fn derived_layouts_push(layouts: &mut DerivedGroupLayouts, map: BindEntryMap)
    requires
        derived_layouts(*old(layouts)).len() < 8,
    ensures
        derived_layouts(*final(layouts)) == derived_layouts(*old(layouts)).push(map),
{
    layouts.push(map)
}

/// Trusted: `arrayvec::ArrayVec::pop`, which takes the last item off if there is one.
#[verifier::external_body]
pub(crate) fn derived_layouts_pop(layouts: &mut DerivedGroupLayouts) -> (r: Option<BindEntryMap>)
    ensures
        derived_layouts(*old(layouts)).len() == 0 ==> r is None && derived_layouts(
            *final(layouts),
        ) == derived_layouts(*old(layouts)),
        derived_layouts(*old(layouts)).len() > 0 ==> r == Some(
            derived_layouts(*old(layouts)).last(),
        ) && derived_layouts(*final(layouts)) == derived_layouts(*old(layouts)).drop_last(),
{
    layouts.pop()
}

/// Trusted: indexing an `arrayvec::ArrayVec`, which goes through its slice and gives the
/// item at `index`, and panics if there is none.
#[verifier::external_body]
pub(crate) fn derived_layouts_get(layouts: &DerivedGroupLayouts, index: usize) -> (r:
    &BindEntryMap)
    requires
        index < derived_layouts(*layouts).len(),
    ensures
        *r == derived_layouts(*layouts)[index as int],
{
    &layouts[index]
}

/// A list of `count` empty entry maps, or of as many as the list can hold if that is
/// fewer: where the shaders of a pipeline start to fill in what they bind.
pub fn empty_derived_layouts(count: u32) -> (r: DerivedGroupLayouts)
    ensures
        derived_layouts(r).len() == if count <= 8 {
            count as int
        } else {
            8
        },
        forall|i: int| 0 <= i < derived_layouts(r).len() ==> derived_layouts(r)[i]@.len() == 0,
{
    let mut layouts = derived_layouts_new();
    let mut i: u32 = 0;
    while i < count && i < 8
        invariant
            i <= 8,
            i <= count,
            derived_layouts(layouts).len() == i,
            forall|j: int|
                0 <= j < derived_layouts(layouts).len() ==> derived_layouts(layouts)[j]@.len()
                    == 0,
        decreases 8 - i,
    {
        derived_layouts_push(&mut layouts, BindEntryMap::new());
        i += 1;
    }
    layouts
}

/// The identities that a pipeline with a derived layout is given beforehand: one for the
/// pipeline layout, and one for each bind group layout that may have to be made.
#[derive(Debug, PartialEq, Eq)]
pub struct ImplicitPipelineContext {
    pub root_id: PipelineLayoutId,
    pub group_ids: Vec<BindGroupLayoutId>,
}

/// Why a pipeline layout could not be derived.
#[derive(Debug, PartialEq, Eq)]
pub enum ImplicitLayoutError {
    /// Fewer identities were given than there are bind groups; this is the number of
    /// bind groups.
    MissingIds(u8),
    /// The shader of one of these stages could not be looked into.
    ReflectionError(ShaderStages),
    BindGroup(CreateBindGroupLayoutError),
    Pipeline(CreatePipelineLayoutError),
}

/// What comes of the derivation of a pipeline layout: the layouts are in the tables,
/// and those that are new have yet to get their hardware layouts.
#[derive(Debug, PartialEq, Eq)]
pub struct DerivedPipelineLayout {
    pub root_id: PipelineLayoutId,
    /// The bind group layouts of the pipeline layout, in order.
    pub group_ids: Vec<BindGroupLayoutId>,
    /// Those of them that were put into the table by this derivation.
    pub created: Vec<BindGroupLayoutId>,
}

/// The place of the first of the first `n` layouts of the table that was created on the
/// given device with the given entries.
pub open spec fn spec_first_match(
    layouts: Seq<Element<LayoutKey>>,
    device_id: DeviceId,
    entries: Seq<BindGroupLayoutEntry>,
    n: int,
) -> Option<BindGroupLayoutId>
    decreases n,
{
    if n <= 0 {
        None
    } else if spec_first_match(layouts, device_id, entries, n - 1) is Some {
        spec_first_match(layouts, device_id, entries, n - 1)
    } else if layouts[n - 1] matches Element::Occupied(key) && key.device_id == device_id
        && key.entries == entries {
        Some((n - 1) as Id)
    } else {
        None
    }
}

proof fn lemma_first_match_stays(
    layouts: Seq<Element<LayoutKey>>,
    device_id: DeviceId,
    entries: Seq<BindGroupLayoutEntry>,
    from: int,
    to: int,
)
    requires
        from <= to,
        spec_first_match(layouts, device_id, entries, from) is Some,
    ensures
        spec_first_match(layouts, device_id, entries, to) == spec_first_match(
            layouts,
            device_id,
            entries,
            from,
        ),
    decreases to - from,
{
    if from < to {
        lemma_first_match_stays(layouts, device_id, entries, from, to - 1);
    }
}

/// The first bind group layout of the table that was created on the device `self_id`
/// with the same entries as `entry_map`, if there is one. A pipeline whose layout is
/// derived uses it rather than have another made.
pub fn deduplicate_bind_group_layout<R>(
    self_id: DeviceId,
    entry_map: &BindEntryMap,
    guard: &Storage<BindGroupLayout<R>>,
) -> (r: Option<BindGroupLayoutId>)
    ensures
        r == spec_first_match(
            spec_layout_keys(guard@),
            self_id,
            entry_map@,
            guard@.len() as int,
        ),
{
    let mut i: usize = 0;
    while i < guard.len()
        invariant
            i <= guard@.len(),
            spec_first_match(spec_layout_keys(guard@), self_id, entry_map@, i as int) is None,
        decreases guard@.len() - i,
    {
        let matches = match guard.get(i as u64) {
            Some(bgl) => bgl.device_id == self_id && bgl.entries.same_entries(entry_map),
            None => false,
        };
        if matches {
            proof {
                assert(spec_first_match(
                    spec_layout_keys(guard@),
                    self_id,
                    entry_map@,
                    i as int + 1,
                ) == Some(i as Id));
                lemma_first_match_stays(
                    spec_layout_keys(guard@),
                    self_id,
                    entry_map@,
                    i as int + 1,
                    guard@.len() as int,
                );
            }
            return Some(i as u64);
        }
        i += 1;
    }
    None
}

/// `maps` without the empty maps at its end.
pub open spec fn spec_trimmed(maps: Seq<BindEntryMap>) -> Seq<BindEntryMap>
    decreases maps.len(),
{
    if maps.len() > 0 && maps.last()@.len() == 0 {
        spec_trimmed(maps.drop_last())
    } else {
        maps
    }
}

/// How far the derivation of the bind group layouts of a pipeline has come.
pub ghost struct DerivedGroups {
    /// What is read of the table of bind group layouts.
    pub keys: Seq<Element<LayoutKey>>,
    /// The bind group layouts of the pipeline so far, in order.
    pub group_ids: Seq<BindGroupLayoutId>,
    /// Those of them that the derivation put into the table.
    pub created: Seq<BindGroupLayoutId>,
}

impl Device {
    /// What comes of the first `n` derived bind groups. For each, in order: if the
    /// table has a layout of this device with the same entries, the first such layout
    /// is the layout of the group; else the entries are held to the rules on bind group
    /// layouts, and a new layout, yet without its hardware layout, is put into the table
    /// at the identity given for the group.
    pub open spec fn spec_derive_groups(
        &self,
        self_id: DeviceId,
        keys: Seq<Element<LayoutKey>>,
        ids: Seq<BindGroupLayoutId>,
        maps: Seq<BindEntryMap>,
        n: int,
    ) -> Result<DerivedGroups, ImplicitLayoutError>
        decreases n,
    {
        if n <= 0 {
            Ok(DerivedGroups { keys, group_ids: Seq::empty(), created: Seq::empty() })
        } else {
            match self.spec_derive_groups(self_id, keys, ids, maps, n - 1) {
                Err(e) => Err(e),
                Ok(prev) => match spec_first_match(
                    prev.keys,
                    self_id,
                    maps[n - 1]@,
                    prev.keys.len() as int,
                ) {
                    Some(found) => Ok(
                        DerivedGroups { group_ids: prev.group_ids.push(found), ..prev },
                    ),
                    None => match self.spec_create_bind_group_layout(maps[n - 1]@) {
                        Err(e) => Err(ImplicitLayoutError::BindGroup(e)),
                        Ok(plan) => Ok(
                            DerivedGroups {
                                keys: spec_with_element(
                                    prev.keys,
                                    ids[n - 1],
                                    Element::Occupied(
                                        LayoutKey {
                                            device_id: self_id,
                                            entries: maps[n - 1]@,
                                            counts: plan.count_validator,
                                            has_raw: false,
                                        },
                                    ),
                                ),
                                group_ids: prev.group_ids.push(ids[n - 1]),
                                created: prev.created.push(ids[n - 1]),
                            },
                        ),
                    },
                },
            }
        }
    }

    /// What is read of the table of bind group layouts once the first `n` derived bind
    /// groups were tried: the table with the layouts made for the groups that come
    /// before the first that fails.
    pub open spec fn spec_derive_groups_leaves(
        &self,
        self_id: DeviceId,
        keys: Seq<Element<LayoutKey>>,
        ids: Seq<BindGroupLayoutId>,
        maps: Seq<BindEntryMap>,
        n: int,
    ) -> Seq<Element<LayoutKey>>
        decreases n,
    {
        if n <= 0 {
            keys
        } else {
            match self.spec_derive_groups(self_id, keys, ids, maps, n) {
                Ok(groups) => groups.keys,
                Err(_) => self.spec_derive_groups_leaves(self_id, keys, ids, maps, n - 1),
            }
        }
    }

    /// What comes of the derivation of a pipeline layout from the entry maps that the
    /// shaders of a pipeline gave:
    /// - the empty maps at the end are dropped;
    /// - identities must have been given, one at least for each map that is left;
    /// - each map gets its bind group layout, one from the table or a new one;
    /// - the pipeline layout of these bind group layouts, without push constants, is
    ///   held to the rules on pipeline layouts.
    pub open spec fn spec_derive_pipeline_layout(
        &self,
        self_id: DeviceId,
        implicit_context: Option<ImplicitPipelineContext>,
        maps: Seq<BindEntryMap>,
        keys: Seq<Element<LayoutKey>>,
    ) -> Result<DerivedGroups, ImplicitLayoutError> {
        let trimmed = spec_trimmed(maps);
        match implicit_context {
            None => Err(ImplicitLayoutError::MissingIds(0)),
            Some(ids) => if ids.group_ids@.len() < trimmed.len() {
                Err(ImplicitLayoutError::MissingIds(trimmed.len() as u8))
            } else {
                match self.spec_derive_groups(
                    self_id,
                    keys,
                    ids.group_ids@,
                    trimmed,
                    trimmed.len() as int,
                ) {
                    Err(e) => Err(e),
                    Ok(groups) => match self.spec_create_pipeline_layout(
                        groups.group_ids,
                        Seq::empty(),
                        groups.keys,
                    ) {
                        Err(e) => Err(ImplicitLayoutError::Pipeline(e)),
                        Ok(_) => Ok(groups),
                    },
                }
            },
        }
    }
}

impl Device {
    /// Whether the two tables are as the derivation of a pipeline layout leaves them,
    /// where `bgl_before` and `layouts_before` are the tables as it found them.
    ///
    /// - Without identities, or with too few, nothing is changed.
    /// - If a bind group fails, or the pipeline layout, the table of pipeline layouts
    ///   is unchanged, and the table of bind group layouts holds the layouts made for
    ///   the groups before the failure.
    /// - If the derivation passes, the table of bind group layouts holds the layouts
    ///   made, and the table of pipeline layouts is changed at the identity given for
    ///   the pipeline layout alone, where it holds a layout of the bind group layouts
    ///   of the groups, without push constants and yet without its hardware layout.
    /// - Either way no table shrinks, and a bind group layout at another identity than
    ///   those given stays as it was.
    pub open spec fn spec_derivation_leaves<RL, RP>(
        &self,
        self_id: DeviceId,
        implicit_context: Option<ImplicitPipelineContext>,
        maps: Seq<BindEntryMap>,
        bgl_before: Seq<Element<BindGroupLayout<RL>>>,
        layouts_before: Seq<Element<PipelineLayout<RP>>>,
        bgl_after: Seq<Element<BindGroupLayout<RL>>>,
        layouts_after: Seq<Element<PipelineLayout<RP>>>,
    ) -> bool {
        let keys = spec_layout_keys(bgl_before);
        &&& match self.spec_derive_pipeline_layout(self_id, implicit_context, maps, keys) {
            Err(_) => {
                &&& layouts_after == layouts_before
                &&& match implicit_context {
                    None => bgl_after == bgl_before,
                    Some(ids) => if ids.group_ids@.len() < spec_trimmed(maps).len() {
                        bgl_after == bgl_before
                    } else {
                        spec_layout_keys(bgl_after) == self.spec_derive_groups_leaves(
                            self_id,
                            keys,
                            ids.group_ids@,
                            spec_trimmed(maps),
                            spec_trimmed(maps).len() as int,
                        )
                    },
                }
            },
            Ok(groups) => {
                &&& implicit_context matches Some(ids)
                &&& spec_layout_keys(bgl_after) == groups.keys
                &&& layouts_after == spec_with_element(
                    layouts_before,
                    ids.root_id,
                    layouts_after[ids.root_id as int],
                )
                &&& spec_resource_at(layouts_after, ids.root_id) matches Some(layout)
                &&& layout.raw is None
                &&& layout.bind_group_layout_ids@ == groups.group_ids
                &&& layout.push_constant_ranges@.len() == 0
            },
        }
        &&& bgl_after.len() >= bgl_before.len()
        &&& forall|id: int|
            0 <= id < bgl_before.len() && !(implicit_context matches Some(ids)
                && ids.group_ids@.contains(id as Id)) ==> bgl_after[id] == bgl_before[id]
    }

    /// Where the group at `at` is the first to fail, the table of bind group layouts is
    /// left with the layouts made for the groups before it, however many more are tried.
    proof fn lemma_derive_groups_leaves(
        &self,
        self_id: DeviceId,
        keys: Seq<Element<LayoutKey>>,
        ids: Seq<BindGroupLayoutId>,
        maps: Seq<BindEntryMap>,
        at: int,
        n: int,
    )
        requires
            0 <= at < n,
            self.spec_derive_groups(self_id, keys, ids, maps, at) is Ok,
            self.spec_derive_groups(self_id, keys, ids, maps, at + 1) is Err,
        ensures
            self.spec_derive_groups_leaves(self_id, keys, ids, maps, n) == self.spec_derive_groups(
                self_id,
                keys,
                ids,
                maps,
                at,
            )->Ok_0.keys,
        decreases n,
    {
        self.lemma_derive_groups_error_stays(self_id, keys, ids, maps, at + 1, n);
        if n > at + 1 {
            self.lemma_derive_groups_leaves(self_id, keys, ids, maps, at, n - 1);
        } else {
            reveal_with_fuel(Device::spec_derive_groups_leaves, 2);
        }
    }

    /// Where every group passes, the table of bind group layouts is left as the last
    /// group leaves it.
    proof fn lemma_derive_groups_leaves_all(
        &self,
        self_id: DeviceId,
        keys: Seq<Element<LayoutKey>>,
        ids: Seq<BindGroupLayoutId>,
        maps: Seq<BindEntryMap>,
        n: int,
    )
        requires
            0 <= n,
            self.spec_derive_groups(self_id, keys, ids, maps, n) is Ok,
        ensures
            self.spec_derive_groups_leaves(self_id, keys, ids, maps, n) == self.spec_derive_groups(
                self_id,
                keys,
                ids,
                maps,
                n,
            )->Ok_0.keys,
    {
    }
}

/// Where the table has a layout of the device with the entries of a derived bind group,
/// the group gets the first such layout, and nothing is put into the table for it.
pub proof fn lemma_identical_layout_is_reused(
    device: Device,
    self_id: DeviceId,
    keys: Seq<Element<LayoutKey>>,
    ids: Seq<BindGroupLayoutId>,
    maps: Seq<BindEntryMap>,
    n: int,
    existing: BindGroupLayoutId,
)
    requires
        0 < n <= maps.len(),
        device.spec_derive_groups(self_id, keys, ids, maps, n - 1) is Ok,
        ({
            let prev = device.spec_derive_groups(self_id, keys, ids, maps, n - 1)->Ok_0;
            &&& existing < prev.keys.len() <= u64::MAX
            &&& prev.keys[existing as int] matches Element::Occupied(key)
            &&& key.device_id == self_id
            &&& key.entries == maps[n - 1]@
        }),
    ensures
        device.spec_derive_groups(self_id, keys, ids, maps, n) is Ok,
        ({
            let prev = device.spec_derive_groups(self_id, keys, ids, maps, n - 1)->Ok_0;
            let groups = device.spec_derive_groups(self_id, keys, ids, maps, n)->Ok_0;
            &&& groups.keys == prev.keys
            &&& groups.created == prev.created
            &&& groups.group_ids.len() == prev.group_ids.len() + 1
            &&& groups.group_ids.last() <= existing
            &&& prev.keys[groups.group_ids.last() as int] matches Element::Occupied(key)
            &&& key.device_id == self_id
            &&& key.entries == maps[n - 1]@
        }),
{
    let prev = device.spec_derive_groups(self_id, keys, ids, maps, n - 1)->Ok_0;
    lemma_first_match(prev.keys, self_id, maps[n - 1]@, prev.keys.len() as int);
}

/// The first match is a match, and nothing before it is; and there is none only where
/// nothing is a match.
pub proof fn lemma_first_match(
    layouts: Seq<Element<LayoutKey>>,
    device_id: DeviceId,
    entries: Seq<BindGroupLayoutEntry>,
    n: int,
)
    requires
        0 <= n <= layouts.len() <= u64::MAX,
    ensures
        match spec_first_match(layouts, device_id, entries, n) {
            Some(found) => {
                &&& found < n
                &&& layouts[found as int] matches Element::Occupied(key)
                &&& key.device_id == device_id
                &&& key.entries == entries
                &&& forall|i: int|
                    0 <= i < found ==> !(#[trigger] layouts[i] matches Element::Occupied(key)
                        && key.device_id == device_id && key.entries == entries)
            },
            None => forall|i: int|
                0 <= i < n ==> !(#[trigger] layouts[i] matches Element::Occupied(key)
                    && key.device_id == device_id && key.entries == entries),
        },
    decreases n,
{
    if n > 0 {
        lemma_first_match(layouts, device_id, entries, n - 1);
    }
}

/// Whether the table has a layout that was created on the given device with the given
/// entries.
pub open spec fn spec_has_layout(
    layouts: Seq<Element<LayoutKey>>,
    device_id: DeviceId,
    entries: Seq<BindGroupLayoutEntry>,
) -> bool {
    exists|at: int|
        0 <= at < layouts.len() && (#[trigger] layouts[at] matches Element::Occupied(key)
            && key.device_id == device_id && key.entries == entries)
}

/// Where the table has, for each of the first `n` derived bind groups, a layout of the
/// device with the entries of the group, every group gets the first such layout:
/// nothing is put into the table, which stays as it was, and no layout of another
/// device is taken, whatever its entries.
pub proof fn lemma_identical_layouts_are_reused(
    device: Device,
    self_id: DeviceId,
    keys: Seq<Element<LayoutKey>>,
    ids: Seq<BindGroupLayoutId>,
    maps: Seq<BindEntryMap>,
    n: int,
)
    requires
        0 <= n <= maps.len(),
        keys.len() <= u64::MAX,
        forall|g: int| 0 <= g < n ==> spec_has_layout(keys, self_id, (#[trigger] maps[g])@),
    ensures
        device.spec_derive_groups(self_id, keys, ids, maps, n) matches Ok(groups) && {
            &&& groups.keys == keys
            &&& groups.created.len() == 0
            &&& groups.group_ids.len() == n
            &&& forall|g: int|
                0 <= g < n ==> {
                    &&& Some(#[trigger] groups.group_ids[g]) == spec_first_match(
                        keys,
                        self_id,
                        maps[g]@,
                        keys.len() as int,
                    )
                    &&& groups.group_ids[g] < keys.len()
                    &&& keys[groups.group_ids[g] as int] matches Element::Occupied(key)
                    &&& key.device_id == self_id
                    &&& key.entries == maps[g]@
                }
        },
    decreases n,
{
    if n > 0 {
        lemma_identical_layouts_are_reused(device, self_id, keys, ids, maps, n - 1);
        lemma_first_match(keys, self_id, maps[n - 1]@, keys.len() as int);
        assert(spec_has_layout(keys, self_id, maps[n - 1]@));
        let prev = device.spec_derive_groups(self_id, keys, ids, maps, n - 1)->Ok_0;
        let groups = device.spec_derive_groups(self_id, keys, ids, maps, n)->Ok_0;
        assert(groups.group_ids == prev.group_ids.push(groups.group_ids[n - 1]));
        assert forall|g: int| 0 <= g < n implies {
            &&& Some(#[trigger] groups.group_ids[g]) == spec_first_match(
                keys,
                self_id,
                maps[g]@,
                keys.len() as int,
            )
            &&& groups.group_ids[g] < keys.len()
            &&& keys[groups.group_ids[g] as int] matches Element::Occupied(key)
            &&& key.device_id == self_id
            &&& key.entries == maps[g]@
        } by {
            if g < n - 1 {
                assert(groups.group_ids[g] == prev.group_ids[g]);
            }
        }
    }
}

/// Where the table has, for each bind group that the shaders of a pipeline use, a
/// layout of the device with the entries of the group, and enough identities were
/// given, the derivation of the pipeline layout makes no bind group layout: it fails
/// only if the pipeline layout breaks a rule on pipeline layouts, and otherwise the
/// bind group layouts of the pipeline layout are those of the table, which stays as it
/// was.
pub proof fn lemma_derivation_reuses_identical_layouts(
    device: Device,
    self_id: DeviceId,
    implicit_context: ImplicitPipelineContext,
    maps: Seq<BindEntryMap>,
    keys: Seq<Element<LayoutKey>>,
)
    requires
        keys.len() <= u64::MAX,
        implicit_context.group_ids@.len() >= spec_trimmed(maps).len(),
        forall|g: int|
            0 <= g < spec_trimmed(maps).len() ==> spec_has_layout(
                keys,
                self_id,
                (#[trigger] spec_trimmed(maps)[g])@,
            ),
    ensures
        match device.spec_derive_pipeline_layout(self_id, Some(implicit_context), maps, keys) {
            Ok(groups) => {
                &&& groups.keys == keys
                &&& groups.created.len() == 0
                &&& groups.group_ids.len() == spec_trimmed(maps).len()
                &&& forall|g: int|
                    0 <= g < groups.group_ids.len() ==> Some(#[trigger] groups.group_ids[g])
                        == spec_first_match(
                        keys,
                        self_id,
                        spec_trimmed(maps)[g]@,
                        keys.len() as int,
                    )
            },
            Err(e) => e is Pipeline,
        },
{
    let trimmed = spec_trimmed(maps);
    lemma_identical_layouts_are_reused(
        device,
        self_id,
        keys,
        implicit_context.group_ids@,
        trimmed,
        trimmed.len() as int,
    );
}

fn copy_ids(ids: &Vec<Id>) -> (r: Vec<Id>)
    ensures
        r@ == ids@,
{
    let mut copy: Vec<Id> = Vec::new();
    let mut i: usize = 0;
    while i < ids.len()
        invariant
            i <= ids@.len(),
            copy@ == ids@.take(i as int),
        decreases ids@.len() - i,
    {
        copy.push(ids[i]);
        i += 1;
        assert(copy@ =~= ids@.take(i as int));
    }
    assert(ids@.take(i as int) =~= ids@);
    copy
}

impl Device {
    proof fn lemma_derive_groups_error_stays(
        &self,
        self_id: DeviceId,
        keys: Seq<Element<LayoutKey>>,
        ids: Seq<BindGroupLayoutId>,
        maps: Seq<BindEntryMap>,
        from: int,
        to: int,
    )
        requires
            from <= to,
            self.spec_derive_groups(self_id, keys, ids, maps, from) is Err,
        ensures
            self.spec_derive_groups(self_id, keys, ids, maps, to) == self.spec_derive_groups(
                self_id,
                keys,
                ids,
                maps,
                from,
            ),
        decreases to - from,
    {
        if from < to {
            self.lemma_derive_groups_error_stays(self_id, keys, ids, maps, from, to - 1);
        }
    }

    /// Derives the layout of a pipeline from the entry maps that its shaders gave, one
    /// for each bind group, and puts it into the tables under the identities that were
    /// given beforehand.
    ///
    /// A bind group whose entries some layout of this device already has gets the first
    /// such layout. For any other, a new layout is put into the table, at the identity
    /// given for the group. The new layouts, and the pipeline layout, are yet without
    /// their hardware layouts: nothing has been asked of the hardware when this returns.
    /// If the derivation fails for want of identities, the tables are as they were. If
    /// it fails later, the layouts that it had put into the table stay there.
    #[verifier::loop_isolation(false)]
    pub fn derive_pipeline_layout<RL, RP>(
        &self,
        self_id: DeviceId,
        implicit_context: Option<ImplicitPipelineContext>,
        derived_group_layouts: DerivedGroupLayouts,
        bgl_guard: &mut Storage<BindGroupLayout<RL>>,
        pipeline_layout_guard: &mut Storage<PipelineLayout<RP>>,
    ) -> (r: Result<DerivedPipelineLayout, ImplicitLayoutError>)
        requires
            implicit_context matches Some(ids) ==> ids.root_id < usize::MAX && forall|i: int|
                0 <= i < ids.group_ids@.len() ==> ids.group_ids@[i] < usize::MAX,
        ensures
            match self.spec_derive_pipeline_layout(
                self_id,
                implicit_context,
                derived_layouts(derived_group_layouts),
                spec_layout_keys(old(bgl_guard)@),
            ) {
                Err(e) => r == Err::<DerivedPipelineLayout, ImplicitLayoutError>(e)
                    && final(pipeline_layout_guard)@ == old(pipeline_layout_guard)@,
                Ok(groups) => {
                    &&& r matches Ok(derived)
                    &&& implicit_context matches Some(ids)
                    &&& derived.root_id == ids.root_id
                    &&& derived.group_ids@ == groups.group_ids
                    &&& derived.created@ == groups.created
                    &&& spec_layout_keys(final(bgl_guard)@) == groups.keys
                    &&& final(pipeline_layout_guard)@ == spec_with_element(
                        old(pipeline_layout_guard)@,
                        ids.root_id,
                        final(pipeline_layout_guard)@[ids.root_id as int],
                    )
                    &&& final(pipeline_layout_guard).spec_get(ids.root_id) matches Some(layout)
                    &&& layout.raw is None
                    &&& layout.bind_group_layout_ids@ == groups.group_ids
                    &&& layout.push_constant_ranges@.len() == 0
                },
            },
            self.spec_derivation_leaves(
                self_id,
                implicit_context,
                derived_layouts(derived_group_layouts),
                old(bgl_guard)@,
                old(pipeline_layout_guard)@,
                final(bgl_guard)@,
                final(pipeline_layout_guard)@,
            ),
    {
        let ghost untrimmed = derived_layouts(derived_group_layouts);
        let ghost keys = spec_layout_keys(bgl_guard@);
        let mut layouts = derived_group_layouts;
        let mut group_count = derived_layouts_len(&layouts);
        while group_count > 0 && derived_layouts_get(&layouts, group_count - 1).is_empty()
            invariant
                group_count == derived_layouts(layouts).len(),
                spec_trimmed(derived_layouts(layouts)) == spec_trimmed(untrimmed),
            decreases group_count,
        {
            derived_layouts_pop(&mut layouts);
            group_count = derived_layouts_len(&layouts);
        }
        let ghost trimmed = derived_layouts(layouts);
        assert(trimmed == spec_trimmed(untrimmed));
        let ids = match implicit_context {
            Some(ids) => ids,
            None => {
                return Err(ImplicitLayoutError::MissingIds(0));
            },
        };
        if ids.group_ids.len() < group_count {
            return Err(ImplicitLayoutError::MissingIds(group_count as u8));
        }
        let mut group_ids: Vec<BindGroupLayoutId> = Vec::new();
        let mut created: Vec<BindGroupLayoutId> = Vec::new();
        let mut i: usize = 0;
        while i < group_count
            invariant
                i <= group_count,
                group_count == trimmed.len(),
                derived_layouts(layouts) == trimmed,
                self.spec_derive_groups(self_id, keys, ids.group_ids@, trimmed, i as int) == Ok::<
                    DerivedGroups,
                    ImplicitLayoutError,
                >(
                    DerivedGroups {
                        keys: spec_layout_keys(bgl_guard@),
                        group_ids: group_ids@,
                        created: created@,
                    },
                ),
                bgl_guard@.len() >= old(bgl_guard)@.len(),
                forall|id: int|
                    0 <= id < old(bgl_guard)@.len() && !ids.group_ids@.contains(id as Id)
                        ==> bgl_guard@[id] == old(bgl_guard)@[id],
                pipeline_layout_guard@ == old(pipeline_layout_guard)@,
            decreases group_count - i,
        {
            let map = derived_layouts_get(&layouts, i);
            let group_id = ids.group_ids[i];
            match deduplicate_bind_group_layout(self_id, map, bgl_guard) {
                Some(dedup_id) => {
                    group_ids.push(dedup_id);
                },
                None => {
                    let plan = match self.create_bind_group_layout(map) {
                        Ok(plan) => plan,
                        Err(e) => {
                            proof {
                                assert(self.spec_derive_groups(
                                    self_id,
                                    keys,
                                    ids.group_ids@,
                                    trimmed,
                                    i as int + 1,
                                ) == Err::<DerivedGroups, ImplicitLayoutError>(
                                    ImplicitLayoutError::BindGroup(e),
                                ));
                                self.lemma_derive_groups_error_stays(
                                    self_id,
                                    keys,
                                    ids.group_ids@,
                                    trimmed,
                                    i as int + 1,
                                    trimmed.len() as int,
                                );
                                self.lemma_derive_groups_leaves(
                                    self_id,
                                    keys,
                                    ids.group_ids@,
                                    trimmed,
                                    i as int,
                                    trimmed.len() as int,
                                );
                            }
                            return Err(ImplicitLayoutError::BindGroup(e));
                        },
                    };
                    let layout = BindGroupLayout::<RL> {
                        raw: None,
                        device_id: self_id,
                        count_validator: plan.count_validator,
                        entries: map.duplicate(),
                        info: ResourceInfo::new(String::new()),
                    };
                    proof {
                        lemma_layout_keys_with_element(
                            bgl_guard@,
                            group_id,
                            Element::Occupied(layout),
                        );
                        assert(ids.group_ids@.contains(group_id));
                    }
                    bgl_guard.force_replace(group_id, layout);
                    group_ids.push(group_id);
                    created.push(group_id);
                },
            }
            i += 1;
        }
        let layout_desc = PipelineLayoutDescriptor {
            label: None,
            bind_group_layouts: group_ids,
            push_constant_ranges: Vec::new(),
        };
        assert(layout_desc.push_constant_ranges@ =~= Seq::<PushConstantRange>::empty());
        proof {
            self.lemma_derive_groups_leaves_all(
                self_id,
                keys,
                ids.group_ids@,
                trimmed,
                trimmed.len() as int,
            );
        }
        match self.create_pipeline_layout(&layout_desc, bgl_guard) {
            Ok(_) => {},
            Err(e) => {
                return Err(ImplicitLayoutError::Pipeline(e));
            },
        }
        let layout = PipelineLayout::<RP> {
            raw: None,
            info: ResourceInfo::new(String::new()),
            bind_group_layout_ids: copy_ids(&layout_desc.bind_group_layouts),
            push_constant_ranges: Vec::new(),
        };
        pipeline_layout_guard.force_replace(ids.root_id, layout);
        assert(pipeline_layout_guard@[ids.root_id as int] == Element::Occupied(layout));
        Ok(
            DerivedPipelineLayout {
                root_id: ids.root_id,
                group_ids: layout_desc.bind_group_layouts,
                created,
            },
        )
    }
}

/// The record of the pipeline layout that the hardware made for `desc`, or the failure
/// of the hardware to make one.
pub fn create_pipeline_layout_from_hal<R>(
    desc: PipelineLayoutDescriptor,
    label: String,
    raw: Result<R, DeviceError>,
) -> (r: Result<PipelineLayout<R>, CreatePipelineLayoutError>)
    ensures
        match raw {
            Err(e) => r == Err::<PipelineLayout<R>, CreatePipelineLayoutError>(
                CreatePipelineLayoutError::Device(e),
            ),
            Ok(handle) => r matches Ok(layout) && {
                &&& layout.raw == Some(handle)
                &&& layout.bind_group_layout_ids == desc.bind_group_layouts
                &&& layout.push_constant_ranges == desc.push_constant_ranges
                &&& layout.info.label == label
                &&& layout.info.id is None
            },
        },
{
    match raw {
        Err(e) => Err(CreatePipelineLayoutError::Device(e)),
        Ok(handle) => Ok(
            PipelineLayout {
                raw: Some(handle),
                info: ResourceInfo::new(label),
                bind_group_layout_ids: desc.bind_group_layouts,
                push_constant_ranges: desc.push_constant_ranges,
            },
        ),
    }
}

/// Gives the bind group layout at `id` its hardware layout, once the hardware has made
/// it. Nothing happens if the table has no layout there.
pub fn attach_bind_group_layout<R>(storage: &mut Storage<BindGroupLayout<R>>, id: Id, raw: R)
    requires
        id < usize::MAX,
    ensures
        match old(storage).spec_get(id) {
            None => final(storage)@ == old(storage)@,
            Some(layout) => final(storage)@ == old(storage)@.update(
                id as int,
                Element::Occupied(BindGroupLayout { raw: Some(raw), ..layout }),
            ),
        },
{
    match storage.take(id) {
        None => {},
        Some(layout) => {
            let ghost before = storage@;
            let BindGroupLayout { raw: _, device_id, count_validator, entries, info } = layout;
            let filled = BindGroupLayout { raw: Some(raw), device_id, count_validator, entries, info };
            storage.force_replace(id, filled);
            assert(storage@ =~= old(storage)@.update(id as int, Element::Occupied(filled)));
        },
    }
}

/// Gives the pipeline layout at `id` its hardware layout, once the hardware has made it.
/// Nothing happens if the table has no layout there.
pub fn attach_pipeline_layout<R>(storage: &mut Storage<PipelineLayout<R>>, id: Id, raw: R)
    requires
        id < usize::MAX,
    ensures
        match old(storage).spec_get(id) {
            None => final(storage)@ == old(storage)@,
            Some(layout) => final(storage)@ == old(storage)@.update(
                id as int,
                Element::Occupied(PipelineLayout { raw: Some(raw), ..layout }),
            ),
        },
{
    match storage.take(id) {
        None => {},
        Some(layout) => {
            let PipelineLayout { raw: _, info, bind_group_layout_ids, push_constant_ranges } =
                layout;
            let filled = PipelineLayout {
                raw: Some(raw),
                info,
                bind_group_layout_ids,
                push_constant_ranges,
            };
            storage.force_replace(id, filled);
            assert(storage@ =~= old(storage)@.update(id as int, Element::Occupied(filled)));
        },
    }
}

/// The entries of the first `n` bind group layouts of a pipeline layout, in order;
/// nothing if the table lacks one of them.
pub open spec fn spec_introspection_layouts<R>(
    ids: Seq<BindGroupLayoutId>,
    n: int,
    layouts: Seq<Element<BindGroupLayout<R>>>,
) -> Option<Seq<BindEntryMap>>
    decreases n,
{
    if n <= 0 {
        Some(Seq::empty())
    } else {
        match (
            spec_introspection_layouts(ids, n - 1, layouts),
            spec_resource_at(layouts, ids[n - 1]),
        ) {
            (Some(found), Some(layout)) => Some(found.push(layout.entries)),
            _ => None,
        }
    }
}

/// The entries of the bind group layouts of a pipeline layout, in order, for the
/// shaders of a pipeline to be held against; nothing if the table lacks one of the
/// layouts.
#[verifier::loop_isolation(false)]
pub fn get_introspection_bind_group_layouts<'a, RP, R>(
    pipeline_layout: &PipelineLayout<RP>,
    bgl_guard: &'a Storage<BindGroupLayout<R>>,
) -> (r: Option<Vec<&'a BindEntryMap>>)
    ensures
        match spec_introspection_layouts(
            pipeline_layout.bind_group_layout_ids@,
            pipeline_layout.bind_group_layout_ids@.len() as int,
            bgl_guard@,
        ) {
            None => r is None,
            Some(found) => r matches Some(maps) && maps@.len() == found.len() && forall|i: int|
                0 <= i < found.len() ==> *maps@[i] == found[i],
        },
{
    let ids = &pipeline_layout.bind_group_layout_ids;
    let mut maps: Vec<&'a BindEntryMap> = Vec::new();
    let mut i: usize = 0;
    while i < ids.len()
        invariant
            i <= ids@.len(),
            spec_introspection_layouts(ids@, i as int, bgl_guard@) matches Some(found)
                && maps@.len() == found.len() && forall|j: int|
                0 <= j < found.len() ==> *maps@[j] == found[j],
        decreases ids@.len() - i,
    {
        match bgl_guard.get(ids[i]) {
            Some(layout) => {
                maps.push(&layout.entries);
            },
            None => {
                proof {
                    assert(spec_introspection_layouts(ids@, i as int + 1, bgl_guard@) is None);
                    lemma_introspection_stays_none(
                        ids@,
                        i as int + 1,
                        ids@.len() as int,
                        bgl_guard@,
                    );
                }
                return None;
            },
        }
        i += 1;
    }
    Some(maps)
}

proof fn lemma_introspection_stays_none<R>(
    ids: Seq<BindGroupLayoutId>,
    from: int,
    to: int,
    layouts: Seq<Element<BindGroupLayout<R>>>,
)
    requires
        from <= to,
        spec_introspection_layouts(ids, from, layouts) is None,
    ensures
        spec_introspection_layouts(ids, to, layouts) is None,
    decreases to - from,
{
    if from < to {
        lemma_introspection_stays_none(ids, from, to - 1, layouts);
    }
}

/// The least size that a shader asks of the buffer bound at one binding of one bind
/// group.
#[derive(Clone, Copy, Debug, PartialEq, Eq, Structural)]
pub struct ShaderBindingSize {
    pub group: u32,
    pub binding: u32,
    /// In bytes; not zero.
    pub size: u64,
}

/// The size that the first `n` of `sizes` give for a binding; the first that names the
/// binding counts.
pub open spec fn spec_shader_size(sizes: Seq<ShaderBindingSize>, n: int, group: u32, binding: u32) -> Option<
    u64,
>
    decreases n,
{
    if n <= 0 {
        None
    } else if spec_shader_size(sizes, n - 1, group, binding) is Some {
        spec_shader_size(sizes, n - 1, group, binding)
    } else if sizes[n - 1].group == group && sizes[n - 1].binding == binding {
        Some(sizes[n - 1].size)
    } else {
        None
    }
}

/// The size that the shaders ask at a binding, if they ask one.
pub fn shader_size(sizes: &Vec<ShaderBindingSize>, group: u32, binding: u32) -> (r: Option<u64>)
    ensures
        r == spec_shader_size(sizes@, sizes@.len() as int, group, binding),
{
    let mut i: usize = 0;
    while i < sizes.len()
        invariant
            i <= sizes@.len(),
            spec_shader_size(sizes@, i as int, group, binding) is None,
        decreases sizes@.len() - i,
    {
        if sizes[i].group == group && sizes[i].binding == binding {
            proof {
                lemma_shader_size_stays(sizes@, i as int + 1, sizes@.len() as int, group, binding);
            }
            return Some(sizes[i].size);
        }
        i += 1;
    }
    None
}

proof fn lemma_shader_size_stays(
    sizes: Seq<ShaderBindingSize>,
    from: int,
    to: int,
    group: u32,
    binding: u32,
)
    requires
        from <= to,
        spec_shader_size(sizes, from, group, binding) is Some,
    ensures
        spec_shader_size(sizes, to, group, binding) == spec_shader_size(
            sizes,
            from,
            group,
            binding,
        ),
    decreases to - from,
{
    if from < to {
        lemma_shader_size_stays(sizes, from, to - 1, group, binding);
    }
}

/// The sizes that the shaders of a pipeline ask of the buffers of one bind group whose
/// least size the layout leaves open, in the order of the layout.
#[derive(Debug, PartialEq, Eq)]
pub struct LateSizedBufferGroup {
    pub shader_sizes: Vec<u64>,
}

/// Whether the layout leaves the least size of the buffer at an entry to the shader.
pub open spec fn spec_is_late_sized(entry: BindGroupLayoutEntry) -> bool {
    entry.ty matches BindingType::Buffer { min_binding_size: None, .. }
}

/// For each of the first `n` entries of a bind group layout whose size is left to the
/// shader, the size that the shaders ask at its binding, or 0 if they ask none.
pub open spec fn spec_late_shader_sizes(
    sizes: Seq<ShaderBindingSize>,
    group: u32,
    entries: Seq<BindGroupLayoutEntry>,
    n: int,
) -> Seq<u64>
    decreases n,
{
    if n <= 0 {
        Seq::empty()
    } else if spec_is_late_sized(entries[n - 1]) {
        spec_late_shader_sizes(sizes, group, entries, n - 1).push(
            match spec_shader_size(sizes, sizes.len() as int, group, entries[n - 1].binding) {
                Some(size) => size,
                None => 0,
            },
        )
    } else {
        spec_late_shader_sizes(sizes, group, entries, n - 1)
    }
}

/// The late sizes of the first `n` bind groups of a pipeline layout; nothing if the
/// table lacks one of their layouts.
pub open spec fn spec_late_sized_buffer_groups(
    sizes: Seq<ShaderBindingSize>,
    ids: Seq<BindGroupLayoutId>,
    n: int,
    layouts: Seq<Element<LayoutKey>>,
) -> Option<Seq<Seq<u64>>>
    decreases n,
{
    if n <= 0 {
        Some(Seq::empty())
    } else {
        match (
            spec_late_sized_buffer_groups(sizes, ids, n - 1, layouts),
            spec_resource_at(layouts, ids[n - 1]),
        ) {
            (Some(groups), Some(layout)) => Some(
                groups.push(
                    spec_late_shader_sizes(
                        sizes,
                        spec_group_index(n - 1),
                        layout.entries,
                        layout.entries.len() as int,
                    ),
                ),
            ),
            _ => None,
        }
    }
}

/// The index of a bind group as a 32-bit number, held at the largest such number.
pub open spec fn spec_group_index(index: int) -> u32 {
    if index > u32::MAX {
        u32::MAX
    } else if index < 0 {
        0
    } else {
        index as u32
    }
}

/// What is known late of the buffers of a pipeline: for each bind group of its layout,
/// in order, the sizes that the shaders ask of the buffers whose least size the layout
/// leaves open. They are checked when the pipeline is used. Nothing comes back if the
/// table lacks one of the bind group layouts.
#[verifier::loop_isolation(false)]
pub fn make_late_sized_buffer_groups<RP, R>(
    shader_binding_sizes: &Vec<ShaderBindingSize>,
    layout: &PipelineLayout<RP>,
    bgl_guard: &Storage<BindGroupLayout<R>>,
) -> (r: Option<Vec<LateSizedBufferGroup>>)
    ensures
        match spec_late_sized_buffer_groups(
            shader_binding_sizes@,
            layout.bind_group_layout_ids@,
            layout.bind_group_layout_ids@.len() as int,
            spec_layout_keys(bgl_guard@),
        ) {
            None => r is None,
            Some(groups) => r matches Some(found) && found@.len() == groups.len() && forall|
                i: int,
            |
                0 <= i < groups.len() ==> found@[i].shader_sizes@ == groups[i],
        },
{
    let ids = &layout.bind_group_layout_ids;
    let mut groups: Vec<LateSizedBufferGroup> = Vec::new();
    let mut group_index: usize = 0;
    while group_index < ids.len()
        invariant
            group_index <= ids@.len(),
            spec_late_sized_buffer_groups(
                shader_binding_sizes@,
                ids@,
                group_index as int,
                spec_layout_keys(bgl_guard@),
            ) matches Some(found) && groups@.len() == found.len() && forall|i: int|
                0 <= i < found.len() ==> groups@[i].shader_sizes@ == found[i],
        decreases ids@.len() - group_index,
    {
        let group: u32 = if group_index > u32::MAX as usize {
            u32::MAX
        } else {
            group_index as u32
        };
        let bind_group_layout = match bgl_guard.get(ids[group_index]) {
            Some(bind_group_layout) => bind_group_layout,
            None => {
                proof {
                    assert(spec_late_sized_buffer_groups(
                        shader_binding_sizes@,
                        ids@,
                        group_index as int + 1,
                        spec_layout_keys(bgl_guard@),
                    ) is None);
                    lemma_late_groups_stay_none(
                        shader_binding_sizes@,
                        ids@,
                        group_index as int + 1,
                        ids@.len() as int,
                        spec_layout_keys(bgl_guard@),
                    );
                }
                return None;
            },
        };
        let entries = bind_group_layout.entries.entries();
        let mut shader_sizes: Vec<u64> = Vec::new();
        let mut i: usize = 0;
        while i < entries.len()
            invariant
                i <= entries@.len(),
                shader_sizes@ == spec_late_shader_sizes(
                    shader_binding_sizes@,
                    group,
                    entries@,
                    i as int,
                ),
            decreases entries@.len() - i,
        {
            let late = match entries[i].ty {
                BindingType::Buffer { min_binding_size: None, .. } => true,
                _ => false,
            };
            if late {
                let size = match shader_size(shader_binding_sizes, group, entries[i].binding) {
                    Some(size) => size,
                    None => 0,
                };
                shader_sizes.push(size);
            }
            i += 1;
        }
        groups.push(LateSizedBufferGroup { shader_sizes });
        group_index += 1;
    }
    Some(groups)
}

proof fn lemma_late_groups_stay_none(
    sizes: Seq<ShaderBindingSize>,
    ids: Seq<BindGroupLayoutId>,
    from: int,
    to: int,
    layouts: Seq<Element<LayoutKey>>,
)
    requires
        from <= to,
        spec_late_sized_buffer_groups(sizes, ids, from, layouts) is None,
    ensures
        spec_late_sized_buffer_groups(sizes, ids, to, layouts) is None,
    decreases to - from,
{
    if from < to {
        lemma_late_groups_stay_none(sizes, ids, from, to - 1, layouts);
    }
}

} // verus!
