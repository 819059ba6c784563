//! Bind group layouts: what each binding slot is declared to hold, and the rules a
//! layout is held to.

use crate::conv::bind_group_layout_flags;
use crate::device::{Device, DeviceError, MissingDownlevelFlags, MissingFeatures};
use crate::flags::{BindGroupLayoutFlags, DownlevelFlags, Features, ShaderStages};
use crate::format::{same_format, TextureSampleType};
use crate::limits::Limits;
use crate::storage::{DeviceId, ResourceInfo};
use crate::texture_view::TextureViewDimension;
use vstd::prelude::*;
use wgpu_types::TextureFormat;

verus! {

/// How a shader uses a buffer binding.
#[derive(Clone, Copy, Debug, PartialEq, Eq, Structural)]
pub enum BufferBindingType {
    Uniform,
    Storage { read_only: bool },
}

/// What kind of sampler a binding takes.
#[derive(Clone, Copy, Debug, PartialEq, Eq, Structural)]
pub enum SamplerBindingType {
    Filtering,
    NonFiltering,
    Comparison,
}

/// How a shader accesses a storage texture.
#[derive(Clone, Copy, Debug, PartialEq, Eq, Structural)]
pub enum StorageTextureAccess {
    WriteOnly,
    ReadOnly,
    ReadWrite,
}

/// What a binding slot is declared to hold.
#[derive(Clone, Copy, Debug, PartialEq)]
pub enum BindingType {
    Buffer {
        ty: BufferBindingType,
        has_dynamic_offset: bool,
        /// The least size of a buffer bound here, if the layout fixes one; not zero.
        min_binding_size: Option<u64>,
    },
    Sampler(SamplerBindingType),
    Texture { sample_type: TextureSampleType, view_dimension: TextureViewDimension, multisampled: bool },
    StorageTexture {
        access: StorageTextureAccess,
        format: TextureFormat,
        view_dimension: TextureViewDimension,
    },
}

/// The declaration of one binding slot.
#[derive(Clone, Copy, Debug, PartialEq)]
pub struct BindGroupLayoutEntry {
    pub binding: u32,
    /// The stages that see the binding.
    pub visibility: ShaderStages,
    pub ty: BindingType,
    /// For an array of bindings, its length; not zero.
    pub count: Option<u32>,
}

/// What is wrong with one entry of a bind group layout.
#[derive(Clone, Copy, Debug, PartialEq, Eq, Structural)]
pub enum BindGroupLayoutEntryError {
    StorageTextureCube,
    StorageTextureReadWrite,
    ArrayUnsupported,
    MissingFeatures(MissingFeatures),
    MissingDownlevelFlags(MissingDownlevelFlags),
}

/// Where a limit on the number of bindings applies.
#[derive(Clone, Copy, Debug, PartialEq, Eq, Structural)]
pub enum BindingZone {
    /// In each of these stages.
    Stage(ShaderStages),
    /// In the whole pipeline.
    Pipeline,
}

/// The kind of binding there are too many of.
#[derive(Clone, Copy, Debug, PartialEq, Eq, Structural)]
pub enum BindingTypeMaxCountErrorKind {
    DynamicUniformBuffers,
    DynamicStorageBuffers,
    SampledTextures,
    Samplers,
    StorageBuffers,
    StorageTextures,
    UniformBuffers,
}

/// Too many bindings of one kind.
#[derive(Clone, Copy, Debug, PartialEq, Eq, Structural)]
pub struct BindingTypeMaxCountError {
    pub kind: BindingTypeMaxCountErrorKind,
    pub zone: BindingZone,
    pub limit: u32,
    pub count: u32,
}

/// Why a request for a bind group layout was turned down.
#[derive(Clone, Copy, Debug, PartialEq, Eq, Structural)]
pub enum CreateBindGroupLayoutError {
    Device(DeviceError),
    Entry { binding: u32, error: BindGroupLayoutEntryError },
    TooManyBindings(BindingTypeMaxCountError),
    InvalidVisibility(ShaderStages),
}

/// The sum of two counts, held at the largest value a count can have.
pub open spec fn spec_count_add(a: u32, b: u32) -> u32 {
    if a + b > u32::MAX {
        u32::MAX
    } else {
        (a + b) as u32
    }
}

pub open spec fn spec_count_max(a: u32, b: u32) -> u32 {
    if a >= b {
        a
    } else {
        b
    }
}

/// How many bindings of one kind each shader stage sees.
#[derive(Clone, Copy, Debug, PartialEq, Eq, Structural)]
pub struct PerStageBindingTypeCounter {
    pub vertex: u32,
    pub fragment: u32,
    pub compute: u32,
}

impl PerStageBindingTypeCounter {
    pub open spec fn spec_add(self, stage: ShaderStages, count: u32) -> Self {
        PerStageBindingTypeCounter {
            vertex: if stage.contains(ShaderStages::VERTEX) {
                spec_count_add(self.vertex, count)
            } else {
                self.vertex
            },
            fragment: if stage.contains(ShaderStages::FRAGMENT) {
                spec_count_add(self.fragment, count)
            } else {
                self.fragment
            },
            compute: if stage.contains(ShaderStages::COMPUTE) {
                spec_count_add(self.compute, count)
            } else {
                self.compute
            },
        }
    }

    /// Counts `count` more bindings in each of the stages of `stage`.
    pub fn add(&mut self, stage: ShaderStages, count: u32)
        ensures
            *final(self) == old(self).spec_add(stage, count),
    {
        if stage.contains(ShaderStages::VERTEX) {
            self.vertex = self.vertex.saturating_add(count);
        }
        if stage.contains(ShaderStages::FRAGMENT) {
            self.fragment = self.fragment.saturating_add(count);
        }
        if stage.contains(ShaderStages::COMPUTE) {
            self.compute = self.compute.saturating_add(count);
        }
    }

    /// The largest of the three counts.
    pub open spec fn spec_max_value(self) -> u32 {
        spec_count_max(self.vertex, spec_count_max(self.fragment, self.compute))
    }

    /// The stages whose count is the largest.
    pub open spec fn spec_max_stages(self) -> ShaderStages {
        ShaderStages { bits: ShaderStages::NONE }.with_if(
            ShaderStages::VERTEX,
            self.vertex == self.spec_max_value(),
        ).with_if(ShaderStages::FRAGMENT, self.fragment == self.spec_max_value()).with_if(
            ShaderStages::COMPUTE,
            self.compute == self.spec_max_value(),
        )
    }

    /// The largest of the three counts, and the stages that reach it.
    pub fn max(&self) -> (r: (BindingZone, u32))
        ensures
            r == (BindingZone::Stage(self.spec_max_stages()), self.spec_max_value()),
    {
        let inner = if self.fragment >= self.compute {
            self.fragment
        } else {
            self.compute
        };
        let max_value = if self.vertex >= inner {
            self.vertex
        } else {
            inner
        };
        let stage = ShaderStages::from_bits(ShaderStages::NONE);
        let stage = stage.with_if(ShaderStages::VERTEX, max_value == self.vertex);
        let stage = stage.with_if(ShaderStages::FRAGMENT, max_value == self.fragment);
        let stage = stage.with_if(ShaderStages::COMPUTE, max_value == self.compute);
        (BindingZone::Stage(stage), max_value)
    }

    /// In each stage, the larger of the two counts.
    pub open spec fn spec_merge(self, other: Self) -> Self {
        PerStageBindingTypeCounter {
            vertex: spec_count_max(self.vertex, other.vertex),
            fragment: spec_count_max(self.fragment, other.fragment),
            compute: spec_count_max(self.compute, other.compute),
        }
    }

    /// Takes in the counts of another bind group of the same pipeline layout.
    pub fn merge(&mut self, other: &Self)
        ensures
            *final(self) == old(self).spec_merge(*other),
    {
        if other.vertex > self.vertex {
            self.vertex = other.vertex;
        }
        if other.fragment > self.fragment {
            self.fragment = other.fragment;
        }
        if other.compute > self.compute {
            self.compute = other.compute;
        }
    }

    pub open spec fn spec_validate(self, limit: u32, kind: BindingTypeMaxCountErrorKind) -> Result<
        (),
        BindingTypeMaxCountError,
    > {
        if limit < self.spec_max_value() {
            Err(
                BindingTypeMaxCountError {
                    kind,
                    zone: BindingZone::Stage(self.spec_max_stages()),
                    limit,
                    count: self.spec_max_value(),
                },
            )
        } else {
            Ok(())
        }
    }

    /// Fails if a stage sees more than `limit` bindings.
    pub fn validate(&self, limit: u32, kind: BindingTypeMaxCountErrorKind) -> (r: Result<
        (),
        BindingTypeMaxCountError,
    >)
        ensures
            r == self.spec_validate(limit, kind),
    {
        let (zone, count) = self.max();
        if limit < count {
            Err(BindingTypeMaxCountError { kind, zone, limit, count })
        } else {
            Ok(())
        }
    }
}

/// How many bindings of each kind a bind group layout, or a pipeline layout, declares. An
/// array counts with its length. A count that would pass the largest value a count can
/// have stays at that value.
#[derive(Clone, Copy, Debug, PartialEq, Eq, Structural)]
pub struct BindingTypeMaxCountValidator {
    pub dynamic_uniform_buffers: u32,
    pub dynamic_storage_buffers: u32,
    pub sampled_textures: PerStageBindingTypeCounter,
    pub samplers: PerStageBindingTypeCounter,
    pub storage_buffers: PerStageBindingTypeCounter,
    pub storage_textures: PerStageBindingTypeCounter,
    pub uniform_buffers: PerStageBindingTypeCounter,
}

impl BindingTypeMaxCountValidator {
    /// The validator that has counted nothing.
    pub open spec fn spec_default() -> Self {
        let none = PerStageBindingTypeCounter { vertex: 0, fragment: 0, compute: 0 };
        BindingTypeMaxCountValidator {
            dynamic_uniform_buffers: 0,
            dynamic_storage_buffers: 0,
            sampled_textures: none,
            samplers: none,
            storage_buffers: none,
            storage_textures: none,
            uniform_buffers: none,
        }
    }

    /// The validator that has counted nothing.
    pub fn new() -> (r: Self)
        ensures
            r == Self::spec_default(),
    {
        let none = PerStageBindingTypeCounter { vertex: 0, fragment: 0, compute: 0 };
        BindingTypeMaxCountValidator {
            dynamic_uniform_buffers: 0,
            dynamic_storage_buffers: 0,
            sampled_textures: none,
            samplers: none,
            storage_buffers: none,
            storage_textures: none,
            uniform_buffers: none,
        }
    }

    pub open spec fn spec_add_binding(self, binding: BindGroupLayoutEntry) -> Self {
        let count = match binding.count {
            Some(count) => count,
            None => 1,
        };
        match binding.ty {
            BindingType::Buffer {
                ty: BufferBindingType::Uniform,
                has_dynamic_offset,
                ..
            } => BindingTypeMaxCountValidator {
                uniform_buffers: self.uniform_buffers.spec_add(binding.visibility, count),
                dynamic_uniform_buffers: if has_dynamic_offset {
                    spec_count_add(self.dynamic_uniform_buffers, count)
                } else {
                    self.dynamic_uniform_buffers
                },
                ..self
            },
            BindingType::Buffer {
                ty: BufferBindingType::Storage { .. },
                has_dynamic_offset,
                ..
            } => BindingTypeMaxCountValidator {
                storage_buffers: self.storage_buffers.spec_add(binding.visibility, count),
                dynamic_storage_buffers: if has_dynamic_offset {
                    spec_count_add(self.dynamic_storage_buffers, count)
                } else {
                    self.dynamic_storage_buffers
                },
                ..self
            },
            BindingType::Sampler(_) => BindingTypeMaxCountValidator {
                samplers: self.samplers.spec_add(binding.visibility, count),
                ..self
            },
            BindingType::Texture { .. } => BindingTypeMaxCountValidator {
                sampled_textures: self.sampled_textures.spec_add(binding.visibility, count),
                ..self
            },
            BindingType::StorageTexture { .. } => BindingTypeMaxCountValidator {
                storage_textures: self.storage_textures.spec_add(binding.visibility, count),
                ..self
            },
        }
    }

    /// Counts one more binding, in the stages that see it.
    pub fn add_binding(&mut self, binding: &BindGroupLayoutEntry)
        ensures
            *final(self) == old(self).spec_add_binding(*binding),
    {
        let count = match binding.count {
            Some(count) => count,
            None => 1,
        };
        match binding.ty {
            BindingType::Buffer { ty: BufferBindingType::Uniform, has_dynamic_offset, .. } => {
                self.uniform_buffers.add(binding.visibility, count);
                if has_dynamic_offset {
                    self.dynamic_uniform_buffers = self.dynamic_uniform_buffers.saturating_add(
                        count,
                    );
                }
            },
            BindingType::Buffer { ty: BufferBindingType::Storage { .. }, has_dynamic_offset, .. } => {
                self.storage_buffers.add(binding.visibility, count);
                if has_dynamic_offset {
                    self.dynamic_storage_buffers = self.dynamic_storage_buffers.saturating_add(
                        count,
                    );
                }
            },
            BindingType::Sampler(_) => {
                self.samplers.add(binding.visibility, count);
            },
            BindingType::Texture { .. } => {
                self.sampled_textures.add(binding.visibility, count);
            },
            BindingType::StorageTexture { .. } => {
                self.storage_textures.add(binding.visibility, count);
            },
        }
    }

    /// Dynamic buffers add up over the bind groups of a pipeline layout; of every other
    /// kind, each stage sees the most that one bind group shows it.
    pub open spec fn spec_merge(self, other: Self) -> Self {
        BindingTypeMaxCountValidator {
            dynamic_uniform_buffers: spec_count_add(
                self.dynamic_uniform_buffers,
                other.dynamic_uniform_buffers,
            ),
            dynamic_storage_buffers: spec_count_add(
                self.dynamic_storage_buffers,
                other.dynamic_storage_buffers,
            ),
            sampled_textures: self.sampled_textures.spec_merge(other.sampled_textures),
            samplers: self.samplers.spec_merge(other.samplers),
            storage_buffers: self.storage_buffers.spec_merge(other.storage_buffers),
            storage_textures: self.storage_textures.spec_merge(other.storage_textures),
            uniform_buffers: self.uniform_buffers.spec_merge(other.uniform_buffers),
        }
    }

    /// Takes in the counts of another bind group layout of the same pipeline layout.
    pub fn merge(&mut self, other: &Self)
        ensures
            *final(self) == old(self).spec_merge(*other),
    {
        self.dynamic_uniform_buffers = self.dynamic_uniform_buffers.saturating_add(
            other.dynamic_uniform_buffers,
        );
        self.dynamic_storage_buffers = self.dynamic_storage_buffers.saturating_add(
            other.dynamic_storage_buffers,
        );
        self.sampled_textures.merge(&other.sampled_textures);
        self.samplers.merge(&other.samplers);
        self.storage_buffers.merge(&other.storage_buffers);
        self.storage_textures.merge(&other.storage_textures);
        self.uniform_buffers.merge(&other.uniform_buffers);
    }

    /// The limits are tried in this order: dynamic uniform buffers, dynamic storage
    /// buffers, sampled textures, storage buffers, samplers, storage textures, uniform
    /// buffers.
    pub open spec fn spec_validate(self, limits: &Limits) -> Result<(), BindingTypeMaxCountError> {
        if limits.max_dynamic_uniform_buffers_per_pipeline_layout < self.dynamic_uniform_buffers {
            Err(
                BindingTypeMaxCountError {
                    kind: BindingTypeMaxCountErrorKind::DynamicUniformBuffers,
                    zone: BindingZone::Pipeline,
                    limit: limits.max_dynamic_uniform_buffers_per_pipeline_layout,
                    count: self.dynamic_uniform_buffers,
                },
            )
        } else if limits.max_dynamic_storage_buffers_per_pipeline_layout
            < self.dynamic_storage_buffers {
            Err(
                BindingTypeMaxCountError {
                    kind: BindingTypeMaxCountErrorKind::DynamicStorageBuffers,
                    zone: BindingZone::Pipeline,
                    limit: limits.max_dynamic_storage_buffers_per_pipeline_layout,
                    count: self.dynamic_storage_buffers,
                },
            )
        } else if self.sampled_textures.spec_validate(
            limits.max_sampled_textures_per_shader_stage,
            BindingTypeMaxCountErrorKind::SampledTextures,
        ) is Err {
            self.sampled_textures.spec_validate(
                limits.max_sampled_textures_per_shader_stage,
                BindingTypeMaxCountErrorKind::SampledTextures,
            )
        } else if self.storage_buffers.spec_validate(
            limits.max_storage_buffers_per_shader_stage,
            BindingTypeMaxCountErrorKind::StorageBuffers,
        ) is Err {
            self.storage_buffers.spec_validate(
                limits.max_storage_buffers_per_shader_stage,
                BindingTypeMaxCountErrorKind::StorageBuffers,
            )
        } else if self.samplers.spec_validate(
            limits.max_samplers_per_shader_stage,
            BindingTypeMaxCountErrorKind::Samplers,
        ) is Err {
            self.samplers.spec_validate(
                limits.max_samplers_per_shader_stage,
                BindingTypeMaxCountErrorKind::Samplers,
            )
        } else if self.storage_textures.spec_validate(
            limits.max_storage_textures_per_shader_stage,
            BindingTypeMaxCountErrorKind::StorageTextures,
        ) is Err {
            self.storage_textures.spec_validate(
                limits.max_storage_textures_per_shader_stage,
                BindingTypeMaxCountErrorKind::StorageTextures,
            )
        } else {
            self.uniform_buffers.spec_validate(
                limits.max_uniform_buffers_per_shader_stage,
                BindingTypeMaxCountErrorKind::UniformBuffers,
            )
        }
    }

    /// Holds the counts to the limits of the device.
    pub fn validate(&self, limits: &Limits) -> (r: Result<(), BindingTypeMaxCountError>)
        ensures
            r == self.spec_validate(limits),
    {
        if limits.max_dynamic_uniform_buffers_per_pipeline_layout < self.dynamic_uniform_buffers {
            return Err(
                BindingTypeMaxCountError {
                    kind: BindingTypeMaxCountErrorKind::DynamicUniformBuffers,
                    zone: BindingZone::Pipeline,
                    limit: limits.max_dynamic_uniform_buffers_per_pipeline_layout,
                    count: self.dynamic_uniform_buffers,
                },
            );
        }
        if limits.max_dynamic_storage_buffers_per_pipeline_layout < self.dynamic_storage_buffers {
            return Err(
                BindingTypeMaxCountError {
                    kind: BindingTypeMaxCountErrorKind::DynamicStorageBuffers,
                    zone: BindingZone::Pipeline,
                    limit: limits.max_dynamic_storage_buffers_per_pipeline_layout,
                    count: self.dynamic_storage_buffers,
                },
            );
        }
        self.sampled_textures.validate(
            limits.max_sampled_textures_per_shader_stage,
            BindingTypeMaxCountErrorKind::SampledTextures,
        )?;
        self.storage_buffers.validate(
            limits.max_storage_buffers_per_shader_stage,
            BindingTypeMaxCountErrorKind::StorageBuffers,
        )?;
        self.samplers.validate(
            limits.max_samplers_per_shader_stage,
            BindingTypeMaxCountErrorKind::Samplers,
        )?;
        self.storage_textures.validate(
            limits.max_storage_textures_per_shader_stage,
            BindingTypeMaxCountErrorKind::StorageTextures,
        )?;
        self.uniform_buffers.validate(
            limits.max_uniform_buffers_per_shader_stage,
            BindingTypeMaxCountErrorKind::UniformBuffers,
        )?;
        Ok(())
    }
}

/// Whether the bindings of `entries` go strictly up.
pub open spec fn spec_sorted_by_binding(entries: Seq<BindGroupLayoutEntry>) -> bool {
    forall|i: int, j: int| 0 <= i < j < entries.len() ==> entries[i].binding < entries[j].binding
}

/// The entry of `entries` at `binding`, if there is one.
pub open spec fn spec_entry_at(entries: Seq<BindGroupLayoutEntry>, binding: u32) -> Option<
    BindGroupLayoutEntry,
> {
    if exists|i: int| 0 <= i < entries.len() && entries[i].binding == binding {
        Some(entries[choose|i: int| 0 <= i < entries.len() && entries[i].binding == binding])
    } else {
        None
    }
}

/// The number of entries of `entries` whose binding is below `binding`: where an entry
/// at `binding` stands in sorted `entries`, or would stand.
pub open spec fn spec_position(entries: Seq<BindGroupLayoutEntry>, binding: u32) -> int
    decreases entries.len(),
{
    if entries.len() == 0 {
        0
    } else if entries.last().binding < binding {
        entries.len() as int
    } else {
        spec_position(entries.drop_last(), binding)
    }
}

/// `entries` with `entry` put at its binding, in place of the entry that was there if
/// there was one.
pub open spec fn spec_with_entry(
    entries: Seq<BindGroupLayoutEntry>,
    entry: BindGroupLayoutEntry,
) -> Seq<BindGroupLayoutEntry> {
    let at = spec_position(entries, entry.binding);
    if at < entries.len() && entries[at].binding == entry.binding {
        entries.update(at, entry)
    } else {
        entries.insert(at, entry)
    }
}

/// In sorted entries, the entries before the position of a binding are below it and
/// those from the position on are not.
pub proof fn lemma_position(entries: Seq<BindGroupLayoutEntry>, binding: u32)
    requires
        spec_sorted_by_binding(entries),
    ensures
        0 <= spec_position(entries, binding) <= entries.len(),
        forall|j: int|
            0 <= j < spec_position(entries, binding) ==> (#[trigger] entries[j]).binding < binding,
        forall|j: int|
            spec_position(entries, binding) <= j < entries.len() ==> (#[trigger] entries[j]).binding
                >= binding,
    decreases entries.len(),
{
    if entries.len() != 0 && entries.last().binding >= binding {
        lemma_position(entries.drop_last(), binding);
        assert forall|j: int| spec_position(entries, binding) <= j < entries.len() implies (
        #[trigger] entries[j]).binding >= binding by {
            if j < entries.len() - 1 {
                assert(entries.drop_last()[j] == entries[j]);
            }
        }
        assert forall|j: int| 0 <= j < spec_position(entries, binding) implies (
        #[trigger] entries[j]).binding < binding by {
            assert(entries.drop_last()[j] == entries[j]);
        }
    }
}

/// Putting an entry into sorted entries leaves them sorted.
pub proof fn lemma_with_entry_sorted(entries: Seq<BindGroupLayoutEntry>, entry: BindGroupLayoutEntry)
    requires
        spec_sorted_by_binding(entries),
    ensures
        spec_sorted_by_binding(spec_with_entry(entries, entry)),
        spec_with_entry(entries, entry)[spec_position(entries, entry.binding)] == entry,
        0 <= spec_position(entries, entry.binding) < spec_with_entry(entries, entry).len(),
{
    lemma_position(entries, entry.binding);
    let at = spec_position(entries, entry.binding);
    let after = spec_with_entry(entries, entry);
    let replaced = at < entries.len() && entries[at].binding == entry.binding;
    assert forall|i: int, j: int| 0 <= i < j < after.len() implies after[i].binding
        < after[j].binding by {
        if replaced {
            assert(after[i].binding == entries[i].binding);
            assert(after[j].binding == entries[j].binding);
        } else {
            if j < at {
                assert(after[i] == entries[i] && after[j] == entries[j]);
            } else if j == at {
                assert(after[i] == entries[i]);
            } else if i < at {
                assert(after[i] == entries[i] && after[j] == entries[j - 1]);
            } else if i == at {
                assert(after[j] == entries[j - 1]);
            } else {
                assert(after[i] == entries[i - 1] && after[j] == entries[j - 1]);
            }
        }
    }
}

/// Putting an entry into sorted entries changes nothing at any other binding.
pub proof fn lemma_with_entry_elsewhere(
    entries: Seq<BindGroupLayoutEntry>,
    entry: BindGroupLayoutEntry,
    binding: u32,
)
    requires
        spec_sorted_by_binding(entries),
        binding != entry.binding,
    ensures
        spec_entry_at(spec_with_entry(entries, entry), binding) == spec_entry_at(entries, binding),
{
    lemma_position(entries, entry.binding);
    lemma_with_entry_sorted(entries, entry);
    let at = spec_position(entries, entry.binding);
    let after = spec_with_entry(entries, entry);
    let replaced = at < entries.len() && entries[at].binding == entry.binding;
    if exists|i: int| 0 <= i < entries.len() && entries[i].binding == binding {
        let i = choose|i: int| 0 <= i < entries.len() && entries[i].binding == binding;
        let k = if replaced || i < at {
            i
        } else {
            i + 1
        };
        assert(after[k] == entries[i]);
        lemma_entry_at(after, k);
        lemma_entry_at(entries, i);
    } else {
        if exists|k: int| 0 <= k < after.len() && after[k].binding == binding {
            let k = choose|k: int| 0 <= k < after.len() && after[k].binding == binding;
            let i = if replaced || k < at {
                k
            } else {
                k - 1
            };
            assert(entries[i] == after[k]);
            assert(false);
        }
    }
}

/// Putting an entry into sorted entries leaves them sorted, with the new entry at its
/// binding and every other binding as it was.
pub proof fn lemma_with_entry(entries: Seq<BindGroupLayoutEntry>, entry: BindGroupLayoutEntry)
    requires
        spec_sorted_by_binding(entries),
    ensures
        spec_sorted_by_binding(spec_with_entry(entries, entry)),
        spec_entry_at(spec_with_entry(entries, entry), entry.binding) == Some(entry),
        forall|binding: u32|
            binding != entry.binding ==> spec_entry_at(spec_with_entry(entries, entry), binding)
                == spec_entry_at(entries, binding),
{
    lemma_with_entry_sorted(entries, entry);
    lemma_entry_at(spec_with_entry(entries, entry), spec_position(entries, entry.binding));
    assert forall|binding: u32| binding != entry.binding implies spec_entry_at(
        spec_with_entry(entries, entry),
        binding,
    ) == spec_entry_at(entries, binding) by {
        lemma_with_entry_elsewhere(entries, entry, binding);
    }
}

/// In sorted entries, the entry at the binding of the `i`-th entry is the `i`-th entry.
pub proof fn lemma_entry_at(entries: Seq<BindGroupLayoutEntry>, i: int)
    requires
        spec_sorted_by_binding(entries),
        0 <= i < entries.len(),
    ensures
        spec_entry_at(entries, entries[i].binding) == Some(entries[i]),
{
    let binding = entries[i].binding;
    let k = choose|k: int| 0 <= k < entries.len() && entries[k].binding == binding;
    if k < i {
        assert(entries[k].binding < entries[i].binding);
    } else if i < k {
        assert(entries[i].binding < entries[k].binding);
    }
}

/// The entries of a bind group layout, one for each binding declared, in the order of
/// their bindings.
#[derive(Debug, PartialEq)]
pub struct BindEntryMap {
    entries: Vec<BindGroupLayoutEntry>,
}

impl View for BindEntryMap {
    type V = Seq<BindGroupLayoutEntry>;

    closed spec fn view(&self) -> Seq<BindGroupLayoutEntry> {
        self.entries@
    }
}

impl BindEntryMap {
    #[verifier::type_invariant]
    spec fn sorted(&self) -> bool {
        spec_sorted_by_binding(self.entries@)
    }

    /// The map with no entry.
    pub fn new() -> (r: Self)
        ensures
            r@ == Seq::<BindGroupLayoutEntry>::empty(),
    {
        BindEntryMap { entries: Vec::new() }
    }

    /// The entries, in the order of their bindings, which go strictly up.
    pub fn entries(&self) -> (r: &Vec<BindGroupLayoutEntry>)
        ensures
            r@ == self@,
            spec_sorted_by_binding(self@),
    {
        proof {
            use_type_invariant(self);
        }
        &self.entries
    }

    /// The number of entries.
    pub fn len(&self) -> (r: usize)
        ensures
            r == self@.len(),
    {
        self.entries.len()
    }

    /// Whether there is no entry.
    pub fn is_empty(&self) -> (r: bool)
        ensures
            r == (self@.len() == 0),
    {
        self.entries.len() == 0
    }

    /// The entry at `binding`, if there is one.
    pub fn get(&self, binding: u32) -> (r: Option<&BindGroupLayoutEntry>)
        ensures
            r == match spec_entry_at(self@, binding) {
                Some(entry) => Some(&entry),
                None => None,
            },
    {
        proof {
            use_type_invariant(self);
        }
        let mut i: usize = 0;
        while i < self.entries.len()
            invariant
                i <= self.entries@.len(),
                spec_sorted_by_binding(self.entries@),
                forall|j: int| 0 <= j < i ==> self.entries@[j].binding != binding,
            decreases self.entries@.len() - i,
        {
            if self.entries[i].binding == binding {
                proof {
                    lemma_entry_at(self.entries@, i as int);
                }
                return Some(&self.entries[i]);
            }
            i += 1;
        }
        None
    }

    /// Puts `entry` at its binding, and hands back the entry that was there, if there
    /// was one.
    pub fn insert(&mut self, entry: BindGroupLayoutEntry) -> (r: Option<BindGroupLayoutEntry>)
        ensures
            final(self)@ == spec_with_entry(old(self)@, entry),
            r == spec_entry_at(old(self)@, entry.binding),
    {
        proof {
            use_type_invariant(&*self);
            lemma_position(self.entries@, entry.binding);
            lemma_with_entry(self.entries@, entry);
        }
        let ghost before = self.entries@;
        let mut i: usize = 0;
        while i < self.entries.len() && self.entries[i].binding < entry.binding
            invariant
                i <= self.entries@.len(),
                self.entries@ == before,
                spec_sorted_by_binding(before),
                forall|j: int| 0 <= j < i ==> before[j].binding < entry.binding,
            decreases self.entries@.len() - i,
        {
            i += 1;
        }
        proof {
            let at = spec_position(before, entry.binding);
            if i < at {
                assert(before[i as int].binding < entry.binding);
            } else if at < i {
                assert(before[at].binding >= entry.binding);
            }
            assert(i == at);
        }
        let replaced = i < self.entries.len() && self.entries[i].binding == entry.binding;
        let found = if replaced {
            proof {
                lemma_entry_at(before, i as int);
            }
            Some(self.entries[i])
        } else {
            proof {
                if exists|k: int| 0 <= k < before.len() && before[k].binding == entry.binding {
                    let k = choose|k: int| 0 <= k < before.len() && before[k].binding
                        == entry.binding;
                    if k < i {
                        assert(before[k].binding < entry.binding);
                    } else if k > i {
                        assert(before[i as int].binding < before[k].binding);
                    }
                }
            }
            None
        };
        let rest: usize = if replaced {
            i + 1
        } else {
            i
        };
        let mut entries: Vec<BindGroupLayoutEntry> = Vec::new();
        let mut j: usize = 0;
        while j < i
            invariant
                j <= i <= before.len(),
                self.entries@ == before,
                entries@ == before.take(j as int),
            decreases i - j,
        {
            entries.push(self.entries[j]);
            j += 1;
            assert(entries@ =~= before.take(j as int));
        }
        entries.push(entry);
        let mut j: usize = rest;
        while j < self.entries.len()
            invariant
                rest <= j <= before.len(),
                self.entries@ == before,
                entries@ == before.take(i as int).push(entry) + before.subrange(
                    rest as int,
                    j as int,
                ),
            decreases before.len() - j,
        {
            entries.push(self.entries[j]);
            j += 1;
            assert(entries@ =~= before.take(i as int).push(entry) + before.subrange(
                rest as int,
                j as int,
            ));
        }
        assert(entries@ =~= spec_with_entry(before, entry));
        *self = BindEntryMap { entries };
        found
    }
}

/// Whether two binding types are the same.
pub fn same_binding_type(a: &BindingType, b: &BindingType) -> (r: bool)
    ensures
        r == (*a == *b),
{
    match (*a, *b) {
        (
            BindingType::Buffer { ty, has_dynamic_offset, min_binding_size },
            BindingType::Buffer {
                ty: other_ty,
                has_dynamic_offset: other_dynamic,
                min_binding_size: other_size,
            },
        ) => {
            let same_size = match (min_binding_size, other_size) {
                (Some(size), Some(other)) => size == other,
                (None, None) => true,
                _ => false,
            };
            ty == other_ty && has_dynamic_offset == other_dynamic && same_size
        },
        (BindingType::Sampler(ty), BindingType::Sampler(other_ty)) => ty == other_ty,
        (
            BindingType::Texture { sample_type, view_dimension, multisampled },
            BindingType::Texture {
                sample_type: other_sample_type,
                view_dimension: other_dimension,
                multisampled: other_multisampled,
            },
        ) => sample_type == other_sample_type && view_dimension == other_dimension && multisampled
            == other_multisampled,
        (
            BindingType::StorageTexture { access, format, view_dimension },
            BindingType::StorageTexture {
                access: other_access,
                format: other_format,
                view_dimension: other_dimension,
            },
        ) => access == other_access && same_format(&format, &other_format) && view_dimension
            == other_dimension,
        _ => false,
    }
}

/// Whether two entries are the same.
pub fn same_entry(a: &BindGroupLayoutEntry, b: &BindGroupLayoutEntry) -> (r: bool)
    ensures
        r == (*a == *b),
{
    let same_count = match (a.count, b.count) {
        (Some(count), Some(other)) => count == other,
        (None, None) => true,
        _ => false,
    };
    a.binding == b.binding && a.visibility == b.visibility && same_binding_type(&a.ty, &b.ty)
        && same_count
}

impl BindEntryMap {
    /// Another map with the same entries.
    pub fn duplicate(&self) -> (r: BindEntryMap)
        ensures
            r@ == self@,
    {
        proof {
            use_type_invariant(self);
        }
        let mut entries: Vec<BindGroupLayoutEntry> = Vec::new();
        let mut i: usize = 0;
        while i < self.entries.len()
            invariant
                i <= self.entries@.len(),
                entries@ == self.entries@.take(i as int),
            decreases self.entries@.len() - i,
        {
            entries.push(self.entries[i]);
            i += 1;
            assert(entries@ =~= self.entries@.take(i as int));
        }
        assert(self.entries@.take(i as int) =~= self.entries@);
        BindEntryMap { entries }
    }

    /// Whether two maps hold the same entries.
    pub fn same_entries(&self, other: &BindEntryMap) -> (r: bool)
        ensures
            r == (self@ == other@),
    {
        if self.entries.len() != other.entries.len() {
            return false;
        }
        let mut i: usize = 0;
        while i < self.entries.len()
            invariant
                i <= self.entries@.len(),
                self.entries@.len() == other.entries@.len(),
                forall|j: int| 0 <= j < i ==> self.entries@[j] == other.entries@[j],
            decreases self.entries@.len() - i,
        {
            if !same_entry(&self.entries[i], &other.entries[i]) {
                return false;
            }
            i += 1;
        }
        assert(self.entries@ =~= other.entries@);
        true
    }
}

/// What comes of a request for a bind group layout that passed. The hardware is given
/// the entries of the request in the order of their bindings.
#[derive(Clone, Copy, Debug, PartialEq, Eq, Structural)]
pub struct BindGroupLayoutPlan {
    pub flags: BindGroupLayoutFlags,
    /// How many bindings of each kind the layout declares.
    pub count_validator: BindingTypeMaxCountValidator,
}

impl BindingType {
    /// The features by which a binding of this type can be an array.
    pub open spec fn spec_array_feature(self) -> u64 {
        match self {
            BindingType::Buffer { ty: BufferBindingType::Uniform, .. } => Features::BUFFER_BINDING_ARRAY,
            BindingType::Buffer { ty: BufferBindingType::Storage { .. }, .. } => Features::BUFFER_BINDING_ARRAY
                | Features::STORAGE_RESOURCE_BINDING_ARRAY,
            BindingType::Sampler(_) => Features::TEXTURE_BINDING_ARRAY,
            BindingType::Texture { .. } => Features::TEXTURE_BINDING_ARRAY,
            BindingType::StorageTexture { .. } => Features::TEXTURE_BINDING_ARRAY
                | Features::STORAGE_RESOURCE_BINDING_ARRAY,
        }
    }

    /// Whether a shader can write through a binding of this type: a storage buffer that
    /// is not read-only, or a storage texture that is not read-only.
    pub open spec fn spec_is_writable_storage(self) -> bool {
        match self {
            BindingType::Buffer { ty: BufferBindingType::Storage { read_only }, .. } => !read_only,
            BindingType::StorageTexture { access, .. } => access != StorageTextureAccess::ReadOnly,
            _ => false,
        }
    }

    /// Whether this is a storage texture that a shader reads.
    pub open spec fn spec_is_readable_storage_texture(self) -> bool {
        match self {
            BindingType::StorageTexture { access, .. } => access != StorageTextureAccess::WriteOnly,
            _ => false,
        }
    }

    /// Whether this is a storage texture seen as a cube or an array of cubes.
    pub open spec fn spec_is_cube_storage_texture(self) -> bool {
        match self {
            BindingType::StorageTexture { view_dimension, .. } => view_dimension
                == TextureViewDimension::Cube || view_dimension == TextureViewDimension::CubeArray,
            _ => false,
        }
    }

    /// Whether this is a storage buffer, read-only or not.
    pub open spec fn spec_is_storage_buffer(self) -> bool {
        self matches BindingType::Buffer { ty: BufferBindingType::Storage { .. }, .. }
    }
}

impl BindGroupLayoutEntry {
    /// The features an entry needs: the adapter-specific format features for a storage
    /// texture that is read, the array feature of its type for an array, and writable
    /// storage in the vertex stage where that stage sees a writable binding.
    pub open spec fn spec_required_features(self) -> Features {
        Features { bits: 0 }.with(
            if self.ty.spec_is_readable_storage_texture() {
                Features::TEXTURE_ADAPTER_SPECIFIC_FORMAT_FEATURES
            } else {
                0
            },
        ).with(
            if self.count is Some {
                self.ty.spec_array_feature()
            } else {
                0
            },
        ).with(
            if self.visibility.contains(ShaderStages::VERTEX) && self.ty.spec_is_writable_storage() {
                Features::VERTEX_WRITABLE_STORAGE
            } else {
                0
            },
        )
    }

    /// The downlevel flags an entry needs: storage in the vertex stage where that stage
    /// sees a storage buffer, and writable storage in the fragment stage where that
    /// stage sees a writable binding.
    pub open spec fn spec_required_downlevel_flags(self) -> DownlevelFlags {
        DownlevelFlags { bits: 0 }.with(
            if self.visibility.contains(ShaderStages::VERTEX) && self.ty.spec_is_storage_buffer() {
                DownlevelFlags::VERTEX_STORAGE
            } else {
                0
            },
        ).with(
            if self.ty.spec_is_writable_storage() && self.visibility.contains(
                ShaderStages::FRAGMENT,
            ) {
                DownlevelFlags::FRAGMENT_WRITABLE_STORAGE
            } else {
                0
            },
        )
    }
}

impl Device {
    /// The rules one entry of a bind group layout is held to, in the order in which
    /// they are tried.
    pub open spec fn spec_check_layout_entry(&self, entry: BindGroupLayoutEntry) -> Result<
        (),
        CreateBindGroupLayoutError,
    > {
        if entry.ty.spec_is_cube_storage_texture() {
            Err(
                CreateBindGroupLayoutError::Entry {
                    binding: entry.binding,
                    error: BindGroupLayoutEntryError::StorageTextureCube,
                },
            )
        } else if entry.ty.spec_is_readable_storage_texture() && !self.features.contains(
            Features::TEXTURE_ADAPTER_SPECIFIC_FORMAT_FEATURES,
        ) {
            Err(
                CreateBindGroupLayoutError::Entry {
                    binding: entry.binding,
                    error: BindGroupLayoutEntryError::StorageTextureReadWrite,
                },
            )
        } else if entry.visibility.contains_invalid_bits() {
            Err(CreateBindGroupLayoutError::InvalidVisibility(entry.visibility))
        } else if !self.features.contains(entry.spec_required_features().bits) {
            Err(
                CreateBindGroupLayoutError::Entry {
                    binding: entry.binding,
                    error: BindGroupLayoutEntryError::MissingFeatures(
                        MissingFeatures(entry.spec_required_features()),
                    ),
                },
            )
        } else if !self.downlevel.flags.contains(entry.spec_required_downlevel_flags().bits) {
            Err(
                CreateBindGroupLayoutError::Entry {
                    binding: entry.binding,
                    error: BindGroupLayoutEntryError::MissingDownlevelFlags(
                        MissingDownlevelFlags(entry.spec_required_downlevel_flags()),
                    ),
                },
            )
        } else {
            Ok(())
        }
    }

    /// Holds one entry of a bind group layout to the rules.
    pub fn check_layout_entry(&self, entry: &BindGroupLayoutEntry) -> (r: Result<
        (),
        CreateBindGroupLayoutError,
    >)
        ensures
            r == self.spec_check_layout_entry(*entry),
    {
        let mut required_features = Features::empty();
        let mut required_downlevel_flags = DownlevelFlags::empty();
        let (array_feature, writable_storage): (u64, bool) = match entry.ty {
            BindingType::Buffer { ty: BufferBindingType::Uniform, .. } => (
                Features::BUFFER_BINDING_ARRAY,
                false,
            ),
            BindingType::Buffer { ty: BufferBindingType::Storage { read_only }, .. } => (
                Features::BUFFER_BINDING_ARRAY | Features::STORAGE_RESOURCE_BINDING_ARRAY,
                !read_only,
            ),
            BindingType::Sampler(_) => (Features::TEXTURE_BINDING_ARRAY, false),
            BindingType::Texture { .. } => (Features::TEXTURE_BINDING_ARRAY, false),
            BindingType::StorageTexture { access, view_dimension, .. } => {
                match view_dimension {
                    TextureViewDimension::Cube | TextureViewDimension::CubeArray => {
                        return Err(
                            CreateBindGroupLayoutError::Entry {
                                binding: entry.binding,
                                error: BindGroupLayoutEntryError::StorageTextureCube,
                            },
                        );
                    },
                    _ => {},
                }
                let writable = match access {
                    StorageTextureAccess::WriteOnly => true,
                    StorageTextureAccess::ReadOnly | StorageTextureAccess::ReadWrite => {
                        if !self.features.contains(
                            Features::TEXTURE_ADAPTER_SPECIFIC_FORMAT_FEATURES,
                        ) {
                            return Err(
                                CreateBindGroupLayoutError::Entry {
                                    binding: entry.binding,
                                    error: BindGroupLayoutEntryError::StorageTextureReadWrite,
                                },
                            );
                        }
                        required_features = required_features.with(
                            Features::TEXTURE_ADAPTER_SPECIFIC_FORMAT_FEATURES,
                        );
                        access != StorageTextureAccess::ReadOnly
                    },
                };
                (
                    Features::TEXTURE_BINDING_ARRAY | Features::STORAGE_RESOURCE_BINDING_ARRAY,
                    writable,
                )
            },
        };
        assert(required_features == Features { bits: 0 }.with(
            if entry.ty.spec_is_readable_storage_texture() {
                Features::TEXTURE_ADAPTER_SPECIFIC_FORMAT_FEATURES
            } else {
                0
            },
        )) by {
            assert(0u64 | 0u64 == 0u64) by (bit_vector);
        }
        required_features = required_features.with(
            if entry.count.is_some() {
                array_feature
            } else {
                0
            },
        );
        if entry.visibility.contains_invalid_bits() {
            return Err(CreateBindGroupLayoutError::InvalidVisibility(entry.visibility));
        }
        let is_storage_buffer = match entry.ty {
            BindingType::Buffer { ty: BufferBindingType::Storage { .. }, .. } => true,
            _ => false,
        };
        let vertex = entry.visibility.contains(ShaderStages::VERTEX);
        required_features = required_features.with(
            if vertex && writable_storage {
                Features::VERTEX_WRITABLE_STORAGE
            } else {
                0
            },
        );
        required_downlevel_flags = required_downlevel_flags.with(
            if vertex && is_storage_buffer {
                DownlevelFlags::VERTEX_STORAGE
            } else {
                0
            },
        );
        required_downlevel_flags = required_downlevel_flags.with(
            if writable_storage && entry.visibility.contains(ShaderStages::FRAGMENT) {
                DownlevelFlags::FRAGMENT_WRITABLE_STORAGE
            } else {
                0
            },
        );
        match self.require_features(required_features.bits) {
            Ok(()) => {},
            Err(missing) => {
                return Err(
                    CreateBindGroupLayoutError::Entry {
                        binding: entry.binding,
                        error: BindGroupLayoutEntryError::MissingFeatures(missing),
                    },
                );
            },
        }
        match self.require_downlevel_flags(required_downlevel_flags.bits) {
            Ok(()) => {},
            Err(missing) => {
                return Err(
                    CreateBindGroupLayoutError::Entry {
                        binding: entry.binding,
                        error: BindGroupLayoutEntryError::MissingDownlevelFlags(missing),
                    },
                );
            },
        }
        Ok(())
    }

    /// What comes of the first `n` entries of a layout: the first failure among them,
    /// in the order of their bindings, if there is one.
    pub open spec fn spec_check_layout_entries(
        &self,
        entries: Seq<BindGroupLayoutEntry>,
        n: int,
    ) -> Result<(), CreateBindGroupLayoutError>
        decreases n,
    {
        if n <= 0 {
            Ok(())
        } else if self.spec_check_layout_entries(entries, n - 1) is Err {
            self.spec_check_layout_entries(entries, n - 1)
        } else {
            self.spec_check_layout_entry(entries[n - 1])
        }
    }

    /// The rules a request for a bind group layout is held to, and what is asked of the
    /// hardware when it passes them all: each entry is held to the rules on entries, in
    /// the order of the bindings, and then the bindings are counted and the counts held
    /// to the limits of the device.
    pub open spec fn spec_create_bind_group_layout(&self, entries: Seq<BindGroupLayoutEntry>) -> Result<
        BindGroupLayoutPlan,
        CreateBindGroupLayoutError,
    > {
        match self.spec_check_layout_entries(entries, entries.len() as int) {
            Err(e) => Err(e),
            Ok(()) => match spec_count_bindings(entries, entries.len() as int).spec_validate(
                &self.limits,
            ) {
                Err(e) => Err(CreateBindGroupLayoutError::TooManyBindings(e)),
                Ok(()) => Ok(
                    BindGroupLayoutPlan {
                        flags: bind_group_layout_flags(self.features),
                        count_validator: spec_count_bindings(entries, entries.len() as int),
                    },
                ),
            },
        }
    }

    /// Checks a request for a bind group layout and says what to ask of the hardware.
    ///
    /// Nothing has been asked of the hardware when this returns.
    pub fn create_bind_group_layout(&self, entry_map: &BindEntryMap) -> (r: Result<
        BindGroupLayoutPlan,
        CreateBindGroupLayoutError,
    >)
        ensures
            r == self.spec_create_bind_group_layout(entry_map@),
    {
        let entries = entry_map.entries();
        let mut i: usize = 0;
        while i < entries.len()
            invariant
                i <= entries@.len(),
                entries@ == entry_map@,
                self.spec_check_layout_entries(entries@, i as int) == Ok::<
                    (),
                    CreateBindGroupLayoutError,
                >(()),
            decreases entries@.len() - i,
        {
            match self.check_layout_entry(&entries[i]) {
                Ok(()) => {},
                Err(e) => {
                    proof {
                        assert(self.spec_check_layout_entries(entries@, i as int + 1) == Err::<
                            (),
                            CreateBindGroupLayoutError,
                        >(e));
                        self.lemma_layout_entries_error_stays(
                            entries@,
                            i as int + 1,
                            entries@.len() as int,
                        );
                    }
                    return Err(e);
                },
            }
            i += 1;
        }
        let bgl_flags = bind_group_layout_flags(self.features);
        let mut count_validator = BindingTypeMaxCountValidator::new();
        let mut i: usize = 0;
        while i < entries.len()
            invariant
                i <= entries@.len(),
                count_validator == spec_count_bindings(entries@, i as int),
            decreases entries@.len() - i,
        {
            count_validator.add_binding(&entries[i]);
            i += 1;
        }
        match count_validator.validate(&self.limits) {
            Ok(()) => {},
            Err(e) => {
                return Err(CreateBindGroupLayoutError::TooManyBindings(e));
            },
        }
        Ok(BindGroupLayoutPlan { flags: bgl_flags, count_validator })
    }

    /// Once an entry has failed the request, the entries after it change nothing.
    proof fn lemma_layout_entries_error_stays(
        &self,
        entries: Seq<BindGroupLayoutEntry>,
        from: int,
        to: int,
    )
        requires
            0 <= from <= to,
            self.spec_check_layout_entries(entries, from) is Err,
        ensures
            self.spec_check_layout_entries(entries, to) == self.spec_check_layout_entries(
                entries,
                from,
            ),
        decreases to - from,
    {
        if from < to {
            self.lemma_layout_entries_error_stays(entries, from, to - 1);
        }
    }
}

/// The counts of the first `n` of `entries`.
pub open spec fn spec_count_bindings(
    entries: Seq<BindGroupLayoutEntry>,
    n: int,
) -> BindingTypeMaxCountValidator
    decreases n,
{
    if n <= 0 {
        BindingTypeMaxCountValidator::spec_default()
    } else {
        spec_count_bindings(entries, n - 1).spec_add_binding(entries[n - 1])
    }
}

/// A bind group layout that was created. `R` is the handle of the hardware layout.
#[derive(Debug, PartialEq)]
pub struct BindGroupLayout<R> {
    /// The hardware layout; gone once the layout has been destroyed.
    pub raw: Option<R>,
    /// The device that the layout was created on.
    pub device_id: DeviceId,
    pub count_validator: BindingTypeMaxCountValidator,
    pub entries: BindEntryMap,
    pub info: ResourceInfo,
}

impl Device {
    /// The record of the bind group layout that the hardware made to `plan`, or the
    /// failure of the hardware to make one.
    pub fn create_bind_group_layout_from_hal<R>(
        &self,
        device_id: DeviceId,
        plan: &BindGroupLayoutPlan,
        entry_map: BindEntryMap,
        label: String,
        raw: Result<R, DeviceError>,
    ) -> (r: Result<BindGroupLayout<R>, CreateBindGroupLayoutError>)
        ensures
            match raw {
                Err(e) => r == Err::<BindGroupLayout<R>, CreateBindGroupLayoutError>(
                    CreateBindGroupLayoutError::Device(e),
                ),
                Ok(handle) => r matches Ok(layout) && {
                    &&& layout.raw == Some(handle)
                    &&& layout.device_id == device_id
                    &&& layout.count_validator == plan.count_validator
                    &&& layout.entries == entry_map
                    &&& layout.info.label == label
                    &&& layout.info.id is None
                },
            },
    {
        match raw {
            Err(e) => Err(CreateBindGroupLayoutError::Device(e)),
            Ok(handle) => Ok(
                BindGroupLayout {
                    raw: Some(handle),
                    device_id,
                    count_validator: plan.count_validator,
                    entries: entry_map,
                    info: ResourceInfo::new(label),
                },
            ),
        }
    }
}

} // verus!
