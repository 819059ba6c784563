//! The device: the capabilities it was opened with, and the checks against them.

use crate::flags::{DownlevelFlags, Features};
use crate::format::{format_info, spec_format_info, FormatInfo, TextureFormatFeatures};
use crate::life::{
    lemma_find_unique, lemma_retire, lemma_retired_holds, lemma_retirement_destroys,
    lemma_triage_grows, lemma_triage_places, spec_find_unique, spec_grown, spec_is_active,
    spec_pending_at, spec_retired, spec_set_to_destroy, spec_sort_in, spec_triage, LifeView,
    LifetimeTracker, PendingMap, ResourceKind, ResourceRef, TrackedResource, Tracker,
    TriageView,
};
use crate::limits::{Alignments, DownlevelCapabilities, Limits, CLEANUP_WAIT_MS};
use crate::storage::{BufferId, Id, SubmissionIndex};
use vstd::prelude::*;
use wgpu_types::TextureFormat;

verus! {

/// The hardware failed, in a way that no change to the request would mend.
#[derive(Clone, Copy, Debug, PartialEq, Eq, Structural)]
pub enum DeviceError {
    Invalid,
    Lost,
    OutOfMemory,
}

/// Features that a request needs and the device was opened without.
#[derive(Clone, Copy, Debug, PartialEq, Eq, Structural)]
pub struct MissingFeatures(pub Features);

/// Downlevel flags that a request needs and the platform lacks.
#[derive(Clone, Copy, Debug, PartialEq, Eq, Structural)]
pub struct MissingDownlevelFlags(pub DownlevelFlags);

/// Why a device could not be opened.
#[derive(Clone, Copy, Debug, PartialEq, Eq, Structural)]
pub enum CreateDeviceError {
    OutOfMemory,
    FailedToCreateZeroBuffer(DeviceError),
}

/// What a device is asked to be opened with.
#[derive(Debug, PartialEq, Eq)]
pub struct DeviceDescriptor {
    pub label: Option<String>,
    pub features: Features,
    pub limits: Limits,
}

/// The step at which the hardware failed while a device was opened.
#[derive(Clone, Copy, Debug, PartialEq, Eq, Structural)]
pub enum OpenFailure {
    /// The fence could not be made.
    Fence,
    /// The command encoder for the writes of the device itself could not be had.
    Encoder,
    /// The buffer of zeroes could not be made.
    ZeroBuffer(DeviceError),
}

/// The bookkeeping of what lives on a device.
#[derive(Debug)]
pub struct DeviceState {
    /// The index of the last submission made to the queue.
    active_submission_index: SubmissionIndex,
    /// All the resources of the device that are alive.
    trackers: Tracker,
    life_tracker: LifetimeTracker,
    /// The resources that were found to be held by nobody since the last maintenance.
    temp_suspected: Vec<ResourceRef>,
}

/// A logical device: the capabilities it was opened with, and the bookkeeping of what
/// lives on it.
#[derive(Debug)]
pub struct Device {
    pub adapter_id: u64,
    pub alignments: Alignments,
    pub limits: Limits,
    pub features: Features,
    pub downlevel: DownlevelCapabilities,
    pub state: DeviceState,
}

impl Device {
    pub open spec fn spec_require_features(&self, mask: u64) -> Result<(), MissingFeatures> {
        if self.features.contains(mask) {
            Ok(())
        } else {
            Err(MissingFeatures(Features { bits: mask }))
        }
    }

    /// Passes if the device has every feature of `mask`, and names `mask` if not.
    pub fn require_features(&self, mask: u64) -> (r: Result<(), MissingFeatures>)
        ensures
            r == self.spec_require_features(mask),
    {
        if self.features.contains(mask) {
            Ok(())
        } else {
            Err(MissingFeatures(Features { bits: mask }))
        }
    }

    pub open spec fn spec_require_downlevel_flags(&self, mask: u32) -> Result<
        (),
        MissingDownlevelFlags,
    > {
        if self.downlevel.flags.contains(mask) {
            Ok(())
        } else {
            Err(MissingDownlevelFlags(DownlevelFlags { bits: mask }))
        }
    }

    /// Passes if the platform has every downlevel flag of `mask`, and names `mask` if not.
    pub fn require_downlevel_flags(&self, mask: u32) -> (r: Result<(), MissingDownlevelFlags>)
        ensures
            r == self.spec_require_downlevel_flags(mask),
    {
        if self.downlevel.flags.contains(mask) {
            Ok(())
        } else {
            Err(MissingDownlevelFlags(DownlevelFlags { bits: mask }))
        }
    }

    /// Whether the device goes by what the adapter says of a format, rather than by what
    /// the baseline standard guarantees.
    pub open spec fn spec_uses_adapter_format_features(&self) -> bool {
        self.features.contains(Features::TEXTURE_ADAPTER_SPECIFIC_FORMAT_FEATURES)
            || !self.downlevel.is_webgpu_compliant()
    }

    #[verifier::when_used_as_spec(spec_uses_adapter_format_features)]
    pub fn uses_adapter_format_features(&self) -> (r: bool)
        ensures
            r == self.spec_uses_adapter_format_features(),
    {
        let using_device_features = self.features.contains(
            Features::TEXTURE_ADAPTER_SPECIFIC_FORMAT_FEATURES,
        );
        let downlevel = !self.downlevel.is_webgpu_compliant();
        using_device_features || downlevel
    }

    /// What a format allows on this device, given what is known of the format and what the
    /// adapter reports of it.
    pub open spec fn spec_describe_format_features_of(
        &self,
        info: FormatInfo,
        adapter: TextureFormatFeatures,
    ) -> Result<TextureFormatFeatures, MissingFeatures> {
        if !self.features.contains(info.required_features.bits) {
            Err(MissingFeatures(info.required_features))
        } else if self.uses_adapter_format_features() {
            Ok(adapter)
        } else {
            Ok(info.guaranteed)
        }
    }

    /// What a format allows on this device.
    ///
    /// The format must first be one that the device's features admit. Then the adapter's
    /// word counts if the device was opened with adapter-specific format features, or if
    /// the platform is not compliant; otherwise the guarantees of the standard do.
    pub fn describe_format_features_of(
        &self,
        info: &FormatInfo,
        adapter: TextureFormatFeatures,
    ) -> (r: Result<TextureFormatFeatures, MissingFeatures>)
        ensures
            r == self.spec_describe_format_features_of(*info, adapter),
    {
        if !self.features.contains(info.required_features.bits) {
            return Err(MissingFeatures(info.required_features));
        }
        if self.uses_adapter_format_features() {
            Ok(adapter)
        } else {
            Ok(info.guaranteed)
        }
    }

    /// What `format` allows on this device, where `adapter` is what the adapter reports
    /// of it.
    pub fn describe_format_features(&self, adapter: TextureFormatFeatures, format: TextureFormat) -> (r:
        Result<TextureFormatFeatures, MissingFeatures>)
        ensures
            r == self.spec_describe_format_features_of(
                spec_format_info(format, self.features),
                adapter,
            ),
    {
        let info = format_info(&format, self.features);
        self.describe_format_features_of(&info, adapter)
    }
}

/// How a maintenance goes about the fence.
#[derive(Clone, Copy, Debug, PartialEq, Eq, Structural)]
pub enum Maintain {
    /// Wait until the hardware is done with the given submission.
    WaitForSubmissionIndex(SubmissionIndex),
    /// Wait until the hardware is done with the last submission.
    Wait,
    /// Look at how far the hardware has come, without waiting.
    Poll,
}

impl Maintain {
    pub open spec fn spec_is_wait(self) -> bool {
        self != Maintain::Poll
    }

    /// Whether the maintenance waits.
    #[verifier::when_used_as_spec(spec_is_wait)]
    pub fn is_wait(self) -> (r: bool)
        ensures
            r == self.spec_is_wait(),
    {
        match self {
            Maintain::WaitForSubmissionIndex(_) | Maintain::Wait => true,
            Maintain::Poll => false,
        }
    }
}

/// What a maintenance asks of the fence.
#[derive(Clone, Copy, Debug, PartialEq, Eq, Structural)]
pub enum FenceRequest {
    /// Wait until the fence has reached `index`, for `timeout_ms` milliseconds at most.
    Wait { index: SubmissionIndex, timeout_ms: u32 },
    /// Read the value of the fence.
    Poll,
}

/// Why a maintenance failed.
#[derive(Clone, Copy, Debug, PartialEq, Eq, Structural)]
pub enum WaitIdleError {
    Device(DeviceError),
}

/// What is to be done after a maintenance.
#[derive(Debug, PartialEq, Eq)]
pub struct MaintainOutcome {
    /// Whom to tell that their submission has retired.
    pub submission_closures: Vec<Id>,
    /// The buffers to map, and to tell the owners of.
    pub ready_to_map: Vec<BufferId>,
    /// The resources to destroy. The hardware is done with every one of them.
    pub destroy: Vec<ResourceRef>,
    /// The command encoders to hand back.
    pub release_encoders: Vec<Id>,
    /// Whether no submission is left that the hardware may not be done with.
    pub queue_empty: bool,
}

/// The kinds of resources that become suspected when what used them is discarded, in
/// the order in which they are looked at.
pub open spec fn spec_untracked_kinds() -> Seq<ResourceKind> {
    seq![
        ResourceKind::Buffer,
        ResourceKind::Texture,
        ResourceKind::TextureView,
        ResourceKind::BindGroup,
        ResourceKind::Sampler,
        ResourceKind::ComputePipeline,
        ResourceKind::RenderPipeline,
        ResourceKind::QuerySet,
    ]
}

/// Those of the first `n` resources kept that are of the given kind and that nobody
/// else holds, in order.
pub open spec fn spec_unique_of_kind(kept: Seq<TrackedResource>, kind: ResourceKind, n: int) -> Seq<
    ResourceRef,
>
    decreases n,
{
    if n <= 0 {
        Seq::empty()
    } else if kept[n - 1].resource.kind == kind && kept[n - 1].is_unique() {
        spec_unique_of_kind(kept, kind, n - 1).push(kept[n - 1].resource)
    } else {
        spec_unique_of_kind(kept, kind, n - 1)
    }
}

/// Those of the resources kept that nobody else holds, of the first `k` of the kinds
/// that become suspected, kind by kind.
pub open spec fn spec_newly_suspected(kept: Seq<TrackedResource>, k: int) -> Seq<ResourceRef>
    decreases k,
{
    if k <= 0 {
        Seq::empty()
    } else {
        spec_newly_suspected(kept, k - 1) + spec_unique_of_kind(
            kept,
            spec_untracked_kinds()[k - 1],
            kept.len() as int,
        )
    }
}

impl DeviceState {
    /// Whether the bookkeeping of the device is in order: the active submissions stand
    /// in the order of their indices, and none is later than the last submission made.
    pub closed spec fn wf(&self) -> bool {
        &&& self.life_tracker@.wf()
        &&& forall|i: int|
            0 <= i < self.life_tracker@.active.len() ==> (
            #[trigger] self.life_tracker@.active[i]).index <= self.active_submission_index
    }

    /// The index of the last submission made to the queue.
    pub closed spec fn spec_active_submission_index(&self) -> SubmissionIndex {
        self.active_submission_index
    }

    /// The lifetime tracker of the device, as the contracts speak of it.
    pub closed spec fn spec_life(&self) -> LifeView {
        self.life_tracker@
    }

    /// The resources of the device that are alive.
    pub closed spec fn spec_kept(&self) -> Seq<TrackedResource> {
        self.trackers.resources@
    }

    /// The resources that were found to be held by nobody since the last maintenance.
    pub closed spec fn spec_temp_suspected(&self) -> Seq<ResourceRef> {
        self.temp_suspected@
    }

    /// What follows from the bookkeeping being in order.
    pub proof fn lemma_wf(&self)
        requires
            self.wf(),
        ensures
            self.spec_life().wf(),
            forall|i: int|
                0 <= i < self.spec_life().active.len() ==> (
                #[trigger] self.spec_life().active[i]).index
                    <= self.spec_active_submission_index(),
    {
    }

    /// The bookkeeping of a device that has just been opened: nothing lives on it, and
    /// nothing was submitted.
    pub fn new() -> (r: DeviceState)
        ensures
            r.wf(),
            r.spec_active_submission_index() == 0,
            r.spec_kept().len() == 0,
            r.spec_temp_suspected().len() == 0,
            r.spec_life().active.len() == 0,
            r.spec_life().suspected_resources.len() == 0,
            r.spec_life().free_resources.len() == 0,
            r.spec_life().mapped.len() == 0,
            r.spec_life().ready_to_map.len() == 0,
    {
        DeviceState {
            active_submission_index: 0,
            trackers: Tracker::new(),
            life_tracker: LifetimeTracker::new(),
            temp_suspected: Vec::new(),
        }
    }

    /// The index of the last submission made to the queue.
    pub fn active_submission_index(&self) -> (r: SubmissionIndex)
        ensures
            r == self.spec_active_submission_index(),
    {
        self.active_submission_index
    }

    /// The lifetime tracker of the device.
    pub fn lock_life(&self) -> (r: &LifetimeTracker)
        ensures
            r@ == self.spec_life(),
    {
        &self.life_tracker
    }

    /// The resources of the device that are alive.
    pub fn trackers(&self) -> (r: &Tracker)
        ensures
            r.resources@ == self.spec_kept(),
    {
        &self.trackers
    }

    /// Starts to keep track of a resource of the device.
    pub fn track(&mut self, resource: TrackedResource)
        ensures
            final(self).wf() == old(self).wf(),
            final(self).spec_kept() == old(self).spec_kept().push(resource),
            final(self).spec_life() == old(self).spec_life(),
            final(self).spec_temp_suspected() == old(self).spec_temp_suspected(),
            final(self).spec_active_submission_index() == old(self).spec_active_submission_index(),
    {
        self.trackers.insert(resource);
    }

    /// Notes that a buffer was asked to be mapped, once the hardware is done with the
    /// submission that used it last.
    pub fn map_pending(&mut self, pending: PendingMap)
        ensures
            final(self).wf() == old(self).wf(),
            final(self).spec_life() == (LifeView {
                mapped: old(self).spec_life().mapped.push(pending),
                ..old(self).spec_life()
            }),
            final(self).spec_kept() == old(self).spec_kept(),
            final(self).spec_temp_suspected() == old(self).spec_temp_suspected(),
            final(self).spec_active_submission_index() == old(self).spec_active_submission_index(),
    {
        let ghost before = self.life_tracker@;
        self.life_tracker.mapped.push(pending);
        assert(self.life_tracker@ =~= (LifeView { mapped: before.mapped.push(pending), ..before }));
    }

    /// Notes one more submission to the queue, and says what its index is. The
    /// resources given are destroyed, and the command encoders handed back, once the
    /// hardware is done with the submission.
    pub fn track_submission(&mut self, temp_resources: Vec<ResourceRef>, encoders: Vec<Id>) -> (r:
        SubmissionIndex)
        requires
            old(self).wf(),
            old(self).spec_active_submission_index() < u64::MAX,
        ensures
            final(self).wf(),
            r == old(self).spec_active_submission_index() + 1,
            final(self).spec_active_submission_index() == r,
            final(self).spec_life() == (LifeView {
                active: old(self).spec_life().active.push(
                    crate::life::ActiveSubmissionView {
                        index: r,
                        last_resources: temp_resources@,
                        mapped: Seq::empty(),
                        encoders: encoders@,
                        work_done_closures: Seq::empty(),
                    },
                ),
                ..old(self).spec_life()
            }),
            final(self).spec_kept() == old(self).spec_kept(),
            final(self).spec_temp_suspected() == old(self).spec_temp_suspected(),
    {
        let index = self.active_submission_index + 1;
        self.active_submission_index = index;
        self.life_tracker.track_submission(index, temp_resources, encoders);
        index
    }

    /// What a maintenance asks of the fence: to wait for the submission given, or for
    /// the last submission made, or to read how far the hardware has come.
    pub open spec fn spec_fence_request(&self, maintain: Maintain) -> FenceRequest {
        match maintain {
            Maintain::WaitForSubmissionIndex(index) => FenceRequest::Wait {
                index,
                timeout_ms: CLEANUP_WAIT_MS,
            },
            Maintain::Wait => FenceRequest::Wait {
                index: self.spec_active_submission_index(),
                timeout_ms: CLEANUP_WAIT_MS,
            },
            Maintain::Poll => FenceRequest::Poll,
        }
    }

    /// What a maintenance asks of the fence.
    pub fn fence_request(&self, maintain: Maintain) -> (r: FenceRequest)
        ensures
            r == self.spec_fence_request(maintain),
    {
        if maintain.is_wait() {
            let index_to_wait_for = match maintain {
                Maintain::WaitForSubmissionIndex(submission_index) => submission_index,
                _ => self.active_submission_index,
            };
            FenceRequest::Wait { index: index_to_wait_for, timeout_ms: CLEANUP_WAIT_MS }
        } else {
            FenceRequest::Poll
        }
    }

    /// The submission that the hardware is known to be done with after the fence was
    /// asked: the one waited for, or the value read.
    pub open spec fn spec_last_done(
        &self,
        maintain: Maintain,
        fence_value: SubmissionIndex,
    ) -> SubmissionIndex {
        match self.spec_fence_request(maintain) {
            FenceRequest::Wait { index, .. } => index,
            FenceRequest::Poll => fence_value,
        }
    }

    /// The bookkeeping after the first part of a maintenance, which is done whatever
    /// comes of the fence: the resources suspected since the last maintenance join those
    /// suspected before; each is looked at again; and the buffers that wait to be mapped
    /// are sorted in.
    pub open spec fn spec_triaged(&self) -> TriageView {
        let suspected = self.spec_life().suspected_resources + self.spec_temp_suspected();
        let looked_at = spec_triage(
            TriageView {
                life: LifeView { suspected_resources: Seq::empty(), ..self.spec_life() },
                kept: self.spec_kept(),
            },
            suspected,
            suspected.len() as int,
        );
        TriageView {
            life: spec_sort_in(
                LifeView { mapped: Seq::empty(), ..looked_at.life },
                looked_at.life.mapped,
                looked_at.life.mapped.len() as int,
            ),
            kept: looked_at.kept,
        }
    }

    /// Looks after the bookkeeping of the device, once the fence has been asked as
    /// [`fence_request`](Device::fence_request) says: `fence` is the value read, or
    /// anything if the fence was waited for, or the failure of the hardware.
    ///
    /// The resources suspected are looked at again, and the buffers that wait to be
    /// mapped are sorted in, whatever came of the fence. If the hardware failed, that is
    /// all, and the failure is handed on. If not, the submissions that the hardware is
    /// done with retire, and what comes back says what is to be destroyed, mapped and
    /// handed back, and whom to tell.
    pub fn maintain(&mut self, maintain: Maintain, fence: Result<SubmissionIndex, DeviceError>) -> (r:
        Result<MaintainOutcome, WaitIdleError>)
        requires
            old(self).wf(),
        ensures
            final(self).wf(),
            final(self).spec_kept() == old(self).spec_triaged().kept,
            final(self).spec_temp_suspected().len() == 0,
            final(self).spec_active_submission_index() == old(self).spec_active_submission_index(),
            match fence {
                Err(e) => r == Err::<MaintainOutcome, WaitIdleError>(WaitIdleError::Device(e))
                    && final(self).spec_life() == old(self).spec_triaged().life,
                Ok(fence_value) => {
                    let triaged = old(self).spec_triaged().life;
                    let last_done = old(self).spec_last_done(maintain, fence_value);
                    let done = triaged.done_count(last_done, triaged.active.len() as int);
                    let retired = spec_retired(triaged, done);
                    &&& r matches Ok(outcome)
                    &&& outcome.submission_closures@ == retired.closures
                    &&& outcome.release_encoders@ == retired.encoders
                    &&& outcome.ready_to_map@ == retired.ready_to_map
                    &&& outcome.destroy@ == retired.free_resources
                    &&& outcome.queue_empty == (done == triaged.active.len())
                    &&& final(self).spec_life() == (LifeView {
                        active: triaged.active.skip(done),
                        free_resources: Seq::empty(),
                        ready_to_map: Seq::empty(),
                        ..triaged
                    })
                },
            },
    {
        let ghost before = self.life_tracker@;
        append_refs(&mut self.life_tracker.suspected_resources, &self.temp_suspected);
        self.temp_suspected = Vec::new();
        assert(self.life_tracker@ =~= (LifeView {
            suspected_resources: before.suspected_resources + old(self).temp_suspected@,
            ..before
        }));
        self.life_tracker.triage_suspected(&mut self.trackers);
        self.life_tracker.triage_mapped();
        proof {
            lemma_triage_keeps_order(
                TriageView {
                    life: LifeView { suspected_resources: Seq::empty(), ..before },
                    kept: old(self).trackers.resources@,
                },
                before.suspected_resources + old(self).temp_suspected@,
                (before.suspected_resources + old(self).temp_suspected@).len() as int,
            );
            let looked_at = spec_triage(
                TriageView {
                    life: LifeView { suspected_resources: Seq::empty(), ..before },
                    kept: old(self).trackers.resources@,
                },
                before.suspected_resources + old(self).temp_suspected@,
                (before.suspected_resources + old(self).temp_suspected@).len() as int,
            );
            lemma_sort_in_keeps_order(
                LifeView { mapped: Seq::empty(), ..looked_at.life },
                looked_at.life.mapped,
                looked_at.life.mapped.len() as int,
            );
        }
        let fence_value = match fence {
            Ok(fence_value) => fence_value,
            Err(e) => {
                return Err(WaitIdleError::Device(e));
            },
        };
        let last_done_index = match self.fence_request(maintain) {
            FenceRequest::Wait { index, .. } => index,
            FenceRequest::Poll => fence_value,
        };
        let ghost triaged = self.life_tracker@;
        let (submission_closures, release_encoders) = self.life_tracker.triage_submissions(
            last_done_index,
        );
        let ready_to_map = self.life_tracker.handle_mapping();
        let destroy = self.life_tracker.cleanup();
        let queue_empty = self.life_tracker.queue_empty();
        proof {
            let done = triaged.done_count(last_done_index, triaged.active.len() as int);
            assert(self.life_tracker@ =~= (LifeView {
                active: triaged.active.skip(done),
                free_resources: Seq::empty(),
                ready_to_map: Seq::empty(),
                ..triaged
            }));
        }
        Ok(MaintainOutcome { submission_closures, ready_to_map, destroy, release_encoders, queue_empty })
    }
}

/// Where no submission up to a given index has anyone to tell, nobody is told when the
/// submissions up to that index retire.
proof fn lemma_nobody_to_tell(life: LifeView, last_done: SubmissionIndex, n: int)
    requires
        0 <= n <= life.active.len(),
        forall|i: int|
            0 <= i < life.active.len() && (#[trigger] life.active[i]).index <= last_done
                ==> life.active[i].work_done_closures.len() == 0,
        forall|i: int| 0 <= i < n ==> (#[trigger] life.active[i]).index <= last_done,
    ensures
        spec_retired(life, n).closures.len() == 0,
    decreases n,
{
    if n > 0 {
        lemma_nobody_to_tell(life, last_done, n - 1);
    }
}

impl DeviceState {
    /// Notes that a resource was found to be held by nobody. It is looked at again at
    /// the next maintenance.
    pub fn suspect(&mut self, resource: ResourceRef)
        ensures
            final(self).wf() == old(self).wf(),
            final(self).spec_temp_suspected() == old(self).spec_temp_suspected().push(resource),
            final(self).spec_life() == old(self).spec_life(),
            final(self).spec_kept() == old(self).spec_kept(),
            final(self).spec_active_submission_index() == old(self).spec_active_submission_index(),
    {
        self.temp_suspected.push(resource);
    }

    /// Takes note that what used the resources of `trackers`, a command buffer or a
    /// bind group, is discarded. Those of the resources that nobody else holds become
    /// suspected, kind by kind: buffers, textures, texture views, bind groups, samplers,
    /// compute pipelines, render pipelines and query sets. What was suspected since the
    /// last maintenance and has not been taken in yet is dropped.
    pub fn untrack(&mut self, trackers: &Tracker)
        ensures
            final(self).wf() == old(self).wf(),
            final(self).spec_life() == (LifeView {
                suspected_resources: old(self).spec_life().suspected_resources
                    + spec_newly_suspected(trackers.resources@, 8),
                ..old(self).spec_life()
            }),
            final(self).spec_temp_suspected().len() == 0,
            final(self).spec_kept() == old(self).spec_kept(),
            final(self).spec_active_submission_index() == old(self).spec_active_submission_index(),
    {
        let ghost before = self.life_tracker@;
        let kinds: [ResourceKind; 8] = [
            ResourceKind::Buffer,
            ResourceKind::Texture,
            ResourceKind::TextureView,
            ResourceKind::BindGroup,
            ResourceKind::Sampler,
            ResourceKind::ComputePipeline,
            ResourceKind::RenderPipeline,
            ResourceKind::QuerySet,
        ];
        assert(kinds@ =~= spec_untracked_kinds());
        let mut found: Vec<ResourceRef> = Vec::new();
        let resources = &trackers.resources;
        let mut k: usize = 0;
        while k < 8
            invariant
                k <= 8,
                kinds@ == spec_untracked_kinds(),
                found@ == spec_newly_suspected(resources@, k as int),
            decreases 8 - k,
        {
            let kind = kinds[k];
            let ghost so_far = found@;
            let mut i: usize = 0;
            while i < resources.len()
                invariant
                    i <= resources@.len(),
                    found@ == so_far + spec_unique_of_kind(resources@, kind, i as int),
                decreases resources@.len() - i,
            {
                let resource = resources[i];
                if resource.resource.kind == kind && resource.is_unique() {
                    found.push(resource.resource);
                }
                i += 1;
                assert(found@ =~= so_far + spec_unique_of_kind(resources@, kind, i as int));
            }
            k += 1;
        }
        append_refs(&mut self.life_tracker.suspected_resources, &found);
        self.temp_suspected = Vec::new();
        assert(self.life_tracker@ =~= (LifeView {
            suspected_resources: before.suspected_resources + spec_newly_suspected(
                trackers.resources@,
                8,
            ),
            ..before
        }));
    }

    /// Takes note that the hardware was waited for until it was done with the
    /// submission `submission_index`, for the sake of the bookkeeping alone. `fence_value`
    /// is how far the hardware had come before, and `wait` what came of the wait, which
    /// is made only if the hardware had not come that far.
    ///
    /// None of the submissions that retire may have anyone to tell. What comes back is
    /// the command encoders to hand back.
    pub fn wait_for_submit(
        &mut self,
        submission_index: SubmissionIndex,
        fence_value: Result<SubmissionIndex, DeviceError>,
        wait: Result<(), DeviceError>,
    ) -> (r: Result<Vec<Id>, WaitIdleError>)
        requires
            old(self).wf(),
            forall|i: int|
                0 <= i < old(self).spec_life().active.len() && (
                #[trigger] old(self).spec_life().active[i]).index <= submission_index
                    ==> old(self).spec_life().active[i].work_done_closures.len() == 0,
        ensures
            final(self).wf(),
            final(self).spec_kept() == old(self).spec_kept(),
            final(self).spec_temp_suspected() == old(self).spec_temp_suspected(),
            final(self).spec_active_submission_index() == old(self).spec_active_submission_index(),
            match fence_value {
                Err(e) => r == Err::<Vec<Id>, WaitIdleError>(WaitIdleError::Device(e))
                    && final(self).spec_life() == old(self).spec_life(),
                Ok(last_done) => if last_done >= submission_index {
                    r matches Ok(encoders) && encoders@.len() == 0 && final(self).spec_life()
                        == old(self).spec_life()
                } else {
                    match wait {
                        Err(e) => r == Err::<Vec<Id>, WaitIdleError>(WaitIdleError::Device(e))
                            && final(self).spec_life() == old(self).spec_life(),
                        Ok(()) => {
                            let life = old(self).spec_life();
                            let done = life.done_count(submission_index, life.active.len() as int);
                            let retired = spec_retired(life, done);
                            &&& r matches Ok(encoders)
                            &&& encoders@ == retired.encoders
                            &&& final(self).spec_life() == (LifeView {
                                active: life.active.skip(done),
                                free_resources: retired.free_resources,
                                ready_to_map: retired.ready_to_map,
                                ..life
                            })
                        },
                    }
                },
            },
    {
        let last_done_index = match fence_value {
            Ok(last_done) => last_done,
            Err(e) => {
                return Err(WaitIdleError::Device(e));
            },
        };
        if last_done_index < submission_index {
            match wait {
                Ok(()) => {},
                Err(e) => {
                    return Err(WaitIdleError::Device(e));
                },
            }
            proof {
                let life = self.life_tracker@;
                assert(life == old(self).spec_life());
                assert forall|i: int|
                    0 <= i < life.active.len() && (#[trigger] life.active[i]).index
                        <= submission_index implies life.active[i].work_done_closures.len()
                    == 0 by {
                    assert(old(self).spec_life().active[i].index <= submission_index);
                }
                crate::life::lemma_done_count_bounds(life, submission_index, life.active.len() as int);
                lemma_nobody_to_tell(
                    life,
                    submission_index,
                    life.done_count(submission_index, life.active.len() as int),
                );
            }
            let (closures, encoders) = self.life_tracker.triage_submissions(submission_index);
            assert(closures@.len() == 0);
            Ok(encoders)
        } else {
            Ok(Vec::new())
        }
    }

    /// Winds the bookkeeping up before the device goes, once the hardware has been
    /// waited for until it was done with the last submission. Every submission retires.
    /// What comes back is the command encoders to hand back, and the resources to
    /// destroy.
    pub fn prepare_to_die(&mut self) -> (r: (Vec<Id>, Vec<ResourceRef>))
        requires
            old(self).wf(),
        ensures
            final(self).wf(),
            final(self).spec_kept() == old(self).spec_kept(),
            final(self).spec_temp_suspected() == old(self).spec_temp_suspected(),
            final(self).spec_active_submission_index() == old(self).spec_active_submission_index(),
            ({
                let life = old(self).spec_life();
                let retired = spec_retired(life, life.active.len() as int);
                &&& r.0@ == retired.encoders
                &&& r.1@ == retired.free_resources
                &&& final(self).spec_life() == (LifeView {
                    active: Seq::empty(),
                    free_resources: Seq::empty(),
                    ready_to_map: retired.ready_to_map,
                    ..life
                })
            }),
    {
        let current_index = self.active_submission_index;
        let ghost life = self.life_tracker@;
        proof {
            crate::life::lemma_done_everything(life, current_index);
        }
        let (_, encoders) = self.life_tracker.triage_submissions(current_index);
        let destroy = self.life_tracker.cleanup();
        proof {
            assert(life.active.skip(life.active.len() as int) =~= Seq::empty());
            assert(self.life_tracker@ =~= (LifeView {
                active: Seq::empty(),
                free_resources: Seq::empty(),
                ready_to_map: spec_retired(life, life.active.len() as int).ready_to_map,
                ..life
            }));
        }
        (encoders, destroy)
    }
}

fn append_refs(target: &mut Vec<ResourceRef>, source: &Vec<ResourceRef>)
    ensures
        final(target)@ == old(target)@ + source@,
{
    let mut i: usize = 0;
    while i < source.len()
        invariant
            i <= source@.len(),
            target@ == old(target)@ + source@.take(i as int),
        decreases source@.len() - i,
    {
        target.push(source[i]);
        i += 1;
        assert(target@ =~= old(target)@ + source@.take(i as int));
    }
    assert(source@.take(i as int) =~= source@);
}

/// Looking at suspected resources leaves the active submissions where they are, with
/// their indices.
pub proof fn lemma_triage_keeps_order(state: TriageView, suspected: Seq<ResourceRef>, n: int)
    requires
        0 <= n <= suspected.len(),
    ensures
        spec_triage(state, suspected, n).life.active.len() == state.life.active.len(),
        forall|i: int|
            0 <= i < state.life.active.len() ==> (#[trigger] spec_triage(
                state,
                suspected,
                n,
            ).life.active[i]).index == state.life.active[i].index,
        spec_triage(state, suspected, n).life.mapped == state.life.mapped,
        spec_triage(state, suspected, n).life.suspected_resources
            == state.life.suspected_resources,
        spec_triage(state, suspected, n).life.ready_to_map == state.life.ready_to_map,
    decreases n,
{
    if n > 0 {
        lemma_triage_keeps_order(state, suspected, n - 1);
        let before = spec_triage(state, suspected, n - 1);
        crate::life::lemma_find_unique(before.kept, suspected[n - 1], before.kept.len() as int);
        match crate::life::spec_find_unique(before.kept, suspected[n - 1], before.kept.len() as int) {
            Some(k) => {
                crate::life::lemma_find_active(
                    before.life.active,
                    before.kept[k].submission_index,
                    before.life.active.len() as int,
                );
            },
            None => {},
        }
    }
}

/// Sorting in buffers leaves the active submissions where they are, with their
/// indices and with what they are to destroy.
pub proof fn lemma_sort_in_keeps_order(life: LifeView, pending: Seq<PendingMap>, n: int)
    requires
        0 <= n <= pending.len(),
    ensures
        spec_sort_in(life, pending, n).active.len() == life.active.len(),
        forall|i: int|
            0 <= i < life.active.len() ==> (#[trigger] spec_sort_in(life, pending, n).active[i]).index
                == life.active[i].index && spec_sort_in(life, pending, n).active[i].last_resources
                == life.active[i].last_resources,
        spec_sort_in(life, pending, n).free_resources == life.free_resources,
        spec_sort_in(life, pending, n).suspected_resources == life.suspected_resources,
        spec_sort_in(life, pending, n).mapped == life.mapped,
    decreases n,
{
    if n > 0 {
        lemma_sort_in_keeps_order(life, pending, n - 1);
        let before = spec_sort_in(life, pending, n - 1);
        crate::life::lemma_find_active(
            before.active,
            pending[n - 1].submission_index,
            before.active.len() as int,
        );
    }
}

impl Device {
    /// The device that has been opened on the hardware, or the failure to open it. A
    /// fence or a command encoder that could not be had counts as lack of memory. Nothing
    /// lives on a new device, and nothing was submitted to it.
    pub fn new(
        adapter_id: u64,
        alignments: Alignments,
        downlevel: DownlevelCapabilities,
        desc: DeviceDescriptor,
        opened: Result<(), OpenFailure>,
    ) -> (r: Result<Device, CreateDeviceError>)
        ensures
            match opened {
                Err(OpenFailure::Fence) | Err(OpenFailure::Encoder) => r matches Err(
                    CreateDeviceError::OutOfMemory,
                ),
                Err(OpenFailure::ZeroBuffer(e)) => r matches Err(
                    CreateDeviceError::FailedToCreateZeroBuffer(found),
                ) && found == e,
                Ok(()) => r matches Ok(device) && {
                    &&& device.adapter_id == adapter_id
                    &&& device.alignments == alignments
                    &&& device.downlevel == downlevel
                    &&& device.limits == desc.limits
                    &&& device.features == desc.features
                    &&& device.state.wf()
                    &&& device.state.spec_active_submission_index() == 0
                    &&& device.state.spec_kept().len() == 0
                    &&& device.state.spec_temp_suspected().len() == 0
                    &&& device.state.spec_life().active.len() == 0
                    &&& device.state.spec_life().suspected_resources.len() == 0
                    &&& device.state.spec_life().free_resources.len() == 0
                    &&& device.state.spec_life().mapped.len() == 0
                    &&& device.state.spec_life().ready_to_map.len() == 0
                },
            },
    {
        match opened {
            Err(OpenFailure::Fence) | Err(OpenFailure::Encoder) => Err(
                CreateDeviceError::OutOfMemory,
            ),
            Err(OpenFailure::ZeroBuffer(e)) => Err(CreateDeviceError::FailedToCreateZeroBuffer(e)),
            Ok(()) => Ok(
                Device {
                    adapter_id,
                    alignments,
                    limits: desc.limits,
                    features: desc.features,
                    downlevel,
                    state: DeviceState::new(),
                },
            ),
        }
    }
}

impl DeviceState {
    /// What the first part of a maintenance leaves of the order of the bookkeeping, and
    /// of what was set to be destroyed.
    proof fn lemma_triaged(&self)
        requires
            self.wf(),
        ensures
            self.spec_triaged().life.wf(),
            spec_grown(self.spec_life(), self.spec_triaged().life),
            ({
                let suspected = self.spec_life().suspected_resources + self.spec_temp_suspected();
                let looked_at = spec_triage(
                    TriageView {
                        life: LifeView { suspected_resources: Seq::empty(), ..self.spec_life() },
                        kept: self.spec_kept(),
                    },
                    suspected,
                    suspected.len() as int,
                );
                &&& spec_grown(looked_at.life, self.spec_triaged().life)
                &&& spec_grown(self.spec_triaged().life, looked_at.life)
            }),
    {
        let suspected = self.spec_life().suspected_resources + self.spec_temp_suspected();
        let start = TriageView {
            life: LifeView { suspected_resources: Seq::empty(), ..self.spec_life() },
            kept: self.spec_kept(),
        };
        lemma_triage_grows(start, suspected, suspected.len() as int);
        let looked_at = spec_triage(start, suspected, suspected.len() as int);
        lemma_sort_in_keeps_order(
            LifeView { mapped: Seq::empty(), ..looked_at.life },
            looked_at.life.mapped,
            looked_at.life.mapped.len() as int,
        );
    }

    /// A resource that is suspected, and that the device alone holds, is destroyed by
    /// the next maintenance that finds the hardware done with the submission that used
    /// the resource last.
    pub proof fn lemma_unique_suspect_is_destroyed(
        &self,
        maintain: Maintain,
        fence_value: SubmissionIndex,
        resource: ResourceRef,
        index: SubmissionIndex,
    )
        requires
            self.wf(),
            (self.spec_life().suspected_resources + self.spec_temp_suspected()).contains(
                resource,
            ),
            spec_find_unique(self.spec_kept(), resource, self.spec_kept().len() as int) is Some,
            self.spec_kept()[spec_find_unique(
                self.spec_kept(),
                resource,
                self.spec_kept().len() as int,
            )->Some_0].submission_index == index,
            index <= self.spec_last_done(maintain, fence_value),
        ensures
            ({
                let triaged = self.spec_triaged().life;
                let done = triaged.done_count(
                    self.spec_last_done(maintain, fence_value),
                    triaged.active.len() as int,
                );
                spec_retired(triaged, done).free_resources.contains(resource)
            }),
    {
        let suspected = self.spec_life().suspected_resources + self.spec_temp_suspected();
        let start = TriageView {
            life: LifeView { suspected_resources: Seq::empty(), ..self.spec_life() },
            kept: self.spec_kept(),
        };
        let at = choose|at: int| 0 <= at < suspected.len() && suspected[at] == resource;
        lemma_triage_places(start, suspected, suspected.len() as int, resource, index);
        self.lemma_triaged();
        let looked_at = spec_triage(start, suspected, suspected.len() as int);
        let triaged = self.spec_triaged().life;
        if spec_is_active(start.life, index) {
            let j = choose|j: int|
                0 <= j < looked_at.life.active.len() && (#[trigger] looked_at.life.active[j]).index
                    == index && looked_at.life.active[j].last_resources.contains(resource);
            assert(triaged.active[j].index == index);
            assert(triaged.active[j].last_resources.contains(resource));
        }
        lemma_retirement_destroys(
            triaged,
            resource,
            index,
            self.spec_last_done(maintain, fence_value),
        );
    }

    /// A resource that is set to be destroyed, at the end of a maintenance or when a
    /// submission retires, is destroyed by the next maintenance that finds the hardware
    /// done with that submission.
    pub proof fn lemma_pending_is_destroyed_on_retirement(
        &self,
        maintain: Maintain,
        fence_value: SubmissionIndex,
        resource: ResourceRef,
        index: SubmissionIndex,
    )
        requires
            self.wf(),
            spec_set_to_destroy(self.spec_life(), resource, index),
            index <= self.spec_last_done(maintain, fence_value),
        ensures
            ({
                let triaged = self.spec_triaged().life;
                let done = triaged.done_count(
                    self.spec_last_done(maintain, fence_value),
                    triaged.active.len() as int,
                );
                spec_retired(triaged, done).free_resources.contains(resource)
            }),
    {
        self.lemma_triaged();
        let triaged = self.spec_triaged().life;
        if !self.spec_life().free_resources.contains(resource) {
            let j = choose|j: int|
                0 <= j < self.spec_life().active.len() && (
                #[trigger] self.spec_life().active[j]).index == index
                    && self.spec_life().active[j].last_resources.contains(resource);
            assert(triaged.active[j].index == index);
            assert(triaged.active[j].last_resources.contains(resource));
        }
        lemma_retirement_destroys(
            triaged,
            resource,
            index,
            self.spec_last_done(maintain, fence_value),
        );
    }

    /// A resource whose last use is by a submission that is active, and that the
    /// hardware is not done with, is not destroyed by a maintenance: it is kept until
    /// that submission retires. This is stated of a resource that is not set to be
    /// destroyed already, and whose entries all name that submission.
    pub proof fn lemma_resource_in_use_is_not_destroyed(
        &self,
        maintain: Maintain,
        fence_value: SubmissionIndex,
        resource: ResourceRef,
        index: SubmissionIndex,
    )
        requires
            self.wf(),
            forall|i: int|
                0 <= i < self.spec_kept().len() && (#[trigger] self.spec_kept()[i]).resource
                    == resource ==> self.spec_kept()[i].submission_index == index,
            spec_is_active(self.spec_life(), index),
            self.spec_last_done(maintain, fence_value) < index,
            !self.spec_life().free_resources.contains(resource),
            forall|j: int|
                0 <= j < self.spec_life().active.len() ==> !(
                #[trigger] self.spec_life().active[j]).last_resources.contains(resource),
        ensures
            ({
                let triaged = self.spec_triaged().life;
                let done = triaged.done_count(
                    self.spec_last_done(maintain, fence_value),
                    triaged.active.len() as int,
                );
                let after = LifeView {
                    active: triaged.active.skip(done),
                    free_resources: Seq::empty(),
                    ready_to_map: Seq::empty(),
                    ..triaged
                };
                &&& !spec_retired(triaged, done).free_resources.contains(resource)
                &&& (self.spec_life().suspected_resources + self.spec_temp_suspected()).contains(
                    resource,
                ) && spec_find_unique(
                    self.spec_kept(),
                    resource,
                    self.spec_kept().len() as int,
                ) is Some ==> spec_pending_at(after, resource, index)
            }),
    {
        let last_done = self.spec_last_done(maintain, fence_value);
        let suspected = self.spec_life().suspected_resources + self.spec_temp_suspected();
        let start = TriageView {
            life: LifeView { suspected_resources: Seq::empty(), ..self.spec_life() },
            kept: self.spec_kept(),
        };
        let active_at = choose|j: int|
            0 <= j < self.spec_life().active.len() && (#[trigger] self.spec_life().active[j]).index
                == index;
        assert(start.life.active[active_at].index == index);
        lemma_triage_confines(start, suspected, suspected.len() as int, resource, index);
        self.lemma_triaged();
        let looked_at = spec_triage(start, suspected, suspected.len() as int);
        let triaged = self.spec_triaged().life;
        let done = triaged.done_count(last_done, triaged.active.len() as int);
        crate::life::lemma_done_count_bounds(triaged, last_done, triaged.active.len() as int);
        lemma_retired_holds(triaged, done);
        if spec_retired(triaged, done).free_resources.contains(resource) {
            assert(!triaged.free_resources.contains(resource)) by {
                if triaged.free_resources.contains(resource) {
                    assert(looked_at.life.free_resources.contains(resource));
                }
            }
            let j = choose|j: int|
                0 <= j < done && (#[trigger] triaged.active[j]).last_resources.contains(resource);
            assert(looked_at.life.active[j].last_resources.contains(resource));
            assert(looked_at.life.active[j].index == index);
            assert(triaged.active[j].index == index);
            assert(false);
        }
        if suspected.contains(resource) && spec_find_unique(
            self.spec_kept(),
            resource,
            self.spec_kept().len() as int,
        ) is Some {
            lemma_find_unique(self.spec_kept(), resource, self.spec_kept().len() as int);
            lemma_triage_places(start, suspected, suspected.len() as int, resource, index);
            let at = choose|at: int| 0 <= at < suspected.len() && suspected[at] == resource;
            let j = choose|j: int|
                0 <= j < looked_at.life.active.len() && (#[trigger] looked_at.life.active[j]).index
                    == index && looked_at.life.active[j].last_resources.contains(resource);
            assert(triaged.active[j].index == index);
            assert(triaged.active[j].last_resources.contains(resource));
            if j < done {
                assert(triaged.active[j].index <= last_done);
            }
            let after = LifeView {
                active: triaged.active.skip(done),
                free_resources: Seq::empty(),
                ready_to_map: Seq::empty(),
                ..triaged
            };
            assert(after.active[j - done] == triaged.active[j]);
            assert(after.active[j - done].index == index);
            assert(after.active[j - done].last_resources.contains(resource));
            assert(spec_pending_at(after, resource, index));
        }
    }
}

/// While suspected resources are looked at, a resource whose entries all name one
/// submission that is active is set to be destroyed nowhere but at that submission,
/// unless it was before.
proof fn lemma_triage_confines(
    state: TriageView,
    suspected: Seq<ResourceRef>,
    n: int,
    resource: ResourceRef,
    index: SubmissionIndex,
)
    requires
        0 <= n <= suspected.len(),
        forall|i: int|
            0 <= i < state.kept.len() && (#[trigger] state.kept[i]).resource == resource
                ==> state.kept[i].submission_index == index,
        spec_is_active(state.life, index),
        !state.life.free_resources.contains(resource),
        forall|j: int|
            0 <= j < state.life.active.len() ==> !(
            #[trigger] state.life.active[j]).last_resources.contains(resource),
    ensures
        ({
            let after = spec_triage(state, suspected, n);
            &&& !after.life.free_resources.contains(resource)
            &&& forall|j: int|
                0 <= j < after.life.active.len() && (
                #[trigger] after.life.active[j]).last_resources.contains(resource)
                    ==> after.life.active[j].index == index
            &&& forall|i: int|
                0 <= i < after.kept.len() && (#[trigger] after.kept[i]).resource == resource
                    ==> after.kept[i].submission_index == index
        }),
    decreases n,
{
    if n > 0 {
        lemma_triage_confines(state, suspected, n - 1, resource, index);
        lemma_triage_grows(state, suspected, n - 1);
        let before = spec_triage(state, suspected, n - 1);
        let after = spec_triage(state, suspected, n);
        let x = suspected[n - 1];
        lemma_find_unique(before.kept, x, before.kept.len() as int);
        let j0 = choose|j: int|
            0 <= j < state.life.active.len() && (#[trigger] state.life.active[j]).index == index;
        assert(before.life.active[j0].index == index);
        assert(spec_is_active(before.life, index));
        match spec_find_unique(before.kept, x, before.kept.len() as int) {
            Some(k) => {
                lemma_retire(before.life, x, before.kept[k].submission_index);
                assert forall|i: int|
                    0 <= i < after.kept.len() && (#[trigger] after.kept[i]).resource
                        == resource implies after.kept[i].submission_index == index by {
                    let back = if i < k {
                        i
                    } else {
                        i + 1
                    };
                    assert(after.kept[i] == before.kept[back]);
                }
                assert forall|j: int|
                    0 <= j < after.life.active.len() && (
                    #[trigger] after.life.active[j]).last_resources.contains(
                        resource,
                    ) implies after.life.active[j].index == index by {
                    if !before.life.active[j].last_resources.contains(resource) {
                        assert(x == resource && before.life.active[j].index
                            == before.kept[k].submission_index);
                    }
                }
            },
            None => {},
        }
    }
}

} // verus!
