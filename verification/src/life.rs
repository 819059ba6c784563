//! When a resource may be destroyed.
//!
//! A resource that nobody but the device holds any more is suspected. At the next
//! maintenance it is looked at again, and if it is still held by the device alone it is
//! set to be destroyed: at once, if the hardware is done with the last submission that
//! used it, or else when that submission retires. Nothing is destroyed before.

use crate::storage::{BufferId, Id, SubmissionIndex};
use vstd::prelude::*;

verus! {

/// The kinds of resources that a device keeps track of.
#[derive(Clone, Copy, Debug, PartialEq, Eq, Structural)]
pub enum ResourceKind {
    Buffer,
    Texture,
    TextureView,
    Sampler,
    BindGroup,
    ComputePipeline,
    RenderPipeline,
    BindGroupLayout,
    PipelineLayout,
    RenderBundle,
    QuerySet,
}

/// A resource, by its kind and its identity in the table of that kind.
#[derive(Clone, Copy, Debug, PartialEq, Eq, Structural)]
pub struct ResourceRef {
    pub kind: ResourceKind,
    pub id: Id,
}

/// What is kept of a resource that is in use.
#[derive(Clone, Copy, Debug, PartialEq, Eq, Structural)]
pub struct TrackedResource {
    pub resource: ResourceRef,
    /// How many hold the resource, the tracker itself included.
    pub ref_count: usize,
    /// The index of the last submission that used the resource.
    pub submission_index: SubmissionIndex,
}

impl TrackedResource {
    /// A resource is unique when the tracker alone holds it.
    pub open spec fn spec_is_unique(self) -> bool {
        self.ref_count == 1
    }

    /// Whether nobody but the tracker holds the resource.
    #[verifier::when_used_as_spec(spec_is_unique)]
    pub fn is_unique(self) -> (r: bool)
        ensures
            r == self.spec_is_unique(),
    {
        self.ref_count == 1
    }
}

/// The resources that something uses: a device all that are alive, a command buffer or
/// a bind group those that it touches.
#[derive(Debug, PartialEq, Eq)]
pub struct Tracker {
    pub resources: Vec<TrackedResource>,
}

/// The place of the first of the first `n` resources kept that is `resource` and is
/// unique.
pub open spec fn spec_find_unique(
    kept: Seq<TrackedResource>,
    resource: ResourceRef,
    n: int,
) -> Option<int>
    decreases n,
{
    if n <= 0 {
        None
    } else if spec_find_unique(kept, resource, n - 1) is Some {
        spec_find_unique(kept, resource, n - 1)
    } else if kept[n - 1].resource == resource && kept[n - 1].is_unique() {
        Some(n - 1)
    } else {
        None
    }
}

proof fn lemma_find_unique_stays(
    kept: Seq<TrackedResource>,
    resource: ResourceRef,
    from: int,
    to: int,
)
    requires
        from <= to,
        spec_find_unique(kept, resource, from) is Some,
    ensures
        spec_find_unique(kept, resource, to) == spec_find_unique(kept, resource, from),
    decreases to - from,
{
    if from < to {
        lemma_find_unique_stays(kept, resource, from, to - 1);
    }
}

/// What is found is a unique entry of the resource, and the first such; and nothing is
/// found only where there is no such entry.
pub proof fn lemma_find_unique(kept: Seq<TrackedResource>, resource: ResourceRef, n: int)
    requires
        0 <= n <= kept.len(),
    ensures
        match spec_find_unique(kept, resource, n) {
            Some(k) => {
                &&& 0 <= k < n
                &&& kept[k].resource == resource
                &&& kept[k].is_unique()
                &&& forall|i: int|
                    0 <= i < k ==> !((#[trigger] kept[i]).resource == resource
                        && kept[i].is_unique())
            },
            None => forall|i: int|
                0 <= i < n ==> !((#[trigger] kept[i]).resource == resource
                    && kept[i].is_unique()),
        },
    decreases n,
{
    if n > 0 {
        lemma_find_unique(kept, resource, n - 1);
    }
}

impl Tracker {
    /// The tracker of nothing.
    pub fn new() -> (r: Self)
        ensures
            r.resources@.len() == 0,
    {
        Tracker { resources: Vec::new() }
    }

    /// Starts to keep track of a resource.
    pub fn insert(&mut self, kept: TrackedResource)
        ensures
            final(self).resources@ == old(self).resources@.push(kept),
    {
        self.resources.push(kept);
    }

    /// Lets go of `resource` if the tracker alone holds it, and says which submission
    /// used it last. A resource that is not kept, or that someone else holds, stays
    /// as it is.
    pub fn remove_abandoned(&mut self, resource: ResourceRef) -> (r: Option<SubmissionIndex>)
        ensures
            match spec_find_unique(
                old(self).resources@,
                resource,
                old(self).resources@.len() as int,
            ) {
                Some(k) => r == Some(old(self).resources@[k].submission_index)
                    && final(self).resources@ == old(self).resources@.remove(k),
                None => r is None && final(self).resources@ == old(self).resources@,
            },
    {
        let mut i: usize = 0;
        while i < self.resources.len()
            invariant
                i <= self.resources@.len(),
                self.resources@ == old(self).resources@,
                spec_find_unique(self.resources@, resource, i as int) is None,
            decreases self.resources@.len() - i,
        {
            let kept = self.resources[i];
            if kept.resource == resource && kept.is_unique() {
                proof {
                    lemma_find_unique_stays(
                        self.resources@,
                        resource,
                        i as int + 1,
                        self.resources@.len() as int,
                    );
                }
                self.resources.remove(i);
                return Some(kept.submission_index);
            }
            i += 1;
        }
        None
    }
}

/// The work of one submission that the hardware may not be done with yet.
#[derive(Debug, PartialEq, Eq)]
pub struct ActiveSubmission {
    pub index: SubmissionIndex,
    /// The resources to destroy once the submission has retired.
    pub last_resources: Vec<ResourceRef>,
    /// The buffers to map once the submission has retired.
    pub mapped: Vec<BufferId>,
    /// The command encoders to hand back once the submission has retired.
    pub encoders: Vec<Id>,
    /// Whom to tell that the submission has retired.
    pub work_done_closures: Vec<Id>,
}

/// An active submission, as the contracts speak of it.
pub ghost struct ActiveSubmissionView {
    pub index: SubmissionIndex,
    pub last_resources: Seq<ResourceRef>,
    pub mapped: Seq<BufferId>,
    pub encoders: Seq<Id>,
    pub work_done_closures: Seq<Id>,
}

impl View for ActiveSubmission {
    type V = ActiveSubmissionView;

    open spec fn view(&self) -> ActiveSubmissionView {
        ActiveSubmissionView {
            index: self.index,
            last_resources: self.last_resources@,
            mapped: self.mapped@,
            encoders: self.encoders@,
            work_done_closures: self.work_done_closures@,
        }
    }
}

/// A buffer that waits to be mapped, and the last submission that used it.
#[derive(Clone, Copy, Debug, PartialEq, Eq, Structural)]
pub struct PendingMap {
    pub buffer: BufferId,
    pub submission_index: SubmissionIndex,
}

/// The bookkeeping by which the destruction of resources waits for the hardware.
#[derive(Debug, PartialEq, Eq)]
pub struct LifetimeTracker {
    /// The buffers that were asked to be mapped since the last maintenance.
    pub mapped: Vec<PendingMap>,
    /// The resources to look at again at the next maintenance.
    pub suspected_resources: Vec<ResourceRef>,
    /// The submissions that the hardware may not be done with, in the order in which
    /// they were made.
    pub active: Vec<ActiveSubmission>,
    /// The resources that the hardware is done with, to be destroyed at the end of the
    /// maintenance.
    pub free_resources: Vec<ResourceRef>,
    /// The buffers that the hardware is done with, to be mapped.
    pub ready_to_map: Vec<BufferId>,
}

/// The lifetime tracker, as the contracts speak of it.
#[verifier::ext_equal]
pub ghost struct LifeView {
    pub mapped: Seq<PendingMap>,
    pub suspected_resources: Seq<ResourceRef>,
    pub active: Seq<ActiveSubmissionView>,
    pub free_resources: Seq<ResourceRef>,
    pub ready_to_map: Seq<BufferId>,
}

impl View for LifetimeTracker {
    type V = LifeView;

    open spec fn view(&self) -> LifeView {
        LifeView {
            mapped: self.mapped@,
            suspected_resources: self.suspected_resources@,
            active: Seq::new(self.active@.len(), |i: int| self.active@[i]@),
            free_resources: self.free_resources@,
            ready_to_map: self.ready_to_map@,
        }
    }
}

/// The place of the first of the first `n` active submissions that has the given index.
pub open spec fn spec_find_active(active: Seq<ActiveSubmissionView>, index: SubmissionIndex, n: int) -> Option<
    int,
>
    decreases n,
{
    if n <= 0 {
        None
    } else if spec_find_active(active, index, n - 1) is Some {
        spec_find_active(active, index, n - 1)
    } else if active[n - 1].index == index {
        Some(n - 1)
    } else {
        None
    }
}

proof fn lemma_find_active_stays(
    active: Seq<ActiveSubmissionView>,
    index: SubmissionIndex,
    from: int,
    to: int,
)
    requires
        from <= to,
        spec_find_active(active, index, from) is Some,
    ensures
        spec_find_active(active, index, to) == spec_find_active(active, index, from),
    decreases to - from,
{
    if from < to {
        lemma_find_active_stays(active, index, from, to - 1);
    }
}

/// What is found is an active submission of the index; and nothing is found only where
/// there is none.
pub proof fn lemma_find_active(active: Seq<ActiveSubmissionView>, index: SubmissionIndex, n: int)
    requires
        0 <= n <= active.len(),
    ensures
        match spec_find_active(active, index, n) {
            Some(k) => 0 <= k < n && active[k].index == index,
            None => forall|i: int| 0 <= i < n ==> (#[trigger] active[i]).index != index,
        },
    decreases n,
{
    if n > 0 {
        lemma_find_active(active, index, n - 1);
    }
}

impl LifeView {
    /// Whether the active submissions stand in the order of their indices, which go
    /// strictly up.
    pub open spec fn wf(self) -> bool {
        forall|i: int, j: int|
            0 <= i < j < self.active.len() ==> self.active[i].index < self.active[j].index
    }

    /// The tracker once `resource`, which the submission `index` used last, has been
    /// found to be held by nobody: it is to be destroyed when that submission retires,
    /// if it is still active, and at the end of the maintenance if not.
    pub open spec fn retire(self, resource: ResourceRef, index: SubmissionIndex) -> LifeView {
        match spec_find_active(self.active, index, self.active.len() as int) {
            Some(k) => LifeView {
                active: self.active.update(
                    k,
                    ActiveSubmissionView {
                        last_resources: self.active[k].last_resources.push(resource),
                        ..self.active[k]
                    },
                ),
                ..self
            },
            None => LifeView { free_resources: self.free_resources.push(resource), ..self },
        }
    }

    /// The tracker once a buffer that waits to be mapped has been sorted in: it is
    /// mapped when the submission that used it last retires, if that is still active, and
    /// at the end of the maintenance if not.
    pub open spec fn sort_in(self, pending: PendingMap) -> LifeView {
        match spec_find_active(self.active, pending.submission_index, self.active.len() as int) {
            Some(k) => LifeView {
                active: self.active.update(
                    k,
                    ActiveSubmissionView {
                        mapped: self.active[k].mapped.push(pending.buffer),
                        ..self.active[k]
                    },
                ),
                ..self
            },
            None => LifeView { ready_to_map: self.ready_to_map.push(pending.buffer), ..self },
        }
    }

    /// The number of active submissions, from the first on, that the hardware is done
    /// with when it is done with the submission `last_done`: those before the first
    /// whose index is above `last_done`.
    pub open spec fn done_count(self, last_done: SubmissionIndex, n: int) -> int
        decreases n,
    {
        if n <= 0 {
            0
        } else if self.done_count(last_done, n - 1) < n - 1 {
            self.done_count(last_done, n - 1)
        } else if self.active[n - 1].index > last_done {
            n - 1
        } else {
            n
        }
    }
}

/// What goes on where, while the suspected resources are looked at: the tracker and the
/// resources that the device keeps track of.
pub ghost struct TriageView {
    pub life: LifeView,
    pub kept: Seq<TrackedResource>,
}

/// The look at one suspected resource: if the device alone holds it, the device lets
/// go of it and it is set to be destroyed; if not, nothing happens.
pub open spec fn spec_triage_one(state: TriageView, resource: ResourceRef) -> TriageView {
    match spec_find_unique(state.kept, resource, state.kept.len() as int) {
        Some(k) => TriageView {
            life: state.life.retire(resource, state.kept[k].submission_index),
            kept: state.kept.remove(k),
        },
        None => state,
    }
}

/// The look at the first `n` of the suspected resources, one after the other.
pub open spec fn spec_triage(state: TriageView, suspected: Seq<ResourceRef>, n: int) -> TriageView
    decreases n,
{
    if n <= 0 {
        state
    } else {
        spec_triage_one(spec_triage(state, suspected, n - 1), suspected[n - 1])
    }
}

/// The sorting in of the first `n` buffers that wait to be mapped.
pub open spec fn spec_sort_in(life: LifeView, pending: Seq<PendingMap>, n: int) -> LifeView
    decreases n,
{
    if n <= 0 {
        life
    } else {
        spec_sort_in(life, pending, n - 1).sort_in(pending[n - 1])
    }
}

/// What the first `n` active submissions leave behind when they retire, added to what
/// was gathered before.
pub ghost struct Retired {
    /// The resources to destroy.
    pub free_resources: Seq<ResourceRef>,
    /// The buffers to map.
    pub ready_to_map: Seq<BufferId>,
    /// The command encoders to hand back.
    pub encoders: Seq<Id>,
    /// Whom to tell.
    pub closures: Seq<Id>,
}

pub open spec fn spec_retired(life: LifeView, n: int) -> Retired
    decreases n,
{
    if n <= 0 {
        Retired {
            free_resources: life.free_resources,
            ready_to_map: life.ready_to_map,
            encoders: Seq::empty(),
            closures: Seq::empty(),
        }
    } else {
        let before = spec_retired(life, n - 1);
        Retired {
            free_resources: before.free_resources + life.active[n - 1].last_resources,
            ready_to_map: before.ready_to_map + life.active[n - 1].mapped,
            encoders: before.encoders + life.active[n - 1].encoders,
            closures: before.closures + life.active[n - 1].work_done_closures,
        }
    }
}

fn append_all<T: Copy>(target: &mut Vec<T>, source: &Vec<T>)
    ensures
        final(target)@ == old(target)@ + source@,
{
    let mut i: usize = 0;
    while i < source.len()
        invariant
            i <= source@.len(),
            target@ == old(target)@ + source@.take(i as int),
        decreases source@.len() - i,
    {
        target.push(source[i]);
        i += 1;
        assert(target@ =~= old(target)@ + source@.take(i as int));
    }
    assert(source@.take(i as int) =~= source@);
}

/// Where all of the first `n` active submissions are done, all `n` are counted.
proof fn lemma_done_all(life: LifeView, last_done: SubmissionIndex, n: int)
    requires
        0 <= n <= life.active.len(),
        forall|j: int| 0 <= j < n ==> (#[trigger] life.active[j]).index <= last_done,
    ensures
        life.done_count(last_done, n) == n,
    decreases n,
{
    if n > 0 {
        lemma_done_all(life, last_done, n - 1);
    }
}

/// The count stops at the first active submission that is not done.
proof fn lemma_done_stops(life: LifeView, last_done: SubmissionIndex, k: int, n: int)
    requires
        0 <= k < n <= life.active.len(),
        life.done_count(last_done, k) == k,
        life.active[k].index > last_done,
    ensures
        life.done_count(last_done, n) == k,
    decreases n,
{
    if n > k + 1 {
        lemma_done_stops(life, last_done, k, n - 1);
    }
}

impl LifetimeTracker {
    /// The tracker with nothing in it.
    pub fn new() -> (r: Self)
        ensures
            r@.wf(),
            r@.mapped.len() == 0,
            r@.suspected_resources.len() == 0,
            r@.active.len() == 0,
            r@.free_resources.len() == 0,
            r@.ready_to_map.len() == 0,
    {
        LifetimeTracker {
            mapped: Vec::new(),
            suspected_resources: Vec::new(),
            active: Vec::new(),
            free_resources: Vec::new(),
            ready_to_map: Vec::new(),
        }
    }

    /// Whether no submission is left that the hardware may not be done with.
    pub fn queue_empty(&self) -> (r: bool)
        ensures
            r == (self@.active.len() == 0),
    {
        self.active.len() == 0
    }

    /// Starts to keep track of a submission, which must be later than every submission
    /// that is still active. The resources given are destroyed, and the command encoders
    /// handed back, once the submission has retired.
    pub fn track_submission(
        &mut self,
        index: SubmissionIndex,
        temp_resources: Vec<ResourceRef>,
        encoders: Vec<Id>,
    )
        requires
            old(self)@.wf(),
            forall|i: int|
                0 <= i < old(self)@.active.len() ==> (#[trigger] old(self)@.active[i]).index
                    < index,
        ensures
            final(self)@.wf(),
            final(self)@ == (LifeView {
                active: old(self)@.active.push(
                    ActiveSubmissionView {
                        index,
                        last_resources: temp_resources@,
                        mapped: Seq::empty(),
                        encoders: encoders@,
                        work_done_closures: Seq::empty(),
                    },
                ),
                ..old(self)@
            }),
    {
        let ghost before = self@;
        let submission = ActiveSubmission {
            index,
            last_resources: temp_resources,
            mapped: Vec::new(),
            encoders,
            work_done_closures: Vec::new(),
        };
        self.active.push(submission);
        assert(self@.active =~= before.active.push(submission@));
        assert(self@ =~= (LifeView { active: before.active.push(submission@), ..before }));
    }

    /// Sets `resource`, which the submission `index` used last, to be destroyed: when
    /// that submission retires, if it is still active, and at the end of the maintenance
    /// if not.
    #[verifier::loop_isolation(false)]
    fn retire(&mut self, resource: ResourceRef, index: SubmissionIndex)
        ensures
            final(self)@ == old(self)@.retire(resource, index),
    {
        let ghost before = self@;
        let mut i: usize = 0;
        while i < self.active.len()
            invariant
                i <= self.active@.len(),
                self@ == before,
                spec_find_active(before.active, index, i as int) is None,
            decreases self.active@.len() - i,
        {
            if self.active[i].index == index {
                proof {
                    lemma_find_active_stays(
                        before.active,
                        index,
                        i as int + 1,
                        before.active.len() as int,
                    );
                }
                let mut submission = self.active.remove(i);
                submission.last_resources.push(resource);
                self.active.insert(i, submission);
                assert(self@.active =~= before.active.update(
                    i as int,
                    ActiveSubmissionView {
                        last_resources: before.active[i as int].last_resources.push(resource),
                        ..before.active[i as int]
                    },
                ));
                assert(self@ =~= before.retire(resource, index));
                return ;
            }
            i += 1;
        }
        self.free_resources.push(resource);
        assert(self@ =~= before.retire(resource, index));
    }

    /// Sorts in a buffer that waits to be mapped.
    #[verifier::loop_isolation(false)]
    fn sort_in(&mut self, pending: PendingMap)
        ensures
            final(self)@ == old(self)@.sort_in(pending),
    {
        let ghost before = self@;
        let mut i: usize = 0;
        while i < self.active.len()
            invariant
                i <= self.active@.len(),
                self@ == before,
                spec_find_active(before.active, pending.submission_index, i as int) is None,
            decreases self.active@.len() - i,
        {
            if self.active[i].index == pending.submission_index {
                proof {
                    lemma_find_active_stays(
                        before.active,
                        pending.submission_index,
                        i as int + 1,
                        before.active.len() as int,
                    );
                }
                let mut submission = self.active.remove(i);
                submission.mapped.push(pending.buffer);
                self.active.insert(i, submission);
                assert(self@.active =~= before.active.update(
                    i as int,
                    ActiveSubmissionView {
                        mapped: before.active[i as int].mapped.push(pending.buffer),
                        ..before.active[i as int]
                    },
                ));
                assert(self@ =~= before.sort_in(pending));
                return ;
            }
            i += 1;
        }
        self.ready_to_map.push(pending.buffer);
        assert(self@ =~= before.sort_in(pending));
    }

    /// Looks again at each suspected resource, in the order in which they were
    /// suspected. A resource that the device alone holds is let go of by the device, and
    /// set to be destroyed: when the last submission that used it retires, if that is
    /// still active, and at the end of the maintenance if not. A resource that someone
    /// holds again, or that the device does not keep track of, is suspected no more.
    pub fn triage_suspected(&mut self, trackers: &mut Tracker)
        ensures
            (TriageView { life: final(self)@, kept: final(trackers).resources@ }) == spec_triage(
                TriageView {
                    life: LifeView { suspected_resources: Seq::empty(), ..old(self)@ },
                    kept: old(trackers).resources@,
                },
                old(self)@.suspected_resources,
                old(self)@.suspected_resources.len() as int,
            ),
    {
        let ghost before = self@;
        let ghost start = TriageView {
            life: LifeView { suspected_resources: Seq::empty(), ..before },
            kept: trackers.resources@,
        };
        let mut suspected: Vec<ResourceRef> = Vec::new();
        append_all(&mut suspected, &self.suspected_resources);
        self.suspected_resources = Vec::new();
        assert(suspected@ =~= before.suspected_resources);
        assert(self@ =~= start.life);
        let mut i: usize = 0;
        while i < suspected.len()
            invariant
                i <= suspected@.len(),
                (TriageView { life: self@, kept: trackers.resources@ }) == spec_triage(
                    start,
                    suspected@,
                    i as int,
                ),
            decreases suspected@.len() - i,
        {
            let resource = suspected[i];
            match trackers.remove_abandoned(resource) {
                Some(submit_index) => {
                    self.retire(resource, submit_index);
                },
                None => {},
            }
            i += 1;
        }
    }

    /// Sorts in the buffers that were asked to be mapped since the last maintenance: each
    /// is mapped when the last submission that used it retires, if that is still active,
    /// and at the end of the maintenance if not.
    pub fn triage_mapped(&mut self)
        ensures
            final(self)@ == spec_sort_in(
                LifeView { mapped: Seq::empty(), ..old(self)@ },
                old(self)@.mapped,
                old(self)@.mapped.len() as int,
            ),
    {
        let ghost before = self@;
        let mut pending: Vec<PendingMap> = Vec::new();
        append_all(&mut pending, &self.mapped);
        self.mapped = Vec::new();
        assert(pending@ =~= before.mapped);
        assert(self@ =~= (LifeView { mapped: Seq::empty(), ..before }));
        let mut i: usize = 0;
        while i < pending.len()
            invariant
                i <= pending@.len(),
                self@ == spec_sort_in(
                    LifeView { mapped: Seq::empty(), ..before },
                    pending@,
                    i as int,
                ),
            decreases pending@.len() - i,
        {
            self.sort_in(pending[i]);
            i += 1;
        }
    }

    /// Takes note that the hardware is done with the submission `last_done`, and with
    /// all before it. The active submissions up to the first that is later retire: what
    /// they were to destroy is destroyed at the end of the maintenance, and what they
    /// were to map is mapped. What comes back is whom to tell, and the command encoders
    /// to hand back.
    pub fn triage_submissions(&mut self, last_done: SubmissionIndex) -> (r: (Vec<Id>, Vec<Id>))
        ensures
            ({
                let done = old(self)@.done_count(last_done, old(self)@.active.len() as int);
                let retired = spec_retired(old(self)@, done);
                &&& 0 <= done <= old(self)@.active.len()
                &&& final(self)@ == (LifeView {
                    active: old(self)@.active.skip(done),
                    free_resources: retired.free_resources,
                    ready_to_map: retired.ready_to_map,
                    ..old(self)@
                })
                &&& r.0@ == retired.closures
                &&& r.1@ == retired.encoders
            }),
            old(self)@.wf() ==> final(self)@.wf(),
    {
        let ghost before = self@;
        let mut closures: Vec<Id> = Vec::new();
        let mut encoders: Vec<Id> = Vec::new();
        let mut done: usize = 0;
        let total = self.active.len();
        assert(before.active.len() == total);
        assert(self@.active =~= before.active.skip(0));
        while self.active.len() > 0 && self.active[0].index <= last_done
            invariant
                0 <= done <= before.active.len() <= usize::MAX,
                self@.active == before.active.skip(done as int),
                self@.mapped == before.mapped,
                self@.suspected_resources == before.suspected_resources,
                forall|j: int| 0 <= j < done ==> (#[trigger] before.active[j]).index <= last_done,
                self@.free_resources == spec_retired(before, done as int).free_resources,
                self@.ready_to_map == spec_retired(before, done as int).ready_to_map,
                closures@ == spec_retired(before, done as int).closures,
                encoders@ == spec_retired(before, done as int).encoders,
            decreases self.active@.len(),
        {
            assert(self@.active.len() == before.active.len() - done);
            assert(before.active.skip(done as int)[0] == before.active[done as int]);
            assert(self@.active[0] == self.active@[0]@);
            let ghost held = self.active@;
            let ghost views = self@.active;
            let submission = self.active.remove(0);
            append_all(&mut self.free_resources, &submission.last_resources);
            append_all(&mut self.ready_to_map, &submission.mapped);
            append_all(&mut encoders, &submission.encoders);
            append_all(&mut closures, &submission.work_done_closures);
            done += 1;
            assert(self@.active =~= before.active.skip(done as int)) by {
                assert(self.active@ == held.remove(0));
                assert forall|i: int| 0 <= i < self@.active.len() implies self@.active[i]
                    == before.active.skip(done as int)[i] by {
                    assert(self@.active[i] == self.active@[i]@);
                    assert(self.active@[i] == held[i + 1]);
                    assert(views[i + 1] == held[i + 1]@);
                    assert(views[i + 1] == before.active.skip(done as int - 1)[i + 1]);
                }
            }
        }
        proof {
            lemma_done_all(before, last_done, done as int);
            if done < before.active.len() {
                assert(self@.active.len() == before.active.len() - done);
                assert(before.active.skip(done as int)[0] == before.active[done as int]);
                assert(self@.active[0] == self.active@[0]@);
                lemma_done_stops(before, last_done, done as int, before.active.len() as int);
            }
            assert(self@ =~= (LifeView {
                active: before.active.skip(done as int),
                free_resources: spec_retired(before, done as int).free_resources,
                ready_to_map: spec_retired(before, done as int).ready_to_map,
                ..before
            }));
        }
        (closures, encoders)
    }

    /// Hands out the buffers that are ready to be mapped.
    pub fn handle_mapping(&mut self) -> (r: Vec<BufferId>)
        ensures
            r@ == old(self)@.ready_to_map,
            final(self)@ == (LifeView { ready_to_map: Seq::empty(), ..old(self)@ }),
    {
        let ghost before = self@;
        let mut ready: Vec<BufferId> = Vec::new();
        append_all(&mut ready, &self.ready_to_map);
        self.ready_to_map = Vec::new();
        assert(ready@ =~= before.ready_to_map);
        assert(self@ =~= (LifeView { ready_to_map: Seq::empty(), ..before }));
        ready
    }

    /// Hands out the resources that the hardware is done with, to be destroyed.
    pub fn cleanup(&mut self) -> (r: Vec<ResourceRef>)
        ensures
            r@ == old(self)@.free_resources,
            final(self)@ == (LifeView { free_resources: Seq::empty(), ..old(self)@ }),
    {
        let ghost before = self@;
        let mut free: Vec<ResourceRef> = Vec::new();
        append_all(&mut free, &self.free_resources);
        self.free_resources = Vec::new();
        assert(free@ =~= before.free_resources);
        assert(self@ =~= (LifeView { free_resources: Seq::empty(), ..before }));
        free
    }
}

/// Where the hardware is done with every active submission, all of them are counted.
pub proof fn lemma_done_everything(life: LifeView, last_done: SubmissionIndex)
    requires
        forall|i: int| 0 <= i < life.active.len() ==> (#[trigger] life.active[i]).index <= last_done,
    ensures
        life.done_count(last_done, life.active.len() as int) == life.active.len(),
{
    lemma_done_all(life, last_done, life.active.len() as int);
}

/// Whether `resource` waits to be destroyed for the active submission `index` to
/// retire.
pub open spec fn spec_pending_at(life: LifeView, resource: ResourceRef, index: SubmissionIndex) -> bool {
    exists|j: int|
        0 <= j < life.active.len() && (#[trigger] life.active[j]).index == index
            && life.active[j].last_resources.contains(resource)
}

/// Whether some active submission has the given index.
pub open spec fn spec_is_active(life: LifeView, index: SubmissionIndex) -> bool {
    exists|j: int| 0 <= j < life.active.len() && (#[trigger] life.active[j]).index == index
}

/// Whether `resource` is set to be destroyed: at the end of the maintenance, or when
/// the active submission `index` retires.
pub open spec fn spec_set_to_destroy(
    life: LifeView,
    resource: ResourceRef,
    index: SubmissionIndex,
) -> bool {
    life.free_resources.contains(resource) || spec_pending_at(life, resource, index)
}

/// Whether `after` holds all that `before` holds to be destroyed, in the same places:
/// the active submissions are the same, and nothing that was to be destroyed has been
/// dropped.
pub open spec fn spec_grown(before: LifeView, after: LifeView) -> bool {
    &&& after.active.len() == before.active.len()
    &&& forall|j: int|
        0 <= j < before.active.len() ==> (#[trigger] after.active[j]).index
            == before.active[j].index
    &&& forall|j: int, x: ResourceRef|
        0 <= j < before.active.len() && before.active[j].last_resources.contains(x) ==> (
        #[trigger] after.active[j].last_resources.contains(x))
    &&& forall|x: ResourceRef|
        before.free_resources.contains(x) ==> #[trigger] after.free_resources.contains(x)
}

/// Setting a resource to be destroyed drops nothing, and puts the resource where it
/// belongs.
pub proof fn lemma_retire(life: LifeView, resource: ResourceRef, index: SubmissionIndex)
    ensures
        spec_grown(life, life.retire(resource, index)),
        life.wf() ==> life.retire(resource, index).wf(),
        if spec_is_active(life, index) {
            spec_pending_at(life.retire(resource, index), resource, index)
        } else {
            life.retire(resource, index).free_resources.contains(resource)
        },
        forall|j: int, x: ResourceRef|
            0 <= j < life.active.len() && life.retire(resource, index).active[j].last_resources.contains(
                x,
            ) ==> life.active[j].last_resources.contains(x) || (x == resource
                && life.active[j].index == index),
        forall|x: ResourceRef|
            life.retire(resource, index).free_resources.contains(x)
                ==> life.free_resources.contains(x) || (x == resource && !spec_is_active(
                life,
                index,
            )),
{
    let after = life.retire(resource, index);
    lemma_find_active(life.active, index, life.active.len() as int);
    match spec_find_active(life.active, index, life.active.len() as int) {
        Some(k) => {
            let grown = life.active[k].last_resources.push(resource);
            assert(grown[grown.len() - 1] == resource);
            assert(after.active[k].last_resources == grown);
            assert forall|j: int, x: ResourceRef|
                0 <= j < life.active.len() && life.active[j].last_resources.contains(
                    x,
                ) implies #[trigger] after.active[j].last_resources.contains(x) by {
                if j == k {
                    let at = choose|at: int|
                        0 <= at < life.active[j].last_resources.len()
                            && life.active[j].last_resources[at] == x;
                    assert(grown[at] == x);
                }
            }
            assert forall|j: int, x: ResourceRef|
                0 <= j < life.active.len() && after.active[j].last_resources.contains(
                    x,
                ) implies life.active[j].last_resources.contains(x) || (x == resource
                && life.active[j].index == index) by {
                if j == k {
                    let at = choose|at: int| 0 <= at < grown.len() && grown[at] == x;
                    if at < grown.len() - 1 {
                        assert(life.active[j].last_resources[at] == x);
                    }
                }
            }
        },
        None => {
            let grown = life.free_resources.push(resource);
            assert(grown[grown.len() - 1] == resource);
            assert forall|x: ResourceRef| life.free_resources.contains(x) implies #[trigger]
                after.free_resources.contains(x) by {
                let at = choose|at: int|
                    0 <= at < life.free_resources.len() && life.free_resources[at] == x;
                assert(grown[at] == x);
            }
            assert forall|x: ResourceRef|
                after.free_resources.contains(x) implies life.free_resources.contains(x) || (x
                == resource && !spec_is_active(life, index)) by {
                let at = choose|at: int| 0 <= at < grown.len() && grown[at] == x;
                if at < grown.len() - 1 {
                    assert(life.free_resources[at] == x);
                }
            }
        },
    }
}

/// Letting go of one resource leaves the first unique entry of any other resource what
/// it was.
pub proof fn lemma_find_unique_after_remove(
    kept: Seq<TrackedResource>,
    resource: ResourceRef,
    removed: int,
)
    requires
        0 <= removed < kept.len(),
        kept[removed].resource != resource,
    ensures
        match spec_find_unique(kept, resource, kept.len() as int) {
            Some(k) => spec_find_unique(
                kept.remove(removed),
                resource,
                kept.len() - 1,
            ) matches Some(after) && kept.remove(removed)[after] == kept[k],
            None => spec_find_unique(kept.remove(removed), resource, kept.len() - 1) is None,
        },
{
    let shorter = kept.remove(removed);
    lemma_find_unique(kept, resource, kept.len() as int);
    lemma_find_unique(shorter, resource, shorter.len() as int);
    match spec_find_unique(kept, resource, kept.len() as int) {
        Some(k) => {
            let moved = if k < removed {
                k
            } else {
                k - 1
            };
            assert(shorter[moved] == kept[k]);
            match spec_find_unique(shorter, resource, shorter.len() as int) {
                Some(after) => {
                    let back = if after < removed {
                        after
                    } else {
                        after + 1
                    };
                    assert(kept[back] == shorter[after]);
                    if after < moved {
                        assert(back < k);
                    } else if moved < after {
                    }
                },
                None => {},
            }
        },
        None => {
            match spec_find_unique(shorter, resource, shorter.len() as int) {
                Some(after) => {
                    let back = if after < removed {
                        after
                    } else {
                        after + 1
                    };
                    assert(kept[back] == shorter[after]);
                },
                None => {},
            }
        },
    }
}

/// Looking at suspected resources drops nothing that was set to be destroyed, and
/// keeps the order of the active submissions.
pub proof fn lemma_triage_grows(state: TriageView, suspected: Seq<ResourceRef>, n: int)
    requires
        0 <= n <= suspected.len(),
    ensures
        spec_grown(state.life, spec_triage(state, suspected, n).life),
        state.life.wf() ==> spec_triage(state, suspected, n).life.wf(),
    decreases n,
{
    if n > 0 {
        lemma_triage_grows(state, suspected, n - 1);
        let before = spec_triage(state, suspected, n - 1);
        match spec_find_unique(before.kept, suspected[n - 1], before.kept.len() as int) {
            Some(k) => {
                lemma_retire(before.life, suspected[n - 1], before.kept[k].submission_index);
            },
            None => {},
        }
    }
}

/// A suspected resource that the device alone holds is set to be destroyed once the
/// suspected resources have been looked at: when the submission that used it last
/// retires, if that is active, and at the end of the maintenance if not.
pub proof fn lemma_triage_places(
    state: TriageView,
    suspected: Seq<ResourceRef>,
    n: int,
    resource: ResourceRef,
    index: SubmissionIndex,
)
    requires
        0 <= n <= suspected.len(),
        spec_find_unique(state.kept, resource, state.kept.len() as int) matches Some(k)
            && state.kept[k].submission_index == index,
    ensures
        ({
            let after = spec_triage(state, suspected, n);
            let placed = if spec_is_active(state.life, index) {
                spec_pending_at(after.life, resource, index)
            } else {
                after.life.free_resources.contains(resource)
            };
            &&& placed || (spec_find_unique(
                after.kept,
                resource,
                after.kept.len() as int,
            ) matches Some(k) && after.kept[k].submission_index == index)
            &&& (exists|m: int| 0 <= m < n && suspected[m] == resource) ==> placed
        }),
    decreases n,
{
    if n > 0 {
        lemma_triage_places(state, suspected, n - 1, resource, index);
        lemma_triage_grows(state, suspected, n - 1);
        let before = spec_triage(state, suspected, n - 1);
        let after = spec_triage(state, suspected, n);
        let x = suspected[n - 1];
        lemma_find_unique(before.kept, x, before.kept.len() as int);
        let was_placed = if spec_is_active(state.life, index) {
            spec_pending_at(before.life, resource, index)
        } else {
            before.life.free_resources.contains(resource)
        };
        if spec_is_active(state.life, index) {
            let j = choose|j: int|
                0 <= j < state.life.active.len() && (#[trigger] state.life.active[j]).index
                    == index;
            assert(before.life.active[j].index == index);
            assert(spec_is_active(before.life, index));
        } else {
            assert(!spec_is_active(before.life, index)) by {
                if spec_is_active(before.life, index) {
                    let j = choose|j: int|
                        0 <= j < before.life.active.len() && (
                        #[trigger] before.life.active[j]).index == index;
                    assert(state.life.active[j].index == index);
                }
            }
        }
        match spec_find_unique(before.kept, x, before.kept.len() as int) {
            Some(k) => {
                lemma_retire(before.life, x, before.kept[k].submission_index);
                if was_placed {
                    if spec_is_active(state.life, index) {
                        let j = choose|j: int|
                            0 <= j < before.life.active.len() && (
                            #[trigger] before.life.active[j]).index == index
                                && before.life.active[j].last_resources.contains(resource);
                        assert(after.life.active[j].index == index);
                        assert(after.life.active[j].last_resources.contains(resource));
                    }
                } else if x != resource {
                    lemma_find_unique_after_remove(before.kept, resource, k);
                }
            },
            None => {},
        }
        if exists|m: int| 0 <= m < n && suspected[m] == resource {
            let m = choose|m: int| 0 <= m < n && suspected[m] == resource;
            if m < n - 1 {
                assert(was_placed);
            }
        }
    }
}

/// What is to be destroyed at the end of the maintenance is destroyed whichever
/// submissions retire; and what waits for one of the first `n` active submissions is
/// destroyed when these retire.
pub proof fn lemma_retired_holds(life: LifeView, n: int)
    requires
        0 <= n <= life.active.len(),
    ensures
        forall|x: ResourceRef|
            life.free_resources.contains(x) ==> #[trigger] spec_retired(
                life,
                n,
            ).free_resources.contains(x),
        forall|j: int, x: ResourceRef|
            0 <= j < n && #[trigger] life.active[j].last_resources.contains(x) ==> spec_retired(
                life,
                n,
            ).free_resources.contains(x),
        forall|x: ResourceRef|
            #[trigger] spec_retired(life, n).free_resources.contains(x)
                ==> life.free_resources.contains(x) || exists|j: int|
                0 <= j < n && (#[trigger] life.active[j]).last_resources.contains(x),
    decreases n,
{
    if n > 0 {
        lemma_retired_holds(life, n - 1);
        let before = spec_retired(life, n - 1).free_resources;
        let added = life.active[n - 1].last_resources;
        let after = spec_retired(life, n).free_resources;
        assert(after == before + added);
        assert forall|x: ResourceRef| before.contains(x) implies after.contains(x) by {
            let at = choose|at: int| 0 <= at < before.len() && before[at] == x;
            assert(after[at] == x);
        }
        assert forall|x: ResourceRef| added.contains(x) implies after.contains(x) by {
            let at = choose|at: int| 0 <= at < added.len() && added[at] == x;
            assert(after[before.len() + at] == x);
        }
        assert forall|x: ResourceRef| #[trigger] after.contains(x) implies before.contains(x)
            || added.contains(x) by {
            let at = choose|at: int| 0 <= at < after.len() && after[at] == x;
            if at < before.len() {
                assert(before[at] == x);
            } else {
                assert(added[at - before.len()] == x);
            }
        }
    }
}

/// A resource that is set to be destroyed is destroyed once the hardware is done with
/// the submission that it waits for.
pub proof fn lemma_retirement_destroys(
    life: LifeView,
    resource: ResourceRef,
    index: SubmissionIndex,
    last_done: SubmissionIndex,
)
    requires
        life.wf(),
        spec_set_to_destroy(life, resource, index),
        index <= last_done,
    ensures
        spec_retired(
            life,
            life.done_count(last_done, life.active.len() as int),
        ).free_resources.contains(resource),
{
    let done = life.done_count(last_done, life.active.len() as int);
    lemma_done_count_bounds(life, last_done, life.active.len() as int);
    lemma_retired_holds(life, done);
    if !life.free_resources.contains(resource) {
        let j = choose|j: int|
            0 <= j < life.active.len() && (#[trigger] life.active[j]).index == index
                && life.active[j].last_resources.contains(resource);
        if done <= j {
            assert(life.active[done].index > last_done);
            if done < j {
                assert(life.active[done].index < life.active[j].index);
            }
        }
    }
}

/// The submissions that are counted as done are done, and the first that is not
/// counted is not done.
pub proof fn lemma_done_count_bounds(life: LifeView, last_done: SubmissionIndex, n: int)
    requires
        0 <= n <= life.active.len(),
    ensures
        0 <= life.done_count(last_done, n) <= n,
        forall|i: int|
            0 <= i < life.done_count(last_done, n) ==> (#[trigger] life.active[i]).index
                <= last_done,
        life.done_count(last_done, n) < n ==> life.active[life.done_count(last_done, n)].index
            > last_done,
    decreases n,
{
    if n > 0 {
        lemma_done_count_bounds(life, last_done, n - 1);
    }
}

} // verus!
