//! The per-object serialiser: at most one pass runs per object, later
//! snapshots of the same object wait in a bounded queue, and the worker of an
//! object ends with the object's deletion.
//!
//! The serialiser holds one slot per object that has a worker. It is told of
//! two things: that a snapshot is submitted, and that the pass which a worker
//! was running has ended. Each time it answers what the worker is to run
//! next. A snapshot travels with a reply handle of the caller's choice, to
//! which the result of its pass is delivered.

use crate::ddns::error::{Error, ErrorView};
use crate::resource::{identity_of, Ddns, DdnsView, Identity, IdentityView};
use crate::text::owned;
use vstd::prelude::*;

verus! {

/// The number of snapshots that can wait for one object.
pub const QUEUE_CAPACITY: usize = 3;

/// A snapshot to reconcile and the handle to deliver the result to.
#[derive(Debug, PartialEq, Eq)]
pub struct Job<T> {
    pub ddns: Ddns,
    pub reply: T,
}

/// The content of a [`Job`].
pub struct JobView<T> {
    pub ddns: DdnsView,
    pub reply: T,
}

impl<T> View for Job<T> {
    type V = JobView<T>;

    open spec fn view(&self) -> JobView<T> {
        JobView { ddns: self.ddns@, reply: self.reply }
    }
}

/// The contents of a list of jobs.
pub open spec fn job_views<T>(jobs: Seq<Job<T>>) -> Seq<JobView<T>> {
    jobs.map_values(|job: Job<T>| job@)
}

/// Whether a job deletes its object.
pub open spec fn is_delete<T>(job: JobView<T>) -> bool {
    job.ddns.metadata.deletion_timestamp.is_some()
}

/// The worker of one object: whether it is running a pass, and the jobs that
/// wait for it, oldest first.
pub struct SlotView<T> {
    pub id: IdentityView,
    pub busy: bool,
    pub queue: Seq<JobView<T>>,
}

struct Slot<T> {
    id: Identity,
    busy: bool,
    queue: Vec<Job<T>>,
}

impl<T> View for Slot<T> {
    type V = SlotView<T>;

    closed spec fn view(&self) -> SlotView<T> {
        SlotView { id: self.id@, busy: self.busy, queue: job_views(self.queue@) }
    }
}

/// No object has two workers, only a busy worker has jobs waiting, and no
/// more than [`QUEUE_CAPACITY`] jobs wait for any worker.
pub open spec fn well_formed<T>(slots: Seq<SlotView<T>>) -> bool {
    &&& forall|i: int, j: int| 0 <= i < j < slots.len() ==> slots[i].id != slots[j].id
    &&& forall|i: int|
        0 <= i < slots.len() ==> (#[trigger] slots[i]).queue.len() <= QUEUE_CAPACITY && (
        slots[i].busy || slots[i].queue.len() == 0)
}

/// Whether the object `id` has a worker.
pub open spec fn has_worker<T>(slots: Seq<SlotView<T>>, id: IdentityView) -> bool {
    exists|i: int| 0 <= i < slots.len() && (#[trigger] slots[i]).id == id
}

/// The position of the worker of the object `id`.
pub open spec fn worker_of<T>(slots: Seq<SlotView<T>>, id: IdentityView) -> int {
    choose|i: int| 0 <= i < slots.len() && (#[trigger] slots[i]).id == id
}

/// Whether a pass is running for the object `id` under a registered worker.
pub open spec fn in_flight<T>(slots: Seq<SlotView<T>>, id: IdentityView) -> bool {
    has_worker(slots, id) && slots[worker_of(slots, id)].busy
}

/// What became of a submitted job.
#[derive(Debug, PartialEq, Eq)]
pub enum Submission<T> {
    /// No pass is running for the object: the job is to be run at once.
    Run(Job<T>),
    /// A pass is running for the object: the job waits in the queue.
    Queued,
    /// The queue of the object is full: the job is handed back, and the caller
    /// is to wait and submit it again.
    Full(Job<T>),
}

/// The content of a [`Submission`].
pub enum SubmissionView<T> {
    Run(JobView<T>),
    Queued,
    Full(JobView<T>),
}

impl<T> View for Submission<T> {
    type V = SubmissionView<T>;

    open spec fn view(&self) -> SubmissionView<T> {
        match self {
            Submission::Run(job) => SubmissionView::Run(job@),
            Submission::Queued => SubmissionView::Queued,
            Submission::Full(job) => SubmissionView::Full(job@),
        }
    }
}

/// What a worker does once its pass has ended.
#[derive(Debug, PartialEq, Eq)]
pub enum Finish<T> {
    /// The next job of the queue is to be run.
    Run(Job<T>),
    /// The next job of the queue deletes the object: it is to be run, the
    /// worker ends with it, and the jobs that waited behind it are given up.
    RunLast { job: Job<T>, abandoned: Vec<Job<T>> },
    /// Nothing waits: the worker stays, idle.
    Idle,
    /// The object has no worker that runs a pass.
    Unknown,
}

/// The content of a [`Finish`].
pub enum FinishView<T> {
    Run(JobView<T>),
    RunLast { job: JobView<T>, abandoned: Seq<JobView<T>> },
    Idle,
    Unknown,
}

impl<T> View for Finish<T> {
    type V = FinishView<T>;

    open spec fn view(&self) -> FinishView<T> {
        match self {
            Finish::Run(job) => FinishView::Run(job@),
            Finish::RunLast { job, abandoned } => FinishView::RunLast {
                job: job@,
                abandoned: job_views(abandoned@),
            },
            Finish::Idle => FinishView::Idle,
            Finish::Unknown => FinishView::Unknown,
        }
    }
}

/// The slots and the answer after `job` is submitted.
///
/// An object without a worker gets one, which runs the job at once; an idle
/// worker runs the job at once. A worker that is given a delete to run is
/// unregistered at that moment: it ends with that pass, and a later snapshot
/// of the object starts a new worker. A job for a busy worker waits, unless
/// [`QUEUE_CAPACITY`] jobs wait already.
pub open spec fn submitted<T>(slots: Seq<SlotView<T>>, job: JobView<T>) -> (
    Seq<SlotView<T>>,
    SubmissionView<T>,
) {
    let id = identity_of(job.ddns);
    if !has_worker(slots, id) {
        if is_delete(job) {
            (slots, SubmissionView::Run(job))
        } else {
            (
                slots.push(SlotView { id, busy: true, queue: Seq::empty() }),
                SubmissionView::Run(job),
            )
        }
    } else {
        let at = worker_of(slots, id);
        let slot = slots[at];
        if !slot.busy {
            if is_delete(job) {
                (slots.remove(at), SubmissionView::Run(job))
            } else {
                (slots.update(at, SlotView { busy: true, ..slot }), SubmissionView::Run(job))
            }
        } else if slot.queue.len() < QUEUE_CAPACITY {
            (
                slots.update(at, SlotView { queue: slot.queue.push(job), ..slot }),
                SubmissionView::Queued,
            )
        } else {
            (slots, SubmissionView::Full(job))
        }
    }
}

/// The slots and the answer after the pass that the worker of `id` was running
/// has ended.
///
/// The worker takes the oldest waiting job. Where that job is a delete, the
/// worker is unregistered and what waited behind the delete is given up.
/// Where nothing waits, the worker becomes idle.
pub open spec fn finished<T>(slots: Seq<SlotView<T>>, id: IdentityView) -> (
    Seq<SlotView<T>>,
    FinishView<T>,
) {
    if !in_flight(slots, id) {
        (slots, FinishView::Unknown)
    } else {
        let at = worker_of(slots, id);
        let slot = slots[at];
        if slot.queue.len() == 0 {
            (slots.update(at, SlotView { busy: false, ..slot }), FinishView::Idle)
        } else if is_delete(slot.queue[0]) {
            (
                slots.remove(at),
                FinishView::RunLast { job: slot.queue[0], abandoned: slot.queue.drop_first() },
            )
        } else {
            (
                slots.update(at, SlotView { queue: slot.queue.drop_first(), ..slot }),
                FinishView::Run(slot.queue[0]),
            )
        }
    }
}

/// The failure that is delivered to a job that was given up.
pub open spec fn stopped() -> ErrorView {
    ErrorView::Other("ddns handle task is stopped"@)
}

/// The failure that is delivered to a job that was given up.
pub fn stopped_error() -> (error: Error)
    ensures
        error@ == stopped(),
{
    Error::Other(owned("ddns handle task is stopped"))
}

/// The serialiser: the workers that are registered, one per object at most.
pub struct QueueReconciler<T> {
    slots: Vec<Slot<T>>,
}

/// The contents of a list of slots.
spec fn slot_views<T>(slots: Seq<Slot<T>>) -> Seq<SlotView<T>> {
    slots.map_values(|slot: Slot<T>| slot@)
}

impl<T> View for QueueReconciler<T> {
    type V = Seq<SlotView<T>>;

    closed spec fn view(&self) -> Seq<SlotView<T>> {
        slot_views(self.slots@)
    }
}

/// The position of the slot of `id`, if it has one.
fn find_slot<T>(slots: &Vec<Slot<T>>, id: &Identity) -> (found: Option<usize>)
    requires
        well_formed(slot_views(slots@)),
    ensures
        match found {
            Some(at) => at < slots@.len() && has_worker(slot_views(slots@), id@) && worker_of(
                slot_views(slots@),
                id@,
            ) == at,
            None => !has_worker(slot_views(slots@), id@),
        },
{
    let ghost views = slot_views(slots@);
    let mut i: usize = 0;
    while i < slots.len()
        invariant
            i <= slots.len(),
            views == slot_views(slots@),
            well_formed(views),
            forall|j: int| 0 <= j < i ==> (#[trigger] views[j]).id != id@,
        decreases slots.len() - i,
    {
        if slots[i].id.same(id) {
            proof {
                assert(views[i as int].id == id@);
                assert(has_worker(views, id@));
                let w = worker_of(views, id@);
                assert(views[w].id == id@);
                if w < i {
                    assert(views[w].id != views[i as int].id);
                }
                if i < w {
                    assert(views[i as int].id != views[w].id);
                }
            }
            return Some(i);
        }
        i += 1;
    }
    None
}

impl<T> QueueReconciler<T> {
    #[verifier::type_invariant]
    spec fn holds(self) -> bool {
        well_formed(self@)
    }

    /// A serialiser without any worker.
    pub fn new() -> (queue: QueueReconciler<T>)
        ensures
            queue@ == Seq::<SlotView<T>>::empty(),
    {
        let queue = QueueReconciler { slots: Vec::new() };
        assert(queue@ =~= Seq::<SlotView<T>>::empty());
        queue
    }

    /// The number of registered workers. The registry is always well formed.
    pub fn workers(&self) -> (count: usize)
        ensures
            count == self@.len(),
            well_formed(self@),
    {
        proof {
            use_type_invariant(self);
        }
        self.slots.len()
    }

    /// Whether the object `id` has a worker.
    pub fn is_online(&self, id: &Identity) -> (online: bool)
        ensures
            online == has_worker(self@, id@),
    {
        proof {
            use_type_invariant(self);
        }
        find_slot(&self.slots, id).is_some()
    }

    /// Whether a pass is running for the object `id` under a registered
    /// worker.
    pub fn is_busy(&self, id: &Identity) -> (busy: bool)
        ensures
            busy == in_flight(self@, id@),
    {
        proof {
            use_type_invariant(self);
        }
        match find_slot(&self.slots, id) {
            Some(at) => self.slots[at].busy,
            None => false,
        }
    }

    /// The number of jobs that wait for the object `id`.
    pub fn waiting(&self, id: &Identity) -> (count: usize)
        ensures
            count == if has_worker(self@, id@) {
                self@[worker_of(self@, id@)].queue.len()
            } else {
                0
            },
    {
        proof {
            use_type_invariant(self);
        }
        match find_slot(&self.slots, id) {
            Some(at) => self.slots[at].queue.len(),
            None => 0,
        }
    }

    /// Submits a snapshot together with the handle to deliver the result of
    /// its pass to.
    pub fn submit(&mut self, ddns: Ddns, reply: T) -> (answer: Submission<T>)
        ensures
            (final(self)@, answer@) == submitted(old(self)@, JobView { ddns: ddns@, reply }),
    {
        proof {
            use_type_invariant(&*self);
        }
        let ghost before = self@;
        let id = ddns.identity();
        let deleting = ddns.is_deleting();
        let job = Job { ddns, reply };
        let mut slots: Vec<Slot<T>> = Vec::new();
        assert(slot_views(slots@) =~= Seq::<SlotView<T>>::empty());
        core::mem::swap(&mut self.slots, &mut slots);
        let answer = match find_slot(&slots, &id) {
            None => {
                if !deleting {
                    let slot = Slot { id, busy: true, queue: Vec::new() };
                    assert(slot@.queue =~= Seq::<JobView<T>>::empty());
                    slots.push(slot);
                    assert(slot_views(slots@) =~= before.push(slot@));
                }
                Submission::Run(job)
            },
            Some(at) => {
                let mut slot = slots.remove(at);
                assert(slot_views(slots@) =~= before.remove(at as int));
                if !slot.busy {
                    if !deleting {
                        slot.busy = true;
                        slots.insert(at, slot);
                        assert(slot_views(slots@) =~= before.update(at as int, slot@));
                    }
                    Submission::Run(job)
                } else if slot.queue.len() < QUEUE_CAPACITY {
                    let ghost waiting = slot@.queue;
                    slot.queue.push(job);
                    assert(slot@.queue =~= waiting.push(job@));
                    slots.insert(at, slot);
                    assert(slot_views(slots@) =~= before.update(at as int, slot@));
                    Submission::Queued
                } else {
                    slots.insert(at, slot);
                    assert(slot_views(slots@) =~= before);
                    Submission::Full(job)
                }
            },
        };
        proof {
            lemma_submitted_well_formed(before, job@);
        }
        self.slots = slots;
        answer
    }

    /// Tells the serialiser that the pass which the worker of `id` was running
    /// has ended, and asks what the worker is to do next.
    pub fn finish(&mut self, id: &Identity) -> (answer: Finish<T>)
        ensures
            (final(self)@, answer@) == finished(old(self)@, id@),
    {
        proof {
            use_type_invariant(&*self);
        }
        let ghost before = self@;
        let mut slots: Vec<Slot<T>> = Vec::new();
        assert(slot_views(slots@) =~= Seq::<SlotView<T>>::empty());
        core::mem::swap(&mut self.slots, &mut slots);
        let answer = match find_slot(&slots, id) {
            None => Finish::Unknown,
            Some(at) => {
                let mut slot = slots.remove(at);
                assert(slot_views(slots@) =~= before.remove(at as int));
                if !slot.busy {
                    slots.insert(at, slot);
                    assert(slot_views(slots@) =~= before);
                    Finish::Unknown
                } else if slot.queue.len() == 0 {
                    slot.busy = false;
                    slots.insert(at, slot);
                    assert(slot_views(slots@) =~= before.update(at as int, slot@));
                    Finish::Idle
                } else {
                    let ghost waiting = slot@.queue;
                    let job = slot.queue.remove(0);
                    assert(job@ == waiting[0]);
                    assert(slot@.queue =~= waiting.drop_first());
                    if job.ddns.is_deleting() {
                        Finish::RunLast { job, abandoned: slot.queue }
                    } else {
                        slots.insert(at, slot);
                        assert(slot_views(slots@) =~= before.update(at as int, slot@));
                        Finish::Run(job)
                    }
                }
            },
        };
        proof {
            lemma_finished_well_formed(before, id@);
        }
        self.slots = slots;
        answer
    }
}

/// Submitting a job keeps the registry well formed.
pub proof fn lemma_submitted_well_formed<T>(slots: Seq<SlotView<T>>, job: JobView<T>)
    requires
        well_formed(slots),
    ensures
        well_formed(submitted(slots, job).0),
{
    let id = identity_of(job.ddns);
    let after = submitted(slots, job).0;
    if has_worker(slots, id) {
        let at = worker_of(slots, id);
        assert forall|i: int, j: int| 0 <= i < j < after.len() implies after[i].id
            != after[j].id by {
            if after.len() < slots.len() {
                let a = if i < at { i } else { i + 1 };
                let b = if j < at { j } else { j + 1 };
                assert(slots[a].id != slots[b].id);
            } else {
                assert(slots[i].id != slots[j].id);
            }
        }
        assert forall|i: int| 0 <= i < after.len() implies (#[trigger] after[i]).queue.len()
            <= QUEUE_CAPACITY && (after[i].busy || after[i].queue.len() == 0) by {
            if after.len() < slots.len() {
                let a = if i < at { i } else { i + 1 };
                assert(after[i] == slots[a]);
            } else if i != at {
                assert(after[i] == slots[i]);
            } else {
                assert(slots[at].queue.len() <= QUEUE_CAPACITY);
            }
        }
    } else {
        assert forall|i: int, j: int| 0 <= i < j < after.len() implies after[i].id
            != after[j].id by {
            if j < slots.len() {
                assert(slots[i].id != slots[j].id);
            } else {
                assert(slots[i].id != id);
            }
        }
        assert forall|i: int| 0 <= i < after.len() implies (#[trigger] after[i]).queue.len()
            <= QUEUE_CAPACITY && (after[i].busy || after[i].queue.len() == 0) by {
            if i < slots.len() {
                assert(after[i] == slots[i]);
            }
        }
    }
}

/// The end of a pass keeps the registry well formed.
pub proof fn lemma_finished_well_formed<T>(slots: Seq<SlotView<T>>, id: IdentityView)
    requires
        well_formed(slots),
    ensures
        well_formed(finished(slots, id).0),
{
    let after = finished(slots, id).0;
    if in_flight(slots, id) {
        let at = worker_of(slots, id);
        assert forall|i: int, j: int| 0 <= i < j < after.len() implies after[i].id
            != after[j].id by {
            if after.len() < slots.len() {
                let a = if i < at { i } else { i + 1 };
                let b = if j < at { j } else { j + 1 };
                assert(slots[a].id != slots[b].id);
            } else {
                assert(slots[i].id != slots[j].id);
            }
        }
        assert forall|i: int| 0 <= i < after.len() implies (#[trigger] after[i]).queue.len()
            <= QUEUE_CAPACITY && (after[i].busy || after[i].queue.len() == 0) by {
            if after.len() < slots.len() {
                let a = if i < at { i } else { i + 1 };
                assert(after[i] == slots[a]);
            } else if i != at {
                assert(after[i] == slots[i]);
            } else {
                assert(slots[at].queue.len() <= QUEUE_CAPACITY);
            }
        }
    }
}

} // verus!
