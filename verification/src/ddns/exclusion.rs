//! One pass per object: what the serialiser guarantees of the passes that are
//! in flight.
//!
//! A pass is in flight from the moment the serialiser hands its job out to be
//! run until the serialiser is told that it has ended. The passes of
//! registered workers are known to the serialiser itself; a delete runs under
//! a worker that was unregistered when it took the delete, so the deletes in
//! flight are kept here beside the serialiser's slots.

use crate::ddns::queue_reconciler::{
    finished,
    has_worker,
    in_flight,
    is_delete,
    lemma_finished_well_formed,
    lemma_submitted_well_formed,
    submitted,
    well_formed,
    worker_of,
    FinishView,
    JobView,
    SlotView,
    SubmissionView,
};
use crate::resource::{identity_of, IdentityView};
use vstd::multiset::Multiset;
use vstd::prelude::*;

verus! {

/// The serialiser's slots and the objects whose delete is in flight, each as
/// often as it has deletes in flight.
pub struct Pipeline<T> {
    pub slots: Seq<SlotView<T>>,
    pub retiring: Multiset<IdentityView>,
}

/// What can happen to the pipeline.
pub enum Happening<T> {
    /// A job is submitted.
    Submit(JobView<T>),
    /// The pass that the registered worker of the object was running has
    /// ended.
    Finish(IdentityView),
    /// A delete of the object has ended.
    Retire(IdentityView),
}

/// The number of passes that are in flight for the object `id`.
pub open spec fn passes<T>(pipeline: Pipeline<T>, id: IdentityView) -> nat {
    pipeline.retiring.count(id) + if in_flight(pipeline.slots, id) {
        1nat
    } else {
        0nat
    }
}

/// The pipeline after `happening`.
pub open spec fn happened<T>(pipeline: Pipeline<T>, happening: Happening<T>) -> Pipeline<T> {
    match happening {
        Happening::Submit(job) => {
            let answered = submitted(pipeline.slots, job);
            Pipeline {
                slots: answered.0,
                retiring: if answered.1 is Run && is_delete(job) {
                    pipeline.retiring.insert(identity_of(job.ddns))
                } else {
                    pipeline.retiring
                },
            }
        },
        Happening::Finish(id) => {
            let answered = finished(pipeline.slots, id);
            Pipeline {
                slots: answered.0,
                retiring: if answered.1 is RunLast {
                    pipeline.retiring.insert(id)
                } else {
                    pipeline.retiring
                },
            }
        },
        Happening::Retire(id) => Pipeline {
            retiring: pipeline.retiring.remove(id),
            ..pipeline
        },
    }
}

/// No object has more than one pass in flight.
pub open spec fn one_pass_each<T>(pipeline: Pipeline<T>) -> bool {
    forall|id: IdentityView| #[trigger] passes(pipeline, id) <= 1
}

/// Whether `happening` keeps to the rule under which the serialiser can keep
/// passes apart: no snapshot of an object is submitted while a delete of that
/// object is in flight.
pub open spec fn admissible<T>(pipeline: Pipeline<T>, happening: Happening<T>) -> bool {
    happening matches Happening::Submit(job) ==> pipeline.retiring.count(identity_of(job.ddns))
        == 0
}

/// Under a well-formed registry, a pass is in flight for an object exactly if
/// some slot of that object is busy.
pub proof fn lemma_in_flight<T>(slots: Seq<SlotView<T>>, id: IdentityView)
    requires
        well_formed(slots),
    ensures
        in_flight(slots, id) <==> exists|i: int|
            0 <= i < slots.len() && (#[trigger] slots[i]).id == id && slots[i].busy,
{
    if exists|i: int| 0 <= i < slots.len() && (#[trigger] slots[i]).id == id && slots[i].busy {
        let i = choose|i: int|
            0 <= i < slots.len() && (#[trigger] slots[i]).id == id && slots[i].busy;
        assert(has_worker(slots, id));
        let w = worker_of(slots, id);
        if w < i {
            assert(slots[w].id != slots[i].id);
        }
        if i < w {
            assert(slots[i].id != slots[w].id);
        }
    }
    if in_flight(slots, id) {
        let w = worker_of(slots, id);
        assert(slots[w].id == id && slots[w].busy);
    }
}

/// Whatever happens within the rule, no object gets a second pass in flight.
pub proof fn lemma_one_pass_kept<T>(pipeline: Pipeline<T>, happening: Happening<T>)
    requires
        well_formed(pipeline.slots),
        one_pass_each(pipeline),
        admissible(pipeline, happening),
    ensures
        well_formed(happened(pipeline, happening).slots),
        one_pass_each(happened(pipeline, happening)),
{
    let next = happened(pipeline, happening);
    let slots = pipeline.slots;
    match happening {
        Happening::Submit(job) => {
            lemma_submitted_well_formed(slots, job);
        },
        Happening::Finish(id) => {
            lemma_finished_well_formed(slots, id);
        },
        Happening::Retire(id) => {},
    }
    assert forall|id: IdentityView| #[trigger] passes(next, id) <= 1 by {
        assert(passes(pipeline, id) <= 1);
        lemma_in_flight(slots, id);
        lemma_in_flight(next.slots, id);
        match happening {
            Happening::Submit(job) => {
                let target = identity_of(job.ddns);
                if in_flight(next.slots, id) {
                    let i = choose|i: int|
                        0 <= i < next.slots.len() && (#[trigger] next.slots[i]).id == id
                            && next.slots[i].busy;
                    if has_worker(slots, target) {
                        let at = worker_of(slots, target);
                        if next.slots.len() < slots.len() {
                            let a = if i < at {
                                i
                            } else {
                                i + 1
                            };
                            assert(slots[a].id == id && slots[a].busy);
                            assert(slots[at].id != slots[a].id);
                        } else if i != at {
                            assert(slots[i].id == id && slots[i].busy);
                        }
                    } else if i < slots.len() {
                        assert(slots[i].id == id && slots[i].busy);
                    }
                }
            },
            Happening::Finish(target) => {
                if in_flight(next.slots, id) {
                    let i = choose|i: int|
                        0 <= i < next.slots.len() && (#[trigger] next.slots[i]).id == id
                            && next.slots[i].busy;
                    if in_flight(slots, target) {
                        let at = worker_of(slots, target);
                        if next.slots.len() < slots.len() {
                            let a = if i < at {
                                i
                            } else {
                                i + 1
                            };
                            assert(slots[a].id == id && slots[a].busy);
                            assert(slots[at].id != slots[a].id);
                        } else {
                            assert(slots[i].id == id && slots[i].busy);
                        }
                    }
                }
                if in_flight(slots, target) && id == target {
                    assert(passes(pipeline, target) <= 1);
                }
            },
            Happening::Retire(target) => {},
        }
    }
}

/// The pipeline after the first `k` of `happenings`, from a serialiser without
/// any worker and with no pass in flight.
pub open spec fn pipeline_at<T>(happenings: Seq<Happening<T>>, k: int) -> Pipeline<T>
    decreases k,
{
    if k <= 0 {
        Pipeline { slots: Seq::empty(), retiring: Multiset::empty() }
    } else {
        happened(pipeline_at(happenings, k - 1), happenings[k - 1])
    }
}

/// Every one of `happenings` keeps to the rule.
pub open spec fn all_admissible<T>(happenings: Seq<Happening<T>>) -> bool {
    forall|k: int|
        0 <= k < happenings.len() ==> admissible(
            #[trigger] pipeline_at(happenings, k),
            happenings[k],
        )
}

/// At every moment of a run of the pipeline, at most one pass is in flight per
/// object, provided that no snapshot of an object is submitted while a delete
/// of that object is in flight.
pub proof fn lemma_one_pass_per_object<T>(happenings: Seq<Happening<T>>, k: int)
    requires
        all_admissible(happenings),
        0 <= k <= happenings.len(),
    ensures
        well_formed(pipeline_at(happenings, k).slots),
        one_pass_each(pipeline_at(happenings, k)),
    decreases k,
{
    if k == 0 {
        let empty = pipeline_at(happenings, 0);
        assert forall|id: IdentityView| #[trigger] passes(empty, id) <= 1 by {
            assert(!has_worker(empty.slots, id));
        }
    } else {
        lemma_one_pass_per_object(happenings, k - 1);
        assert(admissible(pipeline_at(happenings, k - 1), happenings[k - 1]));
        lemma_one_pass_kept(pipeline_at(happenings, k - 1), happenings[k - 1]);
    }
}

/// The jobs that wait for the object `id`, oldest first.
pub open spec fn waiting_of<T>(slots: Seq<SlotView<T>>, id: IdentityView) -> Seq<JobView<T>> {
    if has_worker(slots, id) {
        slots[worker_of(slots, id)].queue
    } else {
        Seq::empty()
    }
}

/// The job of the object `id` that `happening` takes in, if any: a submitted
/// job that is run at once or put on the queue.
pub open spec fn taken_in<T>(pipeline: Pipeline<T>, happening: Happening<T>, id: IdentityView) -> Option<
    JobView<T>,
> {
    match happening {
        Happening::Submit(job) => if identity_of(job.ddns) == id && !(submitted(
            pipeline.slots,
            job,
        ).1 is Full) {
            Some(job)
        } else {
            None
        },
        _ => None,
    }
}

/// The job of the object `id` that `happening` hands out to be run, if any.
pub open spec fn handed_out<T>(
    pipeline: Pipeline<T>,
    happening: Happening<T>,
    id: IdentityView,
) -> Option<JobView<T>> {
    match happening {
        Happening::Submit(job) => if identity_of(job.ddns) == id && submitted(
            pipeline.slots,
            job,
        ).1 is Run {
            Some(job)
        } else {
            None
        },
        Happening::Finish(other) => if other == id {
            match finished(pipeline.slots, id).1 {
                FinishView::Run(job) => Some(job),
                FinishView::RunLast { job, .. } => Some(job),
                _ => None,
            }
        } else {
            None
        },
        Happening::Retire(_) => None,
    }
}

/// The jobs of the object `id` that the first `k` of `happenings` took in, in
/// the order in which they were taken in.
pub open spec fn accepted<T>(happenings: Seq<Happening<T>>, id: IdentityView, k: int) -> Seq<
    JobView<T>,
>
    decreases k,
{
    if k <= 0 {
        Seq::empty()
    } else {
        let before = accepted(happenings, id, k - 1);
        match taken_in(pipeline_at(happenings, k - 1), happenings[k - 1], id) {
            Some(job) => before.push(job),
            None => before,
        }
    }
}

/// The jobs of the object `id` that the first `k` of `happenings` handed out to
/// be run, in the order in which they were handed out.
pub open spec fn handed<T>(happenings: Seq<Happening<T>>, id: IdentityView, k: int) -> Seq<
    JobView<T>,
>
    decreases k,
{
    if k <= 0 {
        Seq::empty()
    } else {
        let before = handed(happenings, id, k - 1);
        match handed_out(pipeline_at(happenings, k - 1), happenings[k - 1], id) {
            Some(job) => before.push(job),
            None => before,
        }
    }
}

/// No job is given up in the course of `happenings`: no worker takes a delete
/// while other jobs wait behind it.
pub open spec fn nothing_abandoned<T>(happenings: Seq<Happening<T>>) -> bool {
    forall|k: int|
        0 <= k < happenings.len() ==> (happenings[k] matches Happening::Finish(id) ==> (finished(
            (#[trigger] pipeline_at(happenings, k)).slots,
            id,
        ).1 matches FinishView::RunLast { abandoned, .. } ==> abandoned.len() == 0))
}

/// Under a well-formed registry, the jobs that wait for an object are the
/// queue of any slot of that object, and none where it has no slot.
pub proof fn lemma_waiting_of<T>(slots: Seq<SlotView<T>>, id: IdentityView)
    requires
        well_formed(slots),
    ensures
        forall|i: int|
            0 <= i < slots.len() && (#[trigger] slots[i]).id == id ==> waiting_of(slots, id)
                == slots[i].queue && has_worker(slots, id) && worker_of(slots, id) == i,
        (forall|i: int| 0 <= i < slots.len() ==> (#[trigger] slots[i]).id != id) ==> waiting_of(
            slots,
            id,
        ) == Seq::<JobView<T>>::empty() && !has_worker(slots, id),
{
    assert forall|i: int| 0 <= i < slots.len() && (#[trigger] slots[i]).id == id implies waiting_of(
        slots,
        id,
    ) == slots[i].queue && has_worker(slots, id) && worker_of(slots, id) == i by {
        assert(has_worker(slots, id));
        let w = worker_of(slots, id);
        if w < i {
            assert(slots[w].id != slots[i].id);
        }
        if i < w {
            assert(slots[i].id != slots[w].id);
        }
    }
}

/// What a submission does to the jobs that wait for an object.
pub proof fn lemma_submitted_waiting<T>(slots: Seq<SlotView<T>>, job: JobView<T>, id: IdentityView)
    requires
        well_formed(slots),
    ensures
        ({
            let answered = submitted(slots, job);
            let before = waiting_of(slots, id);
            let after = waiting_of(answered.0, id);
            if identity_of(job.ddns) != id {
                after == before
            } else {
                match answered.1 {
                    SubmissionView::Run(_) => before.len() == 0 && after.len() == 0,
                    SubmissionView::Queued => after == before.push(job),
                    SubmissionView::Full(_) => after == before,
                }
            }
        }),
{
    let target = identity_of(job.ddns);
    let answered = submitted(slots, job);
    let next = answered.0;
    lemma_submitted_well_formed(slots, job);
    lemma_waiting_of(slots, id);
    lemma_waiting_of(next, id);
    lemma_waiting_of(slots, target);
    if has_worker(slots, target) {
        let at = worker_of(slots, target);
        assert(slots[at].id == target);
        if next.len() < slots.len() {
            assert forall|i: int| 0 <= i < next.len() implies (#[trigger] next[i]).id != target by {
                let a = if i < at {
                    i
                } else {
                    i + 1
                };
                assert(next[i] == slots[a]);
                if a < at {
                    assert(slots[a].id != slots[at].id);
                } else {
                    assert(slots[at].id != slots[a].id);
                }
            }
            if id != target && has_worker(slots, id) {
                let w = worker_of(slots, id);
                assert(slots[w].id == id);
                let b = if w < at {
                    w
                } else {
                    w - 1
                };
                assert(next[b] == slots[w]);
            }
            if id != target && !has_worker(slots, id) {
                assert forall|i: int| 0 <= i < next.len() implies (#[trigger] next[i]).id != id by {
                    let a = if i < at {
                        i
                    } else {
                        i + 1
                    };
                    assert(next[i] == slots[a]);
                    assert(slots[a].id != id);
                }
            }
        } else {
            assert(next.len() == slots.len());
            assert(next[at].id == target);
            if id != target && has_worker(slots, id) {
                let w = worker_of(slots, id);
                assert(slots[w].id == id);
                assert(next[w] == slots[w]);
            }
            if id != target && !has_worker(slots, id) {
                assert forall|i: int| 0 <= i < next.len() implies (#[trigger] next[i]).id != id by {
                    assert(next[i].id == slots[i].id);
                    assert(slots[i].id != id);
                }
            }
        }
    } else {
        if next.len() > slots.len() {
            assert(next[slots.len() as int].id == target);
        }
        if id != target && has_worker(slots, id) {
            let w = worker_of(slots, id);
            assert(slots[w].id == id);
            assert(next[w] == slots[w]);
        }
        if id != target && !has_worker(slots, id) {
            assert forall|i: int| 0 <= i < next.len() implies (#[trigger] next[i]).id != id by {
                if i < slots.len() {
                    assert(next[i] == slots[i]);
                    assert(slots[i].id != id);
                }
            }
        }
        if id == target && next.len() == slots.len() {
            assert forall|i: int| 0 <= i < next.len() implies (#[trigger] next[i]).id != id by {
                assert(slots[i].id != id);
            }
        }
    }
}

/// What the end of a pass does to the jobs that wait for an object.
pub proof fn lemma_finished_waiting<T>(slots: Seq<SlotView<T>>, ended: IdentityView, id: IdentityView)
    requires
        well_formed(slots),
    ensures
        ({
            let answered = finished(slots, ended);
            let before = waiting_of(slots, id);
            let after = waiting_of(answered.0, id);
            if ended != id {
                after == before
            } else {
                match answered.1 {
                    FinishView::Run(job) => before == seq![job] + after,
                    FinishView::RunLast { job, abandoned } => before == seq![job] + abandoned
                        && after.len() == 0,
                    FinishView::Idle => before.len() == 0 && after.len() == 0,
                    FinishView::Unknown => after == before,
                }
            }
        }),
{
    let answered = finished(slots, ended);
    let next = answered.0;
    lemma_finished_well_formed(slots, ended);
    lemma_waiting_of(slots, id);
    lemma_waiting_of(next, id);
    lemma_waiting_of(slots, ended);
    if in_flight(slots, ended) {
        let at = worker_of(slots, ended);
        let slot = slots[at];
        assert(slot.id == ended);
        if next.len() < slots.len() {
            assert forall|i: int| 0 <= i < next.len() implies (#[trigger] next[i]).id != ended by {
                let a = if i < at {
                    i
                } else {
                    i + 1
                };
                assert(next[i] == slots[a]);
                if a < at {
                    assert(slots[a].id != slots[at].id);
                } else {
                    assert(slots[at].id != slots[a].id);
                }
            }
            if id != ended && has_worker(slots, id) {
                let w = worker_of(slots, id);
                assert(slots[w].id == id);
                let b = if w < at {
                    w
                } else {
                    w - 1
                };
                assert(next[b] == slots[w]);
            }
            if id != ended && !has_worker(slots, id) {
                assert forall|i: int| 0 <= i < next.len() implies (#[trigger] next[i]).id != id by {
                    let a = if i < at {
                        i
                    } else {
                        i + 1
                    };
                    assert(next[i] == slots[a]);
                    assert(slots[a].id != id);
                }
            }
            if id == ended {
                assert(slot.queue =~= seq![slot.queue[0]] + slot.queue.drop_first());
            }
        } else {
            assert(next[at].id == ended);
            if id != ended && has_worker(slots, id) {
                let w = worker_of(slots, id);
                assert(slots[w].id == id);
                assert(next[w] == slots[w]);
            }
            if id != ended && !has_worker(slots, id) {
                assert forall|i: int| 0 <= i < next.len() implies (#[trigger] next[i]).id != id by {
                    assert(next[i].id == slots[i].id);
                    assert(slots[i].id != id);
                }
            }
            if id == ended && slot.queue.len() > 0 {
                assert(slot.queue =~= seq![slot.queue[0]] + slot.queue.drop_first());
            }
        }
    }
}

/// First in, first run: as long as no job is given up, the jobs of an object
/// that were handed out to be run, followed by the jobs that wait for it, are
/// the jobs of that object that were taken in, in the order in which they were
/// taken in. So the passes of an object run in the order in which its
/// snapshots were accepted, none is skipped, and each job is handed out with
/// the reply handle it was submitted with.
pub proof fn lemma_first_in_first_run<T>(happenings: Seq<Happening<T>>, id: IdentityView, k: int)
    requires
        nothing_abandoned(happenings),
        0 <= k <= happenings.len(),
    ensures
        well_formed(pipeline_at(happenings, k).slots),
        handed(happenings, id, k) + waiting_of(pipeline_at(happenings, k).slots, id) == accepted(
            happenings,
            id,
            k,
        ),
    decreases k,
{
    if k == 0 {
        let none = pipeline_at(happenings, 0);
        assert(!has_worker(none.slots, id));
        assert(handed(happenings, id, 0) + waiting_of(none.slots, id) =~= accepted(
            happenings,
            id,
            0,
        ));
    } else {
        lemma_first_in_first_run(happenings, id, k - 1);
        let before = pipeline_at(happenings, k - 1);
        let after = pipeline_at(happenings, k);
        let ran = handed(happenings, id, k - 1);
        let waited = waiting_of(before.slots, id);
        match happenings[k - 1] {
            Happening::Submit(job) => {
                lemma_submitted_well_formed(before.slots, job);
                lemma_submitted_waiting(before.slots, job, id);
                if identity_of(job.ddns) == id {
                    match submitted(before.slots, job).1 {
                        SubmissionView::Run(_) => {
                            assert(waited =~= Seq::<JobView<T>>::empty());
                            assert(waiting_of(after.slots, id) =~= Seq::<JobView<T>>::empty());
                            assert(ran.push(job) + Seq::<JobView<T>>::empty() =~= (ran + waited).push(
                                job,
                            ));
                        },
                        SubmissionView::Queued => {
                            assert(ran + waited.push(job) =~= (ran + waited).push(job));
                        },
                        SubmissionView::Full(_) => {},
                    }
                }
            },
            Happening::Finish(ended) => {
                lemma_finished_well_formed(before.slots, ended);
                lemma_finished_waiting(before.slots, ended, id);
                if ended == id {
                    let rest = waiting_of(after.slots, id);
                    match finished(before.slots, ended).1 {
                        FinishView::Run(job) => {
                            assert(ran.push(job) + rest =~= ran + (seq![job] + rest));
                        },
                        FinishView::RunLast { job, abandoned } => {
                            assert(pipeline_at(happenings, k - 1) == before);
                            assert(abandoned.len() == 0);
                            assert(ran.push(job) + rest =~= ran + (seq![job] + abandoned));
                        },
                        FinishView::Idle => {
                            assert(rest =~= waited);
                        },
                        FinishView::Unknown => {},
                    }
                }
            },
            Happening::Retire(_) => {},
        }
    }
}

} // verus!
