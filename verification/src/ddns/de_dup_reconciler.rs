//! The other way to keep one pass per object: a new pass takes the place of
//! the one that is running for the same object, and the old one is given up.
//!
//! The register holds, per object with a running pass, the handle by which
//! that pass can be given up. To give it up is the caller's part.

use crate::ddns::default_reconciler::{apply_start, delete_start, DefaultReconciler};
use crate::ddns::error::{Error, ErrorView};
use crate::ddns::reconcile::Progress;
use crate::resource::{identity_of, Ddns, Identity, IdentityView};
use vstd::prelude::*;

verus! {

/// The object of a running pass and the handle to give the pass up.
pub struct RunningView<T> {
    pub id: IdentityView,
    pub handle: T,
}

struct Running<T> {
    id: Identity,
    handle: T,
}

impl<T> View for Running<T> {
    type V = RunningView<T>;

    closed spec fn view(&self) -> RunningView<T> {
        RunningView { id: self.id@, handle: self.handle }
    }
}

/// No object has two running passes.
pub open spec fn exclusive<T>(running: Seq<RunningView<T>>) -> bool {
    forall|i: int, j: int| 0 <= i < j < running.len() ==> running[i].id != running[j].id
}

/// Whether a pass is registered for the object `id`.
pub open spec fn is_running<T>(running: Seq<RunningView<T>>, id: IdentityView) -> bool {
    exists|i: int| 0 <= i < running.len() && (#[trigger] running[i]).id == id
}

/// The position of the pass that is registered for the object `id`.
pub open spec fn running_at<T>(running: Seq<RunningView<T>>, id: IdentityView) -> int {
    choose|i: int| 0 <= i < running.len() && (#[trigger] running[i]).id == id
}

/// The register after a pass with the handle `handle` began for the object
/// `id`, and the handle of the pass whose place it took, if there was one.
pub open spec fn began<T>(running: Seq<RunningView<T>>, id: IdentityView, handle: T) -> (
    Seq<RunningView<T>>,
    Option<T>,
) {
    if is_running(running, id) {
        let at = running_at(running, id);
        (running.update(at, RunningView { id, handle }), Some(running[at].handle))
    } else {
        (running.push(RunningView { id, handle }), None)
    }
}

/// The register after the pass of the object `id` ran to its end.
pub open spec fn completed<T>(running: Seq<RunningView<T>>, id: IdentityView) -> Seq<
    RunningView<T>,
> {
    if is_running(running, id) {
        running.remove(running_at(running, id))
    } else {
        running
    }
}

/// The register of running passes.
pub struct DeDupReconciler<T> {
    running: Vec<Running<T>>,
}

spec fn running_views<T>(running: Seq<Running<T>>) -> Seq<RunningView<T>> {
    running.map_values(|entry: Running<T>| entry@)
}

impl<T> View for DeDupReconciler<T> {
    type V = Seq<RunningView<T>>;

    closed spec fn view(&self) -> Seq<RunningView<T>> {
        running_views(self.running@)
    }
}

fn find_running<T>(running: &Vec<Running<T>>, id: &Identity) -> (found: Option<usize>)
    requires
        exclusive(running_views(running@)),
    ensures
        match found {
            Some(at) => at < running@.len() && is_running(running_views(running@), id@)
                && running_at(running_views(running@), id@) == at,
            None => !is_running(running_views(running@), id@),
        },
{
    let ghost views = running_views(running@);
    let mut i: usize = 0;
    while i < running.len()
        invariant
            i <= running.len(),
            views == running_views(running@),
            exclusive(views),
            forall|j: int| 0 <= j < i ==> (#[trigger] views[j]).id != id@,
        decreases running.len() - i,
    {
        if running[i].id.same(id) {
            proof {
                assert(views[i as int].id == id@);
                assert(is_running(views, id@));
                let w = running_at(views, id@);
                if w < i {
                    assert(views[w].id != views[i as int].id);
                }
                if i < w {
                    assert(views[i as int].id != views[w].id);
                }
            }
            return Some(i);
        }
        i += 1;
    }
    None
}

impl<T> DeDupReconciler<T> {
    #[verifier::type_invariant]
    spec fn holds(self) -> bool {
        exclusive(self@)
    }

    /// A register without any running pass.
    pub fn new() -> (register: DeDupReconciler<T>)
        ensures
            register@ == Seq::<RunningView<T>>::empty(),
    {
        let register = DeDupReconciler { running: Vec::new() };
        assert(register@ =~= Seq::<RunningView<T>>::empty());
        register
    }

    /// The number of running passes. No object has two.
    pub fn len(&self) -> (count: usize)
        ensures
            count == self@.len(),
            exclusive(self@),
    {
        proof {
            use_type_invariant(self);
        }
        self.running.len()
    }

    fn begin(&mut self, id: Identity, handle: T) -> (replaced: Option<T>)
        ensures
            (final(self)@, replaced) == began(old(self)@, id@, handle),
    {
        proof {
            use_type_invariant(&*self);
        }
        let ghost before = self@;
        let mut running: Vec<Running<T>> = Vec::new();
        assert(running_views(running@) =~= Seq::<RunningView<T>>::empty());
        core::mem::swap(&mut self.running, &mut running);
        let replaced = match find_running(&running, &id) {
            Some(at) => {
                let old = running.remove(at);
                let entry = Running { id, handle };
                running.insert(at, entry);
                assert(running_views(running@) =~= before.update(at as int, entry@));
                Some(old.handle)
            },
            None => {
                let entry = Running { id, handle };
                running.push(entry);
                assert(running_views(running@) =~= before.push(entry@));
                None
            },
        };
        proof {
            let after = running_views(running@);
            assert forall|i: int, j: int| 0 <= i < j < after.len() implies after[i].id
                != after[j].id by {
                if is_running(before, id@) {
                    assert(before[i].id != before[j].id);
                } else if j < before.len() {
                    assert(before[i].id != before[j].id);
                } else {
                    assert(before[i].id != id@);
                }
            }
        }
        self.running = running;
        replaced
    }

    /// Registers a pass that applies `ddns` and starts it. The handle that is
    /// returned, if any, is the one of the pass that was running for the same
    /// object: that pass is to be given up.
    pub fn reconcile_ddns(&mut self, ddns: Ddns, handle: T) -> (out: (
        Option<T>,
        DefaultReconciler,
        Progress,
    ))
        ensures
            (final(self)@, out.0) == began(old(self)@, identity_of(ddns@), handle),
            (out.1@, out.2@) == apply_start(ddns@),
    {
        let replaced = self.begin(ddns.identity(), handle);
        let started = DefaultReconciler::reconcile_ddns(ddns);
        (replaced, started.0, started.1)
    }

    /// Registers a pass that deletes `ddns` and starts it. The handle that is
    /// returned, if any, is the one of the pass that was running for the same
    /// object: that pass is to be given up.
    pub fn delete_ddns(&mut self, ddns: Ddns, handle: T) -> (out: (
        Option<T>,
        DefaultReconciler,
        Progress,
    ))
        ensures
            (final(self)@, out.0) == began(old(self)@, identity_of(ddns@), handle),
            (out.1@, out.2@) == delete_start(ddns@),
    {
        let replaced = self.begin(ddns.identity(), handle);
        let started = DefaultReconciler::delete_ddns(ddns);
        (replaced, started.0, started.1)
    }

    /// Takes the pass of the object `id` off the register, once it ran to its
    /// end without being given up.
    pub fn complete(&mut self, id: &Identity)
        ensures
            final(self)@ == completed(old(self)@, id@),
    {
        proof {
            use_type_invariant(&*self);
        }
        let ghost before = self@;
        let mut running: Vec<Running<T>> = Vec::new();
        assert(running_views(running@) =~= Seq::<RunningView<T>>::empty());
        core::mem::swap(&mut self.running, &mut running);
        match find_running(&running, id) {
            Some(at) => {
                running.remove(at);
                proof {
                    let after = running_views(running@);
                    assert(after =~= before.remove(at as int));
                    assert forall|i: int, j: int| 0 <= i < j < after.len() implies after[i].id
                        != after[j].id by {
                        let a = if i < at { i } else { i + 1 };
                        let b = if j < at { j } else { j + 1 };
                        assert(before[a].id != before[b].id);
                    }
                }
            },
            None => {},
        }
        self.running = running;
    }

    /// The result of a pass that was given up.
    pub fn aborted() -> (result: Result<(), Error>)
        ensures
            result matches Err(error) && error@ == ErrorView::Aborted,
    {
        Err(Error::Aborted)
    }
}

} // verus!
