//! The course of a pass: what it asks for, in which order, whatever the
//! outside answers.
//!
//! A course is a pass together with the answers it was given so far. The
//! request that the pass makes after `k` answers is its request number `k`;
//! the answer number `k` answers that request.

use crate::cf_dns::{dns_step, CfDnsView, DnsPhase, DnsReplyView, DnsStepView, DnsTask};
use crate::ddns::default_reconciler::{
    apply_start, delete_start, resumed, retry_delay, ReconcilerView, Stage,
};
use crate::ddns::error::ErrorView;
use crate::ddns::reconcile::{EffectView, OutcomeView, ProgressView};
use crate::net::{merged, IpAddress};
use crate::resource::{attached, deleted, deleting, released, running, status_of, DdnsView};
use crate::service::watch::selected_ips;
use crate::text::Text;
use vstd::prelude::*;

verus! {

/// The pass that started as `start` after it was given the answers of
/// `outcomes`, one after the other. A pass that is done takes no more
/// answers.
pub open spec fn after(start: (ReconcilerView, ProgressView), outcomes: Seq<OutcomeView>) -> (
    ReconcilerView,
    ProgressView,
)
    decreases outcomes.len(),
{
    if outcomes.len() == 0 {
        start
    } else {
        let before = after(start, outcomes.drop_last());
        match before.1 {
            ProgressView::Done(_) => before,
            ProgressView::Next(_) => resumed(before.0, outcomes.last()),
        }
    }
}

/// The state of the pass after `k` answers.
pub open spec fn state_at(
    start: (ReconcilerView, ProgressView),
    outcomes: Seq<OutcomeView>,
    k: int,
) -> ReconcilerView {
    after(start, outcomes.take(k)).0
}

/// What the pass does after `k` answers.
pub open spec fn effect_at(
    start: (ReconcilerView, ProgressView),
    outcomes: Seq<OutcomeView>,
    k: int,
) -> ProgressView {
    after(start, outcomes.take(k)).1
}

/// One more answer takes the pass one step further.
pub proof fn lemma_after_step(start: (ReconcilerView, ProgressView), outcomes: Seq<OutcomeView>, k: int)
    requires
        0 <= k < outcomes.len(),
    ensures
        after(start, outcomes.take(k + 1)) == match effect_at(start, outcomes, k) {
            ProgressView::Done(_) => after(start, outcomes.take(k)),
            ProgressView::Next(_) => resumed(state_at(start, outcomes, k), outcomes[k]),
        },
{
    assert(outcomes.take(k + 1).drop_last() =~= outcomes.take(k));
    assert(outcomes.take(k + 1).last() == outcomes[k]);
}

/// The domain and the zone whose records a delete of `ddns` removes: those of
/// the last converged state, or the desired ones where the object has no
/// status.
pub open spec fn cleanup_target(ddns: DdnsView) -> (Text, Text) {
    match ddns.status {
        Some(status) => (status.domain, status.zone),
        None => (ddns.spec.domain, ddns.spec.zone),
    }
}

/// The operation removes the records of `domain` in `zone` and has not ended.
pub open spec fn removing(op: CfDnsView, domain: Text, zone: Text) -> bool {
    &&& op.task == DnsTask::Remove
    &&& op.name == domain
    &&& op.zone == zone
    &&& (op.phase == DnsPhase::Zones || op.phase == DnsPhase::Records || op.phase
        == DnsPhase::Deleting)
}

/// The answer number `m` is the one on which the removal of the records of
/// `domain` in `zone`, made in the stage `stage`, ended well.
pub open spec fn removal_ended(
    start: (ReconcilerView, ProgressView),
    outcomes: Seq<OutcomeView>,
    stage: Stage,
    domain: Text,
    zone: Text,
    m: int,
) -> bool {
    &&& 0 <= m < outcomes.len()
    &&& effect_at(start, outcomes, m) is Next
    &&& state_at(start, outcomes, m).stage == stage
    &&& removing(state_at(start, outcomes, m).dns, domain, zone)
    &&& outcomes[m] matches OutcomeView::Dns(reply) && dns_step(
        state_at(start, outcomes, m).dns,
        reply,
    ).1 matches DnsStepView::Done(Ok(_))
}

/// A removal never asks for a record to be created, and stays a removal until
/// it ends.
pub proof fn lemma_removing_step(op: CfDnsView, domain: Text, zone: Text, reply: DnsReplyView)
    requires
        removing(op, domain, zone),
    ensures
        dns_step(op, reply).1 matches DnsStepView::Call(request) ==> !(request is CreateRecord)
            && removing(dns_step(op, reply).0, domain, zone),
{
}

/// Whether the pass asks, after `k` answers, for the status `state` to be
/// written.
pub open spec fn writes_status(
    start: (ReconcilerView, ProgressView),
    outcomes: Seq<OutcomeView>,
    k: int,
    state: Text,
) -> bool {
    effect_at(start, outcomes, k) matches ProgressView::Next(
        EffectView::PatchStatus { status, .. },
    ) && status.status == state
}

/// What holds of a delete after `k` answers.
pub open spec fn delete_course(ddns: DdnsView, outcomes: Seq<OutcomeView>, k: int) -> bool {
    let start = delete_start(ddns);
    let pass = state_at(start, outcomes, k);
    let target = cleanup_target(ddns);
    match effect_at(start, outcomes, k) {
        ProgressView::Done(_) => pass.stage == Stage::Finished,
        ProgressView::Next(effect) => {
            &&& pass.finalizers == ddns.metadata.finalizers
            &&& pass.status.domain == target.0
            &&& pass.status.zone == target.1
            &&& match pass.stage {
                Stage::Marking => k == 0 && writes_status(start, outcomes, k, deleting()),
                Stage::Cleaning => k >= 1 && effect is Dns && removing(
                    pass.dns,
                    target.0,
                    target.1,
                ) && outcomes[0] == OutcomeView::Patched,
                Stage::Sealing => k >= 2 && writes_status(start, outcomes, k, deleted())
                    && removal_ended(start, outcomes, Stage::Cleaning, target.0, target.1, k - 1),
                Stage::Releasing => {
                    &&& k >= 3
                    &&& effect matches EffectView::PatchFinalizers { finalizers, .. }
                        && released(ddns.metadata.finalizers) == Some(finalizers)
                    &&& writes_status(start, outcomes, k - 1, deleted())
                    &&& outcomes[k - 1] == OutcomeView::Patched
                    &&& removal_ended(
                        start,
                        outcomes,
                        Stage::Cleaning,
                        target.0,
                        target.1,
                        k - 2,
                    )
                },
                _ => false,
            }
        },
    }
}

/// How far a delete has come.
pub open spec fn delete_rank(stage: Stage) -> int {
    match stage {
        Stage::Marking => 0,
        Stage::Cleaning => 1,
        Stage::Sealing => 2,
        Stage::Releasing => 3,
        _ => 4,
    }
}

/// Every delete runs its course: it reports `DELETING` first, then removes the
/// records, then reports `DELETED`, then releases the finalizer.
pub proof fn lemma_delete_course(ddns: DdnsView, outcomes: Seq<OutcomeView>, k: int)
    requires
        0 <= k <= outcomes.len(),
    ensures
        delete_course(ddns, outcomes, k),
    decreases k,
{
    let start = delete_start(ddns);
    if k == 0 {
        assert(outcomes.take(0) =~= Seq::<OutcomeView>::empty());
    } else {
        lemma_delete_course(ddns, outcomes, k - 1);
        lemma_after_step(start, outcomes, k - 1);
        let before = state_at(start, outcomes, k - 1);
        let target = cleanup_target(ddns);
        if effect_at(start, outcomes, k - 1) is Next {
            if before.stage == Stage::Cleaning {
                match outcomes[k - 1] {
                    OutcomeView::Dns(reply) => {
                        lemma_removing_step(before.dns, target.0, target.1, reply);
                    },
                    _ => {},
                }
            }
            if before.stage == Stage::Sealing {
                assert(removal_ended(start, outcomes, Stage::Cleaning, target.0, target.1, k - 2));
            }
        }
    }
}

/// A delete never goes back, and it stays for one answer only where it waits
/// for a patch.
pub proof fn lemma_delete_forward(ddns: DdnsView, outcomes: Seq<OutcomeView>, i: int, j: int)
    requires
        0 <= i <= j <= outcomes.len(),
    ensures
        delete_rank(state_at(delete_start(ddns), outcomes, i).stage) <= delete_rank(
            state_at(delete_start(ddns), outcomes, j).stage,
        ),
        i < j && state_at(delete_start(ddns), outcomes, i).stage != Stage::Cleaning
            && state_at(delete_start(ddns), outcomes, i).stage != Stage::Finished ==> delete_rank(
            state_at(delete_start(ddns), outcomes, i).stage,
        ) < delete_rank(state_at(delete_start(ddns), outcomes, j).stage),
    decreases j - i,
{
    let start = delete_start(ddns);
    if i < j {
        lemma_delete_course(ddns, outcomes, i);
        lemma_delete_course(ddns, outcomes, i + 1);
        lemma_after_step(start, outcomes, i);
        lemma_delete_forward(ddns, outcomes, i + 1, j);
        let before = state_at(start, outcomes, i);
        if effect_at(start, outcomes, i) is Next && before.stage == Stage::Cleaning {
            match outcomes[i] {
                OutcomeView::Dns(reply) => {
                    lemma_removing_step(
                        before.dns,
                        cleanup_target(ddns).0,
                        cleanup_target(ddns).1,
                        reply,
                    );
                },
                _ => {},
            }
        }
    }
}

/// Across a delete, the status goes from `DELETING` to `DELETED` and never
/// back: of any two status patches that the pass asks for, the earlier is
/// its first request and writes `DELETING`, and the later writes `DELETED`.
pub proof fn lemma_status_never_goes_back(ddns: DdnsView, outcomes: Seq<OutcomeView>, i: int, j: int)
    requires
        0 <= i < j <= outcomes.len(),
        effect_at(delete_start(ddns), outcomes, i) matches ProgressView::Next(
            EffectView::PatchStatus { .. },
        ),
        effect_at(delete_start(ddns), outcomes, j) matches ProgressView::Next(
            EffectView::PatchStatus { .. },
        ),
    ensures
        i == 0,
        writes_status(delete_start(ddns), outcomes, i, deleting()),
        writes_status(delete_start(ddns), outcomes, j, deleted()),
{
    lemma_delete_course(ddns, outcomes, i);
    lemma_delete_course(ddns, outcomes, j);
    lemma_delete_forward(ddns, outcomes, i, j);
}

/// A status patch of a delete that is answered with code 404 ends the pass
/// with success: nothing is written after it.
pub proof fn lemma_gone_ends_delete(ddns: DdnsView, outcomes: Seq<OutcomeView>, k: int)
    requires
        0 <= k < outcomes.len(),
        effect_at(delete_start(ddns), outcomes, k) matches ProgressView::Next(
            EffectView::PatchStatus { .. },
        ),
        outcomes[k] matches OutcomeView::Failed { code, .. } && code == Some(404u16),
    ensures
        effect_at(delete_start(ddns), outcomes, k + 1) == ProgressView::Done(
            Ok::<(), ErrorView>(()),
        ),
{
    lemma_delete_course(ddns, outcomes, k);
    lemma_after_step(delete_start(ddns), outcomes, k);
}

/// The finalizer is released last: a delete asks for the finalizers to be
/// written only right after its `DELETED` patch was accepted, which it sent
/// only after the removal of the records had ended well; and what it writes
/// then is the list without the finalizer.
pub proof fn lemma_release_comes_last(ddns: DdnsView, outcomes: Seq<OutcomeView>, k: int)
    requires
        0 <= k <= outcomes.len(),
        effect_at(delete_start(ddns), outcomes, k) matches ProgressView::Next(
            EffectView::PatchFinalizers { .. },
        ),
    ensures
        k >= 3,
        effect_at(delete_start(ddns), outcomes, k) matches ProgressView::Next(
            EffectView::PatchFinalizers { finalizers, .. },
        ) && released(ddns.metadata.finalizers) == Some(finalizers),
        writes_status(delete_start(ddns), outcomes, k - 1, deleted()),
        outcomes[k - 1] == OutcomeView::Patched,
        removal_ended(
            delete_start(ddns),
            outcomes,
            Stage::Cleaning,
            cleanup_target(ddns).0,
            cleanup_target(ddns).1,
            k - 2,
        ),
        writes_status(delete_start(ddns), outcomes, 0, deleting()),
        outcomes[0] == OutcomeView::Patched,
{
    lemma_delete_course(ddns, outcomes, k);
    lemma_delete_course(ddns, outcomes, 0);
    lemma_delete_course(ddns, outcomes, 1);
    lemma_delete_forward(ddns, outcomes, 0, k);
    lemma_delete_forward(ddns, outcomes, 1, k);
    lemma_after_step(delete_start(ddns), outcomes, 0);
}

/// Whether the last converged domain of the object differs from the desired
/// one. An object without a status counts as converged to the empty domain.
pub open spec fn stale(ddns: DdnsView) -> bool {
    (match ddns.status {
        Some(status) => status.domain,
        None => Seq::empty(),
    }) != ddns.spec.domain
}

/// Whether the object has converged before, to another domain than the
/// desired one: it has an old record set.
pub open spec fn renamed(ddns: DdnsView) -> bool {
    ddns.status matches Some(status) && status.domain != ddns.spec.domain
}

/// The domain and the zone of the old record set of an object that has one.
pub open spec fn old_target(ddns: DdnsView) -> (Text, Text) {
    (ddns.status.unwrap().domain, ddns.status.unwrap().zone)
}

/// Before its request number `k`, the apply of `ddns` has seen the removal of
/// the old record set end well: the records of the last converged domain in
/// the last converged zone.
pub open spec fn purged_before(ddns: DdnsView, outcomes: Seq<OutcomeView>, k: int) -> bool {
    exists|m: int|
        0 <= m < k && #[trigger] removal_ended(
            apply_start(ddns),
            outcomes,
            Stage::Purging,
            old_target(ddns).0,
            old_target(ddns).1,
            m,
        )
}

/// Before its request number `k`, the apply of `ddns` has seen the removal of
/// the records of the desired domain end well.
pub open spec fn cleared_before(ddns: DdnsView, outcomes: Seq<OutcomeView>, k: int) -> bool {
    exists|m: int|
        0 <= m < k && #[trigger] removal_ended(
            apply_start(ddns),
            outcomes,
            Stage::Clearing,
            ddns.spec.domain,
            ddns.spec.zone,
            m,
        )
}

/// Before its request number `k`, the apply of `ddns` has removed what it owes
/// to remove: the old record set where the object has one, and the records of
/// the desired domain where the domain has changed.
pub open spec fn removed_before(ddns: DdnsView, outcomes: Seq<OutcomeView>, k: int) -> bool {
    &&& renamed(ddns) ==> purged_before(ddns, outcomes, k)
    &&& stale(ddns) ==> cleared_before(ddns, outcomes, k)
}

/// The request number `m` of the apply of `ddns` is the patch that attaches
/// the finalizer, and it was accepted.
pub open spec fn attach_accepted(ddns: DdnsView, outcomes: Seq<OutcomeView>, m: int) -> bool {
    &&& 0 <= m < outcomes.len()
    &&& effect_at(apply_start(ddns), outcomes, m) matches ProgressView::Next(
        EffectView::PatchFinalizers { finalizers, .. },
    ) && attached(ddns.metadata.finalizers) == Some(finalizers)
    &&& outcomes[m] == OutcomeView::Patched
}

/// Before its request number `k`, the apply of `ddns` has made sure that the
/// finalizer is attached: the object came with it, or the patch that
/// attaches it was accepted.
pub open spec fn attached_before(ddns: DdnsView, outcomes: Seq<OutcomeView>, k: int) -> bool {
    attached(ddns.metadata.finalizers) is None || exists|m: int|
        0 <= m < k && #[trigger] attach_accepted(ddns, outcomes, m)
}

/// What holds of an apply after `k` answers.
pub open spec fn apply_course(ddns: DdnsView, outcomes: Seq<OutcomeView>, k: int) -> bool {
    let start = apply_start(ddns);
    let pass = state_at(start, outcomes, k);
    let removed = removed_before(ddns, outcomes, k);
    match effect_at(start, outcomes, k) {
        ProgressView::Done(result) => pass.stage == Stage::Finished && (result is Ok ==> removed
            && attached_before(ddns, outcomes, k)),
        ProgressView::Next(effect) => {
            &&& pass.finalizers == ddns.metadata.finalizers
            &&& Some(pass.name) == ddns.metadata.name
            &&& Some(pass.namespace) == ddns.metadata.namespace
            &&& pass.status == status_of(running(), ddns.spec)
            &&& match pass.stage {
                Stage::Purging => {
                    &&& renamed(ddns)
                    &&& effect matches EffectView::Dns(request) && !(request is CreateRecord)
                    &&& removing(pass.dns, old_target(ddns).0, old_target(ddns).1)
                },
                Stage::Clearing => {
                    &&& stale(ddns)
                    &&& renamed(ddns) ==> purged_before(ddns, outcomes, k)
                    &&& effect matches EffectView::Dns(request) && !(request is CreateRecord)
                    &&& removing(pass.dns, ddns.spec.domain, ddns.spec.zone)
                },
                Stage::Listing => effect is ListServices && removed,
                Stage::Publishing => effect is Dns && removed,
                Stage::Attaching => {
                    &&& effect matches EffectView::PatchFinalizers { namespace, name, finalizers }
                        && attached(ddns.metadata.finalizers) == Some(finalizers) && namespace
                        == pass.namespace && name == pass.name
                    &&& removed
                },
                Stage::Reporting => {
                    &&& writes_status(start, outcomes, k, running())
                    &&& removed
                    &&& attached_before(ddns, outcomes, k)
                },
                _ => false,
            }
        },
    }
}

/// What was seen before request number `k` was seen before every later one.
proof fn lemma_seen_stays(ddns: DdnsView, outcomes: Seq<OutcomeView>, k: int)
    ensures
        purged_before(ddns, outcomes, k) ==> purged_before(ddns, outcomes, k + 1),
        cleared_before(ddns, outcomes, k) ==> cleared_before(ddns, outcomes, k + 1),
        attached_before(ddns, outcomes, k) ==> attached_before(ddns, outcomes, k + 1),
{
    if purged_before(ddns, outcomes, k) {
        let m = choose|m: int|
            0 <= m < k && #[trigger] removal_ended(
                apply_start(ddns),
                outcomes,
                Stage::Purging,
                old_target(ddns).0,
                old_target(ddns).1,
                m,
            );
        assert(0 <= m < k + 1);
    }
    if cleared_before(ddns, outcomes, k) {
        let m = choose|m: int|
            0 <= m < k && #[trigger] removal_ended(
                apply_start(ddns),
                outcomes,
                Stage::Clearing,
                ddns.spec.domain,
                ddns.spec.zone,
                m,
            );
        assert(0 <= m < k + 1);
    }
    if attached_before(ddns, outcomes, k) && attached(ddns.metadata.finalizers) is Some {
        let m = choose|m: int| 0 <= m < k && #[trigger] attach_accepted(ddns, outcomes, m);
        assert(0 <= m < k + 1);
    }
}

/// Every apply runs its course: it removes the old record set first where the
/// object has one, then the records of the desired domain where the domain has
/// changed, then asks for the services, then publishes, then attaches the
/// finalizer where it is not attached, then reports `RUNNING`.
pub proof fn lemma_apply_course(ddns: DdnsView, outcomes: Seq<OutcomeView>, k: int)
    requires
        0 <= k <= outcomes.len(),
    ensures
        apply_course(ddns, outcomes, k),
    decreases k,
{
    let start = apply_start(ddns);
    if k == 0 {
        assert(outcomes.take(0) =~= Seq::<OutcomeView>::empty());
    } else {
        lemma_apply_course(ddns, outcomes, k - 1);
        lemma_after_step(start, outcomes, k - 1);
        lemma_seen_stays(ddns, outcomes, k - 1);
        let before = state_at(start, outcomes, k - 1);
        if effect_at(start, outcomes, k - 1) is Next {
            if before.stage == Stage::Purging {
                match outcomes[k - 1] {
                    OutcomeView::Dns(reply) => {
                        lemma_removing_step(
                            before.dns,
                            old_target(ddns).0,
                            old_target(ddns).1,
                            reply,
                        );
                        if dns_step(before.dns, reply).1 matches DnsStepView::Done(Ok(_)) {
                            assert(removal_ended(
                                start,
                                outcomes,
                                Stage::Purging,
                                old_target(ddns).0,
                                old_target(ddns).1,
                                k - 1,
                            ));
                        }
                    },
                    _ => {},
                }
            }
            if before.stage == Stage::Clearing {
                match outcomes[k - 1] {
                    OutcomeView::Dns(reply) => {
                        lemma_removing_step(before.dns, ddns.spec.domain, ddns.spec.zone, reply);
                        if dns_step(before.dns, reply).1 matches DnsStepView::Done(Ok(_)) {
                            assert(removal_ended(
                                start,
                                outcomes,
                                Stage::Clearing,
                                ddns.spec.domain,
                                ddns.spec.zone,
                                k - 1,
                            ));
                        }
                    },
                    _ => {},
                }
            }
            if before.stage == Stage::Attaching && outcomes[k - 1] == OutcomeView::Patched {
                assert(attach_accepted(ddns, outcomes, k - 1));
            }
        }
    }
}

/// The old record set goes before the new one comes: an apply asks for no
/// record to be created before it has seen the removal of the records of the
/// last converged domain, in the last converged zone, end well (where the
/// object has converged to another domain before), and the removal of the
/// records of the desired domain end well (where the domain has changed).
pub proof fn lemma_clear_before_publish(ddns: DdnsView, outcomes: Seq<OutcomeView>, k: int)
    requires
        0 <= k <= outcomes.len(),
        effect_at(apply_start(ddns), outcomes, k) matches ProgressView::Next(
            EffectView::Dns(request),
        ) && request is CreateRecord,
    ensures
        renamed(ddns) ==> purged_before(ddns, outcomes, k),
        stale(ddns) ==> cleared_before(ddns, outcomes, k),
{
    lemma_apply_course(ddns, outcomes, k);
}

/// An apply writes the finalizers only to attach its own: where it asks for
/// the finalizers to be written, the object came without the finalizer, and
/// the list to write is the object's list with the finalizer added at its end.
/// No other finalizer is dropped, and an object that came with the finalizer
/// gets no such patch.
pub proof fn lemma_apply_only_attaches(ddns: DdnsView, outcomes: Seq<OutcomeView>, k: int)
    requires
        0 <= k <= outcomes.len(),
        effect_at(apply_start(ddns), outcomes, k) matches ProgressView::Next(
            EffectView::PatchFinalizers { .. },
        ),
    ensures
        effect_at(apply_start(ddns), outcomes, k) matches ProgressView::Next(
            EffectView::PatchFinalizers { namespace, name, finalizers },
        ) && attached(ddns.metadata.finalizers) == Some(finalizers) && Some(namespace)
            == ddns.metadata.namespace && Some(name) == ddns.metadata.name,
{
    lemma_apply_course(ddns, outcomes, k);
}

/// An apply that ends well has made sure that the finalizer is attached: the
/// object came with it, or the patch that attaches it was accepted.
pub proof fn lemma_apply_attaches(ddns: DdnsView, outcomes: Seq<OutcomeView>, k: int)
    requires
        0 <= k <= outcomes.len(),
        effect_at(apply_start(ddns), outcomes, k) == ProgressView::Done(Ok::<(), ErrorView>(())),
    ensures
        attached_before(ddns, outcomes, k),
{
    lemma_apply_course(ddns, outcomes, k);
}

/// Every listing among the answers shows no address of a service that the
/// object selects.
pub open spec fn barren(ddns: DdnsView, outcomes: Seq<OutcomeView>) -> bool {
    forall|m: int|
        0 <= m < outcomes.len() ==> (#[trigger] outcomes[m] matches OutcomeView::Services(list)
            ==> selected_ips(list, ddns.spec.selector) == Some(Seq::<IpAddress>::empty()))
}

/// What holds, after `k` answers, of an apply whose listings show no address.
pub open spec fn idle_course(ddns: DdnsView, outcomes: Seq<OutcomeView>, k: int) -> bool {
    let start = apply_start(ddns);
    let pass = state_at(start, outcomes, k);
    match effect_at(start, outcomes, k) {
        ProgressView::Done(result) => result is Err,
        ProgressView::Next(effect) => {
            &&& pass.addresses.len() == 0
            &&& pass.status.selector == ddns.spec.selector
            &&& pass.stage == Stage::Purging || pass.stage == Stage::Clearing || pass.stage
                == Stage::Listing
            &&& effect is ListServices || (effect matches EffectView::Dns(request) && !(
            request is CreateRecord))
        },
    }
}

/// An apply whose listings show no address of a selected service publishes
/// nothing and patches nothing: all it ever asks for are listings and, where
/// the domain has changed, the removal of records. It never ends well; and
/// where it ends on the answer to a listing, it asks to be run again in three
/// seconds.
pub proof fn lemma_nothing_to_publish(ddns: DdnsView, outcomes: Seq<OutcomeView>, k: int)
    requires
        0 <= k <= outcomes.len(),
        barren(ddns, outcomes),
    ensures
        idle_course(ddns, outcomes, k),
        k > 0 && effect_at(apply_start(ddns), outcomes, k - 1) is Next && state_at(
            apply_start(ddns),
            outcomes,
            k - 1,
        ).stage == Stage::Listing && outcomes[k - 1] is Services && effect_at(
            apply_start(ddns),
            outcomes,
            k,
        ) is Done ==> effect_at(apply_start(ddns), outcomes, k) == ProgressView::Done(
            Err::<(), ErrorView>(ErrorView::ReRun(retry_delay())),
        ),
    decreases k,
{
    let start = apply_start(ddns);
    lemma_apply_course(ddns, outcomes, k);
    if k == 0 {
        assert(outcomes.take(0) =~= Seq::<OutcomeView>::empty());
    } else {
        lemma_nothing_to_publish(ddns, outcomes, k - 1);
        lemma_apply_course(ddns, outcomes, k - 1);
        lemma_after_step(start, outcomes, k - 1);
        let before = state_at(start, outcomes, k - 1);
        if effect_at(start, outcomes, k - 1) is Next {
            if before.stage == Stage::Listing {
                match outcomes[k - 1] {
                    OutcomeView::Services(list) => {
                        let none = Seq::<IpAddress>::empty();
                        assert(selected_ips(list, before.status.selector) == Some(none));
                        assert(merged(before.addresses, none) == before.addresses);
                    },
                    _ => {},
                }
            }
        }
    }
}

} // verus!
