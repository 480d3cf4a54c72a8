//! Convergence: what an apply that ends well has brought about, in a world
//! that holds still while the pass runs.
//!
//! The world is the model of the DNS provider together with the cluster's
//! answer to every listing of services. The cluster accepts every patch.

use crate::cf_dns::{
    addresses_of, dns_step, zone_id, CfDnsView, DnsRequestView, DnsStepView, DnsTask, RecordKind,
};
use crate::ddns::default_reconciler::{
    after_publish, apply_start, begin_dns, begin_purge, failed, list_from, pass_of, resumed, seal,
    ReconcilerView, Stage,
};
use crate::ddns::error::ErrorView;
use crate::ddns::reconcile::{EffectView, OutcomeView, ProgressView};
use crate::labels::pair_line;
use crate::net::{lemma_merged, merged, IpAddress};
use crate::ddns::course::{cleanup_target, old_target, renamed, stale};
use crate::ddns::default_reconciler::delete_start;
use crate::provider::{
    all_of_kind, answer, calls_needed, drive, lemma_drive_keeps_nameless, lemma_drive_stable,
    lemma_perform_ends, lemma_remove_clears, lemma_replace_converges, nameless, perform,
    records_of, Mint, Provider,
};
use crate::resource::DdnsView;
use crate::service::watch::{
    is_selected, lemma_selected_ips, selected_ips, service_ips, ServiceView,
};
use crate::text::Text;
use vstd::prelude::*;

verus! {

/// The cluster's answer to the listing of the services of a namespace that
/// carry a label.
pub type Listing = spec_fn(Text, Text) -> Seq<ServiceView>;

/// The outside of a pass.
pub struct World {
    pub provider: Provider,
    pub listing: Listing,
}

/// The world after a request, and its answer.
pub open spec fn respond(world: World, effect: EffectView, mint: Mint) -> (World, OutcomeView) {
    match effect {
        EffectView::Dns(request) => {
            let answered = answer(world.provider, request, mint);
            (World { provider: answered.0, ..world }, OutcomeView::Dns(answered.1))
        },
        EffectView::ListServices { namespace, label_selector } => (
            world,
            OutcomeView::Services((world.listing)(namespace, label_selector)),
        ),
        EffectView::PatchFinalizers { .. } => (world, OutcomeView::Patched),
        EffectView::PatchStatus { .. } => (world, OutcomeView::Patched),
    }
}

/// The run of the pass `pass`, which is about to do `progress`, in `world`,
/// for at most `fuel` requests: the world at the end, and the result of the
/// pass (none where the run was cut short).
pub open spec fn carry(
    pass: ReconcilerView,
    progress: ProgressView,
    world: World,
    mint: Mint,
    fuel: nat,
) -> (World, Option<Result<(), ErrorView>>)
    decreases fuel,
{
    match progress {
        ProgressView::Done(result) => (world, Some(result)),
        ProgressView::Next(effect) => if fuel == 0 {
            (world, None)
        } else {
            let answered = respond(world, effect, mint);
            let next = resumed(pass, answered.1);
            carry(next.0, next.1, answered.0, mint, (fuel - 1) as nat)
        },
    }
}

/// The addresses that the selected services among those listed for the first
/// `upto` selector pairs expose, each once, in the order in which they are
/// first met; `None` where a selected service holds a text that is no address.
/// A service is selected where its labels hold every pair of the selector.
pub open spec fn gathered(
    selector: Seq<(Text, Text)>,
    namespace: Text,
    listing: Listing,
    upto: int,
) -> Option<Seq<IpAddress>>
    decreases upto,
{
    if upto <= 0 {
        Some(Seq::empty())
    } else {
        match gathered(selector, namespace, listing, upto - 1) {
            None => None,
            Some(acc) => match selected_ips(listing(namespace, pair_line(selector[upto - 1])), selector) {
                None => None,
                Some(ips) => Some(merged(acc, ips)),
            },
        }
    }
}

/// What was gathered over the first `upto` selector pairs is, as a set, the
/// union of what the services of those pairs expose.
pub proof fn lemma_gathered_is_union(
    selector: Seq<(Text, Text)>,
    namespace: Text,
    listing: Listing,
    upto: int,
    ip: IpAddress,
)
    requires
        0 <= upto <= selector.len(),
        gathered(selector, namespace, listing, upto) is Some,
    ensures
        gathered(selector, namespace, listing, upto).unwrap().contains(ip) <==> exists|i: int|
            0 <= i < upto && (#[trigger] selected_ips(
                listing(namespace, pair_line(selector[i])),
                selector,
            )).unwrap().contains(ip),
        forall|i: int|
            0 <= i < upto ==> (#[trigger] selected_ips(
                listing(namespace, pair_line(selector[i])),
                selector,
            )) is Some,
    decreases upto,
{
    if upto > 0 {
        let acc = gathered(selector, namespace, listing, upto - 1).unwrap();
        let ips = selected_ips(listing(namespace, pair_line(selector[upto - 1])), selector).unwrap();
        lemma_gathered_is_union(selector, namespace, listing, upto - 1, ip);
        lemma_merged(acc, ips);
        let all = merged(acc, ips);
        assert(all.to_set().contains(ip) <==> acc.to_set().contains(ip) || ips.to_set().contains(
            ip,
        ));
        if acc.contains(ip) {
            let i = choose|i: int|
                0 <= i < upto - 1 && (#[trigger] selected_ips(
                    listing(namespace, pair_line(selector[i])),
                    selector,
                )).unwrap().contains(ip);
            assert(0 <= i < upto);
        }
        if ips.contains(ip) {
            assert(selected_ips(listing(namespace, pair_line(selector[upto - 1])), selector).unwrap().contains(
                ip,
            ));
        }
    }
}

/// What a pass does once the DNS operation that it was running has ended.
pub open spec fn dns_done(pass: ReconcilerView, op: CfDnsView, result: Result<Seq<IpAddress>, Text>) -> (
    ReconcilerView,
    ProgressView,
) {
    let next = ReconcilerView { dns: op, ..pass };
    match result {
        Err(reason) => failed(next, reason),
        Ok(_) => match pass.stage {
            Stage::Purging => begin_dns(next, Stage::Clearing, DnsTask::Remove, Seq::empty()),
            Stage::Clearing => list_from(next, 0),
            Stage::Publishing => after_publish(next),
            _ => seal(next),
        },
    }
}

/// Whether a pass is in a stage in which it runs a DNS operation.
pub open spec fn runs_dns(stage: Stage) -> bool {
    stage == Stage::Purging || stage == Stage::Clearing || stage == Stage::Publishing || stage
        == Stage::Cleaning
}

/// While a pass runs a DNS operation, its run is the run of that operation
/// against the provider, followed by the run of what the pass does once the
/// operation has ended.
pub proof fn lemma_carry_dns(
    pass: ReconcilerView,
    request: DnsRequestView,
    world: World,
    mint: Mint,
    fuel: nat,
)
    requires
        runs_dns(pass.stage),
    ensures
        ({
            let run = drive(pass.dns, DnsStepView::Call(request), world.provider, mint, fuel);
            let here = carry(pass, ProgressView::Next(EffectView::Dns(request)), world, mint, fuel);
            let there = World { provider: run.provider, ..world };
            &&& run.calls <= fuel
            &&& match run.result {
                Some(result) => {
                    let goes_on = dns_done(pass, run.op, result);
                    here == carry(goes_on.0, goes_on.1, there, mint, (fuel - run.calls) as nat)
                },
                None => here == (there, None::<Result<(), ErrorView>>),
            }
        }),
    decreases fuel,
{
    if fuel > 0 {
        let answered = answer(world.provider, request, mint);
        let stepped = dns_step(pass.dns, answered.1);
        let next_world = World { provider: answered.0, ..world };
        let next = resumed(pass, OutcomeView::Dns(answered.1));
        let rest = drive(stepped.0, stepped.1, answered.0, mint, (fuel - 1) as nat);
        assert(respond(world, EffectView::Dns(request), mint) == (
            next_world,
            OutcomeView::Dns(answered.1),
        ));
        match stepped.1 {
            DnsStepView::Call(more) => {
                assert(next == (
                    ReconcilerView { dns: stepped.0, ..pass },
                    ProgressView::Next(EffectView::Dns(more)),
                ));
                lemma_carry_dns(next.0, more, next_world, mint, (fuel - 1) as nat);
                assert(World { provider: rest.provider, ..next_world } == World {
                    provider: rest.provider,
                    ..world
                });
                assert(forall|result: Result<Seq<IpAddress>, Text>|
                    dns_done(next.0, rest.op, result) == dns_done(pass, rest.op, result));
            },
            DnsStepView::Done(result) => {
                assert(next == dns_done(pass, stepped.0, result));
            },
        }
    }
}

/// The patches that follow a publication change nothing of the provider, and
/// a pass that has published ends well within two requests or not at all.
proof fn lemma_carry_patches(pass: ReconcilerView, world: World, mint: Mint, fuel: nat)
    requires
        pass.stage == Stage::Publishing,
    ensures
        ({
            let goes_on = after_publish(pass);
            carry(goes_on.0, goes_on.1, world, mint, fuel).0 == world
        }),
{
    let goes_on = after_publish(pass);
    if fuel > 0 {
        let answered = respond(world, goes_on.1->Next_0, mint);
        let next = resumed(goes_on.0, answered.1);
        assert(answered.0 == world);
        let second = carry(next.0, next.1, world, mint, (fuel - 1) as nat);
        if next.1 is Next && fuel - 1 > 0 {
            let answered2 = respond(world, next.1->Next_0, mint);
            let last = resumed(next.0, answered2.1);
            assert(answered2.0 == world);
            let third = carry(last.0, last.1, world, mint, (fuel - 2) as nat);
            assert(last.1 is Done);
        }
    }
}

/// A pass that publishes its addresses and ends well has made the addresses
/// of its domain equal, as a set, to the ones it published.
proof fn lemma_carry_publishing(
    pass: ReconcilerView,
    world: World,
    mint: Mint,
    fuel: nat,
    spared_zone: Text,
    spared: Text,
)
    requires
        all_of_kind(pass.addresses, RecordKind::A),
        ({
            let begun = begin_dns(pass, Stage::Publishing, DnsTask::Replace, pass.addresses);
            carry(begun.0, begun.1, world, mint, fuel).1 == Some(Ok::<(), ErrorView>(()))
        }),
    ensures
        ({
            let begun = begin_dns(pass, Stage::Publishing, DnsTask::Replace, pass.addresses);
            let end = carry(begun.0, begun.1, world, mint, fuel).0;
            &&& zone_id(world.provider.zones, pass.status.zone) is Some
            &&& end.provider.zones == world.provider.zones
            &&& addresses_of(
                records_of(end.provider, zone_id(world.provider.zones, pass.status.zone).unwrap()),
                pass.status.domain,
                RecordKind::A,
            ).to_set() == pass.addresses.to_set()
            &&& spared != pass.status.domain && nameless(
                records_of(world.provider, spared_zone),
                spared,
            ) ==> nameless(records_of(end.provider, spared_zone), spared)
        }),
{
    let begun = begin_dns(pass, Stage::Publishing, DnsTask::Replace, pass.addresses);
    if spared != pass.status.domain && nameless(records_of(world.provider, spared_zone), spared) {
        lemma_drive_keeps_nameless(
            begun.0.dns,
            DnsStepView::Call(DnsRequestView::ListZones { name: pass.status.zone }),
            world.provider,
            mint,
            fuel,
            spared_zone,
            spared,
        );
    }
    let request = DnsRequestView::ListZones { name: pass.status.zone };
    lemma_carry_dns(begun.0, request, world, mint, fuel);
    let run = perform(
        DnsTask::Replace,
        pass.status.domain,
        pass.status.zone,
        RecordKind::A,
        pass.addresses,
        world.provider,
        mint,
        fuel,
    );
    assert(run == drive(begun.0.dns, DnsStepView::Call(request), world.provider, mint, fuel));
    assert(run.result is Some);
    let there = World { provider: run.provider, ..world };
    let goes_on = dns_done(begun.0, run.op, run.result.unwrap());
    assert(run.result.unwrap() is Ok);
    lemma_replace_converges(
        pass.status.domain,
        pass.status.zone,
        RecordKind::A,
        pass.addresses,
        world.provider,
        mint,
        fuel,
    );
    lemma_carry_patches(
        ReconcilerView { dns: run.op, ..begun.0 },
        there,
        mint,
        (fuel - run.calls) as nat,
    );
}

/// A pass that asks for the services of its selector pairs from position
/// `from` on, and that ends well, has made the addresses of its domain equal,
/// as a set, to everything it gathered.
proof fn lemma_carry_listing(
    pass: ReconcilerView,
    from: nat,
    world: World,
    mint: Mint,
    fuel: nat,
    spared_zone: Text,
    spared: Text,
)
    requires
        from <= pass.status.selector.len(),
        gathered(pass.status.selector, pass.namespace, world.listing, from as int) == Some(
            pass.addresses,
        ),
        gathered(
            pass.status.selector,
            pass.namespace,
            world.listing,
            pass.status.selector.len() as int,
        ) matches Some(all) ==> all_of_kind(all, RecordKind::A),
        ({
            let begun = list_from(pass, from);
            carry(begun.0, begun.1, world, mint, fuel).1 == Some(Ok::<(), ErrorView>(()))
        }),
    ensures
        ({
            let begun = list_from(pass, from);
            let end = carry(begun.0, begun.1, world, mint, fuel).0;
            let all = gathered(
                pass.status.selector,
                pass.namespace,
                world.listing,
                pass.status.selector.len() as int,
            );
            &&& all is Some
            &&& zone_id(world.provider.zones, pass.status.zone) is Some
            &&& end.provider.zones == world.provider.zones
            &&& addresses_of(
                records_of(end.provider, zone_id(world.provider.zones, pass.status.zone).unwrap()),
                pass.status.domain,
                RecordKind::A,
            ).to_set() == all.unwrap().to_set()
            &&& spared != pass.status.domain && nameless(
                records_of(world.provider, spared_zone),
                spared,
            ) ==> nameless(records_of(end.provider, spared_zone), spared)
        }),
    decreases pass.status.selector.len() - from,
{
    let begun = list_from(pass, from);
    if from < pass.status.selector.len() {
        assert(fuel > 0);
        let answered = respond(world, begun.1->Next_0, mint);
        let next = resumed(begun.0, answered.1);
        let listed = (world.listing)(pass.namespace, pair_line(pass.status.selector[from as int]));
        assert(answered == (world, OutcomeView::Services(listed)));
        assert(begun.0.stage == Stage::Listing);
        assert(carry(begun.0, begun.1, world, mint, fuel) == carry(
            next.0,
            next.1,
            world,
            mint,
            (fuel - 1) as nat,
        ));
        if selected_ips(listed, pass.status.selector) is None {
            assert(next.1 is Done);
            assert(carry(next.0, next.1, world, mint, (fuel - 1) as nat).1 == Some(next.1->Done_0));
        }
        assert(selected_ips(listed, pass.status.selector) is Some);
        let more = ReconcilerView {
            addresses: merged(pass.addresses, selected_ips(listed, pass.status.selector).unwrap()),
            ..begun.0
        };
        assert(next == list_from(more, from + 1));
        assert(gathered(pass.status.selector, pass.namespace, world.listing, from + 1 as int) == Some(
            more.addresses,
        ));
        lemma_carry_listing(more, from + 1, world, mint, (fuel - 1) as nat, spared_zone, spared);
    } else {
        assert(pass.addresses.len() > 0);
        lemma_carry_publishing(pass, world, mint, fuel, spared_zone, spared);
    }
}

/// The namespace of an object that has one.
pub open spec fn namespace_of(ddns: DdnsView) -> Text {
    ddns.metadata.namespace.unwrap()
}

/// A pass that removes the records of its domain, then asks for the services,
/// and that ends well, has made the addresses of its domain equal, as a set,
/// to everything it gathered.
proof fn lemma_carry_clearing(
    pass: ReconcilerView,
    world: World,
    mint: Mint,
    fuel: nat,
    spared_zone: Text,
    spared: Text,
)
    requires
        pass.addresses.len() == 0,
        gathered(
            pass.status.selector,
            pass.namespace,
            world.listing,
            pass.status.selector.len() as int,
        ) matches Some(all) ==> all_of_kind(all, RecordKind::A),
        ({
            let begun = begin_dns(pass, Stage::Clearing, DnsTask::Remove, Seq::empty());
            carry(begun.0, begun.1, world, mint, fuel).1 == Some(Ok::<(), ErrorView>(()))
        }),
    ensures
        ({
            let begun = begin_dns(pass, Stage::Clearing, DnsTask::Remove, Seq::empty());
            let end = carry(begun.0, begun.1, world, mint, fuel).0;
            let all = gathered(
                pass.status.selector,
                pass.namespace,
                world.listing,
                pass.status.selector.len() as int,
            );
            &&& all is Some
            &&& zone_id(world.provider.zones, pass.status.zone) is Some
            &&& end.provider.zones == world.provider.zones
            &&& addresses_of(
                records_of(end.provider, zone_id(world.provider.zones, pass.status.zone).unwrap()),
                pass.status.domain,
                RecordKind::A,
            ).to_set() == all.unwrap().to_set()
            &&& spared != pass.status.domain && nameless(
                records_of(world.provider, spared_zone),
                spared,
            ) ==> nameless(records_of(end.provider, spared_zone), spared)
        }),
{
    let begun = begin_dns(pass, Stage::Clearing, DnsTask::Remove, Seq::empty());
    let request = DnsRequestView::ListZones { name: pass.status.zone };
    lemma_carry_dns(begun.0, request, world, mint, fuel);
    let run = perform(
        DnsTask::Remove,
        pass.status.domain,
        pass.status.zone,
        RecordKind::A,
        Seq::empty(),
        world.provider,
        mint,
        fuel,
    );
    assert(run == drive(begun.0.dns, DnsStepView::Call(request), world.provider, mint, fuel));
    assert(run.result is Some);
    assert(run.result.unwrap() is Ok);
    lemma_remove_clears(
        pass.status.domain,
        pass.status.zone,
        RecordKind::A,
        world.provider,
        mint,
        fuel,
    );
    if spared != pass.status.domain && nameless(records_of(world.provider, spared_zone), spared) {
        lemma_drive_keeps_nameless(
            begun.0.dns,
            DnsStepView::Call(request),
            world.provider,
            mint,
            fuel,
            spared_zone,
            spared,
        );
    }
    let there = World { provider: run.provider, ..world };
    let cleared = ReconcilerView { dns: run.op, ..begun.0 };
    assert(pass.addresses =~= Seq::<IpAddress>::empty());
    lemma_carry_listing(cleared, 0, there, mint, (fuel - run.calls) as nat, spared_zone, spared);
}

/// An apply that ends well, in a world that holds still, has brought the
/// provider to the desired state:
///
/// - the addresses of kind `A` of the desired domain are, as a set, the
///   addresses that the selected services expose (this holds where every one
///   of those addresses is a v4 address);
/// - where the object had converged to another domain before, no record of
///   that old domain is left in its old zone.
pub proof fn lemma_apply_converges(ddns: DdnsView, world: World, mint: Mint, fuel: nat)
    requires
        carry(apply_start(ddns).0, apply_start(ddns).1, world, mint, fuel).1 == Some(
            Ok::<(), ErrorView>(()),
        ),
        gathered(
            ddns.spec.selector,
            namespace_of(ddns),
            world.listing,
            ddns.spec.selector.len() as int,
        ) matches Some(all) ==> all_of_kind(all, RecordKind::A),
    ensures
        ({
            let end = carry(apply_start(ddns).0, apply_start(ddns).1, world, mint, fuel).0;
            let all = gathered(
                ddns.spec.selector,
                namespace_of(ddns),
                world.listing,
                ddns.spec.selector.len() as int,
            );
            &&& all is Some
            &&& zone_id(world.provider.zones, ddns.spec.zone) is Some
            &&& addresses_of(
                records_of(end.provider, zone_id(world.provider.zones, ddns.spec.zone).unwrap()),
                ddns.spec.domain,
                RecordKind::A,
            ).to_set() == all.unwrap().to_set()
            &&& renamed(ddns) ==> zone_id(world.provider.zones, old_target(ddns).1) is Some
                && nameless(
                records_of(
                    end.provider,
                    zone_id(world.provider.zones, old_target(ddns).1).unwrap(),
                ),
                old_target(ddns).0,
            )
        }),
{
    let start = apply_start(ddns);
    assert(ddns.metadata.name is Some && ddns.metadata.namespace is Some);
    let pass = pass_of(
        ddns.metadata.name.unwrap(),
        ddns.metadata.namespace.unwrap(),
        crate::resource::status_of(crate::resource::running(), ddns.spec),
        ddns.metadata.finalizers,
    );
    let nowhere = Seq::<char>::empty();
    if renamed(ddns) {
        let old = old_target(ddns);
        let request = DnsRequestView::ListZones { name: old.1 };
        assert(start == begin_purge(pass, old.0, old.1));
        lemma_carry_dns(start.0, request, world, mint, fuel);
        let run = perform(
            DnsTask::Remove,
            old.0,
            old.1,
            RecordKind::A,
            Seq::empty(),
            world.provider,
            mint,
            fuel,
        );
        assert(run == drive(start.0.dns, DnsStepView::Call(request), world.provider, mint, fuel));
        assert(run.result is Some);
        assert(run.result.unwrap() is Ok);
        lemma_remove_clears(old.0, old.1, RecordKind::A, world.provider, mint, fuel);
        let there = World { provider: run.provider, ..world };
        let purged = ReconcilerView { dns: run.op, ..start.0 };
        lemma_carry_clearing(
            purged,
            there,
            mint,
            (fuel - run.calls) as nat,
            zone_id(world.provider.zones, old.1).unwrap(),
            old.0,
        );
    } else if stale(ddns) {
        assert(start == begin_dns(pass, Stage::Clearing, DnsTask::Remove, Seq::empty()));
        lemma_carry_clearing(pass, world, mint, fuel, nowhere, nowhere);
    } else {
        assert(start == list_from(pass, 0));
        lemma_carry_listing(pass, 0, world, mint, fuel, nowhere, nowhere);
    }
}

/// The patches that follow the removal of the records of a delete change
/// nothing of the provider.
proof fn lemma_carry_sealing(pass: ReconcilerView, world: World, mint: Mint, fuel: nat)
    ensures
        ({
            let goes_on = seal(pass);
            carry(goes_on.0, goes_on.1, world, mint, fuel).0 == world
        }),
{
    let goes_on = seal(pass);
    if fuel > 0 {
        let answered = respond(world, goes_on.1->Next_0, mint);
        let next = resumed(goes_on.0, answered.1);
        assert(answered.0 == world);
        let second = carry(next.0, next.1, world, mint, (fuel - 1) as nat);
        if next.1 is Next && fuel - 1 > 0 {
            let answered2 = respond(world, next.1->Next_0, mint);
            let last = resumed(next.0, answered2.1);
            assert(answered2.0 == world);
            let third = carry(last.0, last.1, world, mint, (fuel - 2) as nat);
            assert(last.1 is Done);
        }
    }
}

/// A delete that ends well, in a world that holds still, has left no record of
/// the domain whose records it was to remove: the last converged domain, or the
/// desired one where the object has no status.
pub proof fn lemma_delete_clears(ddns: DdnsView, world: World, mint: Mint, fuel: nat)
    requires
        carry(delete_start(ddns).0, delete_start(ddns).1, world, mint, fuel).1 == Some(
            Ok::<(), ErrorView>(()),
        ),
    ensures
        ({
            let end = carry(delete_start(ddns).0, delete_start(ddns).1, world, mint, fuel).0;
            let target = cleanup_target(ddns);
            &&& zone_id(world.provider.zones, target.1) is Some
            &&& nameless(
                records_of(end.provider, zone_id(world.provider.zones, target.1).unwrap()),
                target.0,
            )
        }),
{
    let start = delete_start(ddns);
    let target = cleanup_target(ddns);
    assert(ddns.metadata.name is Some && ddns.metadata.namespace is Some);
    assert(fuel > 0);
    let answered = respond(world, start.1->Next_0, mint);
    assert(answered == (world, OutcomeView::Patched));
    let marked = resumed(start.0, answered.1);
    assert(carry(start.0, start.1, world, mint, fuel) == carry(
        marked.0,
        marked.1,
        world,
        mint,
        (fuel - 1) as nat,
    ));
    let request = DnsRequestView::ListZones { name: target.1 };
    assert(marked == begin_dns(start.0, Stage::Cleaning, DnsTask::Remove, Seq::empty()));
    lemma_carry_dns(marked.0, request, world, mint, (fuel - 1) as nat);
    let run = perform(
        DnsTask::Remove,
        target.0,
        target.1,
        RecordKind::A,
        Seq::empty(),
        world.provider,
        mint,
        (fuel - 1) as nat,
    );
    assert(run == drive(
        marked.0.dns,
        DnsStepView::Call(request),
        world.provider,
        mint,
        (fuel - 1) as nat,
    ));
    assert(run.result is Some);
    assert(run.result.unwrap() is Ok);
    lemma_remove_clears(target.0, target.1, RecordKind::A, world.provider, mint, (fuel - 1) as nat);
    let there = World { provider: run.provider, ..world };
    lemma_carry_sealing(
        ReconcilerView { dns: run.op, ..marked.0 },
        there,
        mint,
        (fuel - 1 - run.calls) as nat,
    );
}

/// The services of each namespace.
pub type Cluster = spec_fn(Text) -> Seq<ServiceView>;

/// Whether a service carries the label that `line` writes as `key=value`.
pub open spec fn carries(service: ServiceView, line: Text) -> bool {
    service.labels matches Some(labels) && exists|i: int|
        0 <= i < labels.len() && #[trigger] pair_line(labels[i]) == line
}

/// The services of a list, in their order, that carry the label `line`.
pub open spec fn by_label(services: Seq<ServiceView>, line: Text) -> Seq<ServiceView>
    decreases services.len(),
{
    if services.len() == 0 {
        Seq::empty()
    } else {
        let head = by_label(services.drop_last(), line);
        if carries(services.last(), line) {
            head.push(services.last())
        } else {
            head
        }
    }
}

/// The cluster's answers to listings: the services of the namespace that carry
/// the label asked for.
pub open spec fn listing_of(cluster: Cluster) -> Listing {
    |namespace: Text, line: Text| by_label(cluster(namespace), line)
}

/// A listing by label holds exactly the services that carry the label.
pub proof fn lemma_by_label(services: Seq<ServiceView>, line: Text, service: ServiceView)
    ensures
        by_label(services, line).contains(service) <==> services.contains(service) && carries(
            service,
            line,
        ),
    decreases services.len(),
{
    let out = by_label(services, line);
    if services.len() > 0 {
        let init = services.drop_last();
        let head = by_label(init, line);
        lemma_by_label(init, line, service);
        if services.contains(service) {
            let i = choose|i: int| 0 <= i < services.len() && services[i] == service;
            if i < init.len() {
                assert(init[i] == service);
            }
        }
        if init.contains(service) {
            let i = choose|i: int| 0 <= i < init.len() && init[i] == service;
            assert(services[i] == service);
        }
        assert(services[services.len() - 1] == services.last());
        if carries(services.last(), line) {
            if out.contains(service) {
                let i = choose|i: int| 0 <= i < out.len() && out[i] == service;
                if i < head.len() {
                    assert(head[i] == service);
                }
            }
            if head.contains(service) {
                let i = choose|i: int| 0 <= i < head.len() && head[i] == service;
                assert(out[i] == service);
            }
            assert(out[out.len() - 1] == services.last());
        }
    }
}

/// Where the cluster answers listings by label, what an apply gathers is, as a
/// set, what the selected services of the namespace expose: the services
/// whose labels hold every pair of the selector.
pub proof fn lemma_gathered_of_cluster(
    selector: Seq<(Text, Text)>,
    namespace: Text,
    cluster: Cluster,
    ip: IpAddress,
)
    requires
        selector.len() > 0,
        gathered(selector, namespace, listing_of(cluster), selector.len() as int) is Some,
    ensures
        forall|j: int|
            0 <= j < cluster(namespace).len() && is_selected(
                selector,
                #[trigger] cluster(namespace)[j],
            ) ==> service_ips(cluster(namespace)[j]) is Some,
        gathered(selector, namespace, listing_of(cluster), selector.len() as int).unwrap().contains(
            ip,
        ) <==> exists|j: int|
            0 <= j < cluster(namespace).len() && is_selected(
                selector,
                #[trigger] cluster(namespace)[j],
            ) && service_ips(cluster(namespace)[j]).unwrap().contains(ip),
{
    let listing = listing_of(cluster);
    let services = cluster(namespace);
    let count = selector.len() as int;
    let all = gathered(selector, namespace, listing, count).unwrap();
    let first = listing(namespace, pair_line(selector[0]));
    lemma_gathered_is_union(selector, namespace, listing, count, ip);
    assert(selected_ips(first, selector) is Some);
    lemma_selected_ips(first, selector, ip);
    assert forall|j: int| 0 <= j < services.len() && is_selected(selector, #[trigger] services[j])
        implies first.contains(services[j]) by {
        let service = services[j];
        let labels = service.labels.unwrap();
        assert(labels.contains(selector[0]));
        let k = choose|k: int| 0 <= k < labels.len() && labels[k] == selector[0];
        assert(pair_line(labels[k]) == pair_line(selector[0]));
        assert(carries(service, pair_line(selector[0])));
        lemma_by_label(services, pair_line(selector[0]), service);
    }
    assert forall|j: int| 0 <= j < services.len() && is_selected(selector, #[trigger] services[j])
        implies service_ips(services[j]) is Some by {
        let k = choose|k: int| 0 <= k < first.len() && first[k] == services[j];
        assert(is_selected(selector, first[k]));
    }
    if all.contains(ip) {
        let i = choose|i: int|
            0 <= i < count && (#[trigger] selected_ips(
                listing(namespace, pair_line(selector[i])),
                selector,
            )).unwrap().contains(ip);
        let listed = listing(namespace, pair_line(selector[i]));
        lemma_selected_ips(listed, selector, ip);
        let k = choose|k: int|
            0 <= k < listed.len() && is_selected(selector, #[trigger] listed[k]) && service_ips(
                listed[k],
            ).unwrap().contains(ip);
        lemma_by_label(services, pair_line(selector[i]), listed[k]);
        assert(listed.contains(listed[k]));
        let j = choose|j: int| 0 <= j < services.len() && services[j] == listed[k];
        assert(is_selected(selector, services[j]) && service_ips(services[j]).unwrap().contains(ip));
    }
    if exists|j: int|
        0 <= j < services.len() && is_selected(selector, #[trigger] services[j]) && service_ips(
            services[j],
        ).unwrap().contains(ip) {
        let j = choose|j: int|
            0 <= j < services.len() && is_selected(selector, #[trigger] services[j])
                && service_ips(services[j]).unwrap().contains(ip);
        let k = choose|k: int| 0 <= k < first.len() && first[k] == services[j];
        assert(is_selected(selector, first[k]) && service_ips(first[k]).unwrap().contains(ip));
        assert(selected_ips(first, selector).unwrap().contains(ip));
        assert(0 <= 0 < count && selected_ips(
            listing(namespace, pair_line(selector[0])),
            selector,
        ).unwrap().contains(ip));
    }
}

/// The patches that follow a publication are accepted, and the pass ends well
/// within two requests.
proof fn lemma_patches_end(pass: ReconcilerView, world: World, mint: Mint, fuel: nat)
    requires
        fuel >= 2,
    ensures
        ({
            let goes_on = after_publish(pass);
            carry(goes_on.0, goes_on.1, world, mint, fuel).1 == Some(Ok::<(), ErrorView>(()))
        }),
{
    let goes_on = after_publish(pass);
    let answered = respond(world, goes_on.1->Next_0, mint);
    let next = resumed(goes_on.0, answered.1);
    let second = carry(next.0, next.1, world, mint, (fuel - 1) as nat);
    assert(answered == (world, OutcomeView::Patched));
    assert(carry(goes_on.0, goes_on.1, world, mint, fuel) == second);
    if next.1 is Next {
        let answered2 = respond(world, next.1->Next_0, mint);
        let last = resumed(next.0, answered2.1);
        assert(answered2 == (world, OutcomeView::Patched));
        let third = carry(last.0, last.1, world, mint, (fuel - 2) as nat);
        assert(second == third);
        assert(last.1 == ProgressView::Done(Ok::<(), ErrorView>(())));
    }
}

/// The number of requests within which an apply ends once it has its
/// addresses: the calls of the publication and two patches.
pub open spec fn publishing_needs(
    domain: Text,
    zone: Text,
    all: Seq<IpAddress>,
    provider: Provider,
) -> nat {
    calls_needed(domain, zone, all, provider) + 2
}

/// The removal of the records of `name` in `zone`, run to its end.
pub open spec fn removal(name: Text, zone: Text, provider: Provider, mint: Mint) -> Provider {
    perform(
        DnsTask::Remove,
        name,
        zone,
        RecordKind::A,
        Seq::empty(),
        provider,
        mint,
        calls_needed(name, zone, Seq::empty(), provider),
    ).provider
}

/// The number of requests within which an apply ends that first removes the
/// records of its domain: the calls of the removal, one listing per selector
/// pair, and what the publication needs.
pub open spec fn clearing_needs(
    domain: Text,
    zone: Text,
    pairs: nat,
    all: Seq<IpAddress>,
    provider: Provider,
    mint: Mint,
) -> nat {
    calls_needed(domain, zone, Seq::empty(), provider) + pairs + publishing_needs(
        domain,
        zone,
        all,
        removal(domain, zone, provider, mint),
    )
}

/// A pass that publishes addresses in a zone that the provider has ends well.
proof fn lemma_publishing_ends(pass: ReconcilerView, world: World, mint: Mint, fuel: nat)
    requires
        zone_id(world.provider.zones, pass.status.zone) is Some,
        fuel >= publishing_needs(
            pass.status.domain,
            pass.status.zone,
            pass.addresses,
            world.provider,
        ),
    ensures
        ({
            let begun = begin_dns(pass, Stage::Publishing, DnsTask::Replace, pass.addresses);
            carry(begun.0, begun.1, world, mint, fuel).1 == Some(Ok::<(), ErrorView>(()))
        }),
{
    let begun = begin_dns(pass, Stage::Publishing, DnsTask::Replace, pass.addresses);
    let request = DnsRequestView::ListZones { name: pass.status.zone };
    lemma_carry_dns(begun.0, request, world, mint, fuel);
    lemma_perform_ends(
        DnsTask::Replace,
        pass.status.domain,
        pass.status.zone,
        RecordKind::A,
        pass.addresses,
        world.provider,
        mint,
        fuel,
    );
    let run = perform(
        DnsTask::Replace,
        pass.status.domain,
        pass.status.zone,
        RecordKind::A,
        pass.addresses,
        world.provider,
        mint,
        fuel,
    );
    assert(run == drive(begun.0.dns, DnsStepView::Call(request), world.provider, mint, fuel));
    let there = World { provider: run.provider, ..world };
    lemma_patches_end(
        ReconcilerView { dns: run.op, ..begun.0 },
        there,
        mint,
        (fuel - run.calls) as nat,
    );
}

/// A pass that asks for the services of its selector pairs from position
/// `from` on ends well, where every listing can be read, some selected service
/// exposes an address, and the provider has the zone.
proof fn lemma_listing_ends(pass: ReconcilerView, from: nat, world: World, mint: Mint, fuel: nat)
    requires
        from <= pass.status.selector.len(),
        gathered(pass.status.selector, pass.namespace, world.listing, from as int) == Some(
            pass.addresses,
        ),
        gathered(
            pass.status.selector,
            pass.namespace,
            world.listing,
            pass.status.selector.len() as int,
        ) matches Some(all) && all.len() > 0,
        zone_id(world.provider.zones, pass.status.zone) is Some,
        fuel >= pass.status.selector.len() - from + publishing_needs(
            pass.status.domain,
            pass.status.zone,
            gathered(
                pass.status.selector,
                pass.namespace,
                world.listing,
                pass.status.selector.len() as int,
            ).unwrap(),
            world.provider,
        ),
    ensures
        ({
            let begun = list_from(pass, from);
            carry(begun.0, begun.1, world, mint, fuel).1 == Some(Ok::<(), ErrorView>(()))
        }),
    decreases pass.status.selector.len() - from,
{
    let begun = list_from(pass, from);
    if from < pass.status.selector.len() {
        let answered = respond(world, begun.1->Next_0, mint);
        let next = resumed(begun.0, answered.1);
        let listed = (world.listing)(pass.namespace, pair_line(pass.status.selector[from as int]));
        assert(answered == (world, OutcomeView::Services(listed)));
        assert(begun.0.stage == Stage::Listing);
        assert(carry(begun.0, begun.1, world, mint, fuel) == carry(
            next.0,
            next.1,
            world,
            mint,
            (fuel - 1) as nat,
        ));
        lemma_gathered_prefix(
            pass.status.selector,
            pass.namespace,
            world.listing,
            from + 1 as int,
            pass.status.selector.len() as int,
        );
        assert(selected_ips(listed, pass.status.selector) is Some);
        let more = ReconcilerView {
            addresses: merged(pass.addresses, selected_ips(listed, pass.status.selector).unwrap()),
            ..begun.0
        };
        assert(next == list_from(more, from + 1));
        lemma_listing_ends(more, from + 1, world, mint, (fuel - 1) as nat);
    } else {
        lemma_publishing_ends(pass, world, mint, fuel);
    }
}

/// What can be gathered over all selector pairs can be gathered over the first
/// few.
proof fn lemma_gathered_prefix(
    selector: Seq<(Text, Text)>,
    namespace: Text,
    listing: Listing,
    upto: int,
    all: int,
)
    requires
        0 <= upto <= all,
        gathered(selector, namespace, listing, all) is Some,
    ensures
        gathered(selector, namespace, listing, upto) is Some,
    decreases all - upto,
{
    if upto < all {
        lemma_gathered_prefix(selector, namespace, listing, upto + 1, all);
    }
}

/// A pass that removes the records of its domain and then asks for the
/// services ends well, where every listing can be read, some selected service
/// exposes an address, and the provider has the zone.
proof fn lemma_clearing_ends(pass: ReconcilerView, world: World, mint: Mint, fuel: nat)
    requires
        pass.addresses.len() == 0,
        gathered(
            pass.status.selector,
            pass.namespace,
            world.listing,
            pass.status.selector.len() as int,
        ) matches Some(all) && all.len() > 0,
        zone_id(world.provider.zones, pass.status.zone) is Some,
        fuel >= clearing_needs(
            pass.status.domain,
            pass.status.zone,
            pass.status.selector.len(),
            gathered(
                pass.status.selector,
                pass.namespace,
                world.listing,
                pass.status.selector.len() as int,
            ).unwrap(),
            world.provider,
            mint,
        ),
    ensures
        ({
            let begun = begin_dns(pass, Stage::Clearing, DnsTask::Remove, Seq::empty());
            carry(begun.0, begun.1, world, mint, fuel).1 == Some(Ok::<(), ErrorView>(()))
        }),
{
    let begun = begin_dns(pass, Stage::Clearing, DnsTask::Remove, Seq::empty());
    let request = DnsRequestView::ListZones { name: pass.status.zone };
    let none = Seq::<IpAddress>::empty();
    let enough = calls_needed(pass.status.domain, pass.status.zone, none, world.provider);
    lemma_carry_dns(begun.0, request, world, mint, fuel);
    lemma_perform_ends(
        DnsTask::Remove,
        pass.status.domain,
        pass.status.zone,
        RecordKind::A,
        none,
        world.provider,
        mint,
        enough,
    );
    lemma_drive_stable(
        begun.0.dns,
        DnsStepView::Call(request),
        world.provider,
        mint,
        enough,
        fuel,
    );
    lemma_remove_clears(
        pass.status.domain,
        pass.status.zone,
        RecordKind::A,
        world.provider,
        mint,
        enough,
    );
    let run = drive(begun.0.dns, DnsStepView::Call(request), world.provider, mint, fuel);
    assert(run.provider == removal(pass.status.domain, pass.status.zone, world.provider, mint));
    let there = World { provider: run.provider, ..world };
    let cleared = ReconcilerView { dns: run.op, ..begun.0 };
    assert(pass.addresses =~= none);
    lemma_listing_ends(cleared, 0, there, mint, (fuel - run.calls) as nat);
}

/// The number of requests within which the apply of `ddns` ends in `world`.
pub open spec fn apply_needs(ddns: DdnsView, world: World, mint: Mint) -> nat {
    let pairs = ddns.spec.selector.len();
    let all = gathered(ddns.spec.selector, namespace_of(ddns), world.listing, pairs as int).unwrap();
    if renamed(ddns) {
        let old = old_target(ddns);
        calls_needed(old.0, old.1, Seq::empty(), world.provider) + clearing_needs(
            ddns.spec.domain,
            ddns.spec.zone,
            pairs,
            all,
            removal(old.0, old.1, world.provider, mint),
            mint,
        )
    } else if stale(ddns) {
        clearing_needs(ddns.spec.domain, ddns.spec.zone, pairs, all, world.provider, mint)
    } else {
        pairs + publishing_needs(ddns.spec.domain, ddns.spec.zone, all, world.provider)
    }
}

/// Success follows from successful answers: the apply of an object that has a
/// name and a namespace ends well, in a world that holds still and accepts
/// every patch, where every listing can be read, some selected service exposes
/// an address, and the provider has the zones that the pass works in.
pub proof fn lemma_apply_ends_well(ddns: DdnsView, world: World, mint: Mint, fuel: nat)
    requires
        ddns.metadata.name is Some,
        ddns.metadata.namespace is Some,
        zone_id(world.provider.zones, ddns.spec.zone) is Some,
        renamed(ddns) ==> zone_id(world.provider.zones, old_target(ddns).1) is Some,
        gathered(
            ddns.spec.selector,
            namespace_of(ddns),
            world.listing,
            ddns.spec.selector.len() as int,
        ) matches Some(all) && all.len() > 0,
        fuel >= apply_needs(ddns, world, mint),
    ensures
        carry(apply_start(ddns).0, apply_start(ddns).1, world, mint, fuel).1 == Some(
            Ok::<(), ErrorView>(()),
        ),
{
    let start = apply_start(ddns);
    let pass = pass_of(
        ddns.metadata.name.unwrap(),
        ddns.metadata.namespace.unwrap(),
        crate::resource::status_of(crate::resource::running(), ddns.spec),
        ddns.metadata.finalizers,
    );
    let none = Seq::<IpAddress>::empty();
    if renamed(ddns) {
        let old = old_target(ddns);
        let request = DnsRequestView::ListZones { name: old.1 };
        let enough = calls_needed(old.0, old.1, none, world.provider);
        assert(start == begin_purge(pass, old.0, old.1));
        lemma_carry_dns(start.0, request, world, mint, fuel);
        lemma_perform_ends(DnsTask::Remove, old.0, old.1, RecordKind::A, none, world.provider, mint, enough);
        lemma_drive_stable(
            start.0.dns,
            DnsStepView::Call(request),
            world.provider,
            mint,
            enough,
            fuel,
        );
        lemma_remove_clears(old.0, old.1, RecordKind::A, world.provider, mint, enough);
        let run = drive(start.0.dns, DnsStepView::Call(request), world.provider, mint, fuel);
        assert(run.provider == removal(old.0, old.1, world.provider, mint));
        let there = World { provider: run.provider, ..world };
        let purged = ReconcilerView { dns: run.op, ..start.0 };
        lemma_clearing_ends(purged, there, mint, (fuel - run.calls) as nat);
    } else if stale(ddns) {
        assert(start == begin_dns(pass, Stage::Clearing, DnsTask::Remove, Seq::empty()));
        lemma_clearing_ends(pass, world, mint, fuel);
    } else {
        assert(start == list_from(pass, 0));
        lemma_listing_ends(pass, 0, world, mint, fuel);
    }
}

} // verus!
