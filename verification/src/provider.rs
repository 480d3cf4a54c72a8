//! A model of the DNS provider, and what the three operations achieve when
//! they are run against it.
//!
//! The model holds the zones and, per zone, the records in the order in which
//! they were created. It answers a listing with every record of the zone, a
//! deletion by removing the records with the given identifier (and with
//! status 404 where there is none), and a creation by adding a record under an
//! identifier of its own choice.

use crate::cf_dns::{
    addresses_of, answers, dns_create_from, dns_delete_from, dns_on_records, dns_start, dns_step,
    ids_named, is_write, kind_of, zone_id, CfDnsView, DnsPhase, DnsRecordView, DnsReplyView,
    DnsRequestView, DnsStepView, DnsTask, RecordContent, RecordKind, ZoneView, DEFAULT_TTL,
};
use crate::net::IpAddress;
use crate::text::Text;
use vstd::prelude::*;

verus! {

/// What the provider holds.
pub struct Provider {
    pub zones: Seq<ZoneView>,
    pub records: Map<Text, Seq<DnsRecordView>>,
}

/// How the provider names a new record, given the records of the zone.
pub type Mint = spec_fn(Seq<DnsRecordView>) -> Text;

/// The records of the zone `zone`.
pub open spec fn records_of(provider: Provider, zone: Text) -> Seq<DnsRecordView> {
    if provider.records.dom().contains(zone) {
        provider.records[zone]
    } else {
        Seq::empty()
    }
}

/// `records` without the records whose identifier is `id`.
pub open spec fn purged(records: Seq<DnsRecordView>, id: Text) -> Seq<DnsRecordView>
    decreases records.len(),
{
    if records.len() == 0 {
        Seq::empty()
    } else {
        let head = purged(records.drop_last(), id);
        if records.last().id == id {
            head
        } else {
            head.push(records.last())
        }
    }
}

/// Whether some record has the identifier `id`.
pub open spec fn holds_id(records: Seq<DnsRecordView>, id: Text) -> bool {
    exists|i: int| 0 <= i < records.len() && (#[trigger] records[i]).id == id
}

/// The record that a creation adds.
pub open spec fn minted(
    records: Seq<DnsRecordView>,
    mint: Mint,
    name: Text,
    content: IpAddress,
) -> DnsRecordView {
    DnsRecordView { id: mint(records), name, content: RecordContent::Address(content) }
}

/// The provider with `records` as the records of the zone `zone`.
pub open spec fn with_records(provider: Provider, zone: Text, records: Seq<DnsRecordView>) -> Provider {
    Provider { records: provider.records.insert(zone, records), ..provider }
}

/// The provider after a call, and its answer.
pub open spec fn answer(provider: Provider, request: DnsRequestView, mint: Mint) -> (
    Provider,
    DnsReplyView,
) {
    match request {
        DnsRequestView::ListZones { name } => (
            provider,
            DnsReplyView::Zones { zones: provider.zones, errors: Seq::empty() },
        ),
        DnsRequestView::ListRecords { zone_id, name } => (
            provider,
            DnsReplyView::Records { records: records_of(provider, zone_id), errors: Seq::empty() },
        ),
        DnsRequestView::DeleteRecord { zone_id, record_id } => {
            let records = records_of(provider, zone_id);
            if holds_id(records, record_id) {
                (
                    with_records(provider, zone_id, purged(records, record_id)),
                    DnsReplyView::Deleted { errors: Seq::empty() },
                )
            } else {
                (provider, DnsReplyView::Failed { status: Some(404u16), message: Seq::empty() })
            }
        },
        DnsRequestView::CreateRecord { zone_id, name, content, ttl } => {
            let records = records_of(provider, zone_id);
            (
                with_records(provider, zone_id, records.push(minted(records, mint, name, content))),
                DnsReplyView::Created { errors: Seq::empty() },
            )
        },
    }
}

/// How a run of an operation against the provider ended: what the provider
/// holds then, the state of the operation, its result (none where the run was
/// cut short), the number of calls that were made, and the number of those
/// that changed what the provider holds.
pub struct Run {
    pub provider: Provider,
    pub op: CfDnsView,
    pub result: Option<Result<Seq<IpAddress>, Text>>,
    pub calls: nat,
    pub writes: nat,
}

/// The run of the operation `op`, which is about to do `step`, against
/// `provider`, for at most `fuel` calls.
pub open spec fn drive(
    op: CfDnsView,
    step: DnsStepView,
    provider: Provider,
    mint: Mint,
    fuel: nat,
) -> Run
    decreases fuel,
{
    match step {
        DnsStepView::Done(result) => Run { provider, op, result: Some(result), calls: 0, writes: 0 },
        DnsStepView::Call(request) => if fuel == 0 {
            Run { provider, op, result: None, calls: 0, writes: 0 }
        } else {
            let answered = answer(provider, request, mint);
            let stepped = dns_step(op, answered.1);
            let rest = drive(stepped.0, stepped.1, answered.0, mint, (fuel - 1) as nat);
            Run {
                provider: rest.provider,
                op: rest.op,
                result: rest.result,
                calls: rest.calls + 1,
                writes: rest.writes + if is_write(request) {
                    1nat
                } else {
                    0nat
                },
            }
        },
    }
}

/// The run of a whole operation.
pub open spec fn perform(
    task: DnsTask,
    name: Text,
    zone: Text,
    kind: RecordKind,
    desired: Seq<IpAddress>,
    provider: Provider,
    mint: Mint,
    fuel: nat,
) -> Run {
    let start = dns_start(task, name, zone, kind, desired);
    drive(start.0, start.1, provider, mint, fuel)
}

/// `records` after one record per address of `adds` was created for `name`.
pub open spec fn extended(
    records: Seq<DnsRecordView>,
    mint: Mint,
    name: Text,
    adds: Seq<IpAddress>,
) -> Seq<DnsRecordView>
    decreases adds.len(),
{
    if adds.len() == 0 {
        records
    } else {
        extended(records.push(minted(records, mint, name, adds[0])), mint, name, adds.drop_first())
    }
}

/// `records` after the records with the identifiers of `ids` were deleted.
pub open spec fn purged_all(records: Seq<DnsRecordView>, ids: Seq<Text>) -> Seq<DnsRecordView>
    decreases ids.len(),
{
    if ids.len() == 0 {
        records
    } else {
        purged_all(purged(records, ids[0]), ids.drop_first())
    }
}

/// No record is named `name`.
pub open spec fn nameless(records: Seq<DnsRecordView>, name: Text) -> bool {
    forall|i: int| 0 <= i < records.len() ==> (#[trigger] records[i]).name != name
}

/// Every address is of kind `kind`.
pub open spec fn all_of_kind(ips: Seq<IpAddress>, kind: RecordKind) -> bool {
    forall|i: int| 0 <= i < ips.len() ==> kind_of(#[trigger] ips[i]) == kind
}

/// Deleting an identifier that no record has changes nothing.
pub proof fn lemma_purged_absent(records: Seq<DnsRecordView>, id: Text)
    requires
        !holds_id(records, id),
    ensures
        purged(records, id) == records,
    decreases records.len(),
{
    if records.len() > 0 {
        let init = records.drop_last();
        assert forall|i: int| 0 <= i < init.len() implies (#[trigger] init[i]).id != id by {
            assert(records[i].id != id);
        }
        lemma_purged_absent(init, id);
        assert(records[records.len() - 1].id != id);
        assert(init.push(records.last()) =~= records);
    } else {
        assert(purged(records, id) =~= records);
    }
}

/// What is left after a deletion are records that were there and that do not
/// have the deleted identifier.
pub proof fn lemma_purged(records: Seq<DnsRecordView>, id: Text)
    ensures
        forall|i: int|
            0 <= i < purged(records, id).len() ==> (#[trigger] purged(records, id)[i]).id != id
                && records.contains(purged(records, id)[i]),
    decreases records.len(),
{
    if records.len() > 0 {
        let init = records.drop_last();
        lemma_purged(init, id);
        let out = purged(records, id);
        let head = purged(init, id);
        assert forall|i: int| 0 <= i < out.len() implies (#[trigger] out[i]).id != id
            && records.contains(out[i]) by {
            if i < head.len() {
                assert(out[i] == head[i]);
                assert(init.contains(head[i]));
                let k = choose|k: int| 0 <= k < init.len() && init[k] == head[i];
                assert(records[k] == head[i]);
            } else {
                assert(out[i] == records[records.len() - 1]);
            }
        }
    }
}

/// What is left after a series of deletions are records that were there and
/// that have none of the deleted identifiers.
pub proof fn lemma_purged_all(records: Seq<DnsRecordView>, ids: Seq<Text>)
    ensures
        forall|i: int|
            0 <= i < purged_all(records, ids).len() ==> !ids.contains(
                (#[trigger] purged_all(records, ids)[i]).id,
            ) && records.contains(purged_all(records, ids)[i]),
    decreases ids.len(),
{
    if ids.len() > 0 {
        let first = purged(records, ids[0]);
        let rest = ids.drop_first();
        lemma_purged(records, ids[0]);
        lemma_purged_all(first, rest);
        let out = purged_all(records, ids);
        assert forall|i: int| 0 <= i < out.len() implies !ids.contains((#[trigger] out[i]).id)
            && records.contains(out[i]) by {
            assert(first.contains(out[i]));
            let k = choose|k: int| 0 <= k < first.len() && first[k] == out[i];
            assert(first[k].id != ids[0]);
            assert(records.contains(first[k]));
            if ids.contains(out[i].id) {
                let m = choose|m: int| 0 <= m < ids.len() && ids[m] == out[i].id;
                assert(m > 0);
                assert(rest[m - 1] == out[i].id);
            }
        }
    }
}

/// The identifiers of the records of a name include the identifier of every
/// record of that name.
pub proof fn lemma_ids_named(records: Seq<DnsRecordView>, name: Text, at: int)
    requires
        0 <= at < records.len(),
        records[at].name == name,
    ensures
        ids_named(records, name).contains(records[at].id),
    decreases records.len(),
{
    let init = records.drop_last();
    let head = ids_named(init, name);
    let out = ids_named(records, name);
    if at < records.len() - 1 {
        lemma_ids_named(init, name, at);
        let k = choose|k: int| 0 <= k < head.len() && head[k] == init[at].id;
        assert(out[k] == records[at].id);
    } else {
        assert(out[out.len() - 1] == records[at].id);
    }
}

/// Once every record of a name is deleted, no record of that name is left.
pub proof fn lemma_purged_named(records: Seq<DnsRecordView>, name: Text)
    ensures
        nameless(purged_all(records, ids_named(records, name)), name),
{
    let ids = ids_named(records, name);
    let out = purged_all(records, ids);
    lemma_purged_all(records, ids);
    assert forall|i: int| 0 <= i < out.len() implies (#[trigger] out[i]).name != name by {
        assert(records.contains(out[i]));
        let k = choose|k: int| 0 <= k < records.len() && records[k] == out[i];
        if out[i].name == name {
            lemma_ids_named(records, name, k);
        }
    }
}

/// Records of other names hold no address of a name.
pub proof fn lemma_addresses_nameless(records: Seq<DnsRecordView>, name: Text, kind: RecordKind)
    requires
        nameless(records, name),
    ensures
        addresses_of(records, name, kind) == Seq::<IpAddress>::empty(),
    decreases records.len(),
{
    if records.len() > 0 {
        let init = records.drop_last();
        assert forall|i: int| 0 <= i < init.len() implies (#[trigger] init[i]).name != name by {
            assert(records[i].name != name);
        }
        lemma_addresses_nameless(init, name, kind);
        assert(records[records.len() - 1].name != name);
    }
}

/// The records that were created for a name add their addresses, in order, to
/// the addresses of the name.
pub proof fn lemma_addresses_extended(
    records: Seq<DnsRecordView>,
    mint: Mint,
    name: Text,
    adds: Seq<IpAddress>,
    kind: RecordKind,
)
    requires
        all_of_kind(adds, kind),
    ensures
        addresses_of(extended(records, mint, name, adds), name, kind) == addresses_of(
            records,
            name,
            kind,
        ) + adds,
    decreases adds.len(),
{
    if adds.len() == 0 {
        assert(addresses_of(records, name, kind) + adds =~= addresses_of(records, name, kind));
    } else {
        let record = minted(records, mint, name, adds[0]);
        let next = records.push(record);
        let rest = adds.drop_first();
        assert forall|i: int| 0 <= i < rest.len() implies kind_of(#[trigger] rest[i]) == kind by {
            assert(rest[i] == adds[i + 1]);
        }
        lemma_addresses_extended(next, mint, name, rest, kind);
        assert(next.drop_last() =~= records);
        assert(next.last() == record);
        assert(kind_of(adds[0]) == kind);
        assert(answers(record, name, kind));
        assert(addresses_of(next, name, kind) == addresses_of(records, name, kind).push(adds[0]));
        assert(addresses_of(records, name, kind).push(adds[0]) + rest =~= addresses_of(
            records,
            name,
            kind,
        ) + adds);
    }
}

/// The call that creates the record of the desired address at `at`.
pub open spec fn creation(op: CfDnsView, at: int) -> DnsStepView {
    DnsStepView::Call(
        DnsRequestView::CreateRecord {
            zone_id: op.zone_id,
            name: op.name,
            content: op.desired[at],
            ttl: DEFAULT_TTL,
        },
    )
}

/// The call that deletes the doomed record at `at`.
pub open spec fn deletion(op: CfDnsView, at: int) -> DnsStepView {
    DnsStepView::Call(
        DnsRequestView::DeleteRecord { zone_id: op.zone_id, record_id: op.doomed[at] },
    )
}

/// A run that has come to create, and that ends well, leaves the zones as they
/// are and adds to the zone one record per desired address that was left to
/// create.
pub proof fn lemma_drive_creating(op: CfDnsView, provider: Provider, mint: Mint, fuel: nat)
    requires
        op.phase == DnsPhase::Creating,
        op.cursor < op.desired.len(),
        drive(op, creation(op, op.cursor as int), provider, mint, fuel).result is Some,
    ensures
        ({
            let run = drive(op, creation(op, op.cursor as int), provider, mint, fuel);
            &&& run.result == Some(Ok::<Seq<IpAddress>, Text>(Seq::empty()))
            &&& run.provider.zones == provider.zones
            &&& records_of(run.provider, op.zone_id) == extended(
                records_of(provider, op.zone_id),
                mint,
                op.name,
                op.desired.skip(op.cursor as int),
            )
        }),
    decreases fuel,
{
    let step = creation(op, op.cursor as int);
    let run = drive(op, step, provider, mint, fuel);
    let records = records_of(provider, op.zone_id);
    let left = op.desired.skip(op.cursor as int);
    assert(fuel > 0);
    let answered = answer(provider, step->Call_0, mint);
    let stepped = dns_step(op, answered.1);
    let added = records.push(minted(records, mint, op.name, op.desired[op.cursor as int]));
    assert(records_of(answered.0, op.zone_id) == added);
    assert(stepped == dns_create_from(op, op.cursor + 1));
    assert(left[0] == op.desired[op.cursor as int]);
    assert(left.drop_first() =~= op.desired.skip(op.cursor + 1 as int));
    let rest = drive(stepped.0, stepped.1, answered.0, mint, (fuel - 1) as nat);
    assert(run.provider == rest.provider && run.result == rest.result);
    assert(extended(records, mint, op.name, left) == extended(
        added,
        mint,
        op.name,
        left.drop_first(),
    ));
    if op.cursor + 1 < op.desired.len() {
        assert(stepped.1 == creation(stepped.0, op.cursor + 1 as int));
        lemma_drive_creating(stepped.0, answered.0, mint, (fuel - 1) as nat);
    } else {
        assert(left.drop_first().len() == 0);
        assert(extended(added, mint, op.name, left.drop_first()) == added);
        assert(stepped.1 == DnsStepView::Done(Ok::<Seq<IpAddress>, Text>(Seq::empty())));
        assert(rest.provider == answered.0);
    }
}

/// A run that has come to delete, and that ends well, leaves the zones as they
/// are, removes the doomed records that were left to delete and, where the
/// operation is a set, adds one record per desired address.
pub proof fn lemma_drive_deleting(op: CfDnsView, provider: Provider, mint: Mint, fuel: nat)
    requires
        op.phase == DnsPhase::Deleting,
        op.cursor < op.doomed.len(),
        drive(op, deletion(op, op.cursor as int), provider, mint, fuel).result is Some,
    ensures
        ({
            let run = drive(op, deletion(op, op.cursor as int), provider, mint, fuel);
            let cleared = purged_all(
                records_of(provider, op.zone_id),
                op.doomed.skip(op.cursor as int),
            );
            &&& run.result == Some(Ok::<Seq<IpAddress>, Text>(Seq::empty()))
            &&& run.provider.zones == provider.zones
            &&& records_of(run.provider, op.zone_id) == if op.task == DnsTask::Replace {
                extended(cleared, mint, op.name, op.desired)
            } else {
                cleared
            }
        }),
    decreases fuel,
{
    let step = deletion(op, op.cursor as int);
    let run = drive(op, step, provider, mint, fuel);
    let records = records_of(provider, op.zone_id);
    let left = op.doomed.skip(op.cursor as int);
    assert(fuel > 0);
    let answered = answer(provider, step->Call_0, mint);
    let stepped = dns_step(op, answered.1);
    let id = op.doomed[op.cursor as int];
    if !holds_id(records, id) {
        lemma_purged_absent(records, id);
    }
    assert(records_of(answered.0, op.zone_id) == purged(records, id));
    assert(stepped == dns_delete_from(op, op.cursor + 1));
    assert(left[0] == id);
    assert(left.drop_first() =~= op.doomed.skip(op.cursor + 1 as int));
    let rest = drive(stepped.0, stepped.1, answered.0, mint, (fuel - 1) as nat);
    assert(run.provider == rest.provider && run.result == rest.result);
    assert(purged_all(records, left) == purged_all(purged(records, id), left.drop_first()));
    if op.cursor + 1 < op.doomed.len() {
        assert(stepped.1 == deletion(stepped.0, op.cursor + 1 as int));
        lemma_drive_deleting(stepped.0, answered.0, mint, (fuel - 1) as nat);
    } else {
        assert(left.drop_first().len() == 0);
        assert(purged_all(purged(records, id), left.drop_first()) == purged(records, id));
        if op.task == DnsTask::Replace {
            assert(stepped == dns_create_from(op, 0));
            if 0 < op.desired.len() {
                assert(stepped.1 == creation(stepped.0, 0));
                assert(op.desired.skip(0) =~= op.desired);
                lemma_drive_creating(stepped.0, answered.0, mint, (fuel - 1) as nat);
            } else {
                assert(extended(purged(records, id), mint, op.name, op.desired) == purged(
                    records,
                    id,
                ));
                assert(stepped.1 == DnsStepView::Done(Ok::<Seq<IpAddress>, Text>(Seq::empty())));
                assert(rest.provider == answered.0);
            }
        } else {
            assert(stepped.1 == DnsStepView::Done(Ok::<Seq<IpAddress>, Text>(Seq::empty())));
            assert(rest.provider == answered.0);
        }
    }
}

/// A run that has the records of its name and goes on to delete and create,
/// and that ends well, leaves the zones as they are, removes the doomed
/// records and, where the operation is a set, adds one record per desired
/// address.
pub proof fn lemma_drive_writes(op: CfDnsView, provider: Provider, mint: Mint, fuel: nat)
    requires
        op.task != DnsTask::Read,
        ({
            let begun = dns_delete_from(op, 0);
            drive(begun.0, begun.1, provider, mint, fuel).result is Some
        }),
    ensures
        ({
            let begun = dns_delete_from(op, 0);
            let run = drive(begun.0, begun.1, provider, mint, fuel);
            let cleared = purged_all(records_of(provider, op.zone_id), op.doomed);
            &&& run.result == Some(Ok::<Seq<IpAddress>, Text>(Seq::empty()))
            &&& run.provider.zones == provider.zones
            &&& records_of(run.provider, op.zone_id) == if op.task == DnsTask::Replace {
                extended(cleared, mint, op.name, op.desired)
            } else {
                cleared
            }
        }),
{
    let begun = dns_delete_from(op, 0);
    let records = records_of(provider, op.zone_id);
    assert(op.doomed.skip(0) =~= op.doomed);
    assert(op.desired.skip(0) =~= op.desired);
    if 0 < op.doomed.len() {
        assert(begun.1 == deletion(begun.0, 0));
        lemma_drive_deleting(begun.0, provider, mint, fuel);
    } else {
        assert(purged_all(records, op.doomed) == records);
        if op.task == DnsTask::Replace && 0 < op.desired.len() {
            assert(begun.1 == creation(begun.0, 0));
            lemma_drive_creating(begun.0, provider, mint, fuel);
        } else {
            assert(begun.1 == DnsStepView::Done(Ok::<Seq<IpAddress>, Text>(Seq::empty())));
            if op.task == DnsTask::Replace {
                assert(extended(records, mint, op.name, op.desired) == records);
            }
        }
    }
}

/// A set that ends well has made the addresses of the name equal, as a set, to
/// the desired ones, provided that every desired address is of the kind that
/// the set is for. The zones are as before.
pub proof fn lemma_replace_converges(
    name: Text,
    zone: Text,
    kind: RecordKind,
    desired: Seq<IpAddress>,
    provider: Provider,
    mint: Mint,
    fuel: nat,
)
    requires
        all_of_kind(desired, kind),
        perform(DnsTask::Replace, name, zone, kind, desired, provider, mint, fuel).result matches Some(
            Ok(_),
        ),
    ensures
        ({
            let run = perform(DnsTask::Replace, name, zone, kind, desired, provider, mint, fuel);
            &&& zone_id(provider.zones, zone) is Some
            &&& run.provider.zones == provider.zones
            &&& addresses_of(
                records_of(run.provider, zone_id(provider.zones, zone).unwrap()),
                name,
                kind,
            ).to_set() == desired.to_set()
        }),
{
    let start = dns_start(DnsTask::Replace, name, zone, kind, desired);
    let run = drive(start.0, start.1, provider, mint, fuel);
    assert(fuel > 0);
    let zones = answer(provider, start.1->Call_0, mint);
    let listed = dns_step(start.0, zones.1);
    let run1 = drive(listed.0, listed.1, provider, mint, (fuel - 1) as nat);
    assert(run.result == run1.result && run.provider == run1.provider);
    assert(zone_id(provider.zones, zone) is Some);
    let z = zone_id(provider.zones, zone).unwrap();
    assert(fuel - 1 > 0);
    let records = records_of(provider, z);
    let answered = answer(provider, listed.1->Call_0, mint);
    let stepped = dns_step(listed.0, answered.1);
    assert(stepped == dns_on_records(listed.0, records));
    let run2 = drive(stepped.0, stepped.1, provider, mint, (fuel - 2) as nat);
    assert(run1.result == run2.result && run1.provider == run2.provider);
    let found = addresses_of(records, name, kind);
    if found.to_set() == desired.to_set() {
        assert(run2.provider == provider);
    } else {
        let op = CfDnsView { doomed: ids_named(records, name), ..listed.0 };
        assert(stepped == dns_delete_from(op, 0));
        lemma_drive_writes(op, provider, mint, (fuel - 2) as nat);
        let cleared = purged_all(records, op.doomed);
        lemma_purged_named(records, name);
        lemma_addresses_nameless(cleared, name, kind);
        lemma_addresses_extended(cleared, mint, name, desired, kind);
        assert(Seq::<IpAddress>::empty() + desired =~= desired);
    }
}

/// A set that is run again after a set of the same addresses that ended well
/// changes nothing: it makes no call that writes, and it ends well. This holds
/// where every desired address is of the kind that the set is for.
pub proof fn lemma_replace_twice(
    name: Text,
    zone: Text,
    kind: RecordKind,
    desired: Seq<IpAddress>,
    provider: Provider,
    mint: Mint,
    fuel: nat,
    again: nat,
)
    requires
        all_of_kind(desired, kind),
        perform(DnsTask::Replace, name, zone, kind, desired, provider, mint, fuel).result matches Some(
            Ok(_),
        ),
        again >= 2,
    ensures
        ({
            let first = perform(DnsTask::Replace, name, zone, kind, desired, provider, mint, fuel);
            let second = perform(
                DnsTask::Replace,
                name,
                zone,
                kind,
                desired,
                first.provider,
                mint,
                again,
            );
            &&& second.provider == first.provider
            &&& second.writes == 0
            &&& second.result == Some(Ok::<Seq<IpAddress>, Text>(Seq::empty()))
        }),
{
    lemma_replace_converges(name, zone, kind, desired, provider, mint, fuel);
    let first = perform(DnsTask::Replace, name, zone, kind, desired, provider, mint, fuel);
    let held = first.provider;
    let start = dns_start(DnsTask::Replace, name, zone, kind, desired);
    let second = drive(start.0, start.1, held, mint, again);
    let zones = answer(held, start.1->Call_0, mint);
    let listed = dns_step(start.0, zones.1);
    let run1 = drive(listed.0, listed.1, held, mint, (again - 1) as nat);
    assert(second.result == run1.result && second.provider == run1.provider && second.writes
        == run1.writes);
    let z = zone_id(provider.zones, zone).unwrap();
    let answered = answer(held, listed.1->Call_0, mint);
    let stepped = dns_step(listed.0, answered.1);
    assert(stepped == dns_on_records(listed.0, records_of(held, z)));
    let run2 = drive(stepped.0, stepped.1, held, mint, (again - 2) as nat);
    assert(run1.result == run2.result && run1.provider == run2.provider && run1.writes
        == run2.writes);
}

/// A removal that ends well leaves no record of the name in the zone. The
/// zones are as before.
pub proof fn lemma_remove_clears(
    name: Text,
    zone: Text,
    kind: RecordKind,
    provider: Provider,
    mint: Mint,
    fuel: nat,
)
    requires
        perform(DnsTask::Remove, name, zone, kind, Seq::empty(), provider, mint, fuel).result matches Some(
            Ok(_),
        ),
    ensures
        ({
            let run = perform(DnsTask::Remove, name, zone, kind, Seq::empty(), provider, mint, fuel);
            &&& zone_id(provider.zones, zone) is Some
            &&& run.provider.zones == provider.zones
            &&& nameless(
                records_of(run.provider, zone_id(provider.zones, zone).unwrap()),
                name,
            )
        }),
{
    let start = dns_start(DnsTask::Remove, name, zone, kind, Seq::empty());
    let run = drive(start.0, start.1, provider, mint, fuel);
    assert(fuel > 0);
    let zones = answer(provider, start.1->Call_0, mint);
    let listed = dns_step(start.0, zones.1);
    let run1 = drive(listed.0, listed.1, provider, mint, (fuel - 1) as nat);
    assert(run.result == run1.result && run.provider == run1.provider);
    assert(zone_id(provider.zones, zone) is Some);
    let z = zone_id(provider.zones, zone).unwrap();
    assert(fuel - 1 > 0);
    let records = records_of(provider, z);
    let answered = answer(provider, listed.1->Call_0, mint);
    let stepped = dns_step(listed.0, answered.1);
    assert(stepped == dns_on_records(listed.0, records));
    let run2 = drive(stepped.0, stepped.1, provider, mint, (fuel - 2) as nat);
    assert(run1.result == run2.result && run1.provider == run2.provider);
    let op = CfDnsView { doomed: ids_named(records, name), ..listed.0 };
    assert(stepped == dns_delete_from(op, 0));
    lemma_drive_writes(op, provider, mint, (fuel - 2) as nat);
    lemma_purged_named(records, name);
}

/// A read of a name in a zone that the provider has ends with the addresses
/// of the kind that the name has there, and changes nothing.
pub proof fn lemma_read_reads(
    name: Text,
    zone: Text,
    kind: RecordKind,
    provider: Provider,
    mint: Mint,
    fuel: nat,
)
    requires
        zone_id(provider.zones, zone) is Some,
        fuel >= 2,
    ensures
        ({
            let run = perform(DnsTask::Read, name, zone, kind, Seq::empty(), provider, mint, fuel);
            &&& run.provider == provider
            &&& run.writes == 0
            &&& run.result == Some(
                Ok::<Seq<IpAddress>, Text>(
                    addresses_of(
                        records_of(provider, zone_id(provider.zones, zone).unwrap()),
                        name,
                        kind,
                    ),
                ),
            )
        }),
{
    let start = dns_start(DnsTask::Read, name, zone, kind, Seq::empty());
    let run = drive(start.0, start.1, provider, mint, fuel);
    let zones = answer(provider, start.1->Call_0, mint);
    let listed = dns_step(start.0, zones.1);
    let run1 = drive(listed.0, listed.1, provider, mint, (fuel - 1) as nat);
    assert(run.result == run1.result && run.provider == run1.provider && run.writes
        == run1.writes);
    let z = zone_id(provider.zones, zone).unwrap();
    let answered = answer(provider, listed.1->Call_0, mint);
    let stepped = dns_step(listed.0, answered.1);
    let run2 = drive(stepped.0, stepped.1, provider, mint, (fuel - 2) as nat);
    assert(run1.result == run2.result && run1.provider == run2.provider && run1.writes
        == run2.writes);
}

/// An operation on the records of one name leaves every other name without
/// records where it had none: whatever the run deletes, it creates records for
/// its own name only.
pub proof fn lemma_drive_keeps_nameless(
    op: CfDnsView,
    step: DnsStepView,
    provider: Provider,
    mint: Mint,
    fuel: nat,
    zone: Text,
    name: Text,
)
    requires
        name != op.name,
        step matches DnsStepView::Call(DnsRequestView::CreateRecord { name: created, .. })
            ==> created == op.name,
        nameless(records_of(provider, zone), name),
    ensures
        nameless(records_of(drive(op, step, provider, mint, fuel).provider, zone), name),
    decreases fuel,
{
    match step {
        DnsStepView::Done(_) => {},
        DnsStepView::Call(request) => {
            if fuel > 0 {
                let answered = answer(provider, request, mint);
                let stepped = dns_step(op, answered.1);
                let before = records_of(provider, zone);
                let after = records_of(answered.0, zone);
                match request {
                    DnsRequestView::DeleteRecord { zone_id, record_id } => {
                        if zone_id == zone && holds_id(before, record_id) {
                            lemma_purged(before, record_id);
                            assert forall|i: int| 0 <= i < after.len() implies (
                            #[trigger] after[i]).name != name by {
                                assert(before.contains(after[i]));
                                let k = choose|k: int| 0 <= k < before.len() && before[k] == after[i];
                                assert(before[k].name != name);
                            }
                        } else {
                            assert(after == before);
                        }
                    },
                    DnsRequestView::CreateRecord { zone_id, name: created, content, ttl } => {
                        if zone_id == zone {
                            assert forall|i: int| 0 <= i < after.len() implies (
                            #[trigger] after[i]).name != name by {
                                if i < before.len() {
                                    assert(after[i] == before[i]);
                                }
                            }
                        } else {
                            assert(after == before);
                        }
                    },
                    _ => {},
                }
                lemma_drive_keeps_nameless(
                    stepped.0,
                    stepped.1,
                    answered.0,
                    mint,
                    (fuel - 1) as nat,
                    zone,
                    name,
                );
            }
        },
    }
}

/// A run that has ended does not depend on how many more calls it was allowed.
pub proof fn lemma_drive_stable(
    op: CfDnsView,
    step: DnsStepView,
    provider: Provider,
    mint: Mint,
    fuel: nat,
    more: nat,
)
    requires
        drive(op, step, provider, mint, fuel).result is Some,
        fuel <= more,
    ensures
        drive(op, step, provider, mint, more) == drive(op, step, provider, mint, fuel),
    decreases fuel,
{
    match step {
        DnsStepView::Done(_) => {},
        DnsStepView::Call(request) => {
            assert(fuel > 0);
            let answered = answer(provider, request, mint);
            let stepped = dns_step(op, answered.1);
            lemma_drive_stable(
                stepped.0,
                stepped.1,
                answered.0,
                mint,
                (fuel - 1) as nat,
                (more - 1) as nat,
            );
        },
    }
}

/// A run that has come to create ends within one call per address that is
/// left to create.
pub proof fn lemma_creating_ends(op: CfDnsView, provider: Provider, mint: Mint, fuel: nat)
    requires
        op.phase == DnsPhase::Creating,
        op.cursor < op.desired.len(),
        fuel >= op.desired.len() - op.cursor,
    ensures
        ({
            let run = drive(op, creation(op, op.cursor as int), provider, mint, fuel);
            &&& run.result is Some
            &&& run.calls <= op.desired.len() - op.cursor
        }),
    decreases op.desired.len() - op.cursor,
{
    let step = creation(op, op.cursor as int);
    let answered = answer(provider, step->Call_0, mint);
    let stepped = dns_step(op, answered.1);
    assert(stepped == dns_create_from(op, op.cursor + 1));
    let rest = drive(stepped.0, stepped.1, answered.0, mint, (fuel - 1) as nat);
    if op.cursor + 1 < op.desired.len() {
        assert(stepped.1 == creation(stepped.0, op.cursor + 1 as int));
        lemma_creating_ends(stepped.0, answered.0, mint, (fuel - 1) as nat);
    } else {
        assert(rest.calls == 0);
    }
}

/// A run that has come to delete ends within one call per record that is left
/// to delete and one per desired address.
pub proof fn lemma_deleting_ends(op: CfDnsView, provider: Provider, mint: Mint, fuel: nat)
    requires
        op.phase == DnsPhase::Deleting,
        op.cursor < op.doomed.len(),
        fuel >= op.doomed.len() - op.cursor + op.desired.len(),
    ensures
        ({
            let run = drive(op, deletion(op, op.cursor as int), provider, mint, fuel);
            &&& run.result is Some
            &&& run.calls <= op.doomed.len() - op.cursor + op.desired.len()
        }),
    decreases op.doomed.len() - op.cursor,
{
    let step = deletion(op, op.cursor as int);
    let answered = answer(provider, step->Call_0, mint);
    let stepped = dns_step(op, answered.1);
    assert(stepped == dns_delete_from(op, op.cursor + 1));
    let rest = drive(stepped.0, stepped.1, answered.0, mint, (fuel - 1) as nat);
    if op.cursor + 1 < op.doomed.len() {
        assert(stepped.1 == deletion(stepped.0, op.cursor + 1 as int));
        lemma_deleting_ends(stepped.0, answered.0, mint, (fuel - 1) as nat);
    } else if op.task == DnsTask::Replace && 0 < op.desired.len() {
        assert(stepped.1 == creation(stepped.0, 0));
        lemma_creating_ends(stepped.0, answered.0, mint, (fuel - 1) as nat);
    } else {
        assert(rest.calls == 0);
    }
}

/// The number of calls within which an operation on `name` in `zone` ends,
/// where the provider has the zone: two listings, one deletion per record of
/// the name, and one creation per desired address.
pub open spec fn calls_needed(name: Text, zone: Text, desired: Seq<IpAddress>, provider: Provider) -> nat {
    2 + ids_named(records_of(provider, zone_id(provider.zones, zone).unwrap()), name).len()
        + desired.len()
}

/// Against a provider that has the zone, every operation ends well, within the
/// number of calls it needs.
pub proof fn lemma_perform_ends(
    task: DnsTask,
    name: Text,
    zone: Text,
    kind: RecordKind,
    desired: Seq<IpAddress>,
    provider: Provider,
    mint: Mint,
    fuel: nat,
)
    requires
        zone_id(provider.zones, zone) is Some,
        fuel >= calls_needed(name, zone, desired, provider),
    ensures
        ({
            let run = perform(task, name, zone, kind, desired, provider, mint, fuel);
            &&& run.result matches Some(Ok(_))
            &&& run.calls <= calls_needed(name, zone, desired, provider)
        }),
{
    let start = dns_start(task, name, zone, kind, desired);
    let run = drive(start.0, start.1, provider, mint, fuel);
    let zones = answer(provider, start.1->Call_0, mint);
    let listed = dns_step(start.0, zones.1);
    let run1 = drive(listed.0, listed.1, provider, mint, (fuel - 1) as nat);
    assert(run.result == run1.result && run.calls == run1.calls + 1);
    let z = zone_id(provider.zones, zone).unwrap();
    let records = records_of(provider, z);
    let answered = answer(provider, listed.1->Call_0, mint);
    let stepped = dns_step(listed.0, answered.1);
    assert(stepped == dns_on_records(listed.0, records));
    let run2 = drive(stepped.0, stepped.1, provider, mint, (fuel - 2) as nat);
    assert(run1.result == run2.result && run1.calls == run2.calls + 1);
    let found = addresses_of(records, name, kind);
    if task == DnsTask::Read || (task == DnsTask::Replace && found.to_set() == desired.to_set()) {
        assert(run2.calls == 0);
    } else {
        let op = CfDnsView { doomed: ids_named(records, name), ..listed.0 };
        assert(stepped == dns_delete_from(op, 0));
        if 0 < op.doomed.len() {
            assert(stepped.1 == deletion(stepped.0, 0));
            lemma_deleting_ends(stepped.0, provider, mint, (fuel - 2) as nat);
            lemma_drive_deleting(stepped.0, provider, mint, (fuel - 2) as nat);
        } else if task == DnsTask::Replace && 0 < desired.len() {
            assert(stepped.1 == creation(stepped.0, 0));
            lemma_creating_ends(stepped.0, provider, mint, (fuel - 2) as nat);
            lemma_drive_creating(stepped.0, provider, mint, (fuel - 2) as nat);
        } else {
            assert(run2.calls == 0);
        }
    }
}

} // verus!
