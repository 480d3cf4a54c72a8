//! The DNS provider's side of the engine: which records of a zone belong to a
//! name, and the three operations on them (read, set, remove) as a resumable
//! state machine over the provider's four calls.

use crate::net::{same_ip_set, IpAddress};
use crate::text::{lemma_texts_push, owned, same_text, texts, Text};
use vstd::prelude::*;
use vstd::string::*;

verus! {

/// The time to live, in seconds, of every record that the engine creates.
pub const DEFAULT_TTL: u32 = 120;

/// The two kinds of address record.
#[allow(clippy::upper_case_acronyms)]
#[derive(Debug, Copy, Clone, Eq, PartialEq, Structural)]
pub enum RecordKind {
    A,
    AAAA,
}

/// The kind of record that holds `ip`.
pub open spec fn kind_of(ip: IpAddress) -> RecordKind {
    match ip {
        IpAddress::V4(_) => RecordKind::A,
        IpAddress::V6(_) => RecordKind::AAAA,
    }
}

/// The written name of a record kind.
pub open spec fn kind_name(kind: RecordKind) -> Text {
    match kind {
        RecordKind::A => "A"@,
        RecordKind::AAAA => "AAAA"@,
    }
}

impl RecordKind {
    /// The kind of record that holds `ip`.
    pub fn of(ip: IpAddress) -> (kind: RecordKind)
        ensures
            kind == kind_of(ip),
    {
        match ip {
            IpAddress::V4(_) => RecordKind::A,
            IpAddress::V6(_) => RecordKind::AAAA,
        }
    }

    /// The written name of the kind.
    pub fn name(&self) -> (name: String)
        ensures
            name@ == kind_name(*self),
    {
        match self {
            RecordKind::A => owned("A"),
            RecordKind::AAAA => owned("AAAA"),
        }
    }
}

/// How the engine identifies itself to the provider.
#[derive(Debug, Clone, PartialEq, Eq)]
pub enum Credentials {
    UserAuthKey { email: String, key: String },
    UserAuthToken { token: String },
}

/// The content of a [`Credentials`].
pub enum CredentialsView {
    UserAuthKey { email: Text, key: Text },
    UserAuthToken { token: Text },
}

impl View for Credentials {
    type V = CredentialsView;

    open spec fn view(&self) -> CredentialsView {
        match self {
            Credentials::UserAuthKey { email, key } => CredentialsView::UserAuthKey {
                email: email@,
                key: key@,
            },
            Credentials::UserAuthToken { token } => CredentialsView::UserAuthToken {
                token: token@,
            },
        }
    }
}

/// The credentials to use: the email and key where both are given, else the
/// token, else none.
pub open spec fn chosen_credentials(
    email: Option<Text>,
    key: Option<Text>,
    token: Option<Text>,
) -> Option<CredentialsView> {
    if email.is_some() && key.is_some() {
        Some(CredentialsView::UserAuthKey { email: email.unwrap(), key: key.unwrap() })
    } else if token.is_some() {
        Some(CredentialsView::UserAuthToken { token: token.unwrap() })
    } else {
        None
    }
}

/// The content of optional credentials.
pub open spec fn opt_credentials(value: Option<Credentials>) -> Option<CredentialsView> {
    match value {
        Some(c) => Some(c@),
        None => None,
    }
}

/// Chooses the credentials from what was configured: the email and key
/// are preferred to the token.
pub fn create_credentials(email: Option<String>, key: Option<String>, token: Option<String>) -> (out:
    Option<Credentials>)
    ensures
        opt_credentials(out) == chosen_credentials(
            crate::text::opt_text(email),
            crate::text::opt_text(key),
            crate::text::opt_text(token),
        ),
{
    match (email, key) {
        (Some(email), Some(key)) => Some(Credentials::UserAuthKey { email, key }),
        _ => match token {
            Some(token) => Some(Credentials::UserAuthToken { token }),
            None => None,
        },
    }
}

/// A zone as the provider lists it.
#[derive(Debug, Clone, PartialEq, Eq)]
pub struct Zone {
    pub id: String,
    pub name: String,
}

/// The content of a [`Zone`].
pub struct ZoneView {
    pub id: Text,
    pub name: Text,
}

impl View for Zone {
    type V = ZoneView;

    open spec fn view(&self) -> ZoneView {
        ZoneView { id: self.id@, name: self.name@ }
    }
}

/// What a record answers with: an address, or something the engine does not
/// read.
#[derive(Debug, Copy, Clone, Eq, PartialEq, Structural)]
pub enum RecordContent {
    Address(IpAddress),
    Other,
}

/// A record as the provider lists it.
#[derive(Debug, Clone, PartialEq, Eq)]
pub struct DnsRecord {
    pub id: String,
    pub name: String,
    pub content: RecordContent,
}

/// The content of a [`DnsRecord`].
pub struct DnsRecordView {
    pub id: Text,
    pub name: Text,
    pub content: RecordContent,
}

impl View for DnsRecord {
    type V = DnsRecordView;

    open spec fn view(&self) -> DnsRecordView {
        DnsRecordView { id: self.id@, name: self.name@, content: self.content }
    }
}

/// The contents of a list of zones.
pub open spec fn zone_views(zones: Seq<Zone>) -> Seq<ZoneView> {
    zones.map_values(|z: Zone| z@)
}

/// The contents of a list of records.
pub open spec fn record_views(records: Seq<DnsRecord>) -> Seq<DnsRecordView> {
    records.map_values(|r: DnsRecord| r@)
}

/// Some zone of the list is named `name`.
pub open spec fn has_zone(zones: Seq<ZoneView>, name: Text) -> bool {
    exists|i: int| 0 <= i < zones.len() && #[trigger] zones[i].name == name
}

/// The position of the first zone named `name`.
pub open spec fn zone_position(zones: Seq<ZoneView>, name: Text) -> int {
    choose|i: int|
        0 <= i < zones.len() && #[trigger] zones[i].name == name && forall|j: int|
            0 <= j < i ==> zones[j].name != name
}

/// The identifier of the first zone named `name`, if there is one.
pub open spec fn zone_id(zones: Seq<ZoneView>, name: Text) -> Option<Text> {
    if has_zone(zones, name) {
        Some(zones[zone_position(zones, name)].id)
    } else {
        None
    }
}

/// Whether `record` is named `name` and holds an address of kind `kind`.
pub open spec fn answers(record: DnsRecordView, name: Text, kind: RecordKind) -> bool {
    record.name == name && match record.content {
        RecordContent::Address(ip) => kind_of(ip) == kind,
        RecordContent::Other => false,
    }
}

/// The addresses, in listing order, of the records named `name` that are of
/// kind `kind`.
pub open spec fn addresses_of(records: Seq<DnsRecordView>, name: Text, kind: RecordKind) -> Seq<
    IpAddress,
>
    decreases records.len(),
{
    if records.len() == 0 {
        Seq::empty()
    } else {
        let head = addresses_of(records.drop_last(), name, kind);
        if answers(records.last(), name, kind) {
            head.push(records.last().content->Address_0)
        } else {
            head
        }
    }
}

/// The identifiers, in listing order, of the records named `name`, of any kind.
pub open spec fn ids_named(records: Seq<DnsRecordView>, name: Text) -> Seq<Text>
    decreases records.len(),
{
    if records.len() == 0 {
        Seq::empty()
    } else {
        let head = ids_named(records.drop_last(), name);
        if records.last().name == name {
            head.push(records.last().id)
        } else {
            head
        }
    }
}

/// The identifier of the first zone named `zone`.
pub fn find_zone_id(zones: &Vec<Zone>, zone: &String) -> (id: Option<String>)
    ensures
        crate::text::opt_text(id) == zone_id(zone_views(zones@), zone@),
{
    let mut i: usize = 0;
    while i < zones.len()
        invariant
            i <= zones.len(),
            forall|j: int| 0 <= j < i ==> zone_views(zones@)[j].name != zone@,
        decreases zones.len() - i,
    {
        if same_text(&zones[i].name, zone) {
            proof {
                let views = zone_views(zones@);
                assert(views[i as int].name == zone@);
                assert(has_zone(views, zone@));
                assert(zone_position(views, zone@) == i);
            }
            return Some(zones[i].id.clone());
        }
        i += 1;
    }
    proof {
        let views = zone_views(zones@);
        assert(!has_zone(views, zone@));
    }
    None
}

/// The addresses of the records named `name` that are of kind `kind`.
pub fn addresses(records: &Vec<DnsRecord>, name: &String, kind: RecordKind) -> (out: Vec<IpAddress>)
    ensures
        out@ == addresses_of(record_views(records@), name@, kind),
{
    let mut out: Vec<IpAddress> = Vec::new();
    let mut i: usize = 0;
    while i < records.len()
        invariant
            i <= records.len(),
            out@ == addresses_of(record_views(records@.take(i as int)), name@, kind),
        decreases records.len() - i,
    {
        proof {
            let next = record_views(records@.take(i + 1));
            assert(next.drop_last() =~= record_views(records@.take(i as int)));
            assert(next.last() == records@[i as int]@);
        }
        if same_text(&records[i].name, name) {
            match records[i].content {
                RecordContent::Address(ip) => {
                    if RecordKind::of(ip) == kind {
                        out.push(ip);
                    }
                },
                RecordContent::Other => {},
            }
        }
        i += 1;
    }
    proof {
        assert(records@.take(i as int) =~= records@);
    }
    out
}

/// The identifiers of the records named `name`.
pub fn named_ids(records: &Vec<DnsRecord>, name: &String) -> (out: Vec<String>)
    ensures
        texts(out@) == ids_named(record_views(records@), name@),
{
    let mut out: Vec<String> = Vec::new();
    let mut i: usize = 0;
    while i < records.len()
        invariant
            i <= records.len(),
            texts(out@) == ids_named(record_views(records@.take(i as int)), name@),
        decreases records.len() - i,
    {
        proof {
            let next = record_views(records@.take(i + 1));
            assert(next.drop_last() =~= record_views(records@.take(i as int)));
            assert(next.last() == records@[i as int]@);
        }
        if same_text(&records[i].name, name) {
            let id = records[i].id.clone();
            proof {
                lemma_texts_push(out@, id);
            }
            out.push(id);
        }
        i += 1;
    }
    proof {
        assert(records@.take(i as int) =~= records@);
    }
    out
}

/// A call on the provider.
#[derive(Debug, Clone, PartialEq, Eq)]
pub enum DnsRequest {
    /// List the zones named `name`.
    ListZones { name: String },
    /// List the records of the zone that are named `name`.
    ListRecords { zone_id: String, name: String },
    /// Delete one record of the zone.
    DeleteRecord { zone_id: String, record_id: String },
    /// Create an address record for `name` in the zone.
    CreateRecord { zone_id: String, name: String, content: IpAddress, ttl: u32 },
}

/// The content of a [`DnsRequest`].
pub enum DnsRequestView {
    ListZones { name: Text },
    ListRecords { zone_id: Text, name: Text },
    DeleteRecord { zone_id: Text, record_id: Text },
    CreateRecord { zone_id: Text, name: Text, content: IpAddress, ttl: u32 },
}

impl View for DnsRequest {
    type V = DnsRequestView;

    open spec fn view(&self) -> DnsRequestView {
        match self {
            DnsRequest::ListZones { name } => DnsRequestView::ListZones { name: name@ },
            DnsRequest::ListRecords { zone_id, name } => DnsRequestView::ListRecords {
                zone_id: zone_id@,
                name: name@,
            },
            DnsRequest::DeleteRecord { zone_id, record_id } => DnsRequestView::DeleteRecord {
                zone_id: zone_id@,
                record_id: record_id@,
            },
            DnsRequest::CreateRecord { zone_id, name, content, ttl } => DnsRequestView::CreateRecord {
                zone_id: zone_id@,
                name: name@,
                content: *content,
                ttl: *ttl,
            },
        }
    }
}

/// Whether a call changes what the provider holds.
pub open spec fn is_write(request: DnsRequestView) -> bool {
    request is DeleteRecord || request is CreateRecord
}

/// The provider's answer to a call. `errors` are the errors that the provider
/// reports inside an answer that arrived; `Failed` is a call that did not
/// succeed, with the HTTP status where there was one.
#[derive(Debug, Clone, PartialEq, Eq)]
pub enum DnsReply {
    Zones { zones: Vec<Zone>, errors: Vec<String> },
    Records { records: Vec<DnsRecord>, errors: Vec<String> },
    Deleted { errors: Vec<String> },
    Created { errors: Vec<String> },
    Failed { status: Option<u16>, message: String },
}

/// The content of a [`DnsReply`].
pub enum DnsReplyView {
    Zones { zones: Seq<ZoneView>, errors: Seq<Text> },
    Records { records: Seq<DnsRecordView>, errors: Seq<Text> },
    Deleted { errors: Seq<Text> },
    Created { errors: Seq<Text> },
    Failed { status: Option<u16>, message: Text },
}

impl View for DnsReply {
    type V = DnsReplyView;

    open spec fn view(&self) -> DnsReplyView {
        match self {
            DnsReply::Zones { zones, errors } => DnsReplyView::Zones {
                zones: zone_views(zones@),
                errors: texts(errors@),
            },
            DnsReply::Records { records, errors } => DnsReplyView::Records {
                records: record_views(records@),
                errors: texts(errors@),
            },
            DnsReply::Deleted { errors } => DnsReplyView::Deleted { errors: texts(errors@) },
            DnsReply::Created { errors } => DnsReplyView::Created { errors: texts(errors@) },
            DnsReply::Failed { status, message } => DnsReplyView::Failed {
                status: *status,
                message: message@,
            },
        }
    }
}

/// How an operation ended: with the addresses it read (none for an operation
/// that only writes), or with the reason of its failure.
pub type DnsResult = Result<Vec<IpAddress>, String>;

/// The content of a [`DnsResult`].
pub open spec fn result_view(result: DnsResult) -> Result<Seq<IpAddress>, Text> {
    match result {
        Ok(ips) => Ok(ips@),
        Err(message) => Err(message@),
    }
}

/// What an operation does next: one more call, or nothing.
#[derive(Debug, PartialEq, Eq)]
pub enum DnsStep {
    Call(DnsRequest),
    Done(DnsResult),
}

/// The content of a [`DnsStep`].
pub enum DnsStepView {
    Call(DnsRequestView),
    Done(Result<Seq<IpAddress>, Text>),
}

impl View for DnsStep {
    type V = DnsStepView;

    open spec fn view(&self) -> DnsStepView {
        match self {
            DnsStep::Call(request) => DnsStepView::Call(request@),
            DnsStep::Done(result) => DnsStepView::Done(result_view(*result)),
        }
    }
}

/// The three operations.
#[derive(Debug, Copy, Clone, Eq, PartialEq, Structural)]
pub enum DnsTask {
    /// Read the addresses of a name.
    Read,
    /// Make the addresses of a name equal to a given set.
    Replace,
    /// Remove every record of a name.
    Remove,
}

/// Where an operation stands: which answer it waits for.
#[derive(Debug, Copy, Clone, Eq, PartialEq, Structural)]
pub enum DnsPhase {
    /// The zones were asked for.
    Zones,
    /// The records of the name were asked for.
    Records,
    /// The deletion of `doomed[cursor]` was asked for.
    Deleting,
    /// The creation of a record for `desired[cursor]` was asked for.
    Creating,
    /// The operation is over.
    Finished,
}

/// One operation on the records of a name, in progress.
///
/// An operation starts with one of [`CfDns::get_dns_record`],
/// [`CfDns::set_dns_record`] and [`CfDns::remove_dns_records`], which give the
/// first call to make, and goes on with [`CfDns::step`] on each answer.
#[derive(Debug, Clone, PartialEq, Eq)]
pub struct CfDns {
    pub task: DnsTask,
    pub phase: DnsPhase,
    pub name: String,
    pub zone: String,
    pub kind: RecordKind,
    pub desired: Vec<IpAddress>,
    pub zone_id: String,
    pub doomed: Vec<String>,
    pub cursor: usize,
}

/// The content of a [`CfDns`].
pub struct CfDnsView {
    pub task: DnsTask,
    pub phase: DnsPhase,
    pub name: Text,
    pub zone: Text,
    pub kind: RecordKind,
    pub desired: Seq<IpAddress>,
    pub zone_id: Text,
    pub doomed: Seq<Text>,
    pub cursor: nat,
}

impl View for CfDns {
    type V = CfDnsView;

    open spec fn view(&self) -> CfDnsView {
        CfDnsView {
            task: self.task,
            phase: self.phase,
            name: self.name@,
            zone: self.zone@,
            kind: self.kind,
            desired: self.desired@,
            zone_id: self.zone_id@,
            doomed: texts(self.doomed@),
            cursor: self.cursor as nat,
        }
    }
}

/// An operation as it starts: nothing is known of the zone yet.
pub open spec fn dns_start(
    task: DnsTask,
    name: Text,
    zone: Text,
    kind: RecordKind,
    desired: Seq<IpAddress>,
) -> (CfDnsView, DnsStepView) {
    (
        CfDnsView {
            task,
            phase: DnsPhase::Zones,
            name,
            zone,
            kind,
            desired,
            zone_id: Seq::empty(),
            doomed: Seq::empty(),
            cursor: 0,
        },
        DnsStepView::Call(DnsRequestView::ListZones { name: zone }),
    )
}

/// The operation `op`, over, with the result `result`.
pub open spec fn dns_finish(op: CfDnsView, result: Result<Seq<IpAddress>, Text>) -> (
    CfDnsView,
    DnsStepView,
) {
    (CfDnsView { phase: DnsPhase::Finished, ..op }, DnsStepView::Done(result))
}

/// The operation `op` as it starts to create the records of its desired
/// addresses from position `from` on, or ends where none is left.
pub open spec fn dns_create_from(op: CfDnsView, from: nat) -> (CfDnsView, DnsStepView) {
    if from < op.desired.len() {
        (
            CfDnsView { phase: DnsPhase::Creating, cursor: from, ..op },
            DnsStepView::Call(
                DnsRequestView::CreateRecord {
                    zone_id: op.zone_id,
                    name: op.name,
                    content: op.desired[from as int],
                    ttl: DEFAULT_TTL,
                },
            ),
        )
    } else {
        dns_finish(op, Ok(Seq::empty()))
    }
}

/// The operation `op` as it starts to delete its doomed records from position
/// `from` on; where none is left, a removal ends and a set goes on to create.
pub open spec fn dns_delete_from(op: CfDnsView, from: nat) -> (CfDnsView, DnsStepView) {
    if from < op.doomed.len() {
        (
            CfDnsView { phase: DnsPhase::Deleting, cursor: from, ..op },
            DnsStepView::Call(
                DnsRequestView::DeleteRecord {
                    zone_id: op.zone_id,
                    record_id: op.doomed[from as int],
                },
            ),
        )
    } else if op.task == DnsTask::Replace {
        dns_create_from(op, 0)
    } else {
        dns_finish(op, Ok(Seq::empty()))
    }
}

/// What the operation does once it has the records of its name.
///
/// A read ends with the addresses of its kind. A removal deletes every record
/// of the name. A set ends at once where the addresses of its kind are, as a
/// set, the desired ones; else it deletes every record of the name and creates
/// one record per desired address.
pub open spec fn dns_on_records(op: CfDnsView, records: Seq<DnsRecordView>) -> (
    CfDnsView,
    DnsStepView,
) {
    let found = addresses_of(records, op.name, op.kind);
    match op.task {
        DnsTask::Read => dns_finish(op, Ok(found)),
        DnsTask::Remove => dns_delete_from(
            CfDnsView { doomed: ids_named(records, op.name), ..op },
            0,
        ),
        DnsTask::Replace => if found.to_set() == op.desired.to_set() {
            dns_finish(op, Ok(Seq::empty()))
        } else {
            dns_delete_from(CfDnsView { doomed: ids_named(records, op.name), ..op }, 0)
        },
    }
}

/// The next state and the next thing to do of the operation `op` on the answer
/// `reply`.
///
/// An answer that carries errors, a failed call and an answer of another shape
/// than the one awaited end the operation with a failure. The one exception is
/// a deletion that fails with status 404: the record is gone already, and the
/// operation goes on.
pub open spec fn dns_step(op: CfDnsView, reply: DnsReplyView) -> (CfDnsView, DnsStepView) {
    match op.phase {
        DnsPhase::Zones => match reply {
            DnsReplyView::Zones { zones, errors } => if errors.len() > 0 {
                dns_finish(op, Err("api error "@ + errors[0]))
            } else {
                match zone_id(zones, op.zone) {
                    Some(id) => (
                        CfDnsView { phase: DnsPhase::Records, zone_id: id, ..op },
                        DnsStepView::Call(
                            DnsRequestView::ListRecords { zone_id: id, name: op.name },
                        ),
                    ),
                    None => dns_finish(op, Err("zone "@ + op.zone + " is not exist"@)),
                }
            },
            DnsReplyView::Failed { status, message } => dns_finish(op, Err(message)),
            _ => dns_finish(op, Err(unexpected_reply())),
        },
        DnsPhase::Records => match reply {
            DnsReplyView::Records { records, errors } => if errors.len() > 0 {
                dns_finish(op, Err(errors[0]))
            } else {
                dns_on_records(op, records)
            },
            DnsReplyView::Failed { status, message } => dns_finish(op, Err(message)),
            _ => dns_finish(op, Err(unexpected_reply())),
        },
        DnsPhase::Deleting => match reply {
            DnsReplyView::Deleted { errors } => if errors.len() > 0 {
                dns_finish(op, Err(errors[0]))
            } else {
                dns_delete_from(op, op.cursor + 1)
            },
            DnsReplyView::Failed { status, message } => if status == Some(404u16) {
                dns_delete_from(op, op.cursor + 1)
            } else {
                dns_finish(op, Err(message))
            },
            _ => dns_finish(op, Err(unexpected_reply())),
        },
        DnsPhase::Creating => match reply {
            DnsReplyView::Created { errors } => if errors.len() > 0 {
                dns_finish(op, Err(errors[0]))
            } else {
                dns_create_from(op, op.cursor + 1)
            },
            DnsReplyView::Failed { status, message } => dns_finish(op, Err(message)),
            _ => dns_finish(op, Err(unexpected_reply())),
        },
        DnsPhase::Finished => dns_finish(op, Err(unexpected_reply())),
    }
}

/// The failure of an operation that was handed an answer it did not wait for.
pub open spec fn unexpected_reply() -> Text {
    "unexpected reply from the dns provider"@
}

/// Calls `StatusCode::as_u16` of the http crate on its constant
/// `StatusCode::NOT_FOUND`: the number of the status "404 Not Found".
#[verifier::external_body]
fn not_found_code() -> (code: u16)
    ensures
        code == 404,
{
    http::StatusCode::NOT_FOUND.as_u16()
}

impl CfDns {
    fn start(task: DnsTask, name: &str, zone: &str, kind: RecordKind, desired: Vec<IpAddress>) -> (out:
        (CfDns, DnsStep))
        ensures
            (out.0@, out.1@) == dns_start(task, name@, zone@, kind, desired@),
    {
        let op = CfDns {
            task,
            phase: DnsPhase::Zones,
            name: owned(name),
            zone: owned(zone),
            kind,
            desired,
            zone_id: String::new(),
            doomed: Vec::new(),
            cursor: 0,
        };
        assert(texts(op.doomed@) =~= Seq::<Text>::empty());
        (op, DnsStep::Call(DnsRequest::ListZones { name: owned(zone) }))
    }

    /// Starts to read the addresses of kind `kind` that `name` has in `zone`.
    /// The operation ends with those addresses.
    pub fn get_dns_record(name: &str, zone: &str, kind: RecordKind) -> (out: (CfDns, DnsStep))
        ensures
            (out.0@, out.1@) == dns_start(
                DnsTask::Read,
                name@,
                zone@,
                kind,
                Seq::<IpAddress>::empty(),
            ),
    {
        CfDns::start(DnsTask::Read, name, zone, kind, Vec::new())
    }

    /// Starts to make the addresses of kind `kind` that `name` has in `zone`
    /// equal, as a set, to `ip_list`.
    pub fn set_dns_record(name: &str, zone: &str, kind: RecordKind, ip_list: Vec<IpAddress>) -> (out:
        (CfDns, DnsStep))
        ensures
            (out.0@, out.1@) == dns_start(DnsTask::Replace, name@, zone@, kind, ip_list@),
    {
        CfDns::start(DnsTask::Replace, name, zone, kind, ip_list)
    }

    /// Starts to remove every record that `name` has in `zone`.
    pub fn remove_dns_records(name: &str, zone: &str, kind: RecordKind) -> (out: (CfDns, DnsStep))
        ensures
            (out.0@, out.1@) == dns_start(
                DnsTask::Remove,
                name@,
                zone@,
                kind,
                Seq::<IpAddress>::empty(),
            ),
    {
        CfDns::start(DnsTask::Remove, name, zone, kind, Vec::new())
    }

    fn finish(self, result: DnsResult) -> (out: (CfDns, DnsStep))
        ensures
            (out.0@, out.1@) == dns_finish(self@, result_view(result)),
    {
        let mut op = self;
        op.phase = DnsPhase::Finished;
        (op, DnsStep::Done(result))
    }

    fn finish_ok(self) -> (out: (CfDns, DnsStep))
        ensures
            (out.0@, out.1@) == dns_finish(self@, Ok(Seq::<IpAddress>::empty())),
    {
        self.finish(Ok(Vec::new()))
    }

    fn create_from(self, from: usize) -> (out: (CfDns, DnsStep))
        ensures
            (out.0@, out.1@) == dns_create_from(self@, from as nat),
    {
        if from < self.desired.len() {
            let request = DnsRequest::CreateRecord {
                zone_id: self.zone_id.clone(),
                name: self.name.clone(),
                content: self.desired[from],
                ttl: DEFAULT_TTL,
            };
            let mut op = self;
            op.phase = DnsPhase::Creating;
            op.cursor = from;
            (op, DnsStep::Call(request))
        } else {
            self.finish_ok()
        }
    }

    fn delete_from(self, from: usize) -> (out: (CfDns, DnsStep))
        ensures
            (out.0@, out.1@) == dns_delete_from(self@, from as nat),
    {
        if from < self.doomed.len() {
            let request = DnsRequest::DeleteRecord {
                zone_id: self.zone_id.clone(),
                record_id: self.doomed[from].clone(),
            };
            let mut op = self;
            op.phase = DnsPhase::Deleting;
            op.cursor = from;
            (op, DnsStep::Call(request))
        } else if self.task == DnsTask::Replace {
            self.create_from(0)
        } else {
            self.finish_ok()
        }
    }

    fn on_records(self, records: Vec<DnsRecord>) -> (out: (CfDns, DnsStep))
        ensures
            (out.0@, out.1@) == dns_on_records(self@, record_views(records@)),
    {
        let found = addresses(&records, &self.name, self.kind);
        match self.task {
            DnsTask::Read => self.finish(Ok(found)),
            DnsTask::Remove => {
                let mut op = self;
                op.doomed = named_ids(&records, &op.name);
                op.delete_from(0)
            },
            DnsTask::Replace => {
                if same_ip_set(&found, &self.desired) {
                    self.finish_ok()
                } else {
                    let mut op = self;
                    op.doomed = named_ids(&records, &op.name);
                    op.delete_from(0)
                }
            },
        }
    }

    fn fail_unexpected(self) -> (out: (CfDns, DnsStep))
        ensures
            (out.0@, out.1@) == dns_finish(self@, Err(unexpected_reply())),
    {
        self.finish(Err(owned("unexpected reply from the dns provider")))
    }

    fn fail_first(self, errors: Vec<String>) -> (out: (CfDns, DnsStep))
        requires
            errors@.len() > 0,
        ensures
            (out.0@, out.1@) == dns_finish(self@, Err(texts(errors@)[0])),
    {
        self.finish(Err(errors[0].clone()))
    }

    fn on_zones(self, zones: Vec<Zone>, errors: Vec<String>) -> (out: (CfDns, DnsStep))
        requires
            self.phase == DnsPhase::Zones,
        ensures
            (out.0@, out.1@) == dns_step(
                self@,
                DnsReplyView::Zones { zones: zone_views(zones@), errors: texts(errors@) },
            ),
    {
        if errors.len() > 0 {
            let mut message = owned("api error ");
            message.append(errors[0].as_str());
            assert(message@ == "api error "@ + texts(errors@)[0]);
            self.finish(Err(message))
        } else {
            match find_zone_id(&zones, &self.zone) {
                Some(id) => {
                    let request = DnsRequest::ListRecords {
                        zone_id: id.clone(),
                        name: self.name.clone(),
                    };
                    let mut op = self;
                    op.phase = DnsPhase::Records;
                    op.zone_id = id;
                    (op, DnsStep::Call(request))
                },
                None => {
                    let mut message = owned("zone ");
                    message.append(self.zone.as_str());
                    message.append(" is not exist");
                    self.finish(Err(message))
                },
            }
        }
    }

    fn after_delete(self) -> (out: (CfDns, DnsStep))
        ensures
            (out.0@, out.1@) == dns_delete_from(self@, self@.cursor + 1),
    {
        let count = self.doomed.len();
        assert(self@.doomed.len() == count);
        let next = if self.cursor < count {
            self.cursor + 1
        } else {
            count
        };
        self.delete_from(next)
    }

    fn after_create(self) -> (out: (CfDns, DnsStep))
        ensures
            (out.0@, out.1@) == dns_create_from(self@, self@.cursor + 1),
    {
        let count = self.desired.len();
        assert(self@.desired.len() == count);
        let next = if self.cursor < count {
            self.cursor + 1
        } else {
            count
        };
        self.create_from(next)
    }

    /// Takes the provider's answer to the last call and says what to do next.
    pub fn step(self, reply: DnsReply) -> (out: (CfDns, DnsStep))
        ensures
            (out.0@, out.1@) == dns_step(self@, reply@),
    {
        match self.phase {
            DnsPhase::Zones => match reply {
                DnsReply::Zones { zones, errors } => self.on_zones(zones, errors),
                DnsReply::Failed { status, message } => self.finish(Err(message)),
                _ => self.fail_unexpected(),
            },
            DnsPhase::Records => match reply {
                DnsReply::Records { records, errors } => {
                    if errors.len() > 0 {
                        self.fail_first(errors)
                    } else {
                        self.on_records(records)
                    }
                },
                DnsReply::Failed { status, message } => self.finish(Err(message)),
                _ => self.fail_unexpected(),
            },
            DnsPhase::Deleting => match reply {
                DnsReply::Deleted { errors } => {
                    if errors.len() > 0 {
                        self.fail_first(errors)
                    } else {
                        self.after_delete()
                    }
                },
                DnsReply::Failed { status, message } => {
                    let gone = match status {
                        Some(code) => code == not_found_code(),
                        None => false,
                    };
                    if gone {
                        self.after_delete()
                    } else {
                        self.finish(Err(message))
                    }
                },
                _ => self.fail_unexpected(),
            },
            DnsPhase::Creating => match reply {
                DnsReply::Created { errors } => {
                    if errors.len() > 0 {
                        self.fail_first(errors)
                    } else {
                        self.after_create()
                    }
                },
                DnsReply::Failed { status, message } => self.finish(Err(message)),
                _ => self.fail_unexpected(),
            },
            DnsPhase::Finished => self.fail_unexpected(),
        }
    }
}

} // verus!
