//! The DDNS object: what a user declares, what the controller reports back,
//! and the finalizer by which the controller keeps the object alive until its
//! DNS records are gone.

use crate::labels::LabelMap;
use crate::text::{
    copy_texts, lemma_texts_push, opt_text, opt_texts, owned, position, same_opt_text, texts, Text,
};
use vstd::prelude::*;

verus! {

/// The finalizer that the controller attaches to every object it has published
/// records for.
pub open spec fn finalizer() -> Text {
    "ddns.finalizer.api.sherlockholo.xyz"@
}

/// The status of an object whose records are published.
pub open spec fn running() -> Text {
    "RUNNING"@
}

/// The status of an object whose records are being removed.
pub open spec fn deleting() -> Text {
    "DELETING"@
}

/// The status of an object whose records are removed.
pub open spec fn deleted() -> Text {
    "DELETED"@
}

/// What the user asks for: the services to follow and the record to keep.
#[derive(Debug, PartialEq, Eq, Default)]
pub struct DdnsSpec {
    pub selector: LabelMap,
    pub domain: String,
    pub zone: String,
}

/// The content of a [`DdnsSpec`].
pub struct DdnsSpecView {
    pub selector: Seq<(Text, Text)>,
    pub domain: Text,
    pub zone: Text,
}

impl View for DdnsSpec {
    type V = DdnsSpecView;

    open spec fn view(&self) -> DdnsSpecView {
        DdnsSpecView { selector: self.selector@, domain: self.domain@, zone: self.zone@ }
    }
}

impl Clone for DdnsSpec {
    fn clone(&self) -> (copy: DdnsSpec)
        ensures
            copy@ == self@,
    {
        DdnsSpec {
            selector: self.selector.duplicate(),
            domain: self.domain.clone(),
            zone: self.zone.clone(),
        }
    }
}

/// What the controller last converged to.
#[derive(Debug, PartialEq, Eq)]
pub struct DdnsStatus {
    pub status: String,
    pub selector: LabelMap,
    pub domain: String,
    pub zone: String,
}

/// The content of a [`DdnsStatus`].
pub struct DdnsStatusView {
    pub status: Text,
    pub selector: Seq<(Text, Text)>,
    pub domain: Text,
    pub zone: Text,
}

impl View for DdnsStatus {
    type V = DdnsStatusView;

    open spec fn view(&self) -> DdnsStatusView {
        DdnsStatusView {
            status: self.status@,
            selector: self.selector@,
            domain: self.domain@,
            zone: self.zone@,
        }
    }
}

/// The status of an object that has none yet: every field empty.
pub open spec fn blank_status() -> DdnsStatusView {
    DdnsStatusView {
        status: Seq::empty(),
        selector: Seq::empty(),
        domain: Seq::empty(),
        zone: Seq::empty(),
    }
}

/// The status that reports `spec` under the state name `state`.
pub open spec fn status_of(state: Text, spec: DdnsSpecView) -> DdnsStatusView {
    DdnsStatusView { status: state, selector: spec.selector, domain: spec.domain, zone: spec.zone }
}

impl Default for DdnsStatus {
    fn default() -> (status: DdnsStatus)
        ensures
            status@ == blank_status(),
    {
        DdnsStatus {
            status: String::new(),
            selector: LabelMap::new(),
            domain: String::new(),
            zone: String::new(),
        }
    }
}

impl Clone for DdnsStatus {
    fn clone(&self) -> (copy: DdnsStatus)
        ensures
            copy@ == self@,
    {
        DdnsStatus {
            status: self.status.clone(),
            selector: self.selector.duplicate(),
            domain: self.domain.clone(),
            zone: self.zone.clone(),
        }
    }
}

impl DdnsStatus {
    /// The body of a status patch that writes this status.
    pub fn to_patch_status(&self) -> (patch: PatchStatus)
        ensures
            patch@ == self@,
    {
        PatchStatus { status: self.clone() }
    }
}

/// The body of a merge patch on the status subresource.
#[derive(Debug, PartialEq, Eq)]
pub struct PatchStatus {
    status: DdnsStatus,
}

impl View for PatchStatus {
    type V = DdnsStatusView;

    closed spec fn view(&self) -> DdnsStatusView {
        self.status@
    }
}

impl PatchStatus {
    /// The patch that writes `status`.
    pub fn new(status: DdnsStatus) -> (patch: PatchStatus)
        ensures
            patch@ == status@,
    {
        PatchStatus { status }
    }

    /// The status that the patch writes.
    pub fn status(&self) -> (status: &DdnsStatus)
        ensures
            status@ == self@,
    {
        &self.status
    }

    /// The status that the patch writes.
    pub fn into_status(self) -> (status: DdnsStatus)
        ensures
            status@ == self@,
    {
        self.status
    }
}

/// The part of an object's metadata that the controller reads.
/// The deletion timestamp is kept as seconds since the epoch.
#[derive(Debug, PartialEq, Eq, Default)]
pub struct Metadata {
    pub name: Option<String>,
    pub namespace: Option<String>,
    pub finalizers: Option<Vec<String>>,
    pub deletion_timestamp: Option<i64>,
}

/// The content of a [`Metadata`].
pub struct MetadataView {
    pub name: Option<Text>,
    pub namespace: Option<Text>,
    pub finalizers: Option<Seq<Text>>,
    pub deletion_timestamp: Option<i64>,
}

impl View for Metadata {
    type V = MetadataView;

    open spec fn view(&self) -> MetadataView {
        MetadataView {
            name: opt_text(self.name),
            namespace: opt_text(self.namespace),
            finalizers: opt_texts(self.finalizers),
            deletion_timestamp: self.deletion_timestamp,
        }
    }
}

impl Clone for Metadata {
    fn clone(&self) -> (copy: Metadata)
        ensures
            copy@ == self@,
    {
        Metadata {
            name: copy_opt_text(&self.name),
            namespace: copy_opt_text(&self.namespace),
            finalizers: match &self.finalizers {
                Some(list) => Some(copy_texts(list)),
                None => None,
            },
            deletion_timestamp: self.deletion_timestamp,
        }
    }
}

/// A copy of an optional string.
pub fn copy_opt_text(value: &Option<String>) -> (copy: Option<String>)
    ensures
        opt_text(copy) == opt_text(*value),
{
    match value {
        Some(s) => Some(s.clone()),
        None => None,
    }
}

/// One snapshot of a DDNS object.
#[derive(Debug, PartialEq, Eq, Default)]
pub struct Ddns {
    pub metadata: Metadata,
    pub spec: DdnsSpec,
    pub status: Option<DdnsStatus>,
}

/// The content of a [`Ddns`].
pub struct DdnsView {
    pub metadata: MetadataView,
    pub spec: DdnsSpecView,
    pub status: Option<DdnsStatusView>,
}

/// The content of an optional status.
pub open spec fn opt_status(status: Option<DdnsStatus>) -> Option<DdnsStatusView> {
    match status {
        Some(s) => Some(s@),
        None => None,
    }
}

impl View for Ddns {
    type V = DdnsView;

    open spec fn view(&self) -> DdnsView {
        DdnsView { metadata: self.metadata@, spec: self.spec@, status: opt_status(self.status) }
    }
}

impl Clone for Ddns {
    fn clone(&self) -> (copy: Ddns)
        ensures
            copy@ == self@,
    {
        Ddns {
            metadata: self.metadata.clone(),
            spec: self.spec.clone(),
            status: match &self.status {
                Some(s) => Some(s.clone()),
                None => None,
            },
        }
    }
}

/// The identity of an object: its namespace and its name.
#[derive(Debug, PartialEq, Eq)]
pub struct Identity {
    pub namespace: Option<String>,
    pub name: Option<String>,
}

/// The content of an [`Identity`].
pub struct IdentityView {
    pub namespace: Option<Text>,
    pub name: Option<Text>,
}

impl View for Identity {
    type V = IdentityView;

    open spec fn view(&self) -> IdentityView {
        IdentityView { namespace: opt_text(self.namespace), name: opt_text(self.name) }
    }
}

impl Clone for Identity {
    fn clone(&self) -> (copy: Identity)
        ensures
            copy@ == self@,
    {
        Identity { namespace: copy_opt_text(&self.namespace), name: copy_opt_text(&self.name) }
    }
}

impl Identity {
    /// Whether two identities name the same object.
    pub fn same(&self, other: &Identity) -> (same: bool)
        ensures
            same == (self@ == other@),
    {
        same_opt_text(&self.namespace, &other.namespace) && same_opt_text(&self.name, &other.name)
    }
}

/// The identity of the object that `ddns` is a snapshot of.
pub open spec fn identity_of(ddns: DdnsView) -> IdentityView {
    IdentityView { namespace: ddns.metadata.namespace, name: ddns.metadata.name }
}

impl Ddns {
    /// The identity of the object.
    pub fn identity(&self) -> (id: Identity)
        ensures
            id@ == identity_of(self@),
    {
        Identity {
            namespace: copy_opt_text(&self.metadata.namespace),
            name: copy_opt_text(&self.metadata.name),
        }
    }

    /// Whether the object is marked for deletion.
    pub fn is_deleting(&self) -> (marked: bool)
        ensures
            marked == self@.metadata.deletion_timestamp.is_some(),
    {
        self.metadata.deletion_timestamp.is_some()
    }
}

/// The first position at which `wanted` occurs in `list`.
pub open spec fn first_position(list: Seq<Text>, wanted: Text) -> int {
    choose|i: int|
        0 <= i < list.len() && list[i] == wanted && forall|j: int| 0 <= j < i ==> list[j] != wanted
}

/// The finalizer list to write so that the finalizer is attached, or `None`
/// where it is attached already.
pub open spec fn attached(finalizers: Option<Seq<Text>>) -> Option<Seq<Text>> {
    match finalizers {
        None => Some(seq![finalizer()]),
        Some(list) => if list.contains(finalizer()) {
            None
        } else {
            Some(list.push(finalizer()))
        },
    }
}

/// The finalizer list to write so that the finalizer is released: the list
/// without the first occurrence of the finalizer, or `None` where the
/// finalizer is not attached.
pub open spec fn released(finalizers: Option<Seq<Text>>) -> Option<Seq<Text>> {
    match finalizers {
        None => None,
        Some(list) => if list.contains(finalizer()) {
            Some(list.remove(first_position(list, finalizer())))
        } else {
            None
        },
    }
}

/// The finalizer as a string.
pub fn finalizer_name() -> (name: String)
    ensures
        name@ == finalizer(),
{
    owned("ddns.finalizer.api.sherlockholo.xyz")
}

/// The finalizer list to write so that the finalizer is attached, if it is not.
pub fn attach_finalizer(finalizers: Option<Vec<String>>) -> (patch: Option<Vec<String>>)
    ensures
        opt_texts(patch) == attached(opt_texts(finalizers)),
{
    let name = finalizer_name();
    match finalizers {
        None => {
            let mut list: Vec<String> = Vec::new();
            proof {
                lemma_texts_push(list@, name);
            }
            list.push(name);
            assert(texts(list@) =~= seq![finalizer()]);
            Some(list)
        },
        Some(mut list) => {
            match position(&list, &name) {
                Some(i) => {
                    assert(texts(list@)[i as int] == finalizer());
                    None
                },
                None => {
                    proof {
                        lemma_texts_push(list@, name);
                    }
                    list.push(name);
                    Some(list)
                },
            }
        },
    }
}

/// The finalizer list to write so that the finalizer is released, if it is
/// attached.
pub fn release_finalizer(finalizers: Option<Vec<String>>) -> (patch: Option<Vec<String>>)
    ensures
        opt_texts(patch) == released(opt_texts(finalizers)),
{
    let name = finalizer_name();
    match finalizers {
        None => None,
        Some(mut list) => {
            match position(&list, &name) {
                Some(i) => {
                    let ghost before = texts(list@);
                    proof {
                        assert(before[i as int] == finalizer());
                        assert forall|j: int| 0 <= j < i implies before[j] != finalizer() by {
                            assert(before[j] == list@[j]@);
                        }
                        assert(first_position(before, finalizer()) == i);
                    }
                    list.remove(i);
                    assert(texts(list@) =~= before.remove(i as int));
                    Some(list)
                },
                None => None,
            }
        },
    }
}

} // verus!
