//! The data model shared by every component: addresses, capabilities,
//! requests, responses and the kernel message that carries them.
//!
//! Every type has a mathematical view (`@`) built from `Seq`, `Option` and
//! integers; contracts throughout the crate are stated over these views.

use vstd::prelude::*;

verus! {

/// Identifies a process on one node: either a stable number or a human name.
#[derive(Debug, PartialEq, Eq, Hash)]
pub enum ProcessId {
    Id(u64),
    Name(String),
}

/// The mathematical value of a `ProcessId`.
pub enum ProcessIdView {
    Id(u64),
    Name(Seq<char>),
}

impl View for ProcessId {
    type V = ProcessIdView;

    open spec fn view(&self) -> ProcessIdView {
        match self {
            ProcessId::Id(i) => ProcessIdView::Id(*i),
            ProcessId::Name(s) => ProcessIdView::Name(s@),
        }
    }
}

impl DeepView for ProcessId {
    type V = ProcessIdView;

    open spec fn deep_view(&self) -> ProcessIdView {
        self@
    }
}

impl Clone for ProcessId {
    fn clone(&self) -> (res: Self)
        ensures
            res@ == self@,
    {
        match self {
            ProcessId::Id(i) => ProcessId::Id(*i),
            ProcessId::Name(s) => ProcessId::Name(s.clone()),
        }
    }
}

impl ProcessId {
    /// Two identifiers are the same when they are of the same kind and hold
    /// the same number or the same name.
    pub fn same(&self, other: &ProcessId) -> (res: bool)
        ensures
            res == (self@ == other@),
    {
        match (self, other) {
            (ProcessId::Id(a), ProcessId::Id(b)) => *a == *b,
            (ProcessId::Name(a), ProcessId::Name(b)) => *a == *b,
            _ => false,
        }
    }

    /// A numeric identifier equals a number when it holds that number; a named
    /// one never does.
    pub fn is_id(&self, id: u64) -> (res: bool)
        ensures
            res == (self@ == ProcessIdView::Id(id)),
    {
        match self {
            ProcessId::Id(i) => *i == id,
            ProcessId::Name(_) => false,
        }
    }

    /// A named identifier equals a name when it holds that name; a numeric one
    /// never does.
    pub fn is_name(&self, name: &String) -> (res: bool)
        ensures
            res == (self@ == ProcessIdView::Name(name@)),
    {
        match self {
            ProcessId::Id(_) => false,
            ProcessId::Name(s) => *s == *name,
        }
    }
}

/// A message endpoint: a process on a node.
#[derive(Debug, PartialEq, Eq, Hash)]
pub struct Address {
    pub node: String,
    pub process: ProcessId,
}

/// The mathematical value of an `Address`.
pub struct AddressView {
    pub node: Seq<char>,
    pub process: ProcessIdView,
}

impl View for Address {
    type V = AddressView;

    open spec fn view(&self) -> AddressView {
        AddressView { node: self.node@, process: self.process@ }
    }
}

impl DeepView for Address {
    type V = AddressView;

    open spec fn deep_view(&self) -> AddressView {
        self@
    }
}

impl Clone for Address {
    fn clone(&self) -> (res: Self)
        ensures
            res@ == self@,
    {
        Address { node: self.node.clone(), process: self.process.clone() }
    }
}

impl Address {
    /// Two addresses are the same when node and process agree.
    pub fn same(&self, other: &Address) -> (res: bool)
        ensures
            res == (self@ == other@),
    {
        self.node == other.node && self.process.same(&other.process)
    }
}

/// Bytes that ride along with a message, with an optional MIME type.
#[derive(Debug, PartialEq, Eq)]
pub struct Payload {
    pub mime: Option<String>,
    pub bytes: Vec<u8>,
}

/// The mathematical value of a `Payload`.
pub struct PayloadView {
    pub mime: Option<Seq<char>>,
    pub bytes: Seq<u8>,
}

impl View for Payload {
    type V = PayloadView;

    open spec fn view(&self) -> PayloadView {
        PayloadView { mime: self.mime.deep_view(), bytes: self.bytes@ }
    }
}

impl DeepView for Payload {
    type V = PayloadView;

    open spec fn deep_view(&self) -> PayloadView {
        self@
    }
}

/// Copies an optional string.
pub fn clone_option_string(o: &Option<String>) -> (res: Option<String>)
    ensures
        res.deep_view() == o.deep_view(),
{
    match o {
        Some(s) => Some(s.clone()),
        None => None,
    }
}

/// Copies a byte vector.
pub fn clone_bytes(v: &Vec<u8>) -> (res: Vec<u8>)
    ensures
        res@ == v@,
{
    let mut out: Vec<u8> = Vec::new();
    let mut i: usize = 0;
    while i < v.len()
        invariant
            i <= v.len(),
            out@ == v@.subrange(0, i as int),
        decreases v.len() - i,
    {
        out.push(v[i]);
        assert(out@ =~= v@.subrange(0, i + 1));
        i += 1;
    }
    assert(v@.subrange(0, v.len() as int) =~= v@);
    out
}

impl Clone for Payload {
    fn clone(&self) -> (res: Self)
        ensures
            res@ == self@,
    {
        Payload { mime: clone_option_string(&self.mime), bytes: clone_bytes(&self.bytes) }
    }
}

/// Copies an optional payload.
pub fn clone_option_payload(o: &Option<Payload>) -> (res: Option<Payload>)
    ensures
        res.deep_view() == o.deep_view(),
{
    match o {
        Some(p) => Some(p.clone()),
        None => None,
    }
}

/// An authorization token: who issued it, and an opaque predicate.
#[derive(Debug, PartialEq, Eq, Hash)]
pub struct Capability {
    pub issuer: Address,
    pub params: String,
}

/// The mathematical value of a `Capability`.
pub struct CapabilityView {
    pub issuer: AddressView,
    pub params: Seq<char>,
}

impl View for Capability {
    type V = CapabilityView;

    open spec fn view(&self) -> CapabilityView {
        CapabilityView { issuer: self.issuer@, params: self.params@ }
    }
}

impl DeepView for Capability {
    type V = CapabilityView;

    open spec fn deep_view(&self) -> CapabilityView {
        self@
    }
}

impl Clone for Capability {
    fn clone(&self) -> (res: Self)
        ensures
            res@ == self@,
    {
        Capability { issuer: self.issuer.clone(), params: self.params.clone() }
    }
}

impl Capability {
    /// Two capabilities are the same when issuer and predicate agree.
    pub fn same(&self, other: &Capability) -> (res: bool)
        ensures
            res == (self@ == other@),
    {
        self.issuer.same(&other.issuer) && self.params == other.params
    }
}

/// A capability together with the signature of the issuing node's kernel.
#[derive(Debug, PartialEq, Eq)]
pub struct SignedCapability {
    pub issuer: Address,
    pub params: String,
    pub signature: Vec<u8>,
}

/// The mathematical value of a `SignedCapability`.
pub struct SignedCapabilityView {
    pub issuer: AddressView,
    pub params: Seq<char>,
    pub signature: Seq<u8>,
}

impl SignedCapabilityView {
    /// The capability that the signature is about.
    pub open spec fn capability(self) -> CapabilityView {
        CapabilityView { issuer: self.issuer, params: self.params }
    }
}

impl View for SignedCapability {
    type V = SignedCapabilityView;

    open spec fn view(&self) -> SignedCapabilityView {
        SignedCapabilityView {
            issuer: self.issuer@,
            params: self.params@,
            signature: self.signature@,
        }
    }
}

impl DeepView for SignedCapability {
    type V = SignedCapabilityView;

    open spec fn deep_view(&self) -> SignedCapabilityView {
        self@
    }
}

impl Clone for SignedCapability {
    fn clone(&self) -> (res: Self)
        ensures
            res@ == self@,
    {
        SignedCapability {
            issuer: self.issuer.clone(),
            params: self.params.clone(),
            signature: clone_bytes(&self.signature),
        }
    }
}

impl SignedCapability {
    /// The capability without its signature.
    pub fn capability(&self) -> (res: Capability)
        ensures
            res@ == self@.capability(),
    {
        Capability { issuer: self.issuer.clone(), params: self.params.clone() }
    }
}

/// Copies a list of signed capabilities.
pub fn clone_signed_capabilities(v: &Vec<SignedCapability>) -> (res: Vec<SignedCapability>)
    ensures
        res.deep_view() == v.deep_view(),
{
    let mut out: Vec<SignedCapability> = Vec::new();
    let mut i: usize = 0;
    while i < v.len()
        invariant
            i <= v.len(),
            out@.len() == i,
            out.deep_view() == v.deep_view().subrange(0, i as int),
        decreases v.len() - i,
    {
        let ghost before = out.deep_view();
        let item = v[i].clone();
        out.push(item);
        assert forall|j: int| 0 <= j < i + 1 implies out.deep_view()[j] == v.deep_view()[j] by {
            if j < i {
                assert(out.deep_view()[j] == before[j]);
            } else {
                assert(out@[j] == item);
            }
        }
        assert(out.deep_view() =~= v.deep_view().subrange(0, i + 1));
        i += 1;
    }
    assert(v.deep_view().subrange(0, v.len() as int) =~= v.deep_view());
    out
}

/// The capabilities of a list of signed capabilities, in order.
pub open spec fn capabilities_of(signed: Seq<SignedCapabilityView>) -> Seq<CapabilityView> {
    signed.map_values(|s: SignedCapabilityView| s.capability())
}

} // verus!
