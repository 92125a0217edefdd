//! Requests, responses, and the kernel message that carries one of them
//! between processes.

use vstd::prelude::*;
use crate::types::{
    clone_bytes, clone_option_payload, clone_option_string, clone_signed_capabilities, Address,
    AddressView, Payload, PayloadView, SignedCapability, SignedCapabilityView,
};

verus! {

/// A message that asks for work. `expects_response` holds the number of
/// seconds the sender will wait for an answer, if it wants one.
#[derive(Debug, PartialEq, Eq)]
pub struct Request {
    pub inherit: bool,
    pub expects_response: Option<u64>,
    pub body: Vec<u8>,
    pub metadata: Option<String>,
    pub capabilities: Vec<SignedCapability>,
}

/// The mathematical value of a `Request`.
pub struct RequestView {
    pub inherit: bool,
    pub expects_response: Option<u64>,
    pub body: Seq<u8>,
    pub metadata: Option<Seq<char>>,
    pub capabilities: Seq<SignedCapabilityView>,
}

impl View for Request {
    type V = RequestView;

    open spec fn view(&self) -> RequestView {
        RequestView {
            inherit: self.inherit,
            expects_response: self.expects_response,
            body: self.body@,
            metadata: self.metadata.deep_view(),
            capabilities: self.capabilities.deep_view(),
        }
    }
}

impl DeepView for Request {
    type V = RequestView;

    open spec fn deep_view(&self) -> RequestView {
        self@
    }
}

impl Clone for Request {
    fn clone(&self) -> (res: Self)
        ensures
            res@ == self@,
    {
        Request {
            inherit: self.inherit,
            expects_response: self.expects_response,
            body: clone_bytes(&self.body),
            metadata: clone_option_string(&self.metadata),
            capabilities: clone_signed_capabilities(&self.capabilities),
        }
    }
}

/// A message that answers a request.
#[derive(Debug, PartialEq, Eq)]
pub struct Response {
    pub inherit: bool,
    pub body: Vec<u8>,
    pub metadata: Option<String>,
    pub capabilities: Vec<SignedCapability>,
}

/// The mathematical value of a `Response`.
pub struct ResponseView {
    pub inherit: bool,
    pub body: Seq<u8>,
    pub metadata: Option<Seq<char>>,
    pub capabilities: Seq<SignedCapabilityView>,
}

impl View for Response {
    type V = ResponseView;

    open spec fn view(&self) -> ResponseView {
        ResponseView {
            inherit: self.inherit,
            body: self.body@,
            metadata: self.metadata.deep_view(),
            capabilities: self.capabilities.deep_view(),
        }
    }
}

impl DeepView for Response {
    type V = ResponseView;

    open spec fn deep_view(&self) -> ResponseView {
        self@
    }
}

impl Clone for Response {
    fn clone(&self) -> (res: Self)
        ensures
            res@ == self@,
    {
        Response {
            inherit: self.inherit,
            body: clone_bytes(&self.body),
            metadata: clone_option_string(&self.metadata),
            capabilities: clone_signed_capabilities(&self.capabilities),
        }
    }
}

/// Either a request, or a response with the context that came with it.
#[derive(Debug, PartialEq, Eq)]
pub enum Message {
    Request(Request),
    Response(Response, Option<String>),
}

/// The mathematical value of a `Message`.
pub enum MessageView {
    Request(RequestView),
    Response(ResponseView, Option<Seq<char>>),
}

impl MessageView {
    /// The capabilities attached to the message.
    pub open spec fn capabilities(self) -> Seq<SignedCapabilityView> {
        match self {
            MessageView::Request(r) => r.capabilities,
            MessageView::Response(r, _) => r.capabilities,
        }
    }

    /// The same message with other capabilities attached.
    pub open spec fn with_capabilities(self, caps: Seq<SignedCapabilityView>) -> MessageView {
        match self {
            MessageView::Request(r) => MessageView::Request(
                RequestView { capabilities: caps, ..r },
            ),
            MessageView::Response(r, c) => MessageView::Response(
                ResponseView { capabilities: caps, ..r },
                c,
            ),
        }
    }
}

impl View for Message {
    type V = MessageView;

    open spec fn view(&self) -> MessageView {
        match self {
            Message::Request(r) => MessageView::Request(r@),
            Message::Response(r, c) => MessageView::Response(r@, c.deep_view()),
        }
    }
}

impl DeepView for Message {
    type V = MessageView;

    open spec fn deep_view(&self) -> MessageView {
        self@
    }
}

impl Clone for Message {
    fn clone(&self) -> (res: Self)
        ensures
            res@ == self@,
    {
        match self {
            Message::Request(r) => Message::Request(r.clone()),
            Message::Response(r, c) => Message::Response(r.clone(), clone_option_string(c)),
        }
    }
}

/// Copies an optional address.
pub fn clone_option_address(o: &Option<Address>) -> (res: Option<Address>)
    ensures
        res.deep_view() == o.deep_view(),
{
    match o {
        Some(a) => Some(a.clone()),
        None => None,
    }
}

/// One message in flight. `id` names the round trip it belongs to; `rsvp`
/// is the address that is owed the response at the end of a chain of
/// inheriting requests.
#[derive(Debug, PartialEq, Eq)]
pub struct KernelMessage {
    pub id: u64,
    pub source: Address,
    pub target: Address,
    pub rsvp: Option<Address>,
    pub message: Message,
    pub payload: Option<Payload>,
}

/// The mathematical value of a `KernelMessage`.
pub struct KernelMessageView {
    pub id: u64,
    pub source: AddressView,
    pub target: AddressView,
    pub rsvp: Option<AddressView>,
    pub message: MessageView,
    pub payload: Option<PayloadView>,
}

impl View for KernelMessage {
    type V = KernelMessageView;

    open spec fn view(&self) -> KernelMessageView {
        KernelMessageView {
            id: self.id,
            source: self.source@,
            target: self.target@,
            rsvp: self.rsvp.deep_view(),
            message: self.message@,
            payload: self.payload.deep_view(),
        }
    }
}

impl DeepView for KernelMessage {
    type V = KernelMessageView;

    open spec fn deep_view(&self) -> KernelMessageView {
        self@
    }
}

impl Clone for KernelMessage {
    fn clone(&self) -> (res: Self)
        ensures
            res@ == self@,
    {
        KernelMessage {
            id: self.id,
            source: self.source.clone(),
            target: self.target.clone(),
            rsvp: clone_option_address(&self.rsvp),
            message: self.message.clone(),
            payload: clone_option_payload(&self.payload),
        }
    }
}

/// Copies an optional kernel message.
pub fn clone_option_kernel_message(o: &Option<KernelMessage>) -> (res: Option<KernelMessage>)
    ensures
        res.deep_view() == o.deep_view(),
{
    match o {
        Some(m) => Some(m.clone()),
        None => None,
    }
}

/// Why a message could not be delivered.
#[derive(Debug, Clone, Copy, PartialEq, Eq, Structural)]
pub enum NetworkErrorKind {
    Offline,
    Timeout,
}

/// A delivery failure, with the message that failed and where it was going.
#[derive(Debug, PartialEq, Eq)]
pub struct NetworkError {
    pub kind: NetworkErrorKind,
    pub target: Address,
    pub message: Message,
    pub payload: Option<Payload>,
}

/// The mathematical value of a `NetworkError`.
pub struct NetworkErrorView {
    pub kind: NetworkErrorKind,
    pub target: AddressView,
    pub message: MessageView,
    pub payload: Option<PayloadView>,
}

impl View for NetworkError {
    type V = NetworkErrorView;

    open spec fn view(&self) -> NetworkErrorView {
        NetworkErrorView {
            kind: self.kind,
            target: self.target@,
            message: self.message@,
            payload: self.payload.deep_view(),
        }
    }
}

impl DeepView for NetworkError {
    type V = NetworkErrorView;

    open spec fn deep_view(&self) -> NetworkErrorView {
        self@
    }
}

impl Clone for NetworkError {
    fn clone(&self) -> (res: Self)
        ensures
            res@ == self@,
    {
        NetworkError {
            kind: self.kind,
            target: self.target.clone(),
            message: self.message.clone(),
            payload: clone_option_payload(&self.payload),
        }
    }
}

/// A delivery failure addressed back to the process that sent the message,
/// under the id of the request that failed.
#[derive(Debug, PartialEq, Eq)]
pub struct WrappedNetworkError {
    pub id: u64,
    pub source: Address,
    pub error: NetworkError,
}

/// The mathematical value of a `WrappedNetworkError`.
pub struct WrappedNetworkErrorView {
    pub id: u64,
    pub source: AddressView,
    pub error: NetworkErrorView,
}

impl View for WrappedNetworkError {
    type V = WrappedNetworkErrorView;

    open spec fn view(&self) -> WrappedNetworkErrorView {
        WrappedNetworkErrorView { id: self.id, source: self.source@, error: self.error@ }
    }
}

impl DeepView for WrappedNetworkError {
    type V = WrappedNetworkErrorView;

    open spec fn deep_view(&self) -> WrappedNetworkErrorView {
        self@
    }
}

impl Clone for WrappedNetworkError {
    fn clone(&self) -> (res: Self)
        ensures
            res@ == self@,
    {
        WrappedNetworkError {
            id: self.id,
            source: self.source.clone(),
            error: self.error.clone(),
        }
    }
}

/// An error that a process reports in place of a response: its kind, and
/// what it wants to say about it.
#[derive(Debug, PartialEq, Eq)]
pub struct UqbarError {
    pub kind: String,
    pub message: Option<String>,
}

} // verus!
