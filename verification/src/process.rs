//! The runtime state of one process: what it was last asked, which requests
//! of its own are still open, and the messages that wait for it.
//!
//! The state never touches a channel or a clock. Whoever runs the process
//! hands arrivals to [`ProcessState::accept`], sends what the `send_*`
//! functions return, and runs the timers that they ask for. Every arrival
//! is checked before the process can see it: a capability that claims this
//! node as its issuer, comes from another node and has no valid signature
//! is taken off the message.

use vstd::prelude::*;
use std::collections::HashMap;
use std::collections::VecDeque;
use crate::capabilities::{
    filter_caps, holds, lemma_filter_caps_selects, strip_signatures, CapabilityOracle, GrantView,
};
use crate::crypto::{ed25519_accepts, ed25519_verify, random_u64};
use crate::message::{
    clone_option_address, clone_option_kernel_message, KernelMessage, KernelMessageView, Message,
    MessageView, NetworkError, NetworkErrorKind, NetworkErrorView, Request, RequestView, Response,
    ResponseView, WrappedNetworkError, WrappedNetworkErrorView,
};
use crate::types::{
    capabilities_of, clone_option_payload, clone_option_string, Address, AddressView, Payload,
    PayloadView, SignedCapability, SignedCapabilityView,
};

verus! {

/// What a process remembers about one open request of its own: the message
/// that had prompted it at the time, and the caller's context string.
#[derive(Debug, PartialEq, Eq)]
pub struct ProcessContext {
    pub prompting_message: Option<KernelMessage>,
    pub context: Option<String>,
}

/// The mathematical value of a `ProcessContext`.
pub struct ProcessContextView {
    pub prompting_message: Option<KernelMessageView>,
    pub context: Option<Seq<char>>,
}

impl View for ProcessContext {
    type V = ProcessContextView;

    open spec fn view(&self) -> ProcessContextView {
        ProcessContextView {
            prompting_message: self.prompting_message.deep_view(),
            context: self.context.deep_view(),
        }
    }
}

impl DeepView for ProcessContext {
    type V = ProcessContextView;

    open spec fn deep_view(&self) -> ProcessContextView {
        self@
    }
}

/// The mathematical value of something that arrives at a process: a message,
/// or the failure of one that it sent.
pub open spec fn incoming_view(
    incoming: Result<KernelMessage, WrappedNetworkError>,
) -> Result<KernelMessageView, WrappedNetworkErrorView> {
    match incoming {
        Ok(km) => Ok(km@),
        Err(e) => Err(e@),
    }
}

/// The id of the round trip that an arrival belongs to.
pub open spec fn incoming_id(incoming: Result<KernelMessageView, WrappedNetworkErrorView>) -> u64 {
    match incoming {
        Ok(km) => km.id,
        Err(e) => e.id,
    }
}

/// An arrival that waits for the process, in two forms: as it came, which
/// is what the state remembers of it, and as the process is shown it, with
/// only the capabilities that are admitted.
#[derive(Debug, PartialEq, Eq)]
pub struct Queued {
    pub arrival: Result<KernelMessage, WrappedNetworkError>,
    pub shown: Result<KernelMessage, WrappedNetworkError>,
}

/// The mathematical value of a `Queued`.
pub struct QueuedView {
    pub arrival: Result<KernelMessageView, WrappedNetworkErrorView>,
    pub shown: Result<KernelMessageView, WrappedNetworkErrorView>,
}

impl View for Queued {
    type V = QueuedView;

    open spec fn view(&self) -> QueuedView {
        QueuedView { arrival: incoming_view(self.arrival), shown: incoming_view(self.shown) }
    }
}

impl DeepView for Queued {
    type V = QueuedView;

    open spec fn deep_view(&self) -> QueuedView {
        self@
    }
}

/// Copies an arrival.
pub fn clone_incoming(incoming: &Result<KernelMessage, WrappedNetworkError>) -> (res: Result<
    KernelMessage,
    WrappedNetworkError,
>)
    ensures
        incoming_view(res) == incoming_view(*incoming),
{
    match incoming {
        Ok(km) => Ok(km.clone()),
        Err(e) => Err(e.clone()),
    }
}

/// The state of one process.
#[derive(Debug, PartialEq, Eq)]
pub struct ProcessState {
    /// The address of this process.
    pub our: Address,
    /// The message that the process is currently working on.
    pub prompting_message: Option<KernelMessage>,
    /// The payload of the message delivered last.
    pub last_payload: Option<Payload>,
    /// The open requests of this process, by id.
    pub contexts: HashMap<u64, ProcessContext>,
    /// Arrivals that have not been delivered yet, oldest first. Only
    /// [`ProcessState::accept`] puts anything here, so that nothing waits
    /// for the process that has not been checked.
    message_queue: VecDeque<Queued>,
}

/// The mathematical value of a `ProcessState`.
pub struct ProcessStateView {
    pub our: AddressView,
    pub prompting_message: Option<KernelMessageView>,
    pub last_payload: Option<PayloadView>,
    pub contexts: Map<u64, ProcessContextView>,
    pub queue: Seq<QueuedView>,
}

impl View for ProcessState {
    type V = ProcessStateView;

    closed spec fn view(&self) -> ProcessStateView {
        ProcessStateView {
            our: self.our@,
            prompting_message: self.prompting_message.deep_view(),
            last_payload: self.last_payload.deep_view(),
            contexts: contexts_view(self.contexts@),
            queue: queue_view(self.message_queue@),
        }
    }
}

/// The mathematical value of the table of open requests.
pub open spec fn contexts_view(contexts: Map<u64, ProcessContext>) -> Map<
    u64,
    ProcessContextView,
> {
    contexts.map_values(|c: ProcessContext| c@)
}

/// The mathematical value of the waiting arrivals.
pub open spec fn queue_view(queue: Seq<Queued>) -> Seq<QueuedView> {
    queue.map_values(|q: Queued| q@)
}

/// The least number from `from` upwards that is not in `taken`.
pub open spec fn least_unused(taken: Set<u64>, from: u64) -> u64
    decreases u64::MAX - from,
{
    if !taken.contains(from) || from == u64::MAX {
        from
    } else {
        least_unused(taken, (from + 1) as u64)
    }
}

/// The id chosen for a new round trip: the proposed number if it is free,
/// and else the least free number.
pub open spec fn first_unused(taken: Set<u64>, seed: u64) -> u64 {
    if !taken.contains(seed) {
        seed
    } else {
        least_unused(taken, 0)
    }
}

/// A finite set that holds every number below `n` has at least `n` members.
pub proof fn lemma_prefix_taken(taken: Set<u64>, n: nat)
    requires
        taken.finite(),
        n <= u64::MAX + 1,
        forall|j: u64| j < n ==> taken.contains(j),
    ensures
        taken.len() >= n,
    decreases n,
{
    if n > 0 {
        let x = (n - 1) as u64;
        let rest = taken.remove(x);
        assert(taken.contains(x));
        assert forall|j: u64| j < n - 1 implies rest.contains(j) by {
            assert(taken.contains(j));
        }
        lemma_prefix_taken(rest, (n - 1) as nat);
    }
}

/// A request continues the round trip of the prompting message when it
/// inherits, wants no response itself, and there is a prompting message.
pub open spec fn inherits_id(request: RequestView, prompting: Option<KernelMessageView>) -> bool {
    request.inherit && request.expects_response.is_none() && prompting.is_some()
}

/// The id under which a request goes out, given the number proposed for a
/// new round trip.
pub open spec fn request_id(state: ProcessStateView, request: RequestView, seed: u64) -> u64 {
    if inherits_id(request, state.prompting_message) {
        state.prompting_message.unwrap().id
    } else {
        first_unused(state.contexts.dom(), seed)
    }
}

/// Who is owed the response to a request.
///
/// A request that expects a response is answered to the process itself. One
/// that does not, but inherits, passes on whoever was owed the response to
/// the prompting message. Otherwise nobody is.
pub open spec fn request_rsvp(
    our: AddressView,
    request: RequestView,
    prompting: Option<KernelMessageView>,
) -> Option<AddressView> {
    match (request.expects_response, request.inherit, prompting) {
        (Some(_), _, _) => Some(our),
        (None, true, Some(p)) => p.rsvp,
        (None, false, _) => None,
        (None, true, None) => None,
    }
}

/// The payload that goes out with a request: the one supplied, else the
/// payload delivered last if the request inherits, else none.
pub open spec fn request_payload(
    supplied: Option<PayloadView>,
    inherit: bool,
    last: Option<PayloadView>,
) -> Option<PayloadView> {
    match supplied {
        Some(p) => Some(p),
        None => if inherit {
            last
        } else {
            None
        },
    }
}

/// The failure that is delivered back to the sender when nothing has
/// answered a request in time.
pub open spec fn timeout_error(
    id: u64,
    target: AddressView,
    request: RequestView,
    payload: Option<PayloadView>,
) -> WrappedNetworkErrorView {
    WrappedNetworkErrorView {
        id,
        source: target,
        error: NetworkErrorView {
            kind: NetworkErrorKind::Timeout,
            target,
            message: MessageView::Request(request),
            payload,
        },
    }
}

/// A timer that the caller must run: after `seconds`, unless it was
/// cancelled, `error` is handed to the process as an arrival.
#[derive(Debug, PartialEq, Eq)]
pub struct TimeoutWatch {
    pub seconds: u64,
    pub error: WrappedNetworkError,
}

/// The mathematical value of a `TimeoutWatch`.
pub struct TimeoutWatchView {
    pub seconds: u64,
    pub error: WrappedNetworkErrorView,
}

impl View for TimeoutWatch {
    type V = TimeoutWatchView;

    open spec fn view(&self) -> TimeoutWatchView {
        TimeoutWatchView { seconds: self.seconds, error: self.error@ }
    }
}

impl DeepView for TimeoutWatch {
    type V = TimeoutWatchView;

    open spec fn deep_view(&self) -> TimeoutWatchView {
        self@
    }
}

/// What sending a request produces: the id of the round trip, the message
/// for the router, and the timer to start if a response is expected.
#[derive(Debug, PartialEq, Eq)]
pub struct Outgoing {
    pub id: u64,
    pub message: KernelMessage,
    pub timeout: Option<TimeoutWatch>,
}

/// The mathematical value of an `Outgoing`.
pub struct OutgoingView {
    pub id: u64,
    pub message: KernelMessageView,
    pub timeout: Option<TimeoutWatchView>,
}

impl View for Outgoing {
    type V = OutgoingView;

    open spec fn view(&self) -> OutgoingView {
        OutgoingView { id: self.id, message: self.message@, timeout: self.timeout.deep_view() }
    }
}

/// What a process in state `state` sends for `request` under the id `id`,
/// when the oracle's record is `grants`.
pub open spec fn outgoing_request(
    state: ProcessStateView,
    grants: Seq<GrantView>,
    id: u64,
    fake_source: Option<AddressView>,
    target: AddressView,
    request: RequestView,
    payload: Option<PayloadView>,
) -> OutgoingView {
    let out_payload = request_payload(payload, request.inherit, state.last_payload);
    OutgoingView {
        id,
        message: KernelMessageView {
            id,
            source: match fake_source {
                Some(s) => s,
                None => state.our,
            },
            target,
            rsvp: request_rsvp(state.our, request, state.prompting_message),
            message: MessageView::Request(
                RequestView {
                    capabilities: filter_caps(
                        grants,
                        state.our.process,
                        capabilities_of(request.capabilities),
                    ),
                    ..request
                },
            ),
            payload: out_payload,
        },
        timeout: match request.expects_response {
            Some(seconds) => Some(
                TimeoutWatchView { seconds, error: timeout_error(id, target, request, out_payload) },
            ),
            None => None,
        },
    }
}

/// The state after sending `request` under `id`: a request that expects a
/// response is remembered, with the prompting message of the moment and the
/// caller's context; any other leaves the state as it was.
pub open spec fn state_after_send(
    state: ProcessStateView,
    id: u64,
    request: RequestView,
    new_context: Option<Seq<char>>,
) -> ProcessStateView {
    match request.expects_response {
        Some(_) => ProcessStateView {
            contexts: state.contexts.insert(
                id,
                ProcessContextView {
                    prompting_message: state.prompting_message,
                    context: new_context,
                },
            ),
            ..state
        },
        None => state,
    }
}

/// The id and the target of a response: the id of the prompting message,
/// and whoever is owed its response, or else its sender.
pub open spec fn response_id_target(prompting: Option<KernelMessageView>) -> Option<
    (u64, AddressView),
> {
    match prompting {
        None => None,
        Some(p) => Some(
            (
                p.id,
                match p.rsvp {
                    None => p.source,
                    Some(a) => a,
                },
            ),
        ),
    }
}

/// What a process in state `state` sends for `response`, if anything: with
/// no prompting message there is nothing to answer.
pub open spec fn outgoing_response(
    state: ProcessStateView,
    grants: Seq<GrantView>,
    response: ResponseView,
    payload: Option<PayloadView>,
) -> Option<KernelMessageView> {
    match response_id_target(state.prompting_message) {
        None => None,
        Some((id, target)) => Some(
            KernelMessageView {
                id,
                source: state.our,
                target,
                rsvp: None,
                message: MessageView::Response(
                    ResponseView {
                        capabilities: filter_caps(
                            grants,
                            state.our.process,
                            capabilities_of(response.capabilities),
                        ),
                        ..response
                    },
                    None,
                ),
                payload: if response.inherit {
                    state.last_payload
                } else {
                    payload
                },
            },
        ),
    }
}

impl ProcessState {
    /// The state of a process that has just been spawned.
    pub fn new(our: Address) -> (res: Self)
        ensures
            res@ == (ProcessStateView {
                our: our@,
                prompting_message: None,
                last_payload: None,
                contexts: Map::empty(),
                queue: Seq::empty(),
            }),
    {
        let res = ProcessState {
            our,
            prompting_message: None,
            last_payload: None,
            contexts: HashMap::new(),
            message_queue: VecDeque::new(),
        };
        assert(res@.contexts =~= Map::empty());
        assert(res@.queue =~= Seq::empty());
        res
    }

    /// An id for a new round trip that no open request uses: `seed` if it
    /// is free, and else the least free number.
    pub fn fresh_id(&self, seed: u64) -> (id: u64)
        ensures
            id == first_unused(self@.contexts.dom(), seed),
            !self@.contexts.contains_key(id),
    {
        broadcast use vstd::std_specs::hash::group_hash_axioms;

        let ghost taken = self.contexts@.dom();
        assert(self@.contexts.dom() =~= taken);
        if !self.contexts.contains_key(&seed) {
            return seed;
        }
        let n = self.contexts.len();
        let mut k: u64 = 0;
        while self.contexts.contains_key(&k)
            invariant
                taken == self.contexts@.dom(),
                taken.finite(),
                taken.len() == n,
                forall|j: u64| j < k ==> taken.contains(j),
                least_unused(taken, 0) == least_unused(taken, k),
            decreases taken.len() - k,
        {
            proof {
                assert forall|j: u64| j < k + 1 implies taken.contains(j) by {
                    if j == k {
                        assert(taken.contains(k));
                    }
                }
                lemma_prefix_taken(taken, (k + 1) as nat);
            }
            k += 1;
        }
        k
    }
}

impl ProcessState {
    /// Builds the message for a request of this process and remembers the
    /// request if it expects a response. `seed` proposes the id of a new
    /// round trip.
    ///
    /// The capabilities that go out are those of the request that the oracle
    /// records for this process; the signatures that the process supplied
    /// are not looked at.
    pub fn send_request_seeded(
        &mut self,
        seed: u64,
        fake_source: Option<Address>,
        target: Address,
        request: Request,
        new_context: Option<String>,
        payload: Option<Payload>,
        oracle: &CapabilityOracle,
    ) -> (out: Outgoing)
        ensures
            out.id == request_id(old(self)@, request@, seed),
            !inherits_id(request@, old(self)@.prompting_message) ==> !old(
                self,
            )@.contexts.contains_key(out.id),
            out@ == outgoing_request(
                old(self)@,
                oracle@,
                out.id,
                fake_source.deep_view(),
                target@,
                request@,
                payload.deep_view(),
            ),
            final(self)@ == state_after_send(
                old(self)@,
                out.id,
                request@,
                new_context.deep_view(),
            ),
    {
        broadcast use vstd::std_specs::hash::group_hash_axioms;

        let id: u64 = match &self.prompting_message {
            Some(p) if request.inherit && request.expects_response.is_none() => p.id,
            _ => self.fresh_id(seed),
        };
        let source = match fake_source {
            Some(s) => s,
            None => self.our.clone(),
        };
        let out_payload = match payload {
            Some(p) => Some(p),
            None => if request.inherit {
                clone_option_payload(&self.last_payload)
            } else {
                None
            },
        };
        let wanted = strip_signatures(&request.capabilities);
        let capabilities = oracle.filter_caps(&self.our.process, &wanted);
        let rsvp = match request.expects_response {
            Some(_) => Some(self.our.clone()),
            None => if request.inherit {
                match &self.prompting_message {
                    Some(p) => clone_option_address(&p.rsvp),
                    None => None,
                }
            } else {
                None
            },
        };
        let timeout = match request.expects_response {
            Some(seconds) => {
                let error = WrappedNetworkError {
                    id,
                    source: target.clone(),
                    error: NetworkError {
                        kind: NetworkErrorKind::Timeout,
                        target: target.clone(),
                        message: Message::Request(request.clone()),
                        payload: clone_option_payload(&out_payload),
                    },
                };
                let ghost before = self.contexts@;
                let context = ProcessContext {
                    prompting_message: clone_option_kernel_message(&self.prompting_message),
                    context: new_context,
                };
                self.contexts.insert(id, context);
                assert(contexts_view(self.contexts@) =~= contexts_view(before).insert(
                    id,
                    context@,
                ));
                Some(TimeoutWatch { seconds, error })
            },
            None => None,
        };
        let message = KernelMessage {
            id,
            source,
            target,
            rsvp,
            message: Message::Request(
                Request {
                    inherit: request.inherit,
                    expects_response: request.expects_response,
                    body: request.body,
                    metadata: request.metadata,
                    capabilities,
                },
            ),
            payload: out_payload,
        };
        Outgoing { id, message, timeout }
    }

    /// Builds the message for a request of this process and remembers the
    /// request if it expects a response.
    ///
    /// The id is that of the prompting message if the request continues its
    /// round trip, and else one that no open request of this process uses.
    /// Given the id, the message, the timer and the new state are fixed.
    pub fn send_request(
        &mut self,
        fake_source: Option<Address>,
        target: Address,
        request: Request,
        new_context: Option<String>,
        payload: Option<Payload>,
        oracle: &CapabilityOracle,
    ) -> (out: Outgoing)
        ensures
            inherits_id(request@, old(self)@.prompting_message) ==> out.id == old(
                self,
            )@.prompting_message.unwrap().id,
            !inherits_id(request@, old(self)@.prompting_message) ==> !old(
                self,
            )@.contexts.contains_key(out.id),
            out@ == outgoing_request(
                old(self)@,
                oracle@,
                out.id,
                fake_source.deep_view(),
                target@,
                request@,
                payload.deep_view(),
            ),
            final(self)@ == state_after_send(
                old(self)@,
                out.id,
                request@,
                new_context.deep_view(),
            ),
    {
        let seed = random_u64();
        self.send_request_seeded(seed, fake_source, target, request, new_context, payload, oracle)
    }

    /// The id and the target that a response of this process gets, if there
    /// is a prompting message to answer.
    pub fn make_response_id_target(&self) -> (res: Option<(u64, Address)>)
        ensures
            res.deep_view() == response_id_target(self@.prompting_message),
    {
        match &self.prompting_message {
            None => None,
            Some(p) => Some(
                (
                    p.id,
                    match &p.rsvp {
                        None => p.source.clone(),
                        Some(a) => a.clone(),
                    },
                ),
            ),
        }
    }

    /// Builds the message for a response of this process. With no prompting
    /// message the response is dropped, and the result is `None`.
    ///
    /// The message carries no context: the receiver looks its own up.
    pub fn send_response(
        &self,
        response: Response,
        payload: Option<Payload>,
        oracle: &CapabilityOracle,
    ) -> (res: Option<KernelMessage>)
        ensures
            res.deep_view() == outgoing_response(
                self@,
                oracle@,
                response@,
                payload.deep_view(),
            ),
    {
        let (id, target) = match self.make_response_id_target() {
            Some(r) => r,
            None => {
                return None;
            },
        };
        let out_payload = if response.inherit {
            clone_option_payload(&self.last_payload)
        } else {
            payload
        };
        let wanted = strip_signatures(&response.capabilities);
        let capabilities = oracle.filter_caps(&self.our.process, &wanted);
        Some(
            KernelMessage {
                id,
                source: self.our.clone(),
                target,
                rsvp: None,
                message: Message::Response(
                    Response {
                        inherit: response.inherit,
                        body: response.body,
                        metadata: response.metadata,
                        capabilities,
                    },
                    None,
                ),
                payload: out_payload,
            },
        )
    }
}

/// What the process is handed: the sender and the message, or the failure
/// of one of its own requests with the context it had stored for it.
#[derive(Debug, PartialEq, Eq)]
pub struct Delivery {
    pub outcome: Result<(Address, Message), (NetworkError, Option<String>)>,
    /// The id of the request whose timer is to be cancelled, if any.
    pub cancel_timeout: Option<u64>,
}

/// The mathematical value of a `Delivery`.
pub struct DeliveryView {
    pub outcome: Result<(AddressView, MessageView), (NetworkErrorView, Option<Seq<char>>)>,
    pub cancel_timeout: Option<u64>,
}

impl View for Delivery {
    type V = DeliveryView;

    open spec fn view(&self) -> DeliveryView {
        DeliveryView {
            outcome: match self.outcome {
                Ok((a, m)) => Ok((a@, m@)),
                Err((e, c)) => Err((e@, c.deep_view())),
            },
            cancel_timeout: self.cancel_timeout,
        }
    }
}

impl DeepView for Delivery {
    type V = DeliveryView;

    open spec fn deep_view(&self) -> DeliveryView {
        self@
    }
}

/// Delivering one arrival to a process: the state afterwards, and what the
/// process is handed.
///
/// A request becomes the prompting message. A response closes the open
/// request of its id, if there is one: the prompting message of that time
/// comes back, and the stored context is handed over in place of whatever
/// the sender attached. A failure closes the open request of its id in the
/// same way.
pub open spec fn deliver(
    state: ProcessStateView,
    incoming: Result<KernelMessageView, WrappedNetworkErrorView>,
) -> (ProcessStateView, DeliveryView) {
    match incoming {
        Ok(km) => match km.message {
            MessageView::Request(_) => (
                ProcessStateView {
                    last_payload: km.payload,
                    prompting_message: Some(km),
                    ..state
                },
                DeliveryView { outcome: Ok((km.source, km.message)), cancel_timeout: None },
            ),
            MessageView::Response(r, _) => if state.contexts.contains_key(km.id) {
                let stored = state.contexts[km.id];
                (
                    ProcessStateView {
                        contexts: state.contexts.remove(km.id),
                        last_payload: km.payload,
                        prompting_message: match stored.prompting_message {
                            None => Some(km),
                            Some(p) => Some(p),
                        },
                        ..state
                    },
                    DeliveryView {
                        outcome: Ok((km.source, MessageView::Response(r, stored.context))),
                        cancel_timeout: Some(km.id),
                    },
                )
            } else {
                (
                    ProcessStateView {
                        last_payload: km.payload,
                        prompting_message: Some(km),
                        ..state
                    },
                    DeliveryView {
                        outcome: Ok((km.source, MessageView::Response(r, None))),
                        cancel_timeout: None,
                    },
                )
            },
        },
        Err(e) => if state.contexts.contains_key(e.id) {
            let stored = state.contexts[e.id];
            (
                ProcessStateView {
                    contexts: state.contexts.remove(e.id),
                    prompting_message: stored.prompting_message,
                    ..state
                },
                DeliveryView { outcome: Err((e.error, stored.context)), cancel_timeout: Some(e.id) },
            )
        } else {
            (state, DeliveryView { outcome: Err((e.error, None)), cancel_timeout: None })
        },
    }
}

/// The position of the oldest waiting arrival with the id `id`, if any.
pub open spec fn position_of(queue: Seq<QueuedView>, id: u64) -> Option<int>
    decreases queue.len(),
{
    if queue.len() == 0 {
        None
    } else if incoming_id(queue[0].arrival) == id {
        Some(0)
    } else {
        match position_of(queue.drop_first(), id) {
            Some(i) => Some(i + 1),
            None => None,
        }
    }
}

/// If none of the first `i` arrivals has the id, the search may start at
/// arrival `i`.
pub proof fn lemma_position_of_skip(queue: Seq<QueuedView>, id: u64, i: int)
    requires
        0 <= i <= queue.len(),
        forall|j: int| 0 <= j < i ==> incoming_id((#[trigger] queue[j]).arrival) != id,
    ensures
        position_of(queue, id) == match position_of(queue.subrange(i, queue.len() as int), id) {
            Some(k) => Some(k + i),
            None => None,
        },
    decreases i,
{
    if i == 0 {
        assert(queue.subrange(0, queue.len() as int) =~= queue);
    } else {
        let tail = queue.drop_first();
        assert forall|j: int| 0 <= j < i - 1 implies incoming_id((#[trigger] tail[j]).arrival)
            != id by {
            assert(tail[j] == queue[j + 1]);
        }
        lemma_position_of_skip(tail, id, i - 1);
        assert(tail.subrange(i - 1, tail.len() as int) =~= queue.subrange(i, queue.len() as int));
        assert(incoming_id(queue[0].arrival) != id);
    }
}

/// Taking in an arrival in its two forms: the state changes by the arrival
/// as it came, and the process is handed the arrival as it is shown.
pub open spec fn take(state: ProcessStateView, queued: QueuedView) -> (
    ProcessStateView,
    DeliveryView,
) {
    (deliver(state, queued.arrival).0, deliver(state, queued.shown).1)
}

/// The two forms of an arrival at the node `our_node`: as it came, and with
/// only the capabilities that are admitted under `kernel_key`.
pub open spec fn checked(
    our_node: Seq<char>,
    kernel_key: Seq<u8>,
    arrival: Result<KernelMessageView, WrappedNetworkErrorView>,
    encodings: Seq<Seq<u8>>,
) -> QueuedView {
    QueuedView { arrival, shown: admitted_incoming(our_node, kernel_key, arrival, encodings) }
}

/// Receiving one arrival: the state remembers the arrival as it came; the
/// process is handed it with only the capabilities that are admitted.
pub open spec fn receive(
    state: ProcessStateView,
    kernel_key: Seq<u8>,
    arrival: Result<KernelMessageView, WrappedNetworkErrorView>,
    encodings: Seq<Seq<u8>>,
) -> (ProcessStateView, DeliveryView) {
    take(state, checked(state.our.node, kernel_key, arrival, encodings))
}

/// Delivering the oldest waiting arrival, if any arrival waits.
pub open spec fn deliver_next(state: ProcessStateView) -> Option<(ProcessStateView, DeliveryView)> {
    if state.queue.len() == 0 {
        None
    } else {
        Some(take(ProcessStateView { queue: state.queue.drop_first(), ..state }, state.queue[0]))
    }
}

/// Delivering the oldest waiting arrival with the id `id`, if there is one.
/// The others keep waiting, in their order.
pub open spec fn deliver_specific(state: ProcessStateView, id: u64) -> Option<
    (ProcessStateView, DeliveryView),
> {
    match position_of(state.queue, id) {
        None => None,
        Some(i) => Some(
            take(ProcessStateView { queue: state.queue.remove(i), ..state }, state.queue[i]),
        ),
    }
}

impl ProcessState {
    /// What the process is handed for an arrival in the form in which it is
    /// shown. The state does not change.
    fn outcome_for(&self, shown: Result<KernelMessage, WrappedNetworkError>) -> (out: Delivery)
        ensures
            out@ == deliver(self@, incoming_view(shown)).1,
    {
        broadcast use vstd::std_specs::hash::group_hash_axioms;

        match shown {
            Ok(km) => match km.message {
                Message::Request(r) => Delivery {
                    outcome: Ok((km.source, Message::Request(r))),
                    cancel_timeout: None,
                },
                Message::Response(r, _) => match self.contexts.get(&km.id) {
                    Some(stored) => Delivery {
                        outcome: Ok(
                            (
                                km.source,
                                Message::Response(r, clone_option_string(&stored.context)),
                            ),
                        ),
                        cancel_timeout: Some(km.id),
                    },
                    None => Delivery {
                        outcome: Ok((km.source, Message::Response(r, None))),
                        cancel_timeout: None,
                    },
                },
            },
            Err(e) => match self.contexts.get(&e.id) {
                Some(stored) => Delivery {
                    outcome: Err((e.error, clone_option_string(&stored.context))),
                    cancel_timeout: Some(e.id),
                },
                None => Delivery { outcome: Err((e.error, None)), cancel_timeout: None },
            },
        }
    }

    /// Takes in an arrival in its two forms: see [`take`].
    fn take_in(&mut self, queued: Queued) -> (out: Delivery)
        ensures
            final(self)@ == take(old(self)@, queued@).0,
            out@ == take(old(self)@, queued@).1,
    {
        let out = self.outcome_for(queued.shown);
        let _ = self.remember(queued.arrival);
        out
    }

    /// Changes the state by an arrival as it came: see [`deliver`].
    fn remember(&mut self, res: Result<KernelMessage, WrappedNetworkError>) -> (out: Delivery)
        ensures
            final(self)@ == deliver(old(self)@, incoming_view(res)).0,
            out@ == deliver(old(self)@, incoming_view(res)).1,
    {
        broadcast use vstd::std_specs::hash::group_hash_axioms;

        let ghost before = self.contexts@;
        match res {
            Ok(km) => {
                match &km.message {
                    Message::Request(_) => {
                        self.last_payload = clone_option_payload(&km.payload);
                        self.prompting_message = Some(km.clone());
                        Delivery { outcome: Ok((km.source, km.message)), cancel_timeout: None }
                    },
                    Message::Response(r, _) => {
                        let removed = self.contexts.remove(&km.id);
                        assert(contexts_view(self.contexts@) =~= contexts_view(before).remove(
                            km.id,
                        ));
                        self.last_payload = clone_option_payload(&km.payload);
                        let response = r.clone();
                        match removed {
                            Some(stored) => {
                                self.prompting_message = match stored.prompting_message {
                                    None => Some(km.clone()),
                                    Some(p) => Some(p),
                                };
                                Delivery {
                                    outcome: Ok(
                                        (km.source, Message::Response(response, stored.context)),
                                    ),
                                    cancel_timeout: Some(km.id),
                                }
                            },
                            None => {
                                assert(self.contexts@ =~= before);
                                self.prompting_message = Some(km.clone());
                                Delivery {
                                    outcome: Ok((km.source, Message::Response(response, None))),
                                    cancel_timeout: None,
                                }
                            },
                        }
                    },
                }
            },
            Err(e) => {
                let removed = self.contexts.remove(&e.id);
                assert(contexts_view(self.contexts@) =~= contexts_view(before).remove(e.id));
                match removed {
                    None => {
                        assert(self.contexts@ =~= before);
                        Delivery { outcome: Err((e.error, None)), cancel_timeout: None }
                    },
                    Some(stored) => {
                        self.prompting_message = stored.prompting_message;
                        Delivery {
                            outcome: Err((e.error, stored.context)),
                            cancel_timeout: Some(e.id),
                        }
                    },
                }
            },
        }
    }

    /// Delivers the oldest waiting arrival. With none waiting the result is
    /// `None` and nothing changes.
    pub fn get_next_message_for_process(&mut self) -> (res: Option<Delivery>)
        ensures
            match deliver_next(old(self)@) {
                None => res is None && final(self)@ == old(self)@,
                Some((state, delivery)) => res.deep_view() == Some(delivery) && final(self)@
                    == state,
            },
    {
        let ghost before = self.message_queue@;
        match self.message_queue.pop_front() {
            None => {
                assert(self.message_queue@ =~= before);
                None
            },
            Some(first) => {
                assert(queue_view(self.message_queue@) =~= queue_view(before).drop_first());
                Some(self.take_in(first))
            },
        }
    }

    /// Delivers the oldest waiting arrival that belongs to the round trip
    /// `awaited_id`, out of turn. The others keep waiting in their order.
    /// With no such arrival waiting the result is `None` and nothing
    /// changes.
    pub fn get_specific_message_for_process(&mut self, awaited_id: u64) -> (res: Option<
        Delivery,
    >)
        ensures
            match deliver_specific(old(self)@, awaited_id) {
                None => res is None && final(self)@ == old(self)@,
                Some((state, delivery)) => res.deep_view() == Some(delivery) && final(self)@
                    == state,
            },
    {
        broadcast use vstd::std_specs::vecdeque::group_vec_dequeue_axioms;

        let ghost before = self.message_queue@;
        let ghost queue = self@.queue;
        let mut i: usize = 0;
        while i < self.message_queue.len()
            invariant
                i <= self.message_queue.len(),
                self.message_queue@ == before,
                *self == *old(self),
                queue == queue_view(before),
                forall|j: int| 0 <= j < i ==> incoming_id((#[trigger] queue[j]).arrival) != awaited_id,
            decreases self.message_queue.len() - i,
        {
            let id = match &self.message_queue[i].arrival {
                Ok(km) => km.id,
                Err(e) => e.id,
            };
            assert(queue[i as int] == before[i as int]@);
            if id == awaited_id {
                proof {
                    lemma_position_of_skip(queue, awaited_id, i as int);
                    assert(queue.subrange(i as int, queue.len() as int)[0] == queue[i as int]);
                }
                match self.message_queue.remove(i) {
                    Some(found) => {
                        assert(queue_view(self.message_queue@) =~= queue.remove(i as int));
                        return Some(self.take_in(found));
                    },
                    // position `i` is inside the queue, so there is something to take
                    None => {
                        return None;
                    },
                }
            }
            i += 1;
        }
        proof {
            lemma_position_of_skip(queue, awaited_id, i as int);
            assert(queue.subrange(i as int, queue.len() as int).len() == 0);
        }
        None
    }
}

/// A capability needs a signature when it comes from another node and
/// claims to have been issued by this one.
pub open spec fn needs_signature(
    our_node: Seq<char>,
    source_node: Seq<char>,
    cap: SignedCapabilityView,
) -> bool {
    source_node != our_node && cap.issuer.node == our_node
}

/// The encoding supplied for the capability at position `i`, if one was.
pub open spec fn encoding_at(encodings: Seq<Seq<u8>>, i: int) -> Option<Seq<u8>> {
    if 0 <= i < encodings.len() {
        Some(encodings[i])
    } else {
        None
    }
}

/// Whether an attached capability may be shown to the process: either it
/// needs no signature, or its signature is accepted as a signature of its
/// encoding under this node's kernel key.
pub open spec fn capability_admitted(
    our_node: Seq<char>,
    source_node: Seq<char>,
    kernel_key: Seq<u8>,
    cap: SignedCapabilityView,
    encoding: Option<Seq<u8>>,
) -> bool {
    !needs_signature(our_node, source_node, cap) || match encoding {
        Some(e) => ed25519_accepts(kernel_key, e, cap.signature),
        None => false,
    }
}

/// The attached capabilities that may be shown to the process, in order.
/// `encodings[i]` is the encoding of the capability at position `i`.
pub open spec fn admitted_capabilities(
    our_node: Seq<char>,
    source_node: Seq<char>,
    kernel_key: Seq<u8>,
    caps: Seq<SignedCapabilityView>,
    encodings: Seq<Seq<u8>>,
) -> Seq<SignedCapabilityView>
    decreases caps.len(),
{
    if caps.len() == 0 {
        Seq::empty()
    } else {
        let rest = admitted_capabilities(
            our_node,
            source_node,
            kernel_key,
            caps.drop_last(),
            encodings,
        );
        if capability_admitted(
            our_node,
            source_node,
            kernel_key,
            caps.last(),
            encoding_at(encodings, caps.len() - 1),
        ) {
            rest.push(caps.last())
        } else {
            rest
        }
    }
}

/// An arrival as the process will see it: a message keeps only the
/// capabilities that are admitted; a failure is left as it is.
pub open spec fn admitted_incoming(
    our_node: Seq<char>,
    kernel_key: Seq<u8>,
    incoming: Result<KernelMessageView, WrappedNetworkErrorView>,
    encodings: Seq<Seq<u8>>,
) -> Result<KernelMessageView, WrappedNetworkErrorView> {
    match incoming {
        Ok(km) => Ok(
            KernelMessageView {
                message: km.message.with_capabilities(
                    admitted_capabilities(
                        our_node,
                        km.source.node,
                        kernel_key,
                        km.message.capabilities(),
                        encodings,
                    ),
                ),
                ..km
            },
        ),
        Err(e) => Err(e),
    }
}

/// Every capability that is admitted stood in the message, at a position
/// where it needed no signature or its signature verified. So a capability
/// that claims this node as issuer, comes from another node and has no
/// valid signature is never shown to the process.
pub proof fn lemma_admitted_capabilities_checked(
    our_node: Seq<char>,
    source_node: Seq<char>,
    kernel_key: Seq<u8>,
    caps: Seq<SignedCapabilityView>,
    encodings: Seq<Seq<u8>>,
    k: int,
)
    requires
        0 <= k < admitted_capabilities(our_node, source_node, kernel_key, caps, encodings).len(),
    ensures
        exists|i: int|
            0 <= i < caps.len() && #[trigger] caps[i] == admitted_capabilities(
                our_node,
                source_node,
                kernel_key,
                caps,
                encodings,
            )[k] && capability_admitted(
                our_node,
                source_node,
                kernel_key,
                caps[i],
                encoding_at(encodings, i),
            ),
    decreases caps.len(),
{
    if caps.len() > 0 {
        let init = caps.drop_last();
        let rest = admitted_capabilities(our_node, source_node, kernel_key, init, encodings);
        if k < rest.len() {
            lemma_admitted_capabilities_checked(
                our_node,
                source_node,
                kernel_key,
                init,
                encodings,
                k,
            );
            let i = choose|i: int|
                0 <= i < init.len() && #[trigger] init[i] == rest[k] && capability_admitted(
                    our_node,
                    source_node,
                    kernel_key,
                    init[i],
                    encoding_at(encodings, i),
                );
            assert(caps[i] == init[i]);
        } else {
            assert(caps[caps.len() - 1] == caps.last());
        }
    }
}

/// Where no attached capability is admitted, the process is shown none.
pub proof fn lemma_nothing_admitted(
    our_node: Seq<char>,
    source_node: Seq<char>,
    kernel_key: Seq<u8>,
    caps: Seq<SignedCapabilityView>,
    encodings: Seq<Seq<u8>>,
)
    requires
        forall|i: int|
            0 <= i < caps.len() ==> !capability_admitted(
                our_node,
                source_node,
                kernel_key,
                #[trigger] caps[i],
                encoding_at(encodings, i),
            ),
    ensures
        admitted_capabilities(our_node, source_node, kernel_key, caps, encodings)
            == Seq::<SignedCapabilityView>::empty(),
    decreases caps.len(),
{
    if caps.len() > 0 {
        let init = caps.drop_last();
        assert forall|i: int| 0 <= i < init.len() implies !capability_admitted(
            our_node,
            source_node,
            kernel_key,
            #[trigger] init[i],
            encoding_at(encodings, i),
        ) by {
            assert(init[i] == caps[i]);
        }
        lemma_nothing_admitted(our_node, source_node, kernel_key, init, encodings);
        assert(caps.last() == caps[caps.len() - 1]);
    }
}

/// Where every attached capability is admitted, the process is shown all
/// of them, as they came.
pub proof fn lemma_everything_admitted(
    our_node: Seq<char>,
    source_node: Seq<char>,
    kernel_key: Seq<u8>,
    caps: Seq<SignedCapabilityView>,
    encodings: Seq<Seq<u8>>,
)
    requires
        forall|i: int|
            0 <= i < caps.len() ==> capability_admitted(
                our_node,
                source_node,
                kernel_key,
                #[trigger] caps[i],
                encoding_at(encodings, i),
            ),
    ensures
        admitted_capabilities(our_node, source_node, kernel_key, caps, encodings) == caps,
    decreases caps.len(),
{
    if caps.len() > 0 {
        let init = caps.drop_last();
        assert forall|i: int| 0 <= i < init.len() implies capability_admitted(
            our_node,
            source_node,
            kernel_key,
            #[trigger] init[i],
            encoding_at(encodings, i),
        ) by {
            assert(init[i] == caps[i]);
        }
        lemma_everything_admitted(our_node, source_node, kernel_key, init, encodings);
        assert(caps.last() == caps[caps.len() - 1]);
        assert(init.push(caps.last()) =~= caps);
    } else {
        assert(admitted_capabilities(our_node, source_node, kernel_key, caps, encodings) =~= caps);
    }
}

/// Checking admits nothing new and keeps the order: what is admitted is no
/// longer than what was attached.
pub proof fn lemma_admitted_capabilities_len(
    our_node: Seq<char>,
    source_node: Seq<char>,
    kernel_key: Seq<u8>,
    caps: Seq<SignedCapabilityView>,
    encodings: Seq<Seq<u8>>,
)
    ensures
        admitted_capabilities(our_node, source_node, kernel_key, caps, encodings).len()
            <= caps.len(),
    decreases caps.len(),
{
    if caps.len() > 0 {
        lemma_admitted_capabilities_len(
            our_node,
            source_node,
            kernel_key,
            caps.drop_last(),
            encodings,
        );
    }
}

/// The capabilities of `caps` whose position is marked in `keep`, in order.
/// A position beyond the end of `keep` counts as not marked.
pub open spec fn retained(caps: Seq<SignedCapabilityView>, keep: Seq<bool>) -> Seq<
    SignedCapabilityView,
>
    decreases caps.len(),
{
    if caps.len() == 0 {
        Seq::empty()
    } else {
        let rest = retained(caps.drop_last(), keep);
        if caps.len() - 1 < keep.len() && keep[caps.len() - 1] {
            rest.push(caps.last())
        } else {
            rest
        }
    }
}

/// Keeping the capabilities that are marked as admitted is the same as
/// keeping those that are admitted.
pub proof fn lemma_retained_is_admitted(
    our_node: Seq<char>,
    source_node: Seq<char>,
    kernel_key: Seq<u8>,
    caps: Seq<SignedCapabilityView>,
    encodings: Seq<Seq<u8>>,
    keep: Seq<bool>,
)
    requires
        caps.len() <= keep.len(),
        forall|i: int|
            0 <= i < caps.len() ==> #[trigger] keep[i] == capability_admitted(
                our_node,
                source_node,
                kernel_key,
                caps[i],
                encoding_at(encodings, i),
            ),
    ensures
        retained(caps, keep) == admitted_capabilities(
            our_node,
            source_node,
            kernel_key,
            caps,
            encodings,
        ),
    decreases caps.len(),
{
    if caps.len() > 0 {
        let init = caps.drop_last();
        assert forall|i: int| 0 <= i < init.len() implies #[trigger] keep[i]
            == capability_admitted(
            our_node,
            source_node,
            kernel_key,
            init[i],
            encoding_at(encodings, i),
        ) by {
            assert(init[i] == caps[i]);
        }
        lemma_retained_is_admitted(our_node, source_node, kernel_key, init, encodings, keep);
        assert(caps.last() == caps[caps.len() - 1]);
    }
}

/// Keeps the capabilities whose position is marked in `keep`.
pub fn retain_capabilities(caps: Vec<SignedCapability>, keep: &Vec<bool>) -> (res: Vec<
    SignedCapability,
>)
    ensures
        res.deep_view() == retained(caps.deep_view(), keep@),
{
    let ghost all = caps.deep_view();
    let mut out: Vec<SignedCapability> = Vec::new();
    let mut i: usize = 0;
    assert(out.deep_view() =~= Seq::<SignedCapabilityView>::empty());
    while i < caps.len()
        invariant
            i <= caps.len(),
            all == caps.deep_view(),
            out.deep_view() == retained(all.subrange(0, i as int), keep@),
        decreases caps.len() - i,
    {
        let c = &caps[i];
        assert(all[i as int] == c@);
        assert(all.subrange(0, i + 1).drop_last() =~= all.subrange(0, i as int));
        if i < keep.len() && keep[i] {
            let ghost before = out.deep_view();
            let kept = c.clone();
            out.push(kept);
            assert(out.deep_view() =~= before.push(kept@));
        }
        i += 1;
    }
    assert(all.subrange(0, caps.len() as int) =~= all);
    out
}

/// Whether a capability may be shown to the process, given whether its
/// signature was found valid: one that needs no signature always may.
pub fn capability_passes(
    our_node: &String,
    source_node: &String,
    cap: &SignedCapability,
    signature_valid: bool,
) -> (res: bool)
    ensures
        res == (!needs_signature(our_node@, source_node@, cap@) || signature_valid),
{
    if !(*source_node == *our_node) && cap.issuer.node == *our_node {
        signature_valid
    } else {
        true
    }
}

/// For each capability, whether it is admitted. `encodings[i]` must hold
/// the bytes that the kernel signs for the capability at position `i`; a
/// capability without an encoding is treated as one whose signature does
/// not verify.
pub fn capability_verdicts(
    our_node: &String,
    source_node: &String,
    kernel_key: &Vec<u8>,
    caps: &Vec<SignedCapability>,
    encodings: &Vec<Vec<u8>>,
) -> (res: Vec<bool>)
    ensures
        res@.len() == caps@.len(),
        forall|i: int|
            0 <= i < caps@.len() ==> #[trigger] res@[i] == capability_admitted(
                our_node@,
                source_node@,
                kernel_key@,
                caps.deep_view()[i],
                encoding_at(encodings.deep_view(), i),
            ),
{
    let ghost all = caps.deep_view();
    let ghost enc = encodings.deep_view();
    let mut out: Vec<bool> = Vec::new();
    let mut i: usize = 0;
    while i < caps.len()
        invariant
            i <= caps.len(),
            all == caps.deep_view(),
            enc == encodings.deep_view(),
            out@.len() == i,
            forall|j: int|
                0 <= j < i ==> #[trigger] out@[j] == capability_admitted(
                    our_node@,
                    source_node@,
                    kernel_key@,
                    all[j],
                    encoding_at(enc, j),
                ),
        decreases caps.len() - i,
    {
        let c = &caps[i];
        assert(all[i as int] == c@);
        let needed = !capability_passes(our_node, source_node, c, false);
        let valid = if needed && i < encodings.len() {
            assert(enc[i as int] == encodings@[i as int]@);
            ed25519_verify(kernel_key, &encodings[i], &c.signature)
        } else {
            false
        };
        out.push(capability_passes(our_node, source_node, c, valid));
        i += 1;
    }
    out
}

/// Drops from `caps` every capability that needs a signature and has no
/// valid one. `encodings[i]` must hold the bytes that the kernel signs for
/// the capability at position `i`; a capability without an encoding is
/// treated as one whose signature does not verify.
pub fn prune_capabilities(
    our_node: &String,
    source_node: &String,
    kernel_key: &Vec<u8>,
    caps: Vec<SignedCapability>,
    encodings: &Vec<Vec<u8>>,
) -> (res: Vec<SignedCapability>)
    ensures
        res.deep_view() == admitted_capabilities(
            our_node@,
            source_node@,
            kernel_key@,
            caps.deep_view(),
            encodings.deep_view(),
        ),
{
    let keep = capability_verdicts(our_node, source_node, kernel_key, &caps, encodings);
    proof {
        lemma_retained_is_admitted(
            our_node@,
            source_node@,
            kernel_key@,
            caps.deep_view(),
            encodings.deep_view(),
            keep@,
        );
    }
    retain_capabilities(caps, &keep)
}

/// Checks an arrival: a message loses the capabilities that are not
/// admitted (see [`admitted_capabilities`]); a failure is left as it is.
/// `encodings[i]` must hold the bytes that the kernel signs for the
/// capability at position `i` of the message.
pub fn admit_incoming(
    our_node: &String,
    kernel_key: &Vec<u8>,
    incoming: Result<KernelMessage, WrappedNetworkError>,
    encodings: &Vec<Vec<u8>>,
) -> (res: Result<KernelMessage, WrappedNetworkError>)
    ensures
        incoming_view(res) == admitted_incoming(
            our_node@,
            kernel_key@,
            incoming_view(incoming),
            encodings.deep_view(),
        ),
{
    match incoming {
        Ok(km) => {
            let message = match km.message {
                Message::Request(r) => Message::Request(
                    Request {
                        inherit: r.inherit,
                        expects_response: r.expects_response,
                        body: r.body,
                        metadata: r.metadata,
                        capabilities: prune_capabilities(
                            our_node,
                            &km.source.node,
                            kernel_key,
                            r.capabilities,
                            encodings,
                        ),
                    },
                ),
                Message::Response(r, c) => Message::Response(
                    Response {
                        inherit: r.inherit,
                        body: r.body,
                        metadata: r.metadata,
                        capabilities: prune_capabilities(
                            our_node,
                            &km.source.node,
                            kernel_key,
                            r.capabilities,
                            encodings,
                        ),
                    },
                    c,
                ),
            };
            Ok(
                KernelMessage {
                    id: km.id,
                    source: km.source,
                    target: km.target,
                    rsvp: km.rsvp,
                    message,
                    payload: km.payload,
                },
            )
        },
        Err(e) => Err(e),
    }
}

impl ProcessState {
    /// The two forms of an arrival: as it came, and as the process will be
    /// shown it.
    fn check(
        &self,
        incoming: Result<KernelMessage, WrappedNetworkError>,
        encodings: &Vec<Vec<u8>>,
        kernel_key: &Vec<u8>,
    ) -> (res: Queued)
        ensures
            res@ == checked(
                self@.our.node,
                kernel_key@,
                incoming_view(incoming),
                encodings.deep_view(),
            ),
    {
        let arrival = clone_incoming(&incoming);
        let shown = admit_incoming(&self.our.node, kernel_key, incoming, encodings);
        Queued { arrival, shown }
    }

    /// Takes an arrival into the queue, behind those that wait already. It
    /// is checked on the way in (see [`checked`]): the queue keeps it as it
    /// came, and beside it the form that the process will be shown, which
    /// holds no capability that is not admitted.
    pub fn accept(
        &mut self,
        incoming: Result<KernelMessage, WrappedNetworkError>,
        encodings: &Vec<Vec<u8>>,
        kernel_key: &Vec<u8>,
    )
        ensures
            final(self)@ == (ProcessStateView {
                queue: old(self)@.queue.push(
                    checked(
                        old(self)@.our.node,
                        kernel_key@,
                        incoming_view(incoming),
                        encodings.deep_view(),
                    ),
                ),
                ..old(self)@
            }),
    {
        let ghost before = self.message_queue@;
        let queued = self.check(incoming, encodings, kernel_key);
        self.message_queue.push_back(queued);
        assert(queue_view(self.message_queue@) =~= queue_view(before).push(queued@));
    }

    /// Hands one arrival to the process at once, ahead of whatever waits,
    /// and updates the state (see [`receive`]). The state remembers the
    /// arrival as it came; what the process is handed holds only the
    /// capabilities that are admitted.
    pub fn kernel_message_to_process_receive(
        &mut self,
        res: Result<KernelMessage, WrappedNetworkError>,
        encodings: &Vec<Vec<u8>>,
        kernel_key: &Vec<u8>,
    ) -> (out: Delivery)
        ensures
            final(self)@ == receive(
                old(self)@,
                kernel_key@,
                incoming_view(res),
                encodings.deep_view(),
            ).0,
            out@ == receive(old(self)@, kernel_key@, incoming_view(res), encodings.deep_view()).1,
    {
        let queued = self.check(res, encodings, kernel_key);
        self.take_in(queued)
    }

    /// The number of arrivals that wait to be delivered.
    pub fn queued(&self) -> (res: usize)
        ensures
            res == self@.queue.len(),
    {
        broadcast use vstd::std_specs::vecdeque::group_vec_dequeue_axioms;

        self.message_queue.len()
    }
}

/// Why a request that waits for its response could not be sent or answered.
#[derive(Debug, Clone, Copy, PartialEq, Eq, Structural)]
pub enum AwaitError {
    /// The request does not expect a response, so there is nothing to wait
    /// for.
    MustExpectResponse,
    /// What arrived under the awaited id is a request, not a response.
    ReceivedRequest,
}

/// What waiting for a response ends with, given what was delivered under
/// the awaited id: the response with its sender, the delivery failure, or
/// the fault that a request arrived in its place.
pub open spec fn awaited_outcome(delivery: DeliveryView) -> Result<
    Result<(AddressView, MessageView), NetworkErrorView>,
    AwaitError,
> {
    match delivery.outcome {
        Ok((source, MessageView::Response(r, c))) => Ok(Ok((source, MessageView::Response(r, c)))),
        Ok((_, MessageView::Request(_))) => Err(AwaitError::ReceivedRequest),
        Err((e, _)) => Ok(Err(e)),
    }
}

/// The mathematical value of what waiting for a response ends with.
pub open spec fn awaited_view(
    res: Result<Result<(Address, Message), NetworkError>, AwaitError>,
) -> Result<Result<(AddressView, MessageView), NetworkErrorView>, AwaitError> {
    match res {
        Ok(Ok((a, m))) => Ok(Ok((a@, m@))),
        Ok(Err(e)) => Ok(Err(e@)),
        Err(e) => Err(e),
    }
}

/// The outcome of a delivery made while waiting for a response, with the
/// timer to cancel.
#[derive(Debug, PartialEq, Eq)]
pub struct Awaited {
    pub outcome: Result<Result<(Address, Message), NetworkError>, AwaitError>,
    pub cancel_timeout: Option<u64>,
}

impl ProcessState {
    /// Sends a request whose response the process will wait for. The
    /// request must expect a response: one that does not is refused, and
    /// nothing changes. Otherwise this is [`ProcessState::send_request`]
    /// with no context.
    pub fn send_and_await_response(
        &mut self,
        source: Option<Address>,
        target: Address,
        request: Request,
        payload: Option<Payload>,
        oracle: &CapabilityOracle,
    ) -> (res: Result<Outgoing, AwaitError>)
        ensures
            request@.expects_response is None ==> res == Err::<Outgoing, AwaitError>(
                AwaitError::MustExpectResponse,
            ) && final(self)@ == old(self)@,
            request@.expects_response is Some ==> (res matches Ok(out) && !old(
                self,
            )@.contexts.contains_key(out.id) && out@ == outgoing_request(
                old(self)@,
                oracle@,
                out.id,
                source.deep_view(),
                target@,
                request@,
                payload.deep_view(),
            ) && final(self)@ == state_after_send(old(self)@, out.id, request@, None)),
    {
        if request.expects_response.is_none() {
            return Err(AwaitError::MustExpectResponse);
        }
        Ok(self.send_request(source, target, request, None, payload, oracle))
    }

    /// Looks among the waiting arrivals for the answer to the request
    /// `awaited_id`. With none waiting the result is `None` and nothing
    /// changes; the caller hands over the next arrival and asks again.
    pub fn await_response(&mut self, awaited_id: u64) -> (res: Option<Awaited>)
        ensures
            match deliver_specific(old(self)@, awaited_id) {
                None => res is None && final(self)@ == old(self)@,
                Some((state, delivery)) => final(self)@ == state && (res matches Some(a)
                    && awaited_view(a.outcome) == awaited_outcome(delivery) && a.cancel_timeout
                    == delivery.cancel_timeout),
            },
    {
        match self.get_specific_message_for_process(awaited_id) {
            None => None,
            Some(delivery) => {
                let outcome = match delivery.outcome {
                    Ok((source, Message::Response(r, c))) => Ok(
                        Ok((source, Message::Response(r, c))),
                    ),
                    Ok((_, Message::Request(_))) => Err(AwaitError::ReceivedRequest),
                    Err((e, _)) => Ok(Err(e)),
                };
                Some(Awaited { outcome, cancel_timeout: delivery.cancel_timeout })
            },
        }
    }
}

/// A request that inherits and expects no response passes on whoever is
/// owed the response to the message that prompted it.
pub proof fn lemma_rsvp_propagates(
    our: AddressView,
    request: RequestView,
    prompting: KernelMessageView,
    owed: AddressView,
)
    requires
        request.inherit,
        request.expects_response is None,
        prompting.rsvp == Some(owed),
    ensures
        request_rsvp(our, request, Some(prompting)) == Some(owed),
{
}

/// Through a chain of processes that each forward an inheriting request
/// expecting no response, the response stays owed to the same address: a
/// process that is handed such a request and sends one of its own passes
/// the address on unchanged.
pub proof fn lemma_rsvp_propagates_through_delivery(
    state: ProcessStateView,
    grants: Seq<GrantView>,
    kernel_key: Seq<u8>,
    arrived: KernelMessageView,
    encodings: Seq<Seq<u8>>,
    id: u64,
    target: AddressView,
    request: RequestView,
    payload: Option<PayloadView>,
)
    requires
        arrived.message is Request,
        request.inherit,
        request.expects_response is None,
    ensures
        outgoing_request(
            receive(state, kernel_key, Ok(arrived), encodings).0,
            grants,
            id,
            None,
            target,
            request,
            payload,
        ).message.rsvp == arrived.rsvp,
        request_id(receive(state, kernel_key, Ok(arrived), encodings).0, request, id)
            == arrived.id,
{
}

/// A request that expects a response is open after it was sent, and the
/// failure delivered when its time is up closes it: the process is handed
/// a timeout with the context it supplied, the id is no longer in the
/// table, and neither the queue nor the other open requests change. A
/// failure under an id that is not open changes nothing and carries no
/// context.
pub proof fn lemma_timeout_closes_request(
    state: ProcessStateView,
    grants: Seq<GrantView>,
    id: u64,
    fake_source: Option<AddressView>,
    target: AddressView,
    request: RequestView,
    new_context: Option<Seq<char>>,
    payload: Option<PayloadView>,
    kernel_key: Seq<u8>,
    encodings: Seq<Seq<u8>>,
)
    requires
        request.expects_response is Some,
        !state.contexts.contains_key(id),
    ensures
        ({
            let out = outgoing_request(state, grants, id, fake_source, target, request, payload);
            let sent = state_after_send(state, id, request, new_context);
            let fired = receive(sent, kernel_key, Err(out.timeout.unwrap().error), encodings);
            let again = receive(fired.0, kernel_key, Err(out.timeout.unwrap().error), encodings);
            &&& out.timeout is Some
            &&& out.timeout.unwrap().seconds == request.expects_response.unwrap()
            &&& sent.contexts.contains_key(id)
            &&& fired.1.outcome matches Err((e, c)) && e.kind == NetworkErrorKind::Timeout && c
                == new_context
            &&& fired.1.cancel_timeout == Some(id)
            &&& !fired.0.contexts.contains_key(id)
            &&& fired.0.contexts == state.contexts
            &&& fired.0.queue == state.queue
            &&& again.0 == fired.0
            &&& again.1.outcome matches Err((e, c)) && c is None
        }),
{
    let sent = state_after_send(state, id, request, new_context);
    assert(sent.contexts.remove(id) =~= state.contexts);
}

/// A response delivered under the id of an open request closes it: the
/// stored context is handed over, the timer is cancelled, and the id is no
/// longer in the table, so that a later timeout under that id finds nothing.
pub proof fn lemma_response_closes_request(
    state: ProcessStateView,
    kernel_key: Seq<u8>,
    response: KernelMessageView,
    encodings: Seq<Seq<u8>>,
)
    requires
        response.message is Response,
        state.contexts.contains_key(response.id),
    ensures
        ({
            let done = receive(state, kernel_key, Ok(response), encodings);
            &&& !done.0.contexts.contains_key(response.id)
            &&& done.1.cancel_timeout == Some(response.id)
            &&& done.1.outcome matches Ok((source, MessageView::Response(r, c))) && source
                == response.source && c == state.contexts[response.id].context
        }),
{
}

/// The state remembers a message as it came, and the process is shown it
/// with only the capabilities that are admitted. A request becomes the
/// prompting message, whether or not its id is that of an open request; a
/// response becomes the prompting message unless the request that it
/// answers had one stored. Nothing but the capabilities differs between
/// what came and what is shown, except that a response is shown with the
/// stored context in place of the sender's.
pub proof fn lemma_receive_remembers_what_came(
    state: ProcessStateView,
    kernel_key: Seq<u8>,
    km: KernelMessageView,
    encodings: Seq<Seq<u8>>,
)
    ensures
        ({
            let got = receive(state, kernel_key, Ok(km), encodings);
            let admitted = admitted_capabilities(
                state.our.node,
                km.source.node,
                kernel_key,
                km.message.capabilities(),
                encodings,
            );
            &&& got.0.last_payload == km.payload
            &&& got.0.queue == state.queue
            &&& got.0.our == state.our
            &&& km.message is Request ==> {
                &&& got.0.prompting_message == Some(km)
                &&& got.0.contexts == state.contexts
                &&& got.1.outcome == Ok::<
                    (AddressView, MessageView),
                    (NetworkErrorView, Option<Seq<char>>),
                >((km.source, km.message.with_capabilities(admitted)))
                &&& got.1.cancel_timeout is None
            }
            &&& km.message matches MessageView::Response(r, sent_context) ==> {
                let stored = if state.contexts.contains_key(km.id) {
                    Some(state.contexts[km.id])
                } else {
                    None
                };
                &&& got.0.prompting_message == match stored {
                    Some(ProcessContextView { prompting_message: Some(p), .. }) => Some(p),
                    _ => Some(km),
                }
                &&& got.0.contexts == state.contexts.remove(km.id)
                &&& got.1.outcome == Ok::<
                    (AddressView, MessageView),
                    (NetworkErrorView, Option<Seq<char>>),
                >(
                    (
                        km.source,
                        MessageView::Response(
                            ResponseView { capabilities: admitted, ..r },
                            match stored {
                                Some(c) => c.context,
                                None => None,
                            },
                        ),
                    ),
                )
                &&& got.1.cancel_timeout == if stored is Some {
                    Some(km.id)
                } else {
                    None
                }
            }
        }),
{
    if !state.contexts.contains_key(km.id) {
        assert(state.contexts.remove(km.id) =~= state.contexts);
    }
}

/// A process cannot attach what it does not hold: every capability that
/// goes out with a request is one that the request named and that the
/// oracle records for the sending process.
pub proof fn lemma_outgoing_capabilities_held(
    state: ProcessStateView,
    grants: Seq<GrantView>,
    id: u64,
    fake_source: Option<AddressView>,
    target: AddressView,
    request: RequestView,
    payload: Option<PayloadView>,
    k: int,
)
    requires
        0 <= k < outgoing_request(
            state,
            grants,
            id,
            fake_source,
            target,
            request,
            payload,
        ).message.message.capabilities().len(),
    ensures
        ({
            let sent = outgoing_request(
                state,
                grants,
                id,
                fake_source,
                target,
                request,
                payload,
            ).message.message.capabilities();
            &&& holds(grants, state.our.process, sent[k].capability())
            &&& capabilities_of(request.capabilities).contains(sent[k].capability())
        }),
{
    let wanted = capabilities_of(request.capabilities);
    let sent = filter_caps(grants, state.our.process, wanted);
    lemma_filter_caps_selects(grants, state.our.process, wanted);
    assert(capabilities_of(sent)[k] == sent[k].capability());
    assert(capabilities_of(sent).contains(sent[k].capability()));
}

} // verus!
