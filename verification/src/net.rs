//! The peer transport: who a node is, how a handshake is judged, and how a
//! message finds its way to another node.
//!
//! Sockets, timers and key material stay with the caller. The functions
//! here judge what was received and decide what to try next.

use vstd::prelude::*;
use crate::crypto::{
    ed25519_accepts, ed25519_verify, hex_decode, hex_decoded, is_secp256k1_public_key,
    secp256k1_public_key_valid,
};
use crate::message::{
    KernelMessage, KernelMessageView, NetworkErrorKind, NetworkErrorView, WrappedNetworkError,
    WrappedNetworkErrorView,
};
use crate::types::{clone_bytes, Address, AddressView, ProcessId, ProcessIdView};
use std::collections::VecDeque;

verus! {

/// The number of bytes of the nonce that keys the cipher of a connection.
pub const NONCE_LEN: usize = 12;

/// The published record of a node: its name, its Ed25519 networking key in
/// hexadecimal, where it listens if it listens at all, and the routers that
/// may relay for it.
#[derive(Debug, PartialEq, Eq)]
pub struct Identity {
    pub name: String,
    pub networking_key: String,
    pub ws_routing: Option<(String, u16)>,
    pub allowed_routers: Vec<String>,
}

/// The mathematical value of an `Identity`.
pub struct IdentityView {
    pub name: Seq<char>,
    pub networking_key: Seq<char>,
    pub ws_routing: Option<(Seq<char>, u16)>,
    pub allowed_routers: Seq<Seq<char>>,
}

impl View for Identity {
    type V = IdentityView;

    open spec fn view(&self) -> IdentityView {
        IdentityView {
            name: self.name@,
            networking_key: self.networking_key@,
            ws_routing: match self.ws_routing {
                Some((ip, port)) => Some((ip@, port)),
                None => None,
            },
            allowed_routers: self.allowed_routers.deep_view(),
        }
    }
}

impl DeepView for Identity {
    type V = IdentityView;

    open spec fn deep_view(&self) -> IdentityView {
        self@
    }
}

/// The first frame of a connection: who calls whom, the caller's ephemeral
/// public key, and two signatures by the caller's networking key, one over
/// its identity record and one over the ephemeral key.
#[derive(Debug, PartialEq, Eq)]
pub struct Handshake {
    pub from: String,
    pub target: String,
    pub id_signature: Vec<u8>,
    pub ephemeral_public_key: Vec<u8>,
    pub ephemeral_public_key_signature: Vec<u8>,
    pub nonce: Vec<u8>,
}

/// The mathematical value of a `Handshake`.
pub struct HandshakeView {
    pub from: Seq<char>,
    pub target: Seq<char>,
    pub id_signature: Seq<u8>,
    pub ephemeral_public_key: Seq<u8>,
    pub ephemeral_public_key_signature: Seq<u8>,
    pub nonce: Seq<u8>,
}

impl View for Handshake {
    type V = HandshakeView;

    open spec fn view(&self) -> HandshakeView {
        HandshakeView {
            from: self.from@,
            target: self.target@,
            id_signature: self.id_signature@,
            ephemeral_public_key: self.ephemeral_public_key@,
            ephemeral_public_key_signature: self.ephemeral_public_key_signature@,
            nonce: self.nonce@,
        }
    }
}

impl DeepView for Handshake {
    type V = HandshakeView;

    open spec fn deep_view(&self) -> HandshakeView {
        self@
    }
}

impl Handshake {
    /// Puts a handshake together from its parts.
    pub fn new(
        from: String,
        target: String,
        id_signature: Vec<u8>,
        ephemeral_public_key: Vec<u8>,
        ephemeral_public_key_signature: Vec<u8>,
        nonce: Vec<u8>,
    ) -> (res: Handshake)
        ensures
            res@ == (HandshakeView {
                from: from@,
                target: target@,
                id_signature: id_signature@,
                ephemeral_public_key: ephemeral_public_key@,
                ephemeral_public_key_signature: ephemeral_public_key_signature@,
                nonce: nonce@,
            }),
    {
        Handshake {
            from,
            target,
            id_signature,
            ephemeral_public_key,
            ephemeral_public_key_signature,
            nonce,
        }
    }
}

/// Why a handshake was turned down.
#[derive(Debug, Clone, Copy, PartialEq, Eq, Structural)]
pub enum HandshakeError {
    /// The published networking key is no hexadecimal string.
    BadNetworkingKey,
    /// One of the two signatures does not verify under the networking key.
    BadSignature,
    /// The ephemeral public key is no point of the curve.
    BadEphemeralKey,
    /// The nonce has not the length of a nonce.
    BadNonce,
}

impl HandshakeError {
    /// The reason in words.
    pub fn message(&self) -> (res: &'static str)
        ensures
            res@ == match self {
                HandshakeError::BadNetworkingKey => "failed to decode networking key"@,
                HandshakeError::BadSignature => "got improperly signed networking info"@,
                HandshakeError::BadEphemeralKey => "error"@,
                HandshakeError::BadNonce => "got a nonce of the wrong length"@,
            },
    {
        match self {
            HandshakeError::BadNetworkingKey => "failed to decode networking key",
            HandshakeError::BadSignature => "got improperly signed networking info",
            HandshakeError::BadEphemeralKey => "error",
            HandshakeError::BadNonce => "got a nonce of the wrong length",
        }
    }
}

/// What an accepted handshake yields for the connection: the peer's
/// ephemeral public key and the nonce.
#[derive(Debug, PartialEq, Eq)]
pub struct HandshakeKeys {
    pub ephemeral_public_key: Vec<u8>,
    pub nonce: Vec<u8>,
}

/// The mathematical value of `HandshakeKeys`.
pub struct HandshakeKeysView {
    pub ephemeral_public_key: Seq<u8>,
    pub nonce: Seq<u8>,
}

impl View for HandshakeKeys {
    type V = HandshakeKeysView;

    open spec fn view(&self) -> HandshakeKeysView {
        HandshakeKeysView { ephemeral_public_key: self.ephemeral_public_key@, nonce: self.nonce@ }
    }
}

impl DeepView for HandshakeKeys {
    type V = HandshakeKeysView;

    open spec fn deep_view(&self) -> HandshakeKeysView {
        self@
    }
}

/// Whether both signatures of a handshake verify under `key`: the one over
/// the identity record, whose encoding is `id_encoding`, and the one over
/// the ephemeral public key.
pub open spec fn signatures_verify(
    key: Seq<u8>,
    handshake: HandshakeView,
    id_encoding: Seq<u8>,
) -> bool {
    ed25519_accepts(key, id_encoding, handshake.id_signature) && ed25519_accepts(
        key,
        handshake.ephemeral_public_key,
        handshake.ephemeral_public_key_signature,
    )
}

/// The judgement on a handshake, given what the checks found: whether the
/// networking key could be decoded, whether both signatures verify, and
/// whether the ephemeral key is a point of the curve. The nonce is looked
/// at last: it must have the length of a nonce. The first check that fails
/// decides, in this order.
pub open spec fn verdict(
    key_decoded: bool,
    signatures_ok: bool,
    ephemeral_key_ok: bool,
    ephemeral_public_key: Seq<u8>,
    nonce: Seq<u8>,
) -> Result<HandshakeKeysView, HandshakeError> {
    if !key_decoded {
        Err(HandshakeError::BadNetworkingKey)
    } else if !signatures_ok {
        Err(HandshakeError::BadSignature)
    } else if !ephemeral_key_ok {
        Err(HandshakeError::BadEphemeralKey)
    } else if nonce.len() != NONCE_LEN {
        Err(HandshakeError::BadNonce)
    } else {
        Ok(HandshakeKeysView { ephemeral_public_key, nonce })
    }
}

/// The judgement on a handshake from the node with identity `their_id`.
pub open spec fn handshake_verdict(
    handshake: HandshakeView,
    their_id: IdentityView,
    id_encoding: Seq<u8>,
    nonce: Seq<u8>,
) -> Result<HandshakeKeysView, HandshakeError> {
    let key = hex_decoded(their_id.networking_key);
    verdict(
        key is Some,
        key is Some && signatures_verify(key.unwrap(), handshake, id_encoding),
        is_secp256k1_public_key(handshake.ephemeral_public_key),
        handshake.ephemeral_public_key,
        nonce,
    )
}

/// The mathematical value of a judgement.
pub open spec fn verdict_view(res: Result<HandshakeKeys, HandshakeError>) -> Result<
    HandshakeKeysView,
    HandshakeError,
> {
    match res {
        Ok(keys) => Ok(keys@),
        Err(e) => Err(e),
    }
}

/// Passes judgement on a handshake from what the checks found: see
/// [`verdict`].
pub fn judge_handshake(
    key_decoded: bool,
    signatures_ok: bool,
    ephemeral_key_ok: bool,
    ephemeral_public_key: Vec<u8>,
    nonce: Vec<u8>,
) -> (res: Result<HandshakeKeys, HandshakeError>)
    ensures
        verdict_view(res) == verdict(
            key_decoded,
            signatures_ok,
            ephemeral_key_ok,
            ephemeral_public_key@,
            nonce@,
        ),
{
    if !key_decoded {
        Err(HandshakeError::BadNetworkingKey)
    } else if !signatures_ok {
        Err(HandshakeError::BadSignature)
    } else if !ephemeral_key_ok {
        Err(HandshakeError::BadEphemeralKey)
    } else if nonce.len() != NONCE_LEN {
        Err(HandshakeError::BadNonce)
    } else {
        Ok(HandshakeKeys { ephemeral_public_key, nonce })
    }
}

/// Judges a handshake against the published identity of the node that it
/// claims to come from. `id_encoding` is the encoding of that identity
/// record which the sender signed; `nonce` is the nonce of the connection,
/// as its initiator made it.
pub fn validate_handshake(
    handshake: &Handshake,
    their_id: &Identity,
    id_encoding: &Vec<u8>,
    nonce: Vec<u8>,
) -> (res: Result<HandshakeKeys, HandshakeError>)
    ensures
        verdict_view(res) == handshake_verdict(handshake@, their_id@, id_encoding@, nonce@),
{
    let (key_decoded, signatures_ok) = match hex_decode(&their_id.networking_key) {
        Some(key) => (
            true,
            ed25519_verify(&key, id_encoding, &handshake.id_signature) && ed25519_verify(
                &key,
                &handshake.ephemeral_public_key,
                &handshake.ephemeral_public_key_signature,
            ),
        ),
        None => (false, false),
    };
    let ephemeral_key_ok = secp256k1_public_key_valid(&handshake.ephemeral_public_key);
    judge_handshake(
        key_decoded,
        signatures_ok,
        ephemeral_key_ok,
        clone_bytes(&handshake.ephemeral_public_key),
        nonce,
    )
}

/// A handshake from a node whose networking key is a hexadecimal string,
/// whose ephemeral key is a point of the curve, and whose nonce has the
/// length of a nonce, is accepted exactly when both of its signatures
/// verify under that networking key.
pub proof fn lemma_handshake_acceptance(
    handshake: HandshakeView,
    their_id: IdentityView,
    id_encoding: Seq<u8>,
    nonce: Seq<u8>,
)
    requires
        hex_decoded(their_id.networking_key) is Some,
        is_secp256k1_public_key(handshake.ephemeral_public_key),
        nonce.len() == NONCE_LEN,
    ensures
        handshake_verdict(handshake, their_id, id_encoding, nonce) is Ok <==> signatures_verify(
            hex_decoded(their_id.networking_key).unwrap(),
            handshake,
            id_encoding,
        ),
{
}

/// Whatever the nonce, the key and the curve, a handshake with a signature
/// that does not verify is turned down: no key and no nonce come back.
pub proof fn lemma_handshake_needs_signatures(
    handshake: HandshakeView,
    their_id: IdentityView,
    id_encoding: Seq<u8>,
    nonce: Seq<u8>,
)
    ensures
        handshake_verdict(handshake, their_id, id_encoding, nonce) is Ok ==> hex_decoded(
            their_id.networking_key,
        ) is Some && signatures_verify(
            hex_decoded(their_id.networking_key).unwrap(),
            handshake,
            id_encoding,
        ) && nonce.len() == NONCE_LEN,
        hex_decoded(their_id.networking_key) matches Some(key) && !signatures_verify(
            key,
            handshake,
            id_encoding,
        ) ==> handshake_verdict(handshake, their_id, id_encoding, nonce) == Err::<
            HandshakeKeysView,
            HandshakeError,
        >(HandshakeError::BadSignature),
{
}

/// Why a message did not reach another node.
#[derive(Debug, Clone, Copy, PartialEq, Eq, Structural)]
pub enum NetworkError {
    /// No acknowledgement came in time.
    Timeout,
    /// No way to the node was found.
    Offline,
}

impl NetworkError {
    /// The kind of failure that the sending process is told.
    pub fn kind(&self) -> (res: NetworkErrorKind)
        ensures
            res == match self {
                NetworkError::Timeout => NetworkErrorKind::Timeout,
                NetworkError::Offline => NetworkErrorKind::Offline,
            },
    {
        match self {
            NetworkError::Timeout => NetworkErrorKind::Timeout,
            NetworkError::Offline => NetworkErrorKind::Offline,
        }
    }
}

/// What travels between two nodes once the handshake is done.
#[derive(Debug, PartialEq, Eq)]
pub enum NetworkMessage {
    Ack(u64),
    Nack(u64),
    Msg { from: String, to: String, contents: Vec<u8> },
    Raw(KernelMessage),
    Handshake(Handshake),
}

/// The name of the transport's own process.
pub open spec fn net_process() -> ProcessIdView {
    ProcessIdView::Name("net"@)
}

/// The transport's own process id.
pub fn net_process_id() -> (res: ProcessId)
    ensures
        res@ == net_process(),
{
    ProcessId::Name("net".to_owned())
}

/// The failure that is handed back to the process whose message could not
/// be delivered. It comes from the transport of this node, under the id of
/// the message, and carries the message and where it was going.
pub open spec fn undelivered(
    our_name: Seq<char>,
    message: KernelMessageView,
    error: NetworkError,
) -> WrappedNetworkErrorView {
    WrappedNetworkErrorView {
        id: message.id,
        source: AddressView { node: our_name, process: net_process() },
        error: NetworkErrorView {
            kind: match error {
                NetworkError::Timeout => NetworkErrorKind::Timeout,
                NetworkError::Offline => NetworkErrorKind::Offline,
            },
            target: message.target,
            message: message.message,
            payload: message.payload,
        },
    }
}

/// Turns a message that could not be delivered into the failure for its
/// sender.
pub fn make_kernel_response(our: &Identity, message: KernelMessage, error: NetworkError) -> (res:
    WrappedNetworkError)
    ensures
        res@ == undelivered(our@.name, message@, error),
{
    WrappedNetworkError {
        id: message.id,
        source: Address { node: our.name.clone(), process: net_process_id() },
        error: crate::message::NetworkError {
            kind: error.kind(),
            target: message.target,
            message: message.message,
            payload: message.payload,
        },
    }
}

/// What the wait for an acknowledgement ends with: the acknowledgement or
/// failure that came, and a timeout if none came at all.
pub open spec fn delivery_outcome(ack: Option<Result<(), NetworkError>>) -> Result<
    (),
    NetworkError,
> {
    match ack {
        Some(r) => r,
        None => Err(NetworkError::Timeout),
    }
}

/// See [`delivery_outcome`].
pub fn delivery_result(ack: Option<Result<(), NetworkError>>) -> (res: Result<(), NetworkError>)
    ensures
        res == delivery_outcome(ack),
{
    match ack {
        Some(r) => r,
        None => Err(NetworkError::Timeout),
    }
}

/// How this node takes part in the network.
#[derive(Debug, Clone, Copy, PartialEq, Eq, Structural)]
pub enum TransportMode {
    /// It listens on a port and accepts connections.
    Direct { port: u16 },
    /// It has no listener and keeps connections to its routers.
    Indirect,
}

/// A node with routing information is direct; one without is indirect.
pub fn transport_mode(our: &Identity) -> (res: TransportMode)
    ensures
        res == match our@.ws_routing {
            Some((_, port)) => TransportMode::Direct { port },
            None => TransportMode::Indirect,
        },
{
    match &our.ws_routing {
        Some((_, port)) => TransportMode::Direct { port: *port },
        None => TransportMode::Indirect,
    }
}

/// The host to connect to for a node that listens at `ip`: a node behind
/// the same public address as ours is reached on the local host.
pub open spec fn ws_host(our_ip: Seq<char>, ip: Seq<char>) -> Seq<char> {
    if our_ip == ip {
        "localhost"@
    } else {
        ip
    }
}

/// See [`ws_host`].
pub fn make_ws_host(our_ip: &String, ip: &String) -> (res: String)
    ensures
        res@ == ws_host(our_ip@, ip@),
{
    if *our_ip == *ip {
        "localhost".to_owned()
    } else {
        ip.clone()
    }
}

/// The record of the first node named `name` in the directory, if any.
pub open spec fn lookup_identity(pki: Seq<IdentityView>, name: Seq<char>) -> Option<IdentityView>
    decreases pki.len(),
{
    if pki.len() == 0 {
        None
    } else if pki[0].name == name {
        Some(pki[0])
    } else {
        lookup_identity(pki.drop_first(), name)
    }
}

/// If none of the first `i` records has the name, the search may start at
/// record `i`.
pub proof fn lemma_lookup_identity_skip(pki: Seq<IdentityView>, name: Seq<char>, i: int)
    requires
        0 <= i <= pki.len(),
        forall|j: int| 0 <= j < i ==> (#[trigger] pki[j]).name != name,
    ensures
        lookup_identity(pki, name) == lookup_identity(pki.subrange(i, pki.len() as int), name),
    decreases i,
{
    if i == 0 {
        assert(pki.subrange(0, pki.len() as int) =~= pki);
    } else {
        let tail = pki.drop_first();
        assert forall|j: int| 0 <= j < i - 1 implies (#[trigger] tail[j]).name != name by {
            assert(tail[j] == pki[j + 1]);
        }
        lemma_lookup_identity_skip(tail, name, i - 1);
        assert(tail.subrange(i - 1, tail.len() as int) =~= pki.subrange(i, pki.len() as int));
        assert(pki[0].name != name);
    }
}

/// Finds the record of the node named `name` in the directory.
pub fn find_identity<'a>(pki: &'a Vec<Identity>, name: &String) -> (res: Option<&'a Identity>)
    ensures
        res.deep_view() == lookup_identity(pki.deep_view(), name@),
{
    let ghost all = pki.deep_view();
    let mut i: usize = 0;
    while i < pki.len()
        invariant
            i <= pki.len(),
            all == pki.deep_view(),
            forall|j: int| 0 <= j < i ==> (#[trigger] all[j]).name != name@,
        decreases pki.len() - i,
    {
        assert(all[i as int] == pki@[i as int]@);
        if pki[i].name == *name {
            proof {
                lemma_lookup_identity_skip(all, name@, i as int);
                assert(all.subrange(i as int, all.len() as int)[0] == all[i as int]);
            }
            return Some(&pki[i]);
        }
        i += 1;
    }
    proof {
        lemma_lookup_identity_skip(all, name@, i as int);
        assert(all.subrange(i as int, all.len() as int).len() == 0);
    }
    None
}

/// Copies a list of names.
pub fn clone_names(names: &Vec<String>) -> (res: Vec<String>)
    ensures
        res.deep_view() == names.deep_view(),
{
    let mut out: Vec<String> = Vec::new();
    let mut i: usize = 0;
    while i < names.len()
        invariant
            i <= names.len(),
            out@.len() == i,
            forall|j: int| 0 <= j < i ==> out@[j]@ == names@[j]@,
        decreases names.len() - i,
    {
        out.push(names[i].clone());
        i += 1;
    }
    assert(out.deep_view() =~= names.deep_view());
    out
}

/// The way to a node, as far as it can be decided before anything is tried.
#[derive(Debug, PartialEq, Eq)]
pub enum RoutePlan {
    /// There is a live connection: hand the message to it.
    LivePeer,
    /// The node listens: connect to it, shake hands, then send.
    Direct { host: String, port: u16 },
    /// The node does not listen: try these routers, in this order.
    Routers(Vec<String>),
    /// The directory does not know the node: it is offline.
    Unknown,
}

/// The mathematical value of a `RoutePlan`.
pub enum RoutePlanView {
    LivePeer,
    Direct { host: Seq<char>, port: u16 },
    Routers(Seq<Seq<char>>),
    Unknown,
}

impl View for RoutePlan {
    type V = RoutePlanView;

    open spec fn view(&self) -> RoutePlanView {
        match self {
            RoutePlan::LivePeer => RoutePlanView::LivePeer,
            RoutePlan::Direct { host, port } => RoutePlanView::Direct { host: host@, port: *port },
            RoutePlan::Routers(r) => RoutePlanView::Routers(r.deep_view()),
            RoutePlan::Unknown => RoutePlanView::Unknown,
        }
    }
}

/// The way to a node: over the live connection if there is one; else
/// directly, if the directory says where it listens; else through its
/// routers; and not at all if the directory does not know it.
pub open spec fn route_plan(
    our_ip: Seq<char>,
    has_peer: bool,
    identity: Option<IdentityView>,
) -> RoutePlanView {
    if has_peer {
        RoutePlanView::LivePeer
    } else {
        match identity {
            None => RoutePlanView::Unknown,
            Some(id) => match id.ws_routing {
                Some((ip, port)) => RoutePlanView::Direct { host: ws_host(our_ip, ip), port },
                None => RoutePlanView::Routers(id.allowed_routers),
            },
        }
    }
}

/// See [`route_plan`].
pub fn plan_route(our_ip: &String, has_peer: bool, identity: Option<&Identity>) -> (res: RoutePlan)
    ensures
        res@ == route_plan(our_ip@, has_peer, identity.deep_view()),
{
    if has_peer {
        return RoutePlan::LivePeer;
    }
    match identity {
        None => RoutePlan::Unknown,
        Some(id) => match &id.ws_routing {
            Some((ip, port)) => RoutePlan::Direct { host: make_ws_host(our_ip, ip), port: *port },
            None => RoutePlan::Routers(clone_names(&id.allowed_routers)),
        },
    }
}

/// What to do next on the way through the routers.
#[derive(Debug, PartialEq, Eq)]
pub enum RouterStep {
    /// Open a routed connection through this router and send.
    Try(String),
    /// A router has relayed the message.
    Delivered,
    /// Every router was tried and none relayed: the node is offline.
    Offline,
}

/// The mathematical value of a `RouterStep`.
pub enum RouterStepView {
    Try(Seq<char>),
    Delivered,
    Offline,
}

impl View for RouterStep {
    type V = RouterStepView;

    open spec fn view(&self) -> RouterStepView {
        match self {
            RouterStep::Try(r) => RouterStepView::Try(r@),
            RouterStep::Delivered => RouterStepView::Delivered,
            RouterStep::Offline => RouterStepView::Offline,
        }
    }
}

/// Taking the next router from the list: the routers left, and the step.
pub open spec fn next_router(routers: Seq<Seq<char>>) -> (Seq<Seq<char>>, RouterStepView) {
    if routers.len() == 0 {
        (routers, RouterStepView::Offline)
    } else {
        (routers.drop_first(), RouterStepView::Try(routers[0]))
    }
}

/// What follows an attempt through one router. If the message was
/// acknowledged, it is delivered. If not, a router that the attempt
/// suggested joins the end of the list, and the next router is tried.
pub open spec fn after_attempt(
    routers: Seq<Seq<char>>,
    ack: Option<Result<(), NetworkError>>,
    suggestion: Option<Seq<char>>,
) -> (Seq<Seq<char>>, RouterStepView) {
    if delivery_outcome(ack) is Ok {
        (routers, RouterStepView::Delivered)
    } else {
        next_router(
            match suggestion {
                Some(r) => routers.push(r),
                None => routers,
            },
        )
    }
}

/// The routers that are still to be tried for one message, in order.
#[derive(Debug, PartialEq, Eq)]
pub struct RouterQueue {
    pub routers: VecDeque<String>,
}

impl View for RouterQueue {
    type V = Seq<Seq<char>>;

    open spec fn view(&self) -> Seq<Seq<char>> {
        self.routers.deep_view()
    }
}

impl RouterQueue {
    /// The queue for a node with these routers, and the first step.
    pub fn start(allowed_routers: Vec<String>) -> (res: (RouterQueue, RouterStep))
        ensures
            res.0@ == next_router(allowed_routers.deep_view()).0,
            res.1@ == next_router(allowed_routers.deep_view()).1,
    {
        let mut queue = RouterQueue { routers: VecDeque::new() };
        let mut i: usize = 0;
        assert(queue@ =~= allowed_routers.deep_view().subrange(0, 0));
        while i < allowed_routers.len()
            invariant
                i <= allowed_routers.len(),
                queue@ == allowed_routers.deep_view().subrange(0, i as int),
            decreases allowed_routers.len() - i,
        {
            let ghost before = queue@;
            let name = allowed_routers[i].clone();
            queue.routers.push_back(name);
            assert(queue@ =~= before.push(name@));
            assert(queue@ =~= allowed_routers.deep_view().subrange(0, i + 1));
            i += 1;
        }
        assert(allowed_routers.deep_view().subrange(0, allowed_routers.len() as int)
            =~= allowed_routers.deep_view());
        let step = queue.next();
        (queue, step)
    }

    /// Takes the next router from the queue.
    pub fn next(&mut self) -> (res: RouterStep)
        ensures
            final(self)@ == next_router(old(self)@).0,
            res@ == next_router(old(self)@).1,
    {
        let ghost before = self@;
        match self.routers.pop_front() {
            Some(r) => {
                assert(self@ =~= before.drop_first());
                assert(before[0] == r@);
                RouterStep::Try(r)
            },
            None => {
                assert(self@ =~= before);
                RouterStep::Offline
            },
        }
    }

    /// Records how the attempt through the last router ended, and says what
    /// to do next. `ack` is what came back for the message, if anything
    /// came; `suggestion` is another router that the attempt named.
    pub fn attempt_finished(
        &mut self,
        ack: Option<Result<(), NetworkError>>,
        suggestion: Option<String>,
    ) -> (res: RouterStep)
        ensures
            final(self)@ == after_attempt(old(self)@, ack, suggestion.deep_view()).0,
            res@ == after_attempt(old(self)@, ack, suggestion.deep_view()).1,
    {
        if delivery_result(ack).is_ok() {
            return RouterStep::Delivered;
        }
        match suggestion {
            Some(r) => {
                let ghost before = self@;
                self.routers.push_back(r);
                assert(self@ =~= before.push(r@));
            },
            None => {},
        }
        self.next()
    }
}

/// A failed attempt is never the answer while a router is left to try: the
/// next router is tried instead. Only when none is left is the node
/// reported offline, and never with the failure of a single router.
pub proof fn lemma_failure_falls_back(
    routers: Seq<Seq<char>>,
    ack: Option<Result<(), NetworkError>>,
    suggestion: Option<Seq<char>>,
)
    requires
        delivery_outcome(ack) is Err,
    ensures
        routers.len() > 0 ==> after_attempt(routers, ack, suggestion).1 == RouterStepView::Try(
            routers[0],
        ),
        routers.len() == 0 && suggestion is Some ==> after_attempt(routers, ack, suggestion).1
            == RouterStepView::Try(suggestion.unwrap()),
        routers.len() == 0 && suggestion is None ==> after_attempt(routers, ack, suggestion).1
            == RouterStepView::Offline,
{
    match suggestion {
        Some(r) => {
            assert(routers.push(r)[0] == if routers.len() > 0 {
                routers[0]
            } else {
                r
            });
        },
        None => {},
    }
}

/// With two routers of which the first fails and the second relays, the
/// message is delivered through the second, and the failure of the first
/// is not reported.
pub proof fn lemma_second_router_delivers(
    first: Seq<char>,
    second: Seq<char>,
    failure: Option<Result<(), NetworkError>>,
)
    requires
        delivery_outcome(failure) is Err,
    ensures
        ({
            let begin = next_router(seq![first, second]);
            let retry = after_attempt(begin.0, failure, None);
            let end = after_attempt(retry.0, Some(Ok(())), None);
            &&& begin.1 == RouterStepView::Try(first)
            &&& retry.1 == RouterStepView::Try(second)
            &&& end.1 == RouterStepView::Delivered
        }),
{
    let routers = seq![first, second];
    assert(routers.drop_first() =~= seq![second]);
    assert(routers[0] == first);
    assert(seq![second][0] == second);
}

/// Where a router can be reached.
#[derive(Debug, PartialEq, Eq)]
pub struct Endpoint {
    pub name: String,
    pub host: String,
    pub port: u16,
}

/// The mathematical value of an `Endpoint`.
pub struct EndpointView {
    pub name: Seq<char>,
    pub host: Seq<char>,
    pub port: u16,
}

impl View for Endpoint {
    type V = EndpointView;

    open spec fn view(&self) -> EndpointView {
        EndpointView { name: self.name@, host: self.host@, port: self.port }
    }
}

impl DeepView for Endpoint {
    type V = EndpointView;

    open spec fn deep_view(&self) -> EndpointView {
        self@
    }
}

/// Where the node named `name` can be reached, if the directory knows it
/// and it listens.
pub open spec fn endpoint_of(our_ip: Seq<char>, pki: Seq<IdentityView>, name: Seq<char>) -> Option<
    EndpointView,
> {
    match lookup_identity(pki, name) {
        None => None,
        Some(id) => match id.ws_routing {
            None => None,
            Some((ip, port)) => Some(EndpointView { name, host: ws_host(our_ip, ip), port }),
        },
    }
}

/// The endpoints of those of `routers` that can be reached, in order.
pub open spec fn endpoints_of(
    our_ip: Seq<char>,
    pki: Seq<IdentityView>,
    routers: Seq<Seq<char>>,
) -> Seq<EndpointView>
    decreases routers.len(),
{
    if routers.len() == 0 {
        Seq::empty()
    } else {
        let rest = endpoints_of(our_ip, pki, routers.drop_last());
        match endpoint_of(our_ip, pki, routers.last()) {
            Some(e) => rest.push(e),
            None => rest,
        }
    }
}

/// Where to connect to reach the router named `name`: used when an
/// indirect node first connects, and again whenever it loses a router.
pub fn router_endpoint(our_ip: &String, pki: &Vec<Identity>, name: &String) -> (res: Option<
    Endpoint,
>)
    ensures
        res.deep_view() == endpoint_of(our_ip@, pki.deep_view(), name@),
{
    match find_identity(pki, name) {
        None => None,
        Some(id) => match &id.ws_routing {
            None => None,
            Some((ip, port)) => Some(
                Endpoint { name: name.clone(), host: make_ws_host(our_ip, ip), port: *port },
            ),
        },
    }
}

/// The routers that an indirect node connects to: each of its allowed
/// routers that the directory knows and that listens, in the order of the
/// node's own record.
pub fn connect_to_routers(our: &Identity, our_ip: &String, pki: &Vec<Identity>) -> (res: Vec<
    Endpoint,
>)
    ensures
        res.deep_view() == endpoints_of(our_ip@, pki.deep_view(), our@.allowed_routers),
{
    let ghost routers = our@.allowed_routers;
    let mut out: Vec<Endpoint> = Vec::new();
    let mut i: usize = 0;
    assert(out.deep_view() =~= Seq::<EndpointView>::empty());
    while i < our.allowed_routers.len()
        invariant
            i <= our.allowed_routers.len(),
            routers == our.allowed_routers.deep_view(),
            out.deep_view() == endpoints_of(our_ip@, pki.deep_view(), routers.subrange(0, i as int)),
        decreases our.allowed_routers.len() - i,
    {
        assert(routers[i as int] == our.allowed_routers@[i as int]@);
        assert(routers.subrange(0, i + 1).drop_last() =~= routers.subrange(0, i as int));
        match router_endpoint(our_ip, pki, &our.allowed_routers[i]) {
            Some(e) => {
                let ghost before = out.deep_view();
                out.push(e);
                assert(out.deep_view() =~= before.push(e@));
            },
            None => {},
        }
        i += 1;
    }
    assert(routers.subrange(0, our.allowed_routers.len() as int) =~= routers);
    out
}

/// The nodes to which a connection is live.
#[derive(Debug, PartialEq, Eq)]
pub struct PeerTable {
    names: Vec<String>,
}

impl View for PeerTable {
    type V = Set<Seq<char>>;

    closed spec fn view(&self) -> Set<Seq<char>> {
        self.names.deep_view().to_set()
    }
}

impl PeerTable {
    /// The table's invariant: no peer is recorded twice.
    pub closed spec fn wf(&self) -> bool {
        self.names.deep_view().no_duplicates()
    }

    /// A table with no peers.
    pub fn new() -> (res: Self)
        ensures
            res@ == Set::<Seq<char>>::empty(),
            res.wf(),
    {
        let res = PeerTable { names: Vec::new() };
        assert(res@ =~= Set::<Seq<char>>::empty());
        res
    }

    /// Whether a connection to `name` is live.
    pub fn contains(&self, name: &String) -> (res: bool)
        ensures
            res == self@.contains(name@),
    {
        let ghost all = self.names.deep_view();
        let mut i: usize = 0;
        while i < self.names.len()
            invariant
                i <= self.names.len(),
                all == self.names.deep_view(),
                forall|j: int| 0 <= j < i ==> all[j] != name@,
            decreases self.names.len() - i,
        {
            assert(all[i as int] == self.names@[i as int]@);
            if self.names[i] == *name {
                assert(all.contains(name@));
                return true;
            }
            i += 1;
        }
        false
    }

    /// Records the peer `name`, after a handshake with it has succeeded. A
    /// peer that is recorded already is not recorded again.
    pub fn register(&mut self, name: String)
        ensures
            final(self)@ == old(self)@.insert(name@),
            old(self).wf() ==> final(self).wf(),
    {
        let ghost before = self.names.deep_view();
        if self.contains(&name) {
            assert(self@ =~= self@.insert(name@));
            return ;
        }
        proof {
            if before.no_duplicates() {
                lemma_push_no_duplicates(before, name@);
            }
        }
        self.names.push(name);
        assert(self.names.deep_view() =~= before.push(name@));
        assert forall|x: Seq<char>| #[trigger]
            before.push(name@).to_set().contains(x) <==> before.to_set().insert(name@).contains(
                x,
            ) by {
            lemma_push_contains(before, name@, x);
        }
        assert(before.push(name@).to_set() =~= before.to_set().insert(name@));
    }

    /// Forgets the peer `name`, after its connection failed or was closed.
    pub fn remove(&mut self, name: &String)
        ensures
            final(self)@ == old(self)@.remove(name@),
            old(self).wf() ==> final(self).wf(),
    {
        let ghost all = self.names.deep_view();
        let mut kept: Vec<String> = Vec::new();
        let mut i: usize = 0;
        while i < self.names.len()
            invariant
                i <= self.names.len(),
                all == self.names.deep_view(),
                *self == *old(self),
                forall|x: Seq<char>|
                    kept.deep_view().contains(x) <==> (all.subrange(0, i as int).contains(x) && x
                        != name@),
                all.no_duplicates() ==> kept.deep_view().no_duplicates(),
            decreases self.names.len() - i,
        {
            assert(all[i as int] == self.names@[i as int]@);
            let ghost before = kept.deep_view();
            let ghost seen = all.subrange(0, i as int);
            let ghost seen_next = all.subrange(0, i + 1);
            assert(seen_next =~= seen.push(all[i as int]));
            if !(self.names[i] == *name) {
                let item = self.names[i].clone();
                proof {
                    if all.no_duplicates() {
                        if seen.contains(item@) {
                            let j = choose|j: int| 0 <= j < seen.len() && seen[j] == item@;
                            assert(all[j] == all[i as int]);
                        }
                        lemma_push_no_duplicates(before, item@);
                    }
                }
                kept.push(item);
                assert(kept.deep_view() =~= before.push(item@));
                assert forall|x: Seq<char>| kept.deep_view().contains(x) <==> (seen_next.contains(
                    x,
                ) && x != name@) by {
                    lemma_push_contains(before, item@, x);
                    lemma_push_contains(seen, all[i as int], x);
                }
            } else {
                assert forall|x: Seq<char>| kept.deep_view().contains(x) <==> (seen_next.contains(
                    x,
                ) && x != name@) by {
                    lemma_push_contains(seen, all[i as int], x);
                }
            }
            i += 1;
        }
        assert(all.subrange(0, self.names.len() as int) =~= all);
        self.names = kept;
        assert(self@ =~= old(self)@.remove(name@));
    }
}

/// A sequence without repeats stays so when an item that it does not hold
/// is added.
pub proof fn lemma_push_no_duplicates(s: Seq<Seq<char>>, item: Seq<char>)
    requires
        s.no_duplicates(),
        !s.contains(item),
    ensures
        s.push(item).no_duplicates(),
{
    let pushed = s.push(item);
    assert forall|i: int, j: int|
        0 <= i < pushed.len() && 0 <= j < pushed.len() && i != j implies pushed[i]
        != pushed[j] by {
        if i < s.len() && j < s.len() {
            assert(s[i] != s[j]);
        } else if i < s.len() {
            assert(s.contains(s[i]));
        } else {
            assert(s.contains(s[j]));
        }
    }
}

/// A sequence with one more item holds what it held before, and the item.
pub proof fn lemma_push_contains(s: Seq<Seq<char>>, item: Seq<char>, x: Seq<char>)
    ensures
        s.push(item).contains(x) <==> (s.contains(x) || x == item),
{
    if s.push(item).contains(x) {
        let k = choose|k: int| 0 <= k < s.push(item).len() && s.push(item)[k] == x;
        if k < s.len() {
            assert(s[k] == x);
        }
    }
    if s.contains(x) {
        let k = choose|k: int| 0 <= k < s.len() && s[k] == x;
        assert(s.push(item)[k] == x);
    }
    if x == item {
        assert(s.push(item)[s.len() as int] == x);
    }
}

/// What a new node submits to register.
#[derive(Debug, PartialEq, Eq)]
pub struct Registration {
    pub username: String,
    pub password: String,
    pub address: String,
    pub direct: bool,
}

/// A transaction that publishes an identity.
#[derive(Debug, PartialEq, Eq)]
pub struct IdentityTransaction {
    pub from: String,
    pub signature: Option<String>,
    pub to: String,
    pub town_id: u32,
    pub calldata: Identity,
    pub nonce: String,
}

/// What the directory has learned about a node: its name, its owner, the
/// hash of its name, its key, and where and through whom it is reached.
#[derive(Debug, PartialEq, Eq)]
pub struct NdnsUpdate {
    pub name: String,
    pub owner: String,
    pub node: String,
    pub public_key: String,
    pub ip: String,
    pub port: u16,
    pub routers: Vec<String>,
}

/// The mathematical value of an `NdnsUpdate`.
pub struct NdnsUpdateView {
    pub name: Seq<char>,
    pub owner: Seq<char>,
    pub node: Seq<char>,
    pub public_key: Seq<char>,
    pub ip: Seq<char>,
    pub port: u16,
    pub routers: Seq<Seq<char>>,
}

impl View for NdnsUpdate {
    type V = NdnsUpdateView;

    open spec fn view(&self) -> NdnsUpdateView {
        NdnsUpdateView {
            name: self.name@,
            owner: self.owner@,
            node: self.node@,
            public_key: self.public_key@,
            ip: self.ip@,
            port: self.port,
            routers: self.routers.deep_view(),
        }
    }
}

impl DeepView for NdnsUpdate {
    type V = NdnsUpdateView;

    open spec fn deep_view(&self) -> NdnsUpdateView {
        self@
    }
}

impl NdnsUpdate {
    /// The record of a node of which only the name and the hash of the
    /// name are known: everything else is empty, and the port is 0.
    pub fn new(name: &String, node: &String) -> (res: Self)
        ensures
            res@ == (NdnsUpdateView {
                name: name@,
                owner: Seq::empty(),
                node: node@,
                public_key: Seq::empty(),
                ip: Seq::empty(),
                port: 0,
                routers: Seq::empty(),
            }),
    {
        let res = NdnsUpdate {
            name: name.clone(),
            owner: String::new(),
            node: node.clone(),
            public_key: String::new(),
            ip: String::new(),
            port: 0,
            routers: Vec::new(),
        };
        assert(res@.routers =~= Seq::empty());
        res
    }
}

/// What the directory's indexer tells the transport.
#[derive(Debug, PartialEq, Eq)]
pub enum NetActions {
    NdnsUpdate(NdnsUpdate),
    NdnsBatchUpdate(Vec<NdnsUpdate>),
}

/// What the transport must do next for one message.
#[derive(Debug, PartialEq, Eq)]
pub enum RouteAction {
    /// Hand the message to the live connection and wait for what comes
    /// back.
    SendToPeer,
    /// Connect to the node at this host and port and shake hands.
    Connect { host: String, port: u16 },
    /// Open a routed connection through this router and send.
    TryRouter(String),
    /// Nothing more: the message was delivered, or it was not.
    Done(Result<(), NetworkError>),
}

/// The mathematical value of a `RouteAction`.
pub enum RouteActionView {
    SendToPeer,
    Connect { host: Seq<char>, port: u16 },
    TryRouter(Seq<char>),
    Done(Result<(), NetworkError>),
}

impl View for RouteAction {
    type V = RouteActionView;

    open spec fn view(&self) -> RouteActionView {
        match self {
            RouteAction::SendToPeer => RouteActionView::SendToPeer,
            RouteAction::Connect { host, port } => RouteActionView::Connect {
                host: host@,
                port: *port,
            },
            RouteAction::TryRouter(r) => RouteActionView::TryRouter(r@),
            RouteAction::Done(r) => RouteActionView::Done(*r),
        }
    }
}

/// What came of the last action.
#[derive(Debug, PartialEq, Eq)]
pub enum RouteEvent {
    /// The message was handed to the live connection; this came back, if
    /// anything came in time.
    Sent(Option<Result<(), NetworkError>>),
    /// The connection stands and the handshake was accepted.
    Connected,
    /// No connection could be made.
    ConnectFailed,
    /// The attempt through a router is over: what came back for the
    /// message, and another router if the attempt named one.
    RouterTried { ack: Option<Result<(), NetworkError>>, suggestion: Option<String> },
}

/// The mathematical value of a `RouteEvent`.
pub enum RouteEventView {
    Sent(Option<Result<(), NetworkError>>),
    Connected,
    ConnectFailed,
    RouterTried { ack: Option<Result<(), NetworkError>>, suggestion: Option<Seq<char>> },
}

impl View for RouteEvent {
    type V = RouteEventView;

    open spec fn view(&self) -> RouteEventView {
        match self {
            RouteEvent::Sent(ack) => RouteEventView::Sent(*ack),
            RouteEvent::Connected => RouteEventView::Connected,
            RouteEvent::ConnectFailed => RouteEventView::ConnectFailed,
            RouteEvent::RouterTried { ack, suggestion } => RouteEventView::RouterTried {
                ack: *ack,
                suggestion: suggestion.deep_view(),
            },
        }
    }
}

/// How far the delivery of one message has come.
#[derive(Debug, PartialEq, Eq)]
pub enum Route {
    /// The message is with a live connection.
    Sending,
    /// A direct connection is being made.
    Connecting,
    /// A router is being tried; these are left to try.
    Routing(RouterQueue),
    /// The delivery is over.
    Finished,
}

/// The mathematical value of a `Route`.
pub enum RouteView {
    Sending,
    Connecting,
    Routing(Seq<Seq<char>>),
    Finished,
}

impl View for Route {
    type V = RouteView;

    open spec fn view(&self) -> RouteView {
        match self {
            Route::Sending => RouteView::Sending,
            Route::Connecting => RouteView::Connecting,
            Route::Routing(q) => RouteView::Routing(q@),
            Route::Finished => RouteView::Finished,
        }
    }
}

/// What a step through the routers means for the route.
pub open spec fn routing_step(step: (Seq<Seq<char>>, RouterStepView)) -> (RouteView, RouteActionView) {
    match step.1 {
        RouterStepView::Try(router) => (RouteView::Routing(step.0), RouteActionView::TryRouter(router)),
        RouterStepView::Delivered => (RouteView::Finished, RouteActionView::Done(Ok(()))),
        RouterStepView::Offline => (
            RouteView::Finished,
            RouteActionView::Done(Err(NetworkError::Offline)),
        ),
    }
}

/// The first thing to do for a message, by the plan for its target: send
/// over the live connection; or connect; or try the first router; and a
/// target that is unknown, or has no router at all, is offline.
pub open spec fn route_begin(plan: RoutePlanView) -> (RouteView, RouteActionView) {
    match plan {
        RoutePlanView::LivePeer => (RouteView::Sending, RouteActionView::SendToPeer),
        RoutePlanView::Direct { host, port } => (
            RouteView::Connecting,
            RouteActionView::Connect { host, port },
        ),
        RoutePlanView::Routers(routers) => routing_step(next_router(routers)),
        RoutePlanView::Unknown => (
            RouteView::Finished,
            RouteActionView::Done(Err(NetworkError::Offline)),
        ),
    }
}

/// What follows an event.
///
/// What comes back from a live connection is the result, and a timeout if
/// nothing came. A connection that was made is sent over; one that could
/// not be made means offline. A router that relayed ends the delivery;
/// after one that did not, the next is tried, and with none left the target
/// is offline. An event that does not answer the last action ends the
/// delivery: the message counts as not delivered.
pub open spec fn route_advance(route: RouteView, event: RouteEventView) -> (
    RouteView,
    RouteActionView,
) {
    match (route, event) {
        (RouteView::Sending, RouteEventView::Sent(ack)) => (
            RouteView::Finished,
            RouteActionView::Done(delivery_outcome(ack)),
        ),
        (RouteView::Connecting, RouteEventView::Connected) => (
            RouteView::Sending,
            RouteActionView::SendToPeer,
        ),
        (RouteView::Routing(routers), RouteEventView::RouterTried { ack, suggestion }) =>
            routing_step(after_attempt(routers, ack, suggestion)),
        _ => (RouteView::Finished, RouteActionView::Done(Err(NetworkError::Offline))),
    }
}

/// The action that a step through the routers asks for.
fn step_action(step: RouterStep) -> (res: RouteAction)
    ensures
        res@ == match step@ {
            RouterStepView::Try(router) => RouteActionView::TryRouter(router),
            RouterStepView::Delivered => RouteActionView::Done(Ok(())),
            RouterStepView::Offline => RouteActionView::Done(Err(NetworkError::Offline)),
        },
{
    match step {
        RouterStep::Try(router) => RouteAction::TryRouter(router),
        RouterStep::Delivered => RouteAction::Done(Ok(())),
        RouterStep::Offline => RouteAction::Done(Err(NetworkError::Offline)),
    }
}

impl Route {
    /// Begins the delivery of a message: see [`route_begin`].
    pub fn begin(plan: RoutePlan) -> (res: (Route, RouteAction))
        ensures
            res.0@ == route_begin(plan@).0,
            res.1@ == route_begin(plan@).1,
    {
        match plan {
            RoutePlan::LivePeer => (Route::Sending, RouteAction::SendToPeer),
            RoutePlan::Direct { host, port } => (Route::Connecting, RouteAction::Connect { host, port }),
            RoutePlan::Routers(routers) => {
                let (queue, step) = RouterQueue::start(routers);
                match step {
                    RouterStep::Try(router) => (Route::Routing(queue), RouteAction::TryRouter(router)),
                    other => (Route::Finished, step_action(other)),
                }
            },
            RoutePlan::Unknown => (Route::Finished, RouteAction::Done(Err(NetworkError::Offline))),
        }
    }

    /// Takes in what came of the last action and says what to do next: see
    /// [`route_advance`].
    pub fn advance(self, event: RouteEvent) -> (res: (Route, RouteAction))
        ensures
            res.0@ == route_advance(self@, event@).0,
            res.1@ == route_advance(self@, event@).1,
    {
        match (self, event) {
            (Route::Sending, RouteEvent::Sent(ack)) => (
                Route::Finished,
                RouteAction::Done(delivery_result(ack)),
            ),
            (Route::Connecting, RouteEvent::Connected) => (Route::Sending, RouteAction::SendToPeer),
            (Route::Routing(queue), RouteEvent::RouterTried { ack, suggestion }) => {
                let mut queue = queue;
                let step = queue.attempt_finished(ack, suggestion);
                match step {
                    RouterStep::Try(router) => (Route::Routing(queue), RouteAction::TryRouter(router)),
                    other => (Route::Finished, step_action(other)),
                }
            },
            _ => (Route::Finished, RouteAction::Done(Err(NetworkError::Offline))),
        }
    }
}

/// Over a live connection the sender is told what came back, and a timeout
/// if nothing came; a node that cannot be connected to, that the directory
/// does not know, or that has no router, is offline.
pub proof fn lemma_route_outcomes(
    host: Seq<char>,
    port: u16,
    ack: Option<Result<(), NetworkError>>,
)
    ensures
        route_advance(route_begin(RoutePlanView::LivePeer).0, RouteEventView::Sent(ack)).1
            == RouteActionView::Done(delivery_outcome(ack)),
        route_advance(route_begin(RoutePlanView::LivePeer).0, RouteEventView::Sent(None)).1
            == RouteActionView::Done(Err(NetworkError::Timeout)),
        route_advance(
            route_begin(RoutePlanView::Direct { host, port }).0,
            RouteEventView::ConnectFailed,
        ).1 == RouteActionView::Done(Err(NetworkError::Offline)),
        route_advance(
            route_advance(
                route_begin(RoutePlanView::Direct { host, port }).0,
                RouteEventView::Connected,
            ).0,
            RouteEventView::Sent(ack),
        ).1 == RouteActionView::Done(delivery_outcome(ack)),
        route_begin(RoutePlanView::Unknown).1 == RouteActionView::Done(
            Err(NetworkError::Offline),
        ),
        route_begin(RoutePlanView::Routers(Seq::empty())).1 == RouteActionView::Done(
            Err(NetworkError::Offline),
        ),
{
}

/// Through two routers of which the first fails and the second relays, the
/// sender is told that the message was delivered, and nothing of the first
/// router's failure.
pub proof fn lemma_route_falls_back(
    first: Seq<char>,
    second: Seq<char>,
    failure: Option<Result<(), NetworkError>>,
)
    requires
        delivery_outcome(failure) is Err,
    ensures
        ({
            let begin = route_begin(RoutePlanView::Routers(seq![first, second]));
            let retry = route_advance(
                begin.0,
                RouteEventView::RouterTried { ack: failure, suggestion: None },
            );
            let end = route_advance(
                retry.0,
                RouteEventView::RouterTried { ack: Some(Ok(())), suggestion: None },
            );
            &&& begin.1 == RouteActionView::TryRouter(first)
            &&& retry.1 == RouteActionView::TryRouter(second)
            &&& end.1 == RouteActionView::Done(Ok(()))
            &&& end.0 == RouteView::Finished
        }),
{
    lemma_second_router_delivers(first, second, failure);
}

} // verus!
