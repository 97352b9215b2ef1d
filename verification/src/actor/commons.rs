//! What the node's actors send each other.
use vstd::prelude::*;
use std::collections::HashMap;
use crate::codec::commons::net_addr::SocketAddress;
use crate::codec::msg::{Msg, MsgView, msg_outcome};
use crate::codec::wire::CodecError;

verus! {

/// The number by which the scheduler knows a peer or an admin connection.
pub type ActorId = usize;

/// The number of a request among those of one actor.
pub type RequestId = usize;

/// A request's priority: the worker serves the highest first.
pub type RequestPriority = u8;

/// A raw message, as bytes on the wire.
pub type RawMsg = Vec<u8>;

/// The actor that made a request and the request's number.
#[derive(Debug, Clone, Copy, PartialEq, Eq, Structural)]
pub struct AddrReqId(pub ActorId, pub RequestId);

/// What an actor asks a worker.
#[derive(Debug, Clone)]
pub enum WorkerRequest {
    /// Connect to a peer at `addr` and start its handshake.
    PeerAdd { addr: SocketAddress, wait_handshake: bool },
    /// Have the router tell an actor to remove itself.
    PeerRemove { actor_id: ActorId },
    PeerGetInfo { actor_id: ActorId },
    /// List the registered actors and their addresses.
    ListPeers,
    SendPing { actor_id: ActorId },
    Hello,
    /// Sleep for `delay` seconds.
    Wait { delay: u64 },
    PeerPrint,
    /// Decode a message; when `send` holds and it decodes, forward it to
    /// every peer.
    MsgFromHex { send: bool, binary: Vec<u8> },
    /// This node's `version` message for a peer at `addr`.
    NewVersion { addr: SocketAddress },
    /// A `verack` message.
    NewVerack,
    NewGetHeaders,
}

pub enum WorkerRequestView {
    PeerAdd { addr: SocketAddress, wait_handshake: bool },
    PeerRemove { actor_id: ActorId },
    PeerGetInfo { actor_id: ActorId },
    ListPeers,
    SendPing { actor_id: ActorId },
    Hello,
    Wait { delay: u64 },
    PeerPrint,
    MsgFromHex { send: bool, binary: Seq<u8> },
    NewVersion { addr: SocketAddress },
    NewVerack,
    NewGetHeaders,
}

impl View for WorkerRequest {
    type V = WorkerRequestView;

    open spec fn view(&self) -> WorkerRequestView {
        match self {
            WorkerRequest::PeerAdd { addr, wait_handshake } => WorkerRequestView::PeerAdd {
                addr: *addr,
                wait_handshake: *wait_handshake,
            },
            WorkerRequest::PeerRemove { actor_id } => WorkerRequestView::PeerRemove {
                actor_id: *actor_id,
            },
            WorkerRequest::PeerGetInfo { actor_id } => WorkerRequestView::PeerGetInfo {
                actor_id: *actor_id,
            },
            WorkerRequest::ListPeers => WorkerRequestView::ListPeers,
            WorkerRequest::SendPing { actor_id } => WorkerRequestView::SendPing { actor_id: *actor_id },
            WorkerRequest::Hello => WorkerRequestView::Hello,
            WorkerRequest::Wait { delay } => WorkerRequestView::Wait { delay: *delay },
            WorkerRequest::PeerPrint => WorkerRequestView::PeerPrint,
            WorkerRequest::MsgFromHex { send, binary } => WorkerRequestView::MsgFromHex {
                send: *send,
                binary: binary@,
            },
            WorkerRequest::NewVersion { addr } => WorkerRequestView::NewVersion { addr: *addr },
            WorkerRequest::NewVerack => WorkerRequestView::NewVerack,
            WorkerRequest::NewGetHeaders => WorkerRequestView::NewGetHeaders,
        }
    }
}

impl WorkerRequest {
    /// The request's name as the node's log shows it: the kinds that
    /// carry data are named, the others are "some other".
    pub fn describe(&self) -> (r: &'static str)
        ensures
            match self@ {
                WorkerRequestView::PeerAdd { .. } => r@ == "PeerAdd"@,
                WorkerRequestView::PeerRemove { .. } => r@ == "PeerRemove"@,
                WorkerRequestView::PeerGetInfo { .. } => r@ == "PeerGetInfo"@,
                WorkerRequestView::Wait { .. } => r@ == "Wait"@,
                WorkerRequestView::ListPeers => r@ == "ListPeers"@,
                WorkerRequestView::PeerPrint => r@ == "PeerPrint"@,
                WorkerRequestView::MsgFromHex { .. } => r@ == "MsgFromHex"@,
                _ => r@ == "some other"@,
            },
    {
        match self {
            WorkerRequest::PeerAdd { .. } => "PeerAdd",
            WorkerRequest::PeerRemove { .. } => "PeerRemove",
            WorkerRequest::PeerGetInfo { .. } => "PeerGetInfo",
            WorkerRequest::Wait { .. } => "Wait",
            WorkerRequest::ListPeers => "ListPeers",
            WorkerRequest::PeerPrint => "PeerPrint",
            WorkerRequest::MsgFromHex { .. } => "MsgFromHex",
            _ => "some other",
        }
    }
}

/// A request and its priority.
#[derive(Debug, Clone)]
pub struct WorkerRequestPriority(pub WorkerRequest, pub RequestPriority);

/// A request, its priority, and who made it. The caller keeps the channel
/// on which the response goes back, under the same actor and number.
#[derive(Debug, Clone)]
pub struct WorkerRequestContent(pub WorkerRequestPriority, pub AddrReqId);

pub struct WorkerRequestContentView {
    pub request: WorkerRequestView,
    pub priority: RequestPriority,
    pub addr: AddrReqId,
}

impl View for WorkerRequestContent {
    type V = WorkerRequestContentView;

    open spec fn view(&self) -> WorkerRequestContentView {
        WorkerRequestContentView { request: self.0.0@, priority: self.0.1, addr: self.1 }
    }
}

/// What a worker answers.
#[derive(Debug)]
pub enum WorkerResponse {
    Empty,
    String(String),
    Bool(bool),
    /// The address of the peer it connected to, if it could.
    PeerAdd(Option<SocketAddress>),
    PeerRemove(bool),
    MsgFromHex(Result<Msg, CodecError>),
    ListPeers(HashMap<ActorId, SocketAddress>),
    Version(Msg),
    Verack(Msg),
    GetHeaders(Msg),
}

#[verifier::ext_equal]
pub enum WorkerResponseView {
    Empty,
    String(Seq<char>),
    Bool(bool),
    PeerAdd(Option<SocketAddress>),
    PeerRemove(bool),
    MsgFromHex(Result<MsgView, CodecError>),
    ListPeers(Map<ActorId, SocketAddress>),
    Version(MsgView),
    Verack(MsgView),
    GetHeaders(MsgView),
}

impl View for WorkerResponse {
    type V = WorkerResponseView;

    open spec fn view(&self) -> WorkerResponseView {
        match self {
            WorkerResponse::Empty => WorkerResponseView::Empty,
            WorkerResponse::String(s) => WorkerResponseView::String(s@),
            WorkerResponse::Bool(b) => WorkerResponseView::Bool(*b),
            WorkerResponse::PeerAdd(a) => WorkerResponseView::PeerAdd(*a),
            WorkerResponse::PeerRemove(b) => WorkerResponseView::PeerRemove(*b),
            WorkerResponse::MsgFromHex(m) => WorkerResponseView::MsgFromHex(msg_outcome(*m)),
            WorkerResponse::ListPeers(m) => WorkerResponseView::ListPeers(m@),
            WorkerResponse::Version(m) => WorkerResponseView::Version(m@),
            WorkerResponse::Verack(m) => WorkerResponseView::Verack(m@),
            WorkerResponse::GetHeaders(m) => WorkerResponseView::GetHeaders(m@),
        }
    }
}

/// A response and the actor and number of the request it answers.
#[derive(Debug)]
pub struct WorkerResponseContent(pub WorkerResponse, pub AddrReqId);

/// What the router hands to a peer.
#[derive(Debug, Clone)]
pub enum PeerRequest {
    Dummy,
    SelfRemove,
    Forward(RawMsg),
    HandShake(RawMsg),
}

pub enum PeerRequestView {
    Dummy,
    SelfRemove,
    Forward(Seq<u8>),
    HandShake(Seq<u8>),
}

impl View for PeerRequest {
    type V = PeerRequestView;

    open spec fn view(&self) -> PeerRequestView {
        match self {
            PeerRequest::Dummy => PeerRequestView::Dummy,
            PeerRequest::SelfRemove => PeerRequestView::SelfRemove,
            PeerRequest::Forward(raw) => PeerRequestView::Forward(raw@),
            PeerRequest::HandShake(raw) => PeerRequestView::HandShake(raw@),
        }
    }
}

/// A peer request and its priority.
#[derive(Debug, Clone)]
pub struct RouterToPeerRequestAndPriority(pub PeerRequest, pub RequestPriority);

pub struct RouterToPeerRequestAndPriorityView(pub PeerRequestView, pub RequestPriority);

impl View for RouterToPeerRequestAndPriority {
    type V = RouterToPeerRequestAndPriorityView;

    open spec fn view(&self) -> RouterToPeerRequestAndPriorityView {
        RouterToPeerRequestAndPriorityView(self.0@, self.1)
    }
}

/// What a worker asks the router.
#[derive(Debug, Clone)]
pub enum WorkerToRouterRequest {
    ListPeers,
    MsgToPeer(ActorId, Box<RouterToPeerRequestAndPriority>),
    MsgToAllPeers(Box<RouterToPeerRequestAndPriority>),
    PeerRemove(ActorId, Box<RouterToPeerRequestAndPriority>),
}

pub enum WorkerToRouterRequestView {
    ListPeers,
    MsgToPeer(ActorId, RouterToPeerRequestAndPriorityView),
    MsgToAllPeers(RouterToPeerRequestAndPriorityView),
    PeerRemove(ActorId, RouterToPeerRequestAndPriorityView),
}

impl View for WorkerToRouterRequest {
    type V = WorkerToRouterRequestView;

    open spec fn view(&self) -> WorkerToRouterRequestView {
        match self {
            WorkerToRouterRequest::ListPeers => WorkerToRouterRequestView::ListPeers,
            WorkerToRouterRequest::MsgToPeer(id, r) => WorkerToRouterRequestView::MsgToPeer(*id, r@),
            WorkerToRouterRequest::MsgToAllPeers(r) => WorkerToRouterRequestView::MsgToAllPeers(r@),
            WorkerToRouterRequest::PeerRemove(id, r) => WorkerToRouterRequestView::PeerRemove(*id, r@),
        }
    }
}

/// What the router answers a worker.
#[derive(Debug)]
pub enum WorkerToRouterResponse {
    Empty,
    String(String),
    Bool(bool),
    PeerAdd(Option<SocketAddress>),
    PeerRemove(bool),
    MsgFromHex(Result<Msg, CodecError>),
    /// Each registered actor and its address.
    ListPeers(HashMap<ActorId, SocketAddress>),
}

#[verifier::ext_equal]
pub enum WorkerToRouterResponseView {
    Empty,
    String(Seq<char>),
    Bool(bool),
    PeerAdd(Option<SocketAddress>),
    PeerRemove(bool),
    MsgFromHex(Result<MsgView, CodecError>),
    ListPeers(Map<ActorId, SocketAddress>),
}

impl View for WorkerToRouterResponse {
    type V = WorkerToRouterResponseView;

    open spec fn view(&self) -> WorkerToRouterResponseView {
        match self {
            WorkerToRouterResponse::Empty => WorkerToRouterResponseView::Empty,
            WorkerToRouterResponse::String(s) => WorkerToRouterResponseView::String(s@),
            WorkerToRouterResponse::Bool(b) => WorkerToRouterResponseView::Bool(*b),
            WorkerToRouterResponse::PeerAdd(a) => WorkerToRouterResponseView::PeerAdd(*a),
            WorkerToRouterResponse::PeerRemove(b) => WorkerToRouterResponseView::PeerRemove(*b),
            WorkerToRouterResponse::MsgFromHex(m) => WorkerToRouterResponseView::MsgFromHex(
                msg_outcome(*m),
            ),
            WorkerToRouterResponse::ListPeers(m) => WorkerToRouterResponseView::ListPeers(m@),
        }
    }
}

/// What a worker asks the blockchain actor.
#[derive(Debug, Clone)]
pub enum WorkerToBlockChainRequest {
    ListPeers,
    MsgToPeer(ActorId, Box<RouterToPeerRequestAndPriority>),
    MsgToAllPeers(Box<RouterToPeerRequestAndPriority>),
    PeerRemove(ActorId, Box<RouterToPeerRequestAndPriority>),
}

/// What the blockchain actor answers a worker.
#[derive(Debug)]
pub enum WorkerToBlockChainResponse {
    Empty,
    String(String),
    Bool(bool),
    PeerAdd(Option<SocketAddress>),
    PeerRemove(bool),
    MsgFromHex(Result<Msg, CodecError>),
    ListPeers(HashMap<ActorId, SocketAddress>),
}

/// Why the scheduler refused a request.
#[derive(Debug, Clone, Copy, PartialEq, Eq, Structural)]
pub enum SchedulerError {
    /// The actor is not registered.
    NotRegistered,
    /// Every actor number has been handed out.
    ActorIdsExhausted,
    /// A request with this actor and number already waits for its response.
    DuplicateRequest,
    /// No worker holds a request with this actor and number.
    NotPending,
}

/// The scheduler's answer to a registration or an unregistration.
#[derive(Debug, Clone, Copy)]
pub enum SchedulerResponse {
    RegisterResponse(Result<ActorId, SchedulerError>),
    UnregisterResponse(Result<(), SchedulerError>),
}

} // verus!
