//! The decisions of an admin connection: each command line becomes a request
//! to a worker, whose response the connection prints before it reads the next
//! line.
use vstd::prelude::*;
use crate::actor::commons::{
    ActorId, AddrReqId, WorkerRequest, WorkerRequestContent, WorkerRequestContentView,
    WorkerRequestPriority, WorkerRequestView,
};
use crate::actor::peer::Peer;
use crate::codec::commons::net_addr::SocketAddress;

verus! {

/// The priority of an admin's requests.
pub const ADMIN_PRIORITY: u8 = 200;

/// The request number of `peer print`, which does not count as a request.
pub const PEER_PRINT_REQUEST_ID: usize = 0;

/// The commands on peers.
#[derive(Debug, Clone)]
pub enum PeerCmd {
    Add { addr: SocketAddress, wait_handshake: bool },
    Remove { actor_id: ActorId },
    List,
}

/// The commands for debugging.
#[derive(Debug, Clone)]
pub enum DebugCmd {
    Dummy,
    Wait { delay: u64 },
    PeerPrint,
    /// A message, given in hexadecimal and decoded to bytes, and whether to
    /// send it to every peer.
    MsgFromHex { send: bool, hex: Vec<u8> },
}

/// An admin's command line.
#[derive(Debug, Clone)]
pub enum AdminCmd {
    Peer(PeerCmd),
    Wallet,
    Blockchain,
    Node,
    Util,
    Debug(DebugCmd),
    Exit,
}

pub enum AdminCmdView {
    PeerAdd { addr: SocketAddress, wait_handshake: bool },
    PeerRemove { actor_id: ActorId },
    PeerList,
    Wallet,
    Blockchain,
    Node,
    Util,
    DebugDummy,
    DebugWait { delay: u64 },
    DebugPeerPrint,
    DebugMsgFromHex { send: bool, hex: Seq<u8> },
    Exit,
}

impl View for AdminCmd {
    type V = AdminCmdView;

    open spec fn view(&self) -> AdminCmdView {
        match self {
            AdminCmd::Peer(PeerCmd::Add { addr, wait_handshake }) => AdminCmdView::PeerAdd {
                addr: *addr,
                wait_handshake: *wait_handshake,
            },
            AdminCmd::Peer(PeerCmd::Remove { actor_id }) => AdminCmdView::PeerRemove {
                actor_id: *actor_id,
            },
            AdminCmd::Peer(PeerCmd::List) => AdminCmdView::PeerList,
            AdminCmd::Wallet => AdminCmdView::Wallet,
            AdminCmd::Blockchain => AdminCmdView::Blockchain,
            AdminCmd::Node => AdminCmdView::Node,
            AdminCmd::Util => AdminCmdView::Util,
            AdminCmd::Debug(DebugCmd::Dummy) => AdminCmdView::DebugDummy,
            AdminCmd::Debug(DebugCmd::Wait { delay }) => AdminCmdView::DebugWait { delay: *delay },
            AdminCmd::Debug(DebugCmd::PeerPrint) => AdminCmdView::DebugPeerPrint,
            AdminCmd::Debug(DebugCmd::MsgFromHex { send, hex }) => AdminCmdView::DebugMsgFromHex {
                send: *send,
                hex: hex@,
            },
            AdminCmd::Exit => AdminCmdView::Exit,
        }
    }
}

/// What an admin connection does with a command.
#[derive(Debug)]
pub enum AdminAction {
    /// Nothing: the command does nothing yet.
    Stay,
    /// Send the request to a worker and print its response.
    Request(WorkerRequestContent),
    /// Send the request to a worker without waiting for the response, then
    /// remove this connection.
    Exit(WorkerRequestContent),
}

pub enum AdminActionView {
    Stay,
    Request(WorkerRequestContentView),
    Exit(WorkerRequestContentView),
}

impl View for AdminAction {
    type V = AdminActionView;

    open spec fn view(&self) -> AdminActionView {
        match self {
            AdminAction::Stay => AdminActionView::Stay,
            AdminAction::Request(c) => AdminActionView::Request(c@),
            AdminAction::Exit(c) => AdminActionView::Exit(c@),
        }
    }
}

/// The worker request that a command makes, if it makes one.
pub open spec fn spec_command_request(cmd: AdminCmdView, actor_id: ActorId) -> Option<WorkerRequestView> {
    match cmd {
        AdminCmdView::PeerAdd { addr, wait_handshake } => Some(
            WorkerRequestView::PeerAdd { addr, wait_handshake },
        ),
        AdminCmdView::PeerRemove { actor_id } => Some(WorkerRequestView::PeerRemove { actor_id }),
        AdminCmdView::PeerList => Some(WorkerRequestView::ListPeers),
        AdminCmdView::DebugDummy => Some(WorkerRequestView::Hello),
        AdminCmdView::DebugWait { delay } => Some(WorkerRequestView::Wait { delay }),
        AdminCmdView::DebugPeerPrint => Some(WorkerRequestView::PeerPrint),
        AdminCmdView::DebugMsgFromHex { send, hex } => Some(
            WorkerRequestView::MsgFromHex { send, binary: hex },
        ),
        AdminCmdView::Exit => Some(WorkerRequestView::PeerRemove { actor_id }),
        _ => None,
    }
}

/// The text an admin connection greets with.
pub open spec fn spec_welcome() -> Seq<u8> {
    seq![0x57u8, 0x45u8, 0x4Cu8, 0x43u8, 0x4Fu8, 0x4Du8, 0x45u8, 0x0Du8, 0x0Au8]
}

/// The text that ends an admin's session.
pub open spec fn spec_bye() -> Seq<u8> {
    seq![0x42u8, 0x59u8, 0x45u8]
}

/// The answer to the text that ends a session.
pub open spec fn spec_farewell() -> Seq<u8> {
    seq![
        0x48u8, 0x41u8, 0x56u8, 0x45u8, 0x20u8, 0x41u8, 0x20u8, 0x47u8, 0x4Fu8, 0x4Fu8, 0x44u8,
        0x20u8, 0x4Fu8, 0x4Eu8, 0x45u8,
    ]
}

/// `WELCOME` and a line break, which an admin connection sends first.
pub fn welcome() -> (r: Vec<u8>)
    ensures
        r@ == spec_welcome(),
{
    let r = vec![0x57u8, 0x45u8, 0x4Cu8, 0x43u8, 0x4Fu8, 0x4Du8, 0x45u8, 0x0Du8, 0x0Au8];
    assert(r@ =~= spec_welcome());
    r
}

/// In the session state that only ends on `BYE`: the answer to a line,
/// `HAVE A GOOD ONE` when the line is `BYE` and the session ends, `None`
/// otherwise.
pub fn on_execution_line(line: &[u8]) -> (r: Option<Vec<u8>>)
    ensures
        line@ == spec_bye() ==> (r matches Some(b) && b@ == spec_farewell()),
        line@ != spec_bye() ==> r is None,
{
    if line.len() == 3 && line[0] == 0x42u8 && line[1] == 0x59u8 && line[2] == 0x45u8 {
        assert(line@ =~= spec_bye());
        let r = vec![
            0x48u8, 0x41u8, 0x56u8, 0x45u8, 0x20u8, 0x41u8, 0x20u8, 0x47u8, 0x4Fu8, 0x4Fu8, 0x44u8,
            0x20u8, 0x4Fu8, 0x4Eu8, 0x45u8,
        ];
        assert(r@ =~= spec_farewell());
        Some(r)
    } else {
        assert(line@ != spec_bye());
        None
    }
}

/// What an admin connection does with `cmd`. Every request has the admin
/// priority and the connection's next request number, except `peer print`,
/// whose number is always zero; `exit` asks to remove the connection itself.
pub fn on_command<R>(peer: &mut Peer<R>, cmd: AdminCmd) -> (r: AdminAction)
    requires
        old(peer)@.request_counter < usize::MAX,
    ensures
        final(peer)@.actor_id == old(peer)@.actor_id,
        final(peer)@.ignored == old(peer)@.ignored,
        final(peer)@.version == old(peer)@.version,
        cmd@ is PeerRemove ==> (r@ matches AdminActionView::Request(c) && c.request
            == WorkerRequestView::PeerRemove { actor_id: cmd@->PeerRemove_actor_id }),
        cmd@ is Exit ==> (r@ matches AdminActionView::Exit(c) && c.request
            == WorkerRequestView::PeerRemove { actor_id: old(peer)@.actor_id }),
        match spec_command_request(cmd@, old(peer)@.actor_id) {
            None => r@ == AdminActionView::Stay && final(peer)@.request_counter
                == old(peer)@.request_counter,
            Some(wr) => {
                let counted = !(cmd@ is DebugPeerPrint);
                let id = if counted {
                    (old(peer)@.request_counter + 1) as usize
                } else {
                    PEER_PRINT_REQUEST_ID
                };
                let c = WorkerRequestContentView {
                    request: wr,
                    priority: ADMIN_PRIORITY,
                    addr: AddrReqId(old(peer)@.actor_id, id),
                };
                &&& final(peer)@.request_counter == (if counted {
                    old(peer)@.request_counter + 1
                } else {
                    old(peer)@.request_counter as int
                })
                &&& (cmd@ is Exit) ==> r@ == AdminActionView::Exit(c)
                &&& !(cmd@ is Exit) ==> r@ == AdminActionView::Request(c)
            },
        },
{
    let actor_id = peer.actor_id();
    match cmd {
        AdminCmd::Peer(PeerCmd::Add { addr, wait_handshake }) => AdminAction::Request(
            peer.worker_request(WorkerRequest::PeerAdd { addr, wait_handshake }, ADMIN_PRIORITY),
        ),
        AdminCmd::Peer(PeerCmd::Remove { actor_id }) => AdminAction::Request(
            peer.worker_request(WorkerRequest::PeerRemove { actor_id }, ADMIN_PRIORITY),
        ),
        AdminCmd::Peer(PeerCmd::List) => AdminAction::Request(
            peer.worker_request(WorkerRequest::ListPeers, ADMIN_PRIORITY),
        ),
        AdminCmd::Debug(DebugCmd::Dummy) => AdminAction::Request(
            peer.worker_request(WorkerRequest::Hello, ADMIN_PRIORITY),
        ),
        AdminCmd::Debug(DebugCmd::Wait { delay }) => AdminAction::Request(
            peer.worker_request(WorkerRequest::Wait { delay }, ADMIN_PRIORITY),
        ),
        AdminCmd::Debug(DebugCmd::PeerPrint) => AdminAction::Request(
            WorkerRequestContent(
                WorkerRequestPriority(WorkerRequest::PeerPrint, ADMIN_PRIORITY),
                AddrReqId(actor_id, PEER_PRINT_REQUEST_ID),
            ),
        ),
        AdminCmd::Debug(DebugCmd::MsgFromHex { send, hex }) => AdminAction::Request(
            peer.worker_request(WorkerRequest::MsgFromHex { send, binary: hex }, ADMIN_PRIORITY),
        ),
        AdminCmd::Exit => AdminAction::Exit(
            peer.worker_request(WorkerRequest::PeerRemove { actor_id }, ADMIN_PRIORITY),
        ),
        _ => AdminAction::Stay,
    }
}

/// A command's request carries exactly the arguments the admin gave, not
/// the connection's own number: `peer remove a` removes `a`, `peer add`
/// connects to the address given, `wait` sleeps the delay given and
/// `msg from hex` decodes the bytes given. Only `exit` names the
/// connection itself. The commands of no request are those of the wallet,
/// the blockchain, the node and the utilities.
pub proof fn lemma_command_request_carries_arguments(cmd: AdminCmdView, self_id: ActorId)
    ensures
        cmd matches AdminCmdView::PeerRemove { actor_id: a } ==> spec_command_request(cmd, self_id)
            == Some(WorkerRequestView::PeerRemove { actor_id: a }),
        cmd matches AdminCmdView::PeerAdd { addr, wait_handshake } ==> spec_command_request(
            cmd,
            self_id,
        ) == Some(WorkerRequestView::PeerAdd { addr, wait_handshake }),
        cmd matches AdminCmdView::DebugWait { delay } ==> spec_command_request(cmd, self_id) == Some(
            WorkerRequestView::Wait { delay },
        ),
        cmd matches AdminCmdView::DebugMsgFromHex { send, hex } ==> spec_command_request(
            cmd,
            self_id,
        ) == Some(WorkerRequestView::MsgFromHex { send, binary: hex }),
        cmd is Exit ==> spec_command_request(cmd, self_id) == Some(
            WorkerRequestView::PeerRemove { actor_id: self_id },
        ),
        cmd is PeerList ==> spec_command_request(cmd, self_id) == Some(WorkerRequestView::ListPeers),
        cmd is DebugDummy ==> spec_command_request(cmd, self_id) == Some(WorkerRequestView::Hello),
        cmd is DebugPeerPrint ==> spec_command_request(cmd, self_id) == Some(
            WorkerRequestView::PeerPrint,
        ),
        (cmd is Wallet || cmd is Blockchain || cmd is Node || cmd is Util) <==> spec_command_request(
            cmd,
            self_id,
        ) is None,
{
}

/// A request for a command other than `exit` is the same whichever
/// connection gives it.
pub proof fn lemma_command_request_independent_of_connection(cmd: AdminCmdView, a: ActorId, b: ActorId)
    requires
        !(cmd is Exit),
    ensures
        spec_command_request(cmd, a) == spec_command_request(cmd, b),
{
}

} // verus!
