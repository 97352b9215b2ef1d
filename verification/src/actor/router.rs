//! The router: which actors it can reach, where each peer is, and what it
//! does with a worker's request.
//!
//! The channels themselves belong to the caller, which keeps one per actor
//! that has a messenger here and performs the deliveries that
//! [`Router::handle`] decides.
use vstd::prelude::*;
use std::collections::{HashMap, HashSet};
use crate::actor::commons::{
    ActorId, RouterToPeerRequestAndPriority, RouterToPeerRequestAndPriorityView,
    WorkerToRouterRequest, WorkerToRouterRequestView, WorkerToRouterResponse,
    WorkerToRouterResponseView,
};
use crate::codec::commons::net_addr::SocketAddress;

verus! {

broadcast use vstd::std_specs::hash::group_hash_axioms;

/// The router's table: the actors that have a messenger, and the address of
/// each registered actor.
pub struct Router {
    peer_messenger: HashSet<ActorId>,
    peer_messenger_addr: HashMap<ActorId, SocketAddress>,
}

#[verifier::ext_equal]
pub struct RouterView {
    pub messengers: Set<ActorId>,
    pub addrs: Map<ActorId, SocketAddress>,
}

impl View for Router {
    type V = RouterView;

    closed spec fn view(&self) -> RouterView {
        RouterView { messengers: self.peer_messenger@, addrs: self.peer_messenger_addr@ }
    }
}

/// What the caller delivers after the router handled a request.
#[derive(Debug)]
pub enum RouterAction {
    /// Nothing to deliver.
    Nothing,
    /// Hand the request to this actor's messenger.
    SendTo(ActorId, RouterToPeerRequestAndPriority),
    /// This actor's messenger left the table: hand it the request, then drop it.
    SendAndDrop(ActorId, RouterToPeerRequestAndPriority),
    /// Hand the request to every actor that has a messenger.
    SendToAll(RouterToPeerRequestAndPriority),
    /// The request came with a reply channel where its kind takes none, or
    /// without one where its kind needs one.
    LogicError,
}

pub enum RouterActionView {
    Nothing,
    SendTo(ActorId, RouterToPeerRequestAndPriorityView),
    SendAndDrop(ActorId, RouterToPeerRequestAndPriorityView),
    SendToAll(RouterToPeerRequestAndPriorityView),
    LogicError,
}

impl View for RouterAction {
    type V = RouterActionView;

    open spec fn view(&self) -> RouterActionView {
        match self {
            RouterAction::Nothing => RouterActionView::Nothing,
            RouterAction::SendTo(id, r) => RouterActionView::SendTo(*id, r@),
            RouterAction::SendAndDrop(id, r) => RouterActionView::SendAndDrop(*id, r@),
            RouterAction::SendToAll(r) => RouterActionView::SendToAll(r@),
            RouterAction::LogicError => RouterActionView::LogicError,
        }
    }
}

/// What the router delivers, and its answer to the worker when the worker
/// waits for one.
#[derive(Debug)]
pub struct RouterOutput {
    pub action: RouterAction,
    pub reply: Option<WorkerToRouterResponse>,
}

#[verifier::ext_equal]
pub struct RouterOutputView {
    pub action: RouterActionView,
    pub reply: Option<WorkerToRouterResponseView>,
}

impl View for RouterOutput {
    type V = RouterOutputView;

    open spec fn view(&self) -> RouterOutputView {
        RouterOutputView {
            action: self.action@,
            reply: match self.reply {
                Some(r) => Some(r@),
                None => None,
            },
        }
    }
}

/// The table after the scheduler registered `actor_id` at `addr`.
pub open spec fn spec_register(s: RouterView, actor_id: ActorId, addr: SocketAddress) -> RouterView {
    RouterView { messengers: s.messengers.insert(actor_id), addrs: s.addrs.insert(actor_id, addr) }
}

/// The table after the scheduler unregistered `actor_id`.
pub open spec fn spec_unregister(s: RouterView, actor_id: ActorId) -> RouterView {
    RouterView { messengers: s.messengers.remove(actor_id), addrs: s.addrs.remove(actor_id) }
}

/// The table and output after a worker's request; `wants_reply` tells
/// whether the worker waits for an answer.
///
/// A removed peer loses its messenger here but keeps its address until the
/// scheduler unregisters it.
pub open spec fn spec_handle(s: RouterView, req: WorkerToRouterRequestView, wants_reply: bool) -> (
    RouterView,
    RouterOutputView,
) {
    let logic_error = RouterOutputView { action: RouterActionView::LogicError, reply: None };
    if wants_reply {
        match req {
            WorkerToRouterRequestView::ListPeers => (
                s,
                RouterOutputView {
                    action: RouterActionView::Nothing,
                    reply: Some(WorkerToRouterResponseView::ListPeers(s.addrs)),
                },
            ),
            WorkerToRouterRequestView::PeerRemove(id, r) => {
                let reply = Some(WorkerToRouterResponseView::PeerRemove(true));
                if s.messengers.contains(id) {
                    (
                        RouterView { messengers: s.messengers.remove(id), addrs: s.addrs },
                        RouterOutputView { action: RouterActionView::SendAndDrop(id, r), reply },
                    )
                } else {
                    (s, RouterOutputView { action: RouterActionView::Nothing, reply })
                }
            },
            _ => (s, logic_error),
        }
    } else {
        match req {
            WorkerToRouterRequestView::MsgToPeer(id, r) => (
                s,
                RouterOutputView {
                    action: if s.messengers.contains(id) {
                        RouterActionView::SendTo(id, r)
                    } else {
                        RouterActionView::Nothing
                    },
                    reply: None,
                },
            ),
            WorkerToRouterRequestView::MsgToAllPeers(r) => (
                s,
                RouterOutputView { action: RouterActionView::SendToAll(r), reply: None },
            ),
            _ => (s, logic_error),
        }
    }
}

impl Router {
    /// An empty table.
    pub fn new() -> (r: Router)
        ensures
            r@.messengers == Set::<ActorId>::empty(),
            r@.addrs == Map::<ActorId, SocketAddress>::empty(),
    {
        Router { peer_messenger: HashSet::new(), peer_messenger_addr: HashMap::new() }
    }

    /// Registers `actor_id`, reachable through a messenger, at `addr`.
    pub fn register(&mut self, actor_id: ActorId, addr: SocketAddress)
        ensures
            final(self)@ == spec_register(old(self)@, actor_id, addr),
    {
        self.peer_messenger.insert(actor_id);
        self.peer_messenger_addr.insert(actor_id, addr);
    }

    /// Forgets `actor_id`.
    pub fn unregister(&mut self, actor_id: ActorId)
        ensures
            final(self)@ == spec_unregister(old(self)@, actor_id),
    {
        self.peer_messenger.remove(&actor_id);
        self.peer_messenger_addr.remove(&actor_id);
    }

    /// Handles a worker's request; `wants_reply` tells whether the worker
    /// waits for an answer.
    pub fn handle(&mut self, req: WorkerToRouterRequest, wants_reply: bool) -> (r: RouterOutput)
        ensures
            (final(self)@, r@) == spec_handle(old(self)@, req@, wants_reply),
    {
        let logic_error = RouterOutput { action: RouterAction::LogicError, reply: None };
        if wants_reply {
            match req {
                WorkerToRouterRequest::ListPeers => {
                    let peers = self.peer_messenger_addr.clone();
                    RouterOutput {
                        action: RouterAction::Nothing,
                        reply: Some(WorkerToRouterResponse::ListPeers(peers)),
                    }
                },
                WorkerToRouterRequest::PeerRemove(actor_id, r) => {
                    let reply = Some(WorkerToRouterResponse::PeerRemove(true));
                    let removed = self.peer_messenger.remove(&actor_id);
                    if removed {
                        RouterOutput { action: RouterAction::SendAndDrop(actor_id, *r), reply }
                    } else {
                        RouterOutput { action: RouterAction::Nothing, reply }
                    }
                },
                _ => logic_error,
            }
        } else {
            match req {
                WorkerToRouterRequest::MsgToPeer(actor_id, r) => {
                    let action = if self.peer_messenger.contains(&actor_id) {
                        RouterAction::SendTo(actor_id, *r)
                    } else {
                        RouterAction::Nothing
                    };
                    RouterOutput { action, reply: None }
                },
                WorkerToRouterRequest::MsgToAllPeers(r) => RouterOutput {
                    action: RouterAction::SendToAll(*r),
                    reply: None,
                },
                _ => logic_error,
            }
        }
    }
}

/// A registered actor is listed at the address it was registered with, and
/// a message to it reaches its messenger.
pub proof fn lemma_registered_actor_is_reachable(
    s: RouterView,
    actor_id: ActorId,
    addr: SocketAddress,
    r: RouterToPeerRequestAndPriorityView,
)
    ensures
        ({
            let t = spec_register(s, actor_id, addr);
            &&& spec_handle(t, WorkerToRouterRequestView::ListPeers, true).1.reply matches Some(
                WorkerToRouterResponseView::ListPeers(m),
            ) && m.contains_key(actor_id) && m[actor_id] == addr
            &&& spec_handle(t, WorkerToRouterRequestView::MsgToPeer(actor_id, r), false).1.action
                == RouterActionView::SendTo(actor_id, r)
        }),
{
}

/// Removing a peer drops its messenger, so that no later message reaches
/// it, while its address stays listed until the scheduler unregisters it.
pub proof fn lemma_removed_peer_unreachable_but_listed(
    s: RouterView,
    actor_id: ActorId,
    r: RouterToPeerRequestAndPriorityView,
    later: RouterToPeerRequestAndPriorityView,
)
    ensures
        ({
            let t = spec_handle(s, WorkerToRouterRequestView::PeerRemove(actor_id, r), true).0;
            &&& t.addrs == s.addrs
            &&& !t.messengers.contains(actor_id)
            &&& spec_handle(t, WorkerToRouterRequestView::MsgToPeer(actor_id, later), false).1.action
                == RouterActionView::Nothing
        }),
{
}

/// After the scheduler unregisters an actor, it is neither listed nor
/// reachable.
pub proof fn lemma_unregistered_actor_gone(
    s: RouterView,
    actor_id: ActorId,
    r: RouterToPeerRequestAndPriorityView,
)
    ensures
        ({
            let t = spec_unregister(s, actor_id);
            &&& spec_handle(t, WorkerToRouterRequestView::ListPeers, true).1.reply matches Some(
                WorkerToRouterResponseView::ListPeers(m),
            ) && !m.contains_key(actor_id)
            &&& spec_handle(t, WorkerToRouterRequestView::MsgToPeer(actor_id, r), false).1.action
                == RouterActionView::Nothing
        }),
{
}

/// A worker's request never changes an address, and can only drop
/// messengers.
pub proof fn lemma_handle_keeps_addresses(s: RouterView, req: WorkerToRouterRequestView, wants_reply: bool)
    ensures
        spec_handle(s, req, wants_reply).0.addrs == s.addrs,
        spec_handle(s, req, wants_reply).0.messengers.subset_of(s.messengers),
{
}

/// A change to the router's table: a registration or a removal by the
/// scheduler, or a worker's request.
pub enum RouterEvent {
    Register(ActorId, SocketAddress),
    Unregister(ActorId),
    Handle(WorkerToRouterRequestView, bool),
}

/// The table after `e`.
pub open spec fn spec_apply(s: RouterView, e: RouterEvent) -> RouterView {
    match e {
        RouterEvent::Register(id, addr) => spec_register(s, id, addr),
        RouterEvent::Unregister(id) => spec_unregister(s, id),
        RouterEvent::Handle(req, wants_reply) => spec_handle(s, req, wants_reply).0,
    }
}

/// The table after the events `es`, in order.
pub open spec fn spec_run(s: RouterView, es: Seq<RouterEvent>) -> RouterView
    decreases es.len(),
{
    if es.len() == 0 {
        s
    } else {
        spec_apply(spec_run(s, es.drop_last()), es.last())
    }
}

/// The address of `id` that the last registration or removal of `id` among
/// `es` left, or its address in `start` when there is none.
pub open spec fn latest_addr(start: Map<ActorId, SocketAddress>, es: Seq<RouterEvent>, id: ActorId) -> Option<SocketAddress>
    decreases es.len(),
{
    if es.len() == 0 {
        if start.contains_key(id) {
            Some(start[id])
        } else {
            None
        }
    } else {
        match es.last() {
            RouterEvent::Register(i, a) if i == id => Some(a),
            RouterEvent::Unregister(i) if i == id => None,
            _ => latest_addr(start, es.drop_last(), id),
        }
    }
}

/// After any sequence of registrations, removals and worker requests, the
/// router lists exactly the actors whose latest registration message was a
/// registration, each at the address it gave; a peer removed by a worker
/// stays listed.
pub proof fn lemma_listed_after_run(s: RouterView, es: Seq<RouterEvent>, id: ActorId)
    ensures
        spec_handle(spec_run(s, es), WorkerToRouterRequestView::ListPeers, true).1.reply matches Some(
            WorkerToRouterResponseView::ListPeers(m),
        ) && (m.contains_key(id) <==> latest_addr(s.addrs, es, id) is Some) && (m.contains_key(id)
            ==> latest_addr(s.addrs, es, id) == Some(m[id])),
    decreases es.len(),
{
    if es.len() > 0 {
        lemma_listed_after_run(s, es.drop_last(), id);
        lemma_handle_keeps_addresses(
            spec_run(s, es.drop_last()),
            WorkerToRouterRequestView::ListPeers,
            true,
        );
        match es.last() {
            RouterEvent::Handle(req, w) => {
                lemma_handle_keeps_addresses(spec_run(s, es.drop_last()), req, w);
            },
            _ => {},
        }
    }
}

} // verus!
