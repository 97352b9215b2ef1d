//! A worker: its queue of requests, served highest priority first, and what
//! it does for each kind of request.
//!
//! Serving a request is a decision followed, for some kinds, by outside
//! work: sleeping, asking the router and waiting for its reply, or
//! connecting to a peer. The caller performs that work and hands its outcome
//! back to the function that turns it into the response.
use vstd::prelude::*;
use crate::actor::commons::{
    ActorId, PeerRequest, PeerRequestView, RouterToPeerRequestAndPriority,
    RouterToPeerRequestAndPriorityView, WorkerRequest, WorkerRequestContent,
    WorkerRequestContentView, WorkerRequestView, WorkerResponse, WorkerResponseView,
    WorkerToRouterRequest, WorkerToRouterRequestView, WorkerToRouterResponse,
};
use crate::codec::commons::net_addr::SocketAddress;
use crate::codec::msg::{Msg, MsgView, spec_new_version, spec_new_verack};
use crate::codec::payload::PayloadView;

verus! {

/// The priority of the requests that a worker makes on a peer's behalf.
pub const FORWARD_PRIORITY: u8 = 100;

/// The priority of the request that tells a peer to remove itself.
pub const SELF_REMOVE_PRIORITY: u8 = 255;

/// The requests a worker has received and not served yet.
pub struct Worker {
    reqs: Vec<WorkerRequestContent>,
}

impl View for Worker {
    type V = Seq<WorkerRequestContentView>;

    closed spec fn view(&self) -> Seq<WorkerRequestContentView> {
        self.reqs@.map_values(|c: WorkerRequestContent| c@)
    }
}

/// Whether `c` has the highest priority in `q`.
pub open spec fn is_highest(q: Seq<WorkerRequestContentView>, c: WorkerRequestContentView) -> bool {
    forall|j: int| 0 <= j < q.len() ==> (#[trigger] q[j]).priority <= c.priority
}

/// Why a worker could not serve a request.
#[derive(Debug, Clone, Copy, PartialEq, Eq, Structural)]
pub enum WorkerError {
    /// The router answered something else than the request called for, or
    /// dropped the request.
    UnexpectedRouterReply,
}

/// What serving a request takes.
#[derive(Debug)]
pub enum WorkerStep {
    /// Answer at once.
    Respond(WorkerResponse),
    /// Sleep for this many seconds, then answer with an empty response.
    SleepThenRespond(u64),
    /// Send this request to the router, wait for its reply, and hand it to
    /// [`Worker::on_router_reply`].
    AskRouter(WorkerToRouterRequest),
    /// Send this request to the router without waiting, and answer.
    TellRouterThenRespond(WorkerToRouterRequest, WorkerResponse),
    /// Connect to `addr`; once connected, register the peer and hand it
    /// `handshake` first. Then answer with [`Worker::on_connected`].
    Connect { addr: SocketAddress, handshake: RouterToPeerRequestAndPriority },
}

pub enum WorkerStepView {
    Respond(WorkerResponseView),
    SleepThenRespond(u64),
    AskRouter(WorkerToRouterRequestView),
    TellRouterThenRespond(WorkerToRouterRequestView, WorkerResponseView),
    Connect { addr: SocketAddress, handshake: RouterToPeerRequestAndPriorityView },
}

impl View for WorkerStep {
    type V = WorkerStepView;

    open spec fn view(&self) -> WorkerStepView {
        match self {
            WorkerStep::Respond(r) => WorkerStepView::Respond(r@),
            WorkerStep::SleepThenRespond(d) => WorkerStepView::SleepThenRespond(*d),
            WorkerStep::AskRouter(q) => WorkerStepView::AskRouter(q@),
            WorkerStep::TellRouterThenRespond(q, r) => WorkerStepView::TellRouterThenRespond(q@, r@),
            WorkerStep::Connect { addr, handshake } => WorkerStepView::Connect {
                addr: *addr,
                handshake: handshake@,
            },
        }
    }
}

/// Whether `m` is this node's `version` message to `addr`, for some nonce
/// and time.
pub open spec fn is_version_for(m: MsgView, addr: SocketAddress) -> bool {
    m.payload matches Some(PayloadView::Version(v)) && m == spec_new_version(
        addr,
        v.nonce,
        v.timestamp,
    )
}

/// What serving `req` takes, for the kinds whose answer depends on nothing
/// but the request: all but `PeerAdd` and `NewVersion`, whose messages carry
/// a random nonce and the time.
pub open spec fn spec_serve(req: WorkerRequestView) -> WorkerStepView {
    match req {
        WorkerRequestView::Wait { delay } => WorkerStepView::SleepThenRespond(delay),
        WorkerRequestView::ListPeers => WorkerStepView::AskRouter(WorkerToRouterRequestView::ListPeers),
        WorkerRequestView::PeerRemove { actor_id } => WorkerStepView::AskRouter(
            WorkerToRouterRequestView::PeerRemove(
                actor_id,
                RouterToPeerRequestAndPriorityView(PeerRequestView::SelfRemove, SELF_REMOVE_PRIORITY),
            ),
        ),
        WorkerRequestView::MsgFromHex { send, binary } => if send && Msg::spec_parse(binary) is Ok {
            WorkerStepView::TellRouterThenRespond(
                WorkerToRouterRequestView::MsgToAllPeers(
                    RouterToPeerRequestAndPriorityView(PeerRequestView::Forward(binary), FORWARD_PRIORITY),
                ),
                WorkerResponseView::Empty,
            )
        } else {
            WorkerStepView::Respond(WorkerResponseView::Empty)
        },
        WorkerRequestView::NewVerack => WorkerStepView::Respond(
            WorkerResponseView::Verack(spec_new_verack()),
        ),
        _ => WorkerStepView::Respond(WorkerResponseView::Empty),
    }
}

impl Worker {
    /// A worker with no request.
    pub fn new() -> (r: Worker)
        ensures
            r@ == Seq::<WorkerRequestContentView>::empty(),
    {
        let r = Worker { reqs: Vec::new() };
        assert(r@ =~= Seq::<WorkerRequestContentView>::empty());
        r
    }

    /// Takes a request.
    pub fn push(&mut self, req: WorkerRequestContent)
        ensures
            final(self)@ == old(self)@.push(req@),
    {
        self.reqs.push(req);
        assert(self@ =~= old(self)@.push(req@));
    }

    /// The number of requests waiting.
    pub fn len(&self) -> (r: usize)
        ensures
            r == self@.len(),
    {
        self.reqs.len()
    }

    /// Takes out a request with the highest priority, if there is one.
    pub fn next(&mut self) -> (r: Option<WorkerRequestContent>)
        ensures
            match r {
                None => old(self)@.len() == 0 && final(self)@ == old(self)@,
                Some(c) => {
                    &&& is_highest(old(self)@, c@)
                    &&& exists|i: int|
                        0 <= i < old(self)@.len() && old(self)@[i] == c@ && final(self)@ == old(
                            self,
                        )@.remove(i)
                },
            },
    {
        if self.reqs.len() == 0 {
            return None;
        }
        let mut best: usize = 0;
        let mut i: usize = 1;
        while i < self.reqs.len()
            invariant
                1 <= i <= self.reqs.len(),
                best < i,
                forall|j: int| 0 <= j < i ==> (#[trigger] self@[j]).priority <= self@[best as int].priority,
            decreases self.reqs.len() - i,
        {
            if self.reqs[i].0.1 > self.reqs[best].0.1 {
                best = i;
            }
            i = i + 1;
        }
        let c = self.reqs.remove(best);
        assert(self@ =~= old(self)@.remove(best as int));
        Some(c)
    }

    /// What serving `req` takes.
    pub fn serve(req: WorkerRequest) -> (r: WorkerStep)
        ensures
            match req@ {
                WorkerRequestView::PeerAdd { addr, .. } => {
                    &&& r@ matches WorkerStepView::Connect { addr: a, handshake }
                    &&& a == addr
                    &&& handshake.1 == FORWARD_PRIORITY
                    &&& handshake.0 matches PeerRequestView::HandShake(bytes)
                    &&& exists|m: MsgView| is_version_for(m, addr) && bytes == m.spec_bytes()
                },
                WorkerRequestView::NewVersion { addr } => r@ matches WorkerStepView::Respond(
                    WorkerResponseView::Version(m),
                ) && is_version_for(m, addr),
                _ => r@ == spec_serve(req@),
            },
    {
        match req {
            WorkerRequest::PeerAdd { addr, .. } => {
                let version = Msg::new_version(&addr);
                let bytes = match version.into_bytes() {
                    Ok(b) => b,
                    Err(_) => vstd::pervasive::unreached(),
                };
                assert(is_version_for(version@, addr) && bytes@ == version@.spec_bytes());
                WorkerStep::Connect {
                    addr,
                    handshake: RouterToPeerRequestAndPriority(PeerRequest::HandShake(bytes), FORWARD_PRIORITY),
                }
            },
            WorkerRequest::Wait { delay } => WorkerStep::SleepThenRespond(delay),
            WorkerRequest::ListPeers => WorkerStep::AskRouter(WorkerToRouterRequest::ListPeers),
            WorkerRequest::PeerRemove { actor_id } => WorkerStep::AskRouter(
                WorkerToRouterRequest::PeerRemove(
                    actor_id,
                    Box::new(RouterToPeerRequestAndPriority(PeerRequest::SelfRemove, SELF_REMOVE_PRIORITY)),
                ),
            ),
            WorkerRequest::MsgFromHex { send, binary } => {
                let msg = Msg::new(binary.as_slice());
                if send && msg.is_ok() {
                    WorkerStep::TellRouterThenRespond(
                        WorkerToRouterRequest::MsgToAllPeers(
                            Box::new(RouterToPeerRequestAndPriority(PeerRequest::Forward(binary), FORWARD_PRIORITY)),
                        ),
                        WorkerResponse::Empty,
                    )
                } else {
                    WorkerStep::Respond(WorkerResponse::Empty)
                }
            },
            WorkerRequest::NewVersion { addr } => WorkerStep::Respond(
                WorkerResponse::Version(Msg::new_version(&addr)),
            ),
            WorkerRequest::NewVerack => WorkerStep::Respond(WorkerResponse::Verack(Msg::new_verack())),
            _ => WorkerStep::Respond(WorkerResponse::Empty),
        }
    }

    /// The response to a request that asked the router, from the router's
    /// reply; `None` when the router dropped the request.
    pub fn on_router_reply(asked: &WorkerToRouterRequest, reply: Option<WorkerToRouterResponse>) -> (r:
        Result<WorkerResponse, WorkerError>)
        ensures
            match (asked@, reply) {
                (WorkerToRouterRequestView::ListPeers, Some(WorkerToRouterResponse::ListPeers(m))) => (
                r matches Ok(WorkerResponse::ListPeers(n)) && n@ == m@),
                (
                    WorkerToRouterRequestView::PeerRemove(_, _),
                    Some(WorkerToRouterResponse::PeerRemove(b)),
                ) => (r matches Ok(WorkerResponse::PeerRemove(c)) && c == b),
                _ => r == Err::<WorkerResponse, WorkerError>(WorkerError::UnexpectedRouterReply),
            },
    {
        match (asked, reply) {
            (WorkerToRouterRequest::ListPeers, Some(WorkerToRouterResponse::ListPeers(m))) => Ok(
                WorkerResponse::ListPeers(m),
            ),
            (WorkerToRouterRequest::PeerRemove(_, _), Some(WorkerToRouterResponse::PeerRemove(b))) => Ok(
                WorkerResponse::PeerRemove(b),
            ),
            _ => Err(WorkerError::UnexpectedRouterReply),
        }
    }

    /// The response to `PeerAdd`: the address when the connection was made.
    pub fn on_connected(addr: SocketAddress, connected: bool) -> (r: WorkerResponse)
        ensures
            r@ == WorkerResponseView::PeerAdd(if connected { Some(addr) } else { None }),
    {
        if connected {
            WorkerResponse::PeerAdd(Some(addr))
        } else {
            WorkerResponse::PeerAdd(None)
        }
    }
}

/// A worker serves requests highest priority first: no request it leaves
/// waiting has a higher priority than the one it serves.
pub proof fn lemma_served_first_has_highest_priority(
    q: Seq<WorkerRequestContentView>,
    c: WorkerRequestContentView,
    i: int,
)
    requires
        is_highest(q, c),
        0 <= i < q.len(),
        q[i] == c,
    ensures
        forall|j: int| 0 <= j < q.remove(i).len() ==> (#[trigger] q.remove(i)[j]).priority <= c.priority,
{
    assert forall|j: int| 0 <= j < q.remove(i).len() implies (#[trigger] q.remove(i)[j]).priority
        <= c.priority by {
        if j < i {
            assert(q.remove(i)[j] == q[j]);
        } else {
            assert(q.remove(i)[j] == q[j + 1]);
        }
    }
}

/// A decoded message is forwarded to every peer exactly when the request
/// asks for it, and the worker answers with an empty response either way.
pub proof fn lemma_msg_from_hex_forwards_only_valid(send: bool, binary: Seq<u8>)
    ensures
        ({
            let step = spec_serve(WorkerRequestView::MsgFromHex { send, binary });
            &&& (step is TellRouterThenRespond) <==> (send && Msg::spec_parse(binary) is Ok)
            &&& step is TellRouterThenRespond ==> step->TellRouterThenRespond_1
                == WorkerResponseView::Empty
            &&& step is Respond ==> step->Respond_0 == WorkerResponseView::Empty
        }),
{
}

/// What a worker does for the requests whose answer depends on the request
/// alone: it sleeps the delay asked for; it asks the router for the peers;
/// it tells the router to have exactly the named actor remove itself, at
/// priority 255; it forwards a decodable message, unchanged, to every peer at
/// priority 100; and it answers a `verack` request with the `verack`
/// message.
pub proof fn lemma_serve_requests(delay: u64, a: ActorId, binary: Seq<u8>)
    ensures
        spec_serve(WorkerRequestView::Wait { delay }) == WorkerStepView::SleepThenRespond(delay),
        spec_serve(WorkerRequestView::ListPeers) == WorkerStepView::AskRouter(
            WorkerToRouterRequestView::ListPeers,
        ),
        spec_serve(WorkerRequestView::PeerRemove { actor_id: a }) == WorkerStepView::AskRouter(
            WorkerToRouterRequestView::PeerRemove(
                a,
                RouterToPeerRequestAndPriorityView(PeerRequestView::SelfRemove, 255u8),
            ),
        ),
        Msg::spec_parse(binary) is Ok ==> spec_serve(
            WorkerRequestView::MsgFromHex { send: true, binary },
        ) == WorkerStepView::TellRouterThenRespond(
            WorkerToRouterRequestView::MsgToAllPeers(
                RouterToPeerRequestAndPriorityView(PeerRequestView::Forward(binary), 100u8),
            ),
            WorkerResponseView::Empty,
        ),
        spec_serve(WorkerRequestView::NewVerack) == WorkerStepView::Respond(
            WorkerResponseView::Verack(spec_new_verack()),
        ),
{
}

} // verus!
