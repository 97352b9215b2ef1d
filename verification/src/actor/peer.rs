//! A connected actor, peer or admin: its number, the requests it made,
//! the responses it no longer waits for, and the decisions of a peer after
//! its handshake.
//!
//! `R` is whatever the caller uses to receive a response that nobody waits
//! for any more; the caller polls each and reports which arrived.
use vstd::prelude::*;
use crate::actor::commons::{
    ActorId, AddrReqId, PeerRequest, PeerRequestView, RequestPriority, WorkerRequest,
    WorkerRequestContent, WorkerRequestContentView, WorkerRequestPriority, WorkerRequestView,
    WorkerResponse,
};
use crate::actor::worker::FORWARD_PRIORITY;
use crate::codec::msg::{Msg, MsgView};
use crate::codec::commons::net_addr::{NetAddr, SocketAddress, ip_len};
use crate::codec::wire::push_all;
use crate::actor::handshake::opt_view;

verus! {

pub struct Peer<R> {
    rx_ignored: Vec<R>,
    actor_id: ActorId,
    request_counter: usize,
    version: Option<Msg>,
}

pub struct PeerView<R> {
    /// The responses this actor no longer waits for, that have not arrived.
    pub ignored: Seq<R>,
    pub actor_id: ActorId,
    /// How many requests this actor has numbered.
    pub request_counter: usize,
    /// The `version` message of the remote node, once the handshake is done.
    pub version: Option<MsgView>,
}

impl<R> View for Peer<R> {
    type V = PeerView<R>;

    closed spec fn view(&self) -> PeerView<R> {
        PeerView {
            ignored: self.rx_ignored@,
            actor_id: self.actor_id,
            request_counter: self.request_counter,
            version: opt_view(self.version),
        }
    }
}

/// The items of `s` whose flag in `arrived` is false, in their order.
pub open spec fn still_waiting<R>(s: Seq<R>, arrived: Seq<bool>) -> Seq<R>
    decreases s.len(),
{
    if s.len() == 0 {
        Seq::empty()
    } else if arrived.len() > 0 && arrived[0] {
        still_waiting(s.drop_first(), arrived.drop_first())
    } else {
        seq![s[0]] + still_waiting(s.drop_first(), arrived.drop_first())
    }
}

/// Why a peer stopped.
#[derive(Debug, Clone, Copy, PartialEq, Eq, Structural)]
pub enum PeerError {
    /// The worker answered a request with something else than it called for.
    UnexpectedResponse,
}

/// What a peer in standby does with a request from the router.
#[derive(Debug)]
pub enum StandbyAction {
    /// Nothing.
    Stay,
    /// Write these bytes to the remote node.
    Write(Vec<u8>),
    /// Stop: wait for the ignored responses, then unregister.
    SelfRemove,
}

pub enum StandbyActionView {
    Stay,
    Write(Seq<u8>),
    SelfRemove,
}

impl View for StandbyAction {
    type V = StandbyActionView;

    open spec fn view(&self) -> StandbyActionView {
        match self {
            StandbyAction::Stay => StandbyActionView::Stay,
            StandbyAction::Write(b) => StandbyActionView::Write(b@),
            StandbyAction::SelfRemove => StandbyActionView::SelfRemove,
        }
    }
}

/// What a peer in standby does with `req`.
pub open spec fn spec_standby(req: PeerRequestView) -> StandbyActionView {
    match req {
        PeerRequestView::SelfRemove => StandbyActionView::SelfRemove,
        PeerRequestView::Forward(raw) => StandbyActionView::Write(raw),
        _ => StandbyActionView::Stay,
    }
}

impl<R> Peer<R> {
    /// A newly registered actor.
    pub fn new(actor_id: ActorId) -> (r: Peer<R>)
        ensures
            r@.ignored == Seq::<R>::empty(),
            r@.actor_id == actor_id,
            r@.request_counter == 0,
            r@.version == None::<MsgView>,
    {
        Peer { rx_ignored: Vec::new(), actor_id, request_counter: 0, version: None }
    }

    pub fn actor_id(&self) -> (r: ActorId)
        ensures
            r == self@.actor_id,
    {
        self.actor_id
    }

    /// How many requests this actor has numbered.
    pub fn request_counter(&self) -> (r: usize)
        ensures
            r == self@.request_counter,
    {
        self.request_counter
    }

    /// The responses this actor no longer waits for, that have not arrived.
    pub fn ignored(&self) -> (r: &Vec<R>)
        ensures
            r@ == self@.ignored,
    {
        &self.rx_ignored
    }

    /// The number of responses that have not arrived yet.
    pub fn ignored_len(&self) -> (r: usize)
        ensures
            r == self@.ignored.len(),
    {
        self.rx_ignored.len()
    }

    /// The `version` message of the remote node, once the handshake is done.
    pub fn version(&self) -> (r: &Option<Msg>)
        ensures
            opt_view(*r) == self@.version,
    {
        &self.version
    }

    /// No longer waits for the response that `rx` receives.
    pub fn push_ignored(&mut self, rx: R)
        ensures
            final(self)@.ignored == old(self)@.ignored.push(rx),
            final(self)@.actor_id == old(self)@.actor_id,
            final(self)@.request_counter == old(self)@.request_counter,
            final(self)@.version == old(self)@.version,
    {
        self.rx_ignored.push(rx);
    }

    /// Drops the ignored responses that arrived: `arrived[i]` tells whether
    /// the `i`th one did.
    pub fn poll_ignored(&mut self, arrived: &Vec<bool>)
        requires
            arrived.len() == old(self)@.ignored.len(),
        ensures
            final(self)@.ignored == still_waiting(old(self)@.ignored, arrived@),
            final(self)@.actor_id == old(self)@.actor_id,
            final(self)@.request_counter == old(self)@.request_counter,
            final(self)@.version == old(self)@.version,
    {
        let ghost all = self.rx_ignored@;
        let mut i: usize = self.rx_ignored.len();
        assert(all.skip(i as int) =~= Seq::<R>::empty());
        while i > 0
            invariant
                i <= all.len(),
                arrived.len() == all.len(),
                self.rx_ignored@ == all.take(i as int) + still_waiting(
                    all.skip(i as int),
                    arrived@.skip(i as int),
                ),
                self.actor_id == old(self).actor_id,
                self.request_counter == old(self).request_counter,
                self.version == old(self).version,
            decreases i,
        {
            let ghost before = self.rx_ignored@;
            i = i - 1;
            assert(all.skip(i as int).drop_first() =~= all.skip(i + 1));
            assert(arrived@.skip(i as int).drop_first() =~= arrived@.skip(i + 1));
            let ghost rest = still_waiting(all.skip(i + 1), arrived@.skip(i + 1));
            if arrived[i] {
                self.rx_ignored.remove(i);
                assert(self.rx_ignored@ =~= all.take(i as int) + rest);
            } else {
                assert(all.take(i + 1) =~= all.take(i as int).push(all[i as int]));
                assert(before =~= all.take(i as int) + (seq![all[i as int]] + rest));
            }
        }
        assert(all.take(0) + still_waiting(all, arrived@) =~= still_waiting(all, arrived@));
        assert(all.skip(0) =~= all);
        assert(arrived@.skip(0) =~= arrived@);
    }

    /// Numbers the next request of this actor.
    pub fn next_request_counter(&mut self) -> (r: usize)
        requires
            old(self)@.request_counter < usize::MAX,
        ensures
            r == old(self)@.request_counter + 1,
            final(self)@.request_counter == r,
            final(self)@.ignored == old(self)@.ignored,
            final(self)@.actor_id == old(self)@.actor_id,
            final(self)@.version == old(self)@.version,
    {
        self.request_counter = self.request_counter + 1;
        self.request_counter
    }

    /// A request to a worker on this actor's behalf, under its next number.
    pub fn worker_request(&mut self, wr: WorkerRequest, priority: RequestPriority) -> (r:
        WorkerRequestContent)
        requires
            old(self)@.request_counter < usize::MAX,
        ensures
            r@ == (WorkerRequestContentView {
                request: wr@,
                priority,
                addr: AddrReqId(old(self)@.actor_id, (old(self)@.request_counter + 1) as usize),
            }),
            final(self)@.request_counter == old(self)@.request_counter + 1,
            final(self)@.ignored == old(self)@.ignored,
            final(self)@.actor_id == old(self)@.actor_id,
            final(self)@.version == old(self)@.version,
    {
        let id = self.next_request_counter();
        WorkerRequestContent(WorkerRequestPriority(wr, priority), AddrReqId(self.actor_id, id))
    }

    /// After the handshake: keeps the remote node's `version` and asks a
    /// worker for a `getheaders` message.
    pub fn on_handshake_done(&mut self, version: Msg) -> (r: WorkerRequestContent)
        requires
            old(self)@.request_counter < usize::MAX,
        ensures
            final(self)@.version == Some(version@),
            r@ == (WorkerRequestContentView {
                request: WorkerRequestView::NewGetHeaders,
                priority: FORWARD_PRIORITY,
                addr: AddrReqId(old(self)@.actor_id, (old(self)@.request_counter + 1) as usize),
            }),
            final(self)@.request_counter == old(self)@.request_counter + 1,
            final(self)@.ignored == old(self)@.ignored,
            final(self)@.actor_id == old(self)@.actor_id,
    {
        self.version = Some(version);
        self.worker_request(WorkerRequest::NewGetHeaders, FORWARD_PRIORITY)
    }

    /// The bytes to send after the worker answered the request for a
    /// `getheaders` message.
    pub fn on_get_headers(resp: WorkerResponse) -> (r: Result<Vec<u8>, PeerError>)
        ensures
            match resp {
                WorkerResponse::GetHeaders(m) => r matches Ok(b) && b@ == m@.spec_bytes(),
                _ => r == Err::<Vec<u8>, PeerError>(PeerError::UnexpectedResponse),
            },
    {
        match resp {
            WorkerResponse::GetHeaders(m) => match m.into_bytes() {
                Ok(b) => Ok(b),
                Err(_) => vstd::pervasive::unreached(),
            },
            _ => Err(PeerError::UnexpectedResponse),
        }
    }

    /// When the remote node introduced itself: the requests for this node's
    /// `version`, addressed to `addr`, and for a `verack`, in that order.
    pub fn version_and_verack_requests(&mut self, addr: &NetAddr) -> (r: (WorkerRequestContent, WorkerRequestContent))
        requires
            old(self)@.request_counter < usize::MAX - 1,
            addr@.ip.len() == ip_len(),
        ensures
            r.0@.request matches WorkerRequestView::NewVersion {
                addr: SocketAddress::V6 { ip, port },
            } && ip@ == addr@.ip && port == addr@.port,
            r.0@.priority == FORWARD_PRIORITY,
            r.0@.addr == AddrReqId(old(self)@.actor_id, (old(self)@.request_counter + 1) as usize),
            r.1@ == (WorkerRequestContentView {
                request: WorkerRequestView::NewVerack,
                priority: FORWARD_PRIORITY,
                addr: AddrReqId(old(self)@.actor_id, (old(self)@.request_counter + 2) as usize),
            }),
            final(self)@.request_counter == old(self)@.request_counter + 2,
            final(self)@.ignored == old(self)@.ignored,
            final(self)@.actor_id == old(self)@.actor_id,
            final(self)@.version == old(self)@.version,
    {
        let target = addr.to_socket_addr();
        let v = self.worker_request(WorkerRequest::NewVersion { addr: target }, FORWARD_PRIORITY);
        let va = self.worker_request(WorkerRequest::NewVerack, FORWARD_PRIORITY);
        (v, va)
    }

    /// The request for a `verack`, once both the remote node's `version`
    /// and `verack` arrived.
    pub fn verack_request(&mut self) -> (r: WorkerRequestContent)
        requires
            old(self)@.request_counter < usize::MAX,
        ensures
            r@ == (WorkerRequestContentView {
                request: WorkerRequestView::NewVerack,
                priority: FORWARD_PRIORITY,
                addr: AddrReqId(old(self)@.actor_id, (old(self)@.request_counter + 1) as usize),
            }),
            final(self)@.request_counter == old(self)@.request_counter + 1,
            final(self)@.ignored == old(self)@.ignored,
            final(self)@.actor_id == old(self)@.actor_id,
            final(self)@.version == old(self)@.version,
    {
        self.worker_request(WorkerRequest::NewVerack, FORWARD_PRIORITY)
    }

    /// The bytes to send once the worker answered the requests for this
    /// node's `version` and a `verack`: the two messages, in that order.
    pub fn on_version_and_verack(ver: WorkerResponse, verack: WorkerResponse) -> (r: Result<Vec<u8>, PeerError>)
        ensures
            match (ver, verack) {
                (WorkerResponse::Version(a), WorkerResponse::Verack(b)) => r matches Ok(bytes)
                    && bytes@ == a@.spec_bytes() + b@.spec_bytes(),
                _ => r == Err::<Vec<u8>, PeerError>(PeerError::UnexpectedResponse),
            },
    {
        match (ver, verack) {
            (WorkerResponse::Version(a), WorkerResponse::Verack(b)) => {
                let mut bytes = match a.into_bytes() {
                    Ok(x) => x,
                    Err(_) => vstd::pervasive::unreached(),
                };
                let tail = match b.into_bytes() {
                    Ok(x) => x,
                    Err(_) => vstd::pervasive::unreached(),
                };
                push_all(&mut bytes, tail.as_slice());
                Ok(bytes)
            },
            _ => Err(PeerError::UnexpectedResponse),
        }
    }

    /// The bytes to send once the worker answered the request for a
    /// `verack`.
    pub fn on_verack(resp: WorkerResponse) -> (r: Result<Vec<u8>, PeerError>)
        ensures
            match resp {
                WorkerResponse::Verack(m) => r matches Ok(b) && b@ == m@.spec_bytes(),
                _ => r == Err::<Vec<u8>, PeerError>(PeerError::UnexpectedResponse),
            },
    {
        match resp {
            WorkerResponse::Verack(m) => match m.into_bytes() {
                Ok(b) => Ok(b),
                Err(_) => vstd::pervasive::unreached(),
            },
            _ => Err(PeerError::UnexpectedResponse),
        }
    }

    /// What a peer in standby does with a request from the router.
    pub fn on_standby_request(req: PeerRequest) -> (r: StandbyAction)
        ensures
            r@ == spec_standby(req@),
    {
        match req {
            PeerRequest::SelfRemove => StandbyAction::SelfRemove,
            PeerRequest::Forward(raw) => StandbyAction::Write(raw),
            _ => StandbyAction::Stay,
        }
    }

    /// While removing itself: the actor to unregister once every ignored
    /// response arrived, or `None` to keep waiting.
    pub fn self_remove_step(&self) -> (r: Option<ActorId>)
        ensures
            r == (if self@.ignored.len() == 0 {
                Some(self@.actor_id)
            } else {
                None::<ActorId>
            }),
    {
        if self.rx_ignored.len() > 0 {
            None
        } else {
            Some(self.actor_id)
        }
    }
}

/// None of the ignored responses is kept when all arrived, and all are
/// kept when none did; never more are kept than there were.
pub proof fn lemma_still_waiting_keeps_exactly_pending<R>(s: Seq<R>, arrived: Seq<bool>)
    requires
        s.len() == arrived.len(),
    ensures
        still_waiting(s, arrived).len() <= s.len(),
        (forall|i: int| 0 <= i < arrived.len() ==> #[trigger] arrived[i]) ==> still_waiting(
            s,
            arrived,
        ).len() == 0,
        (forall|i: int| 0 <= i < arrived.len() ==> !#[trigger] arrived[i]) ==> still_waiting(
            s,
            arrived,
        ) == s,
    decreases s.len(),
{
    if s.len() > 0 {
        lemma_still_waiting_keeps_exactly_pending(s.drop_first(), arrived.drop_first());
        if forall|i: int| 0 <= i < arrived.len() ==> #[trigger] arrived[i] {
            assert(arrived[0]);
            assert forall|i: int| 0 <= i < arrived.drop_first().len() implies #[trigger] arrived.drop_first()[i] by {
                assert(arrived[i + 1]);
            }
        }
        if forall|i: int| 0 <= i < arrived.len() ==> !#[trigger] arrived[i] {
            assert(!arrived[0]);
            assert forall|i: int| 0 <= i < arrived.drop_first().len() implies !#[trigger] arrived.drop_first()[i] by {
                assert(!arrived[i + 1]);
            }
            assert(seq![s[0]] + s.drop_first() =~= s);
        }
    }
}

/// The positions in `arrived` whose flag is false, in increasing order.
pub open spec fn pending_positions(arrived: Seq<bool>) -> Seq<int>
    decreases arrived.len(),
{
    if arrived.len() == 0 {
        Seq::empty()
    } else {
        let rest = pending_positions(arrived.drop_first()).map_values(|i: int| i + 1);
        if arrived[0] {
            rest
        } else {
            seq![0int] + rest
        }
    }
}

/// The ignored responses kept are exactly those that did not arrive, each
/// once, in their order: the `k`th kept one is the one at the `k`th
/// position whose flag is false, and every such position is taken.
pub proof fn lemma_still_waiting_is_the_pending_ones<R>(s: Seq<R>, arrived: Seq<bool>)
    requires
        s.len() == arrived.len(),
    ensures
        ({
            let kept = still_waiting(s, arrived);
            let pos = pending_positions(arrived);
            &&& kept.len() == pos.len()
            &&& forall|k: int| 0 <= k < pos.len() ==> 0 <= #[trigger] pos[k] < s.len() && !arrived[pos[k]]
                && kept[k] == s[pos[k]]
            &&& forall|k1: int, k2: int| 0 <= k1 < k2 < pos.len() ==> #[trigger] pos[k1] < #[trigger] pos[k2]
            &&& forall|i: int| 0 <= i < s.len() && !arrived[i] ==> #[trigger] pos.contains(i)
        }),
    decreases s.len(),
{
    if s.len() > 0 {
        let s1 = s.drop_first();
        let a1 = arrived.drop_first();
        lemma_still_waiting_is_the_pending_ones(s1, a1);
        let pos1 = pending_positions(a1);
        let rest = pos1.map_values(|i: int| i + 1);
        let kept = still_waiting(s, arrived);
        let pos = pending_positions(arrived);
        assert forall|i: int| 0 <= i < s.len() && !arrived[i] implies #[trigger] pos.contains(i) by {
            if i == 0 {
                assert(pos[0] == 0);
            } else {
                assert(!a1[i - 1]);
                assert(pos1.contains(i - 1));
                let k = choose|k: int| 0 <= k < pos1.len() && pos1[k] == i - 1;
                assert(rest[k] == i);
                if arrived[0] {
                    assert(pos[k] == i);
                } else {
                    assert(pos[k + 1] == i);
                }
            }
        }
        if !arrived[0] {
            assert forall|k: int| 0 <= k < pos.len() implies 0 <= #[trigger] pos[k] < s.len()
                && !arrived[pos[k]] && kept[k] == s[pos[k]] by {
                if k > 0 {
                    assert(pos[k] == pos1[k - 1] + 1);
                    assert(kept[k] == still_waiting(s1, a1)[k - 1]);
                }
            }
            assert forall|k1: int, k2: int| 0 <= k1 < k2 < pos.len() implies #[trigger] pos[k1]
                < #[trigger] pos[k2] by {
                if k1 > 0 {
                    assert(pos1[k1 - 1] < pos1[k2 - 1]);
                } else {
                    assert(pos[k2] == pos1[k2 - 1] + 1);
                    assert(0 <= pos1[k2 - 1]);
                }
            }
        } else {
            assert forall|k: int| 0 <= k < pos.len() implies 0 <= #[trigger] pos[k] < s.len()
                && !arrived[pos[k]] && kept[k] == s[pos[k]] by {
                assert(pos[k] == pos1[k] + 1);
            }
            assert forall|k1: int, k2: int| 0 <= k1 < k2 < pos.len() implies #[trigger] pos[k1]
                < #[trigger] pos[k2] by {
                assert(pos1[k1] < pos1[k2]);
            }
        }
    }
}

} // verus!
