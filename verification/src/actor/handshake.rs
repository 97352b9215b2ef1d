//! The decisions of a peer's handshake.
//!
//! Either this node introduces itself first, when the router forwards its
//! `version` message, and then waits for the peer's `version` and `verack`
//! in any order before answering with a `verack`; or the peer introduces
//! itself first, and this node answers with its own `version` and `verack`
//! and waits for the peer's `verack`. The decisions are a function from the
//! state and the next event to the next state and what to send.
use vstd::prelude::*;
use crate::actor::commons::{PeerRequest, PeerRequestView};
use crate::codec::msg::{Msg, MsgView};
use crate::codec::payload::{Payload, PayloadView};
use crate::codec::commons::net_addr::{NetAddr, NetAddrView};
use crate::codec::wire::views;

verus! {

/// Why a handshake failed.
#[derive(Debug, Clone, Copy, PartialEq, Eq, Structural)]
pub enum HandshakeError {
    /// A channel or the connection closed.
    Aborted,
    /// A message that the handshake does not expect at this point.
    WrongMessage,
    VersionAlreadyReceived,
    VerackAlreadyReceived,
}

/// What the handshake reads next.
#[derive(Debug)]
pub enum HandshakeEvent {
    /// A request that the router handed to this peer.
    FromRouter(PeerRequest),
    /// A message that the peer sent.
    FromPeer(Msg),
    /// The router's channel or the connection closed or failed.
    Closed,
}

pub enum HandshakeEventView {
    FromRouter(PeerRequestView),
    FromPeer(MsgView),
    Closed,
}

impl View for HandshakeEvent {
    type V = HandshakeEventView;

    open spec fn view(&self) -> HandshakeEventView {
        match self {
            HandshakeEvent::FromRouter(r) => HandshakeEventView::FromRouter(r@),
            HandshakeEvent::FromPeer(m) => HandshakeEventView::FromPeer(m@),
            HandshakeEvent::Closed => HandshakeEventView::Closed,
        }
    }
}

/// What the handshake sends.
#[derive(Debug)]
pub enum HandshakeAction {
    /// Send these bytes to the peer as they are.
    SendRaw(Vec<u8>),
    /// Send this node's `version` message, addressed to the receiving
    /// address of the peer's `version`, then a `verack`.
    SendVersionAndVerack { addr: NetAddr },
    /// Send a `verack`.
    SendVerack,
}

pub enum HandshakeActionView {
    SendRaw(Seq<u8>),
    SendVersionAndVerack { addr: NetAddrView },
    SendVerack,
}

impl View for HandshakeAction {
    type V = HandshakeActionView;

    open spec fn view(&self) -> HandshakeActionView {
        match self {
            HandshakeAction::SendRaw(raw) => HandshakeActionView::SendRaw(raw@),
            HandshakeAction::SendVersionAndVerack { addr } => HandshakeActionView::SendVersionAndVerack {
                addr: addr@,
            },
            HandshakeAction::SendVerack => HandshakeActionView::SendVerack,
        }
    }
}

/// Where a handshake stands.
#[derive(Debug)]
pub enum Machina {
    /// Nothing sent or received yet.
    Start,
    /// This node introduced itself; the peer's `version` and `verack`
    /// received so far.
    IntroducedSelf { version: Option<Msg>, verack: Option<Msg> },
    /// The peer introduced itself with `version`, and this node answered.
    IntroducedByPeer { version: Msg },
    /// Done; the peer's `version`.
    Ready { version: Msg },
    Failed(HandshakeError),
}

pub enum MachinaView {
    Start,
    IntroducedSelf { version: Option<MsgView>, verack: Option<MsgView> },
    IntroducedByPeer { version: MsgView },
    Ready { version: MsgView },
    Failed(HandshakeError),
}

pub open spec fn opt_view(m: Option<Msg>) -> Option<MsgView> {
    match m {
        Some(x) => Some(x@),
        None => None,
    }
}

impl View for Machina {
    type V = MachinaView;

    open spec fn view(&self) -> MachinaView {
        match self {
            Machina::Start => MachinaView::Start,
            Machina::IntroducedSelf { version, verack } => MachinaView::IntroducedSelf {
                version: opt_view(*version),
                verack: opt_view(*verack),
            },
            Machina::IntroducedByPeer { version } => MachinaView::IntroducedByPeer {
                version: version@,
            },
            Machina::Ready { version } => MachinaView::Ready { version: version@ },
            Machina::Failed(e) => MachinaView::Failed(*e),
        }
    }
}

pub open spec fn is_version(m: MsgView) -> bool {
    m.payload matches Some(PayloadView::Version(_))
}

pub open spec fn is_verack(m: MsgView) -> bool {
    m.payload matches Some(PayloadView::Verack)
}

/// The next state once the peer's `version` and `verack` received so far
/// are recorded: ready, after a `verack` is sent, when both are there.
pub open spec fn spec_after_introduced_self(version: Option<MsgView>, verack: Option<MsgView>) -> (
    MachinaView,
    Seq<HandshakeActionView>,
) {
    match (version, verack) {
        (Some(v), Some(_)) => (
            MachinaView::Ready { version: v },
            seq![HandshakeActionView::SendVerack],
        ),
        _ => (MachinaView::IntroducedSelf { version, verack }, Seq::empty()),
    }
}

pub open spec fn failed(e: HandshakeError) -> (MachinaView, Seq<HandshakeActionView>) {
    (MachinaView::Failed(e), Seq::empty())
}

/// The next state and what to send, from the state `s` and the event `e`.
/// Once the peer or this node introduced itself, the router is not read:
/// its requests leave the state as it is.
pub open spec fn spec_step(s: MachinaView, e: HandshakeEventView) -> (
    MachinaView,
    Seq<HandshakeActionView>,
) {
    match s {
        MachinaView::Start => match e {
            HandshakeEventView::Closed => failed(HandshakeError::Aborted),
            HandshakeEventView::FromRouter(req) => match req {
                PeerRequestView::Forward(raw) => (
                    MachinaView::IntroducedSelf { version: None, verack: None },
                    seq![HandshakeActionView::SendRaw(raw)],
                ),
                _ => failed(HandshakeError::WrongMessage),
            },
            HandshakeEventView::FromPeer(m) => match m.payload {
                Some(PayloadView::Version(v)) => (
                    MachinaView::IntroducedByPeer { version: m },
                    seq![HandshakeActionView::SendVersionAndVerack { addr: v.addr_recv }],
                ),
                _ => failed(HandshakeError::WrongMessage),
            },
        },
        MachinaView::IntroducedSelf { version, verack } => match e {
            HandshakeEventView::Closed => failed(HandshakeError::Aborted),
            HandshakeEventView::FromRouter(_) => (s, Seq::empty()),
            HandshakeEventView::FromPeer(m) => if is_version(m) {
                if version is Some {
                    failed(HandshakeError::VersionAlreadyReceived)
                } else {
                    spec_after_introduced_self(Some(m), verack)
                }
            } else if is_verack(m) {
                if verack is Some {
                    failed(HandshakeError::VerackAlreadyReceived)
                } else {
                    spec_after_introduced_self(version, Some(m))
                }
            } else {
                failed(HandshakeError::WrongMessage)
            },
        },
        MachinaView::IntroducedByPeer { version } => match e {
            HandshakeEventView::Closed => failed(HandshakeError::Aborted),
            HandshakeEventView::FromRouter(_) => (s, Seq::empty()),
            HandshakeEventView::FromPeer(m) => if is_verack(m) {
                (MachinaView::Ready { version }, Seq::empty())
            } else {
                failed(HandshakeError::WrongMessage)
            },
        },
        _ => (s, Seq::empty()),
    }
}

fn msg_is_version(m: &Msg) -> (r: bool)
    ensures
        r == is_version(m@),
{
    match &m.payload {
        Some(Payload::Version(_)) => true,
        _ => false,
    }
}

fn msg_is_verack(m: &Msg) -> (r: bool)
    ensures
        r == is_verack(m@),
{
    match &m.payload {
        Some(Payload::Verack) => true,
        _ => false,
    }
}

fn after_introduced_self(version: Option<Msg>, verack: Option<Msg>) -> (r: (
    Machina,
    Vec<HandshakeAction>,
))
    ensures
        (r.0@, views(r.1@)) == spec_after_introduced_self(opt_view(version), opt_view(verack)),
{
    match (version, verack) {
        (Some(v), Some(va)) => {
            let actions = vec![HandshakeAction::SendVerack];
            assert(views(actions@) =~= seq![HandshakeActionView::SendVerack]);
            (Machina::Ready { version: v }, actions)
        },
        (version, verack) => {
            let actions: Vec<HandshakeAction> = Vec::new();
            assert(views(actions@) =~= Seq::<HandshakeActionView>::empty());
            (Machina::IntroducedSelf { version, verack }, actions)
        },
    }
}

fn fail(e: HandshakeError) -> (r: (Machina, Vec<HandshakeAction>))
    ensures
        (r.0@, views(r.1@)) == failed(e),
{
    let actions: Vec<HandshakeAction> = Vec::new();
    assert(views(actions@) =~= Seq::<HandshakeActionView>::empty());
    (Machina::Failed(e), actions)
}

impl Machina {
    /// The next state and what to send after `event`.
    pub fn step(self, event: HandshakeEvent) -> (r: (Machina, Vec<HandshakeAction>))
        ensures
            (r.0@, views(r.1@)) == spec_step(self@, event@),
    {
        let ghost s = self@;
        let ghost e = event@;
        let none: Vec<HandshakeAction> = Vec::new();
        assert(views(none@) =~= Seq::<HandshakeActionView>::empty());
        match self {
            Machina::Start => match event {
                HandshakeEvent::Closed => fail(HandshakeError::Aborted),
                HandshakeEvent::FromRouter(req) => match req {
                    PeerRequest::Forward(raw) => {
                        let ghost rv = raw@;
                        let actions = vec![HandshakeAction::SendRaw(raw)];
                        assert(views(actions@) =~= seq![HandshakeActionView::SendRaw(rv)]);
                        (Machina::IntroducedSelf { version: None, verack: None }, actions)
                    },
                    _ => fail(HandshakeError::WrongMessage),
                },
                HandshakeEvent::FromPeer(m) => {
                    let addr = match &m.payload {
                        Some(Payload::Version(v)) => Some(v.addr_recv.duplicate()),
                        _ => None,
                    };
                    match addr {
                        Some(addr) => {
                            let ghost av = addr@;
                            let actions = vec![HandshakeAction::SendVersionAndVerack { addr }];
                            assert(views(actions@) =~= seq![
                                HandshakeActionView::SendVersionAndVerack { addr: av },
                            ]);
                            (Machina::IntroducedByPeer { version: m }, actions)
                        },
                        None => fail(HandshakeError::WrongMessage),
                    }
                },
            },
            Machina::IntroducedSelf { version, verack } => match event {
                HandshakeEvent::Closed => fail(HandshakeError::Aborted),
                HandshakeEvent::FromRouter(_) => (Machina::IntroducedSelf { version, verack }, none),
                HandshakeEvent::FromPeer(m) => {
                    if msg_is_version(&m) {
                        if version.is_some() {
                            fail(HandshakeError::VersionAlreadyReceived)
                        } else {
                            after_introduced_self(Some(m), verack)
                        }
                    } else if msg_is_verack(&m) {
                        if verack.is_some() {
                            fail(HandshakeError::VerackAlreadyReceived)
                        } else {
                            after_introduced_self(version, Some(m))
                        }
                    } else {
                        fail(HandshakeError::WrongMessage)
                    }
                },
            },
            Machina::IntroducedByPeer { version } => match event {
                HandshakeEvent::Closed => fail(HandshakeError::Aborted),
                HandshakeEvent::FromRouter(_) => (Machina::IntroducedByPeer { version }, none),
                HandshakeEvent::FromPeer(m) => {
                    if msg_is_verack(&m) {
                        (Machina::Ready { version }, none)
                    } else {
                        fail(HandshakeError::WrongMessage)
                    }
                },
            },
            Machina::Ready { version } => (Machina::Ready { version }, none),
            Machina::Failed(err) => (Machina::Failed(err), none),
        }
    }
}

/// The state after the events `es`, one after the other, from `s`.
pub open spec fn spec_run(s: MachinaView, es: Seq<HandshakeEventView>) -> MachinaView
    decreases es.len(),
{
    if es.len() == 0 {
        s
    } else {
        spec_step(spec_run(s, es.drop_last()), es.last()).0
    }
}

pub open spec fn is_version_event(e: HandshakeEventView) -> bool {
    e matches HandshakeEventView::FromPeer(m) && is_version(m)
}

pub open spec fn is_verack_event(e: HandshakeEventView) -> bool {
    e matches HandshakeEventView::FromPeer(m) && is_verack(m)
}

/// The peer sent a `version` message among the events `es`.
pub open spec fn received_version(es: Seq<HandshakeEventView>) -> bool {
    exists|i: int| 0 <= i < es.len() && #[trigger] is_version_event(es[i])
}

/// The peer sent a `verack` message among the events `es`.
pub open spec fn received_verack(es: Seq<HandshakeEventView>) -> bool {
    exists|i: int| 0 <= i < es.len() && #[trigger] is_verack_event(es[i])
}

/// What every state reached from the start holds of the messages it keeps
/// and of the events that led to it.
pub open spec fn spec_inv(s: MachinaView, es: Seq<HandshakeEventView>) -> bool {
    match s {
        MachinaView::IntroducedSelf { version, verack } => {
            &&& (version matches Some(m) ==> is_version(m) && received_version(es))
            &&& (verack matches Some(m) ==> is_verack(m) && received_verack(es))
        },
        MachinaView::IntroducedByPeer { version } => is_version(version) && received_version(
            es,
        ),
        MachinaView::Ready { version } => {
            &&& is_version(version)
            &&& received_version(es)
            &&& received_verack(es)
        },
        _ => true,
    }
}

proof fn lemma_received_grows(es: Seq<HandshakeEventView>, e: HandshakeEventView)
    ensures
        received_version(es) ==> received_version(es.push(e)),
        received_verack(es) ==> received_verack(es.push(e)),
        is_version_event(e) ==> received_version(es.push(e)),
        is_verack_event(e) ==> received_verack(es.push(e)),
{
    let es2 = es.push(e);
    if received_version(es) {
        let i = choose|i: int| 0 <= i < es.len() && #[trigger] is_version_event(es[i]);
        assert(es2[i] == es[i]);
        assert(is_version_event(es2[i]));
    }
    if received_verack(es) {
        let i = choose|i: int| 0 <= i < es.len() && #[trigger] is_verack_event(es[i]);
        assert(es2[i] == es[i]);
        assert(is_verack_event(es2[i]));
    }
    assert(es2[es.len() as int] == e);
    if is_version_event(e) {
        assert(is_version_event(es2[es.len() as int]));
    }
    if is_verack_event(e) {
        assert(is_verack_event(es2[es.len() as int]));
    }
}

/// Every step keeps the invariant.
pub proof fn lemma_step_keeps_inv(s: MachinaView, es: Seq<HandshakeEventView>, e: HandshakeEventView)
    requires
        spec_inv(s, es),
    ensures
        spec_inv(spec_step(s, e).0, es.push(e)),
{
    lemma_received_grows(es, e);
}

/// The invariant holds of every state reached from the start.
pub proof fn lemma_run_inv(es: Seq<HandshakeEventView>)
    ensures
        spec_inv(spec_run(MachinaView::Start, es), es),
    decreases es.len(),
{
    if es.len() > 0 {
        let init = es.drop_last();
        lemma_run_inv(init);
        lemma_step_keeps_inv(spec_run(MachinaView::Start, init), init, es.last());
        assert(init.push(es.last()) =~= es);
    }
}

/// A handshake is done only after the peer sent both a `version` and a
/// `verack` message, and the version it keeps is the peer's `version`.
pub proof fn lemma_ready_only_after_version_and_verack(es: Seq<HandshakeEventView>)
    requires
        spec_run(MachinaView::Start, es) is Ready,
    ensures
        received_version(es),
        received_verack(es),
        spec_run(MachinaView::Start, es)->Ready_version.payload matches Some(
            PayloadView::Version(_),
        ),
{
    lemma_run_inv(es);
}

/// A done or failed handshake stays as it is, whatever comes next.
pub proof fn lemma_final_states_stay(s: MachinaView, e: HandshakeEventView)
    requires
        s is Ready || s is Failed,
    ensures
        spec_step(s, e) == (s, Seq::<HandshakeActionView>::empty()),
{
}

/// Once this node introduced itself, the step that completes the handshake
/// answers with a `verack`, whichever of the peer's `version` and `verack`
/// came last; and the handshake completes exactly when the second of them
/// arrives.
pub proof fn lemma_ready_from_introduced_self_sends_verack(
    version: Option<MsgView>,
    verack: Option<MsgView>,
    m: MsgView,
)
    ensures
        ({
            let (t, acts) = spec_step(
                MachinaView::IntroducedSelf { version, verack },
                HandshakeEventView::FromPeer(m),
            );
            &&& (t is Ready) ==> acts == seq![HandshakeActionView::SendVerack]
            &&& (version is Some && verack is None && is_verack(m)) ==> t == (MachinaView::Ready {
                version: version.unwrap(),
            })
            &&& (verack is Some && version is None && is_version(m)) ==> t == (MachinaView::Ready {
                version: m,
            })
        }),
{
}

/// From an introduction by this node, the peer's `version` then `verack`,
/// or its `verack` then `version`, both end ready with the same `version`,
/// having sent one `verack` in the last step and nothing before.
pub proof fn lemma_arrival_order_does_not_matter(v: MsgView, a: MsgView)
    requires
        is_version(v),
        is_verack(a),
    ensures
        ({
            let s0 = MachinaView::IntroducedSelf { version: None, verack: None };
            let (s1, acts1) = spec_step(s0, HandshakeEventView::FromPeer(v));
            let (s2, acts2) = spec_step(s1, HandshakeEventView::FromPeer(a));
            let (t1, bcts1) = spec_step(s0, HandshakeEventView::FromPeer(a));
            let (t2, bcts2) = spec_step(t1, HandshakeEventView::FromPeer(v));
            &&& acts1.len() == 0 && bcts1.len() == 0
            &&& s2 == (MachinaView::Ready { version: v })
            &&& t2 == (MachinaView::Ready { version: v })
            &&& acts2 == seq![HandshakeActionView::SendVerack]
            &&& bcts2 == seq![HandshakeActionView::SendVerack]
        }),
{
    assert(!is_verack(v));
    assert(!is_version(a));
}

/// How a handshake opens and ends when the peer introduces itself: from the
/// start, the router's forwarded `version` goes to the peer as it is; a
/// `version` from the peer is answered with this node's `version`, addressed
/// to the peer's receiving address, and a `verack`; and the peer's `verack`
/// then ends the handshake with nothing more to send.
pub proof fn lemma_handshake_openings(raw: Seq<u8>, m: MsgView, version: MsgView, a: MsgView)
    requires
        is_verack(a),
    ensures
        spec_step(MachinaView::Start, HandshakeEventView::FromRouter(PeerRequestView::Forward(raw)))
            == (MachinaView::IntroducedSelf { version: None, verack: None }, seq![
            HandshakeActionView::SendRaw(raw),
        ]),
        m.payload matches Some(PayloadView::Version(v)) ==> spec_step(
            MachinaView::Start,
            HandshakeEventView::FromPeer(m),
        ) == (MachinaView::IntroducedByPeer { version: m }, seq![
            HandshakeActionView::SendVersionAndVerack { addr: v.addr_recv },
        ]),
        spec_step(MachinaView::IntroducedByPeer { version }, HandshakeEventView::FromPeer(a)) == (
            MachinaView::Ready { version },
            Seq::<HandshakeActionView>::empty(),
        ),
{
}

} // verus!
