//! The scheduler's bookkeeping: which actors are registered, and which
//! requests each worker holds.
//!
//! A request goes to the worker that holds the fewest; when even that one
//! holds `workers_max_tasks` requests or more, or there is no worker yet, a
//! new worker is spawned for it. The channels to the workers and the reply
//! channels of the actors belong to the caller, which spawns a worker when
//! told to and forwards each response to the actor that asked.
use vstd::prelude::*;
use std::collections::HashSet;
use crate::actor::commons::{ActorId, AddrReqId, SchedulerError, SchedulerResponse};

verus! {

broadcast use vstd::std_specs::hash::group_hash_axioms;

pub struct Scheduler {
    actors: HashSet<ActorId>,
    outbox: Vec<Vec<AddrReqId>>,
    workers_max_tasks: usize,
    next_actor_id: ActorId,
}

#[verifier::ext_equal]
pub struct SchedulerView {
    /// The registered actors.
    pub actors: Set<ActorId>,
    /// For each worker, the requests it holds, oldest first.
    pub outbox: Seq<Seq<AddrReqId>>,
    pub max_tasks: usize,
    /// The number that the next registered actor gets.
    pub next_actor_id: ActorId,
}

impl View for Scheduler {
    type V = SchedulerView;

    closed spec fn view(&self) -> SchedulerView {
        SchedulerView {
            actors: self.actors@,
            outbox: self.outbox@.map_values(|w: Vec<AddrReqId>| w@),
            max_tasks: self.workers_max_tasks,
            next_actor_id: self.next_actor_id,
        }
    }
}

/// Where a request went.
#[derive(Debug, Clone, Copy, PartialEq, Eq, Structural)]
pub struct Dispatch {
    /// The worker's index; a spawned worker comes after all others.
    pub worker: usize,
    /// Whether the worker was spawned for this request.
    pub spawned: bool,
}

/// `s` with other workers.
pub open spec fn with_outbox(s: SchedulerView, outbox: Seq<Seq<AddrReqId>>) -> SchedulerView {
    SchedulerView { outbox, ..s }
}

/// `s` after an actor registered under the next free number.
pub open spec fn spec_registered(s: SchedulerView) -> SchedulerView {
    SchedulerView {
        actors: s.actors.insert(s.next_actor_id),
        next_actor_id: (s.next_actor_id + 1) as usize,
        ..s
    }
}

/// `s` after `actor_id` was unregistered.
pub open spec fn spec_unregistered(s: SchedulerView, actor_id: ActorId) -> SchedulerView {
    with_actors(s, s.actors.remove(actor_id))
}

/// `s` with other actors.
pub open spec fn with_actors(s: SchedulerView, actors: Set<ActorId>) -> SchedulerView {
    SchedulerView { actors, ..s }
}

/// Whether some worker holds `x`.
pub open spec fn is_pending(outbox: Seq<Seq<AddrReqId>>, x: AddrReqId) -> bool {
    exists|w: int| 0 <= w < outbox.len() && #[trigger] outbox[w].contains(x)
}

/// The most requests a worker ever holds: `max_tasks`, but at least one.
pub open spec fn task_cap(max_tasks: usize) -> nat {
    if max_tasks == 0 {
        1
    } else {
        max_tasks as nat
    }
}

/// Whether worker `w` holds no more requests than any other.
pub open spec fn least_loaded(outbox: Seq<Seq<AddrReqId>>, w: int) -> bool {
    &&& 0 <= w < outbox.len()
    &&& forall|j: int| 0 <= j < outbox.len() ==> outbox[w].len() <= #[trigger] outbox[j].len()
}

/// Whether a new request needs a new worker: every worker holds at least
/// `max_tasks` requests (which holds when there is none).
pub open spec fn needs_new_worker(outbox: Seq<Seq<AddrReqId>>, max_tasks: usize) -> bool {
    forall|j: int| 0 <= j < outbox.len() ==> #[trigger] outbox[j].len() >= max_tasks
}

/// The workers after `x` went to worker `w`, a new one when `w` is their
/// number.
pub open spec fn spec_assign(outbox: Seq<Seq<AddrReqId>>, w: int, x: AddrReqId) -> Seq<Seq<AddrReqId>> {
    if w == outbox.len() {
        outbox.push(seq![x])
    } else {
        outbox.update(w, outbox[w].push(x))
    }
}

/// The workers after worker `w` answered `x`.
pub open spec fn spec_release(outbox: Seq<Seq<AddrReqId>>, w: int, x: AddrReqId) -> Seq<Seq<AddrReqId>> {
    outbox.update(w, outbox[w].remove_value(x))
}

/// The scheduler's invariant: no request is held twice, by one worker or by
/// two, no worker holds more than `task_cap` requests, and each registered
/// actor has a number below the next one.
pub open spec fn wf(s: SchedulerView) -> bool {
    &&& forall|w: int| 0 <= w < s.outbox.len() ==> (#[trigger] s.outbox[w]).no_duplicates()
    &&& forall|w1: int, w2: int, x: AddrReqId|
        0 <= w1 < s.outbox.len() && 0 <= w2 < s.outbox.len() && w1 != w2
            && #[trigger] s.outbox[w1].contains(x) ==> !#[trigger] s.outbox[w2].contains(x)
    &&& forall|w: int| 0 <= w < s.outbox.len() ==> (#[trigger] s.outbox[w]).len() <= task_cap(s.max_tasks)
    &&& forall|a: ActorId| s.actors.contains(a) ==> a < s.next_actor_id
}

impl Scheduler {
    #[verifier::type_invariant]
    spec fn inv(self) -> bool {
        wf(self@)
    }

    /// A scheduler with no actor and no worker, that gives a worker up to
    /// `workers_max_tasks` requests before it spawns another.
    pub fn new(workers_max_tasks: usize) -> (r: Scheduler)
        ensures
            r@.actors == Set::<ActorId>::empty(),
            r@.outbox == Seq::<Seq<AddrReqId>>::empty(),
            r@.max_tasks == workers_max_tasks,
            r@.next_actor_id == 0,
            wf(r@),
    {
        let r = Scheduler {
            actors: HashSet::new(),
            outbox: Vec::new(),
            workers_max_tasks,
            next_actor_id: 0,
        };
        assert(r@.outbox =~= Seq::<Seq<AddrReqId>>::empty());
        r
    }

    /// Registers a new actor under the next free number.
    pub fn register(&mut self) -> (r: SchedulerResponse)
        ensures
            wf(final(self)@),
            old(self)@.next_actor_id < usize::MAX ==> {
                &&& (r matches SchedulerResponse::RegisterResponse(Ok(id)) && id
                    == old(self)@.next_actor_id)
                &&& !old(self)@.actors.contains(old(self)@.next_actor_id)
                &&& final(self)@.actors == old(self)@.actors.insert(old(self)@.next_actor_id)
                &&& final(self)@.next_actor_id == old(self)@.next_actor_id + 1
                &&& final(self)@ == spec_registered(old(self)@)
            },
            old(self)@.next_actor_id == usize::MAX ==> {
                &&& (r matches SchedulerResponse::RegisterResponse(Err(e)) && e
                    == SchedulerError::ActorIdsExhausted)
                &&& final(self)@ == old(self)@
            },
    {
        proof {
            use_type_invariant(&*self);
        }
        if self.next_actor_id == usize::MAX {
            return SchedulerResponse::RegisterResponse(Err(SchedulerError::ActorIdsExhausted));
        }
        let id = self.next_actor_id;
        assert(wf(SchedulerView { next_actor_id: (id + 1) as usize, ..self@ }));
        self.next_actor_id = id + 1;
        let mut actors: HashSet<ActorId> = HashSet::new();
        assert(wf(with_actors(self@, actors@)));
        std::mem::swap(&mut actors, &mut self.actors);
        actors.insert(id);
        assert(actors@ == old(self)@.actors.insert(id));
        assert(wf(with_actors(self@, actors@)));
        self.actors = actors;
        assert(self@.outbox == old(self)@.outbox);
        SchedulerResponse::RegisterResponse(Ok(id))
    }

    /// Forgets an actor. The requests it made stay with their workers.
    pub fn unregister(&mut self, actor_id: ActorId) -> (r: SchedulerResponse)
        ensures
            wf(final(self)@),
            final(self)@ == spec_unregistered(old(self)@, actor_id),
            old(self)@.actors.contains(actor_id) ==> (r matches SchedulerResponse::UnregisterResponse(
                Ok(()),
            )),
            !old(self)@.actors.contains(actor_id) ==> (r matches SchedulerResponse::UnregisterResponse(
                Err(SchedulerError::NotRegistered),
            )),
    {
        proof {
            use_type_invariant(&*self);
        }
        let mut actors: HashSet<ActorId> = HashSet::new();
        assert(wf(with_actors(self@, actors@)));
        std::mem::swap(&mut actors, &mut self.actors);
        let removed = actors.remove(&actor_id);
        assert(actors@ == old(self)@.actors.remove(actor_id));
        assert(wf(with_actors(self@, actors@)));
        self.actors = actors;
        assert(self@.outbox == old(self)@.outbox);
        if removed {
            SchedulerResponse::UnregisterResponse(Ok(()))
        } else {
            SchedulerResponse::UnregisterResponse(Err(SchedulerError::NotRegistered))
        }
    }

    /// Whether `actor_id` is registered.
    pub fn is_registered(&self, actor_id: ActorId) -> (r: bool)
        ensures
            r == self@.actors.contains(actor_id),
    {
        self.actors.contains(&actor_id)
    }

    /// The number of workers.
    pub fn workers(&self) -> (r: usize)
        ensures
            r == self@.outbox.len(),
    {
        self.outbox.len()
    }

    /// The number of requests that worker `w` holds.
    pub fn load(&self, w: usize) -> (r: usize)
        requires
            w < self@.outbox.len(),
        ensures
            r == self@.outbox[w as int].len(),
    {
        self.outbox[w].len()
    }

    /// Whether some worker holds `x`, and which.
    fn find(&self, x: AddrReqId) -> (r: Option<(usize, usize)>)
        ensures
            match r {
                Some((w, i)) => w < self@.outbox.len() && i < self@.outbox[w as int].len()
                    && self@.outbox[w as int][i as int] == x,
                None => !is_pending(self@.outbox, x),
            },
    {
        let mut w: usize = 0;
        while w < self.outbox.len()
            invariant
                w <= self.outbox.len(),
                forall|j: int| 0 <= j < w ==> !(#[trigger] self@.outbox[j]).contains(x),
            decreases self.outbox.len() - w,
        {
            let mut i: usize = 0;
            while i < self.outbox[w].len()
                invariant
                    w < self.outbox.len(),
                    i <= self.outbox[w as int].len(),
                    forall|k: int| 0 <= k < i ==> self@.outbox[w as int][k] != x,
                decreases self.outbox[w as int].len() - i,
            {
                if self.outbox[w][i] == x {
                    return Some((w, i));
                }
                i = i + 1;
            }
            w = w + 1;
        }
        None
    }

    /// The worker with the fewest requests, the first such when several are.
    fn least_loaded_worker(&self) -> (r: usize)
        requires
            self@.outbox.len() > 0,
        ensures
            least_loaded(self@.outbox, r as int),
    {
        let mut best: usize = 0;
        let mut w: usize = 1;
        while w < self.outbox.len()
            invariant
                1 <= w <= self.outbox.len(),
                best < w,
                forall|j: int| 0 <= j < w ==> self@.outbox[best as int].len() <= #[trigger] self@.outbox[j].len(),
            decreases self.outbox.len() - w,
        {
            if self.outbox[w].len() < self.outbox[best].len() {
                best = w;
            }
            w = w + 1;
        }
        best
    }

    /// Gives request `req` to a worker: to the one with the fewest requests,
    /// or to a new one when even that one holds `workers_max_tasks` or more.
    pub fn dispatch(&mut self, req: AddrReqId) -> (r: Result<Dispatch, SchedulerError>)
        ensures
            wf(final(self)@),
            match r {
                Ok(d) => {
                    &&& old(self)@.actors.contains(req.0)
                    &&& !is_pending(old(self)@.outbox, req)
                    &&& d.spawned == needs_new_worker(old(self)@.outbox, old(self)@.max_tasks)
                    &&& d.spawned ==> d.worker == old(self)@.outbox.len()
                    &&& !d.spawned ==> least_loaded(old(self)@.outbox, d.worker as int)
                    &&& final(self)@ == with_outbox(
                        old(self)@,
                        spec_assign(old(self)@.outbox, d.worker as int, req),
                    )
                },
                Err(SchedulerError::NotRegistered) => !old(self)@.actors.contains(req.0)
                    && final(self)@ == old(self)@,
                Err(SchedulerError::DuplicateRequest) => old(self)@.actors.contains(req.0)
                    && is_pending(old(self)@.outbox, req) && final(self)@ == old(self)@,
                Err(_) => false,
            },
    {
        proof {
            use_type_invariant(&*self);
        }
        if !self.actors.contains(&req.0) {
            return Err(SchedulerError::NotRegistered);
        }
        if let Some((w, i)) = self.find(req) {
            assert(self@.outbox[w as int].contains(req));
            return Err(SchedulerError::DuplicateRequest);
        }
        let ghost old_outbox = self@.outbox;
        let n = self.outbox.len();
        let target = if n == 0 {
            n
        } else {
            let best = self.least_loaded_worker();
            if self.outbox[best].len() >= self.workers_max_tasks {
                assert forall|j: int| 0 <= j < n implies #[trigger] old_outbox[j].len()
                    >= old(self)@.max_tasks by {
                    assert(old_outbox[best as int].len() <= old_outbox[j].len());
                }
                n
            } else {
                best
            }
        };
        let mut outbox: Vec<Vec<AddrReqId>> = Vec::new();
        assert(outbox@.map_values(|w: Vec<AddrReqId>| w@) =~= Seq::<Seq<AddrReqId>>::empty());
        assert(wf(with_outbox(self@, Seq::<Seq<AddrReqId>>::empty())));
        std::mem::swap(&mut outbox, &mut self.outbox);
        if target == n {
            let mut fresh: Vec<AddrReqId> = Vec::new();
            fresh.push(req);
            assert(fresh@ =~= seq![req]);
            outbox.push(fresh);
        } else {
            outbox[target].push(req);
        }
        assert(outbox@.map_values(|w: Vec<AddrReqId>| w@) =~= spec_assign(old_outbox, target as int, req));
        proof {
            lemma_assign_keeps_wf(old(self)@, target as int, req);
        }
        assert(wf(with_outbox(self@, outbox@.map_values(|w: Vec<AddrReqId>| w@))));
        self.outbox = outbox;
        Ok(Dispatch { worker: target, spawned: target == n })
    }

    /// Takes request `req` back from the worker that answered it, and
    /// tells which worker that was.
    pub fn respond(&mut self, req: AddrReqId) -> (r: Result<usize, SchedulerError>)
        ensures
            wf(final(self)@),
            match r {
                Ok(w) => {
                    &&& w < old(self)@.outbox.len()
                    &&& old(self)@.outbox[w as int].contains(req)
                    &&& final(self)@ == with_outbox(
                        old(self)@,
                        spec_release(old(self)@.outbox, w as int, req),
                    )
                },
                Err(SchedulerError::NotPending) => !is_pending(old(self)@.outbox, req)
                    && final(self)@ == old(self)@,
                Err(_) => false,
            },
    {
        proof {
            use_type_invariant(&*self);
        }
        match self.find(req) {
            None => Err(SchedulerError::NotPending),
            Some((w, i)) => {
                let ghost old_outbox = self@.outbox;
                proof {
                    old_outbox[w as int].index_of_first_ensures(req);
                    assert(old_outbox[w as int].no_duplicates());
                }
                let mut outbox: Vec<Vec<AddrReqId>> = Vec::new();
                assert(outbox@.map_values(|v: Vec<AddrReqId>| v@) =~= Seq::<Seq<AddrReqId>>::empty());
                assert(wf(with_outbox(self@, Seq::<Seq<AddrReqId>>::empty())));
                std::mem::swap(&mut outbox, &mut self.outbox);
                outbox[w].remove(i);
                assert(outbox@.map_values(|v: Vec<AddrReqId>| v@) =~= spec_release(old_outbox, w as int, req));
                proof {
                    lemma_release_keeps_wf(old(self)@, w as int, req);
                }
                assert(wf(with_outbox(self@, outbox@.map_values(|v: Vec<AddrReqId>| v@))));
                self.outbox = outbox;
                Ok(w)
            },
        }
    }
}

/// What a worker holds after `x` went to worker `w`: what it held before,
/// and `x` if it is worker `w`.
proof fn lemma_assign_contains(s: Seq<Seq<AddrReqId>>, w: int, x: AddrReqId, j: int, y: AddrReqId)
    requires
        0 <= w <= s.len(),
        0 <= j < spec_assign(s, w, x).len(),
        spec_assign(s, w, x)[j].contains(y),
    ensures
        (j < s.len() && s[j].contains(y)) || (j == w && y == x),
{
    let o = spec_assign(s, w, x);
    let k = choose|k: int| 0 <= k < o[j].len() && o[j][k] == y;
    if j != w {
        assert(s[j][k] == y);
    } else if w < s.len() && k < s[w].len() {
        assert(s[w][k] == y);
    }
}

/// Giving a request that no worker holds to a worker that is allowed to
/// take it keeps the invariant.
proof fn lemma_assign_keeps_wf(s: SchedulerView, w: int, x: AddrReqId)
    requires
        wf(s),
        !is_pending(s.outbox, x),
        0 <= w <= s.outbox.len(),
        w == s.outbox.len() || s.outbox[w].len() < s.max_tasks,
    ensures
        wf(with_outbox(s, spec_assign(s.outbox, w, x))),
{
    let o = spec_assign(s.outbox, w, x);
    assert forall|j: int| 0 <= j < o.len() implies (#[trigger] o[j]).no_duplicates() by {
        if j == w && w < s.outbox.len() {
            assert(!s.outbox[w].contains(x));
        }
    }
    assert forall|w1: int, w2: int, y: AddrReqId|
        0 <= w1 < o.len() && 0 <= w2 < o.len() && w1 != w2 && #[trigger] o[w1].contains(y) implies
        !#[trigger] o[w2].contains(y) by {
        lemma_assign_contains(s.outbox, w, x, w1, y);
        if o[w2].contains(y) {
            lemma_assign_contains(s.outbox, w, x, w2, y);
            if y == x {
                if w1 != w {
                    assert(s.outbox[w1].contains(x));
                } else {
                    assert(s.outbox[w2].contains(x));
                }
            }
        }
    }
}

/// Taking back a request from the worker that holds it keeps the invariant.
proof fn lemma_release_keeps_wf(s: SchedulerView, w: int, x: AddrReqId)
    requires
        wf(s),
        0 <= w < s.outbox.len(),
        s.outbox[w].contains(x),
    ensures
        wf(with_outbox(s, spec_release(s.outbox, w, x))),
{
    let o = spec_release(s.outbox, w, x);
    s.outbox[w].index_of_first_ensures(x);
    let i = s.outbox[w].index_of_first(x).unwrap();
    assert(o[w] == s.outbox[w].remove(i));
    assert forall|y: AddrReqId| #[trigger] o[w].contains(y) implies s.outbox[w].contains(y) by {
        let k = choose|k: int| 0 <= k < o[w].len() && o[w][k] == y;
        if k < i {
            assert(s.outbox[w][k] == y);
        } else {
            assert(s.outbox[w][k + 1] == y);
        }
    }
}

/// A response undoes the bookkeeping of its request: the workers hold what
/// they held before, and a worker spawned for the request stays, empty.
pub proof fn lemma_respond_undoes_dispatch(s: SchedulerView, w: int, x: AddrReqId)
    requires
        wf(s),
        !is_pending(s.outbox, x),
        0 <= w <= s.outbox.len(),
    ensures
        spec_release(spec_assign(s.outbox, w, x), w, x) == spec_after_response(s.outbox, w),
{
    let o = spec_assign(s.outbox, w, x);
    let n = if w == s.outbox.len() { 0 } else { s.outbox[w].len() as int };
    assert(o[w][n] == x);
    o[w].index_of_first_ensures(x);
    let i = o[w].index_of_first(x).unwrap();
    if i != n {
        assert(o[w][i] == x);
        if w < s.outbox.len() {
            assert(s.outbox[w][i] == x);
            assert(s.outbox[w].contains(x));
        }
    }
    assert(o[w].remove(n) =~= (if w == s.outbox.len() { Seq::<AddrReqId>::empty() } else { s.outbox[w] }));
    assert(spec_release(o, w, x) =~= (if w == s.outbox.len() {
        s.outbox.push(Seq::<AddrReqId>::empty())
    } else {
        s.outbox
    }));
}

/// Once the worker that holds a request answers it, no worker holds it any
/// more.
pub proof fn lemma_respond_clears_request(s: SchedulerView, w: int, x: AddrReqId)
    requires
        wf(s),
        0 <= w < s.outbox.len(),
        s.outbox[w].contains(x),
    ensures
        !is_pending(spec_release(s.outbox, w, x), x),
{
    let o = spec_release(s.outbox, w, x);
    s.outbox[w].index_of_first_ensures(x);
    let i = s.outbox[w].index_of_first(x).unwrap();
    assert(o[w] == s.outbox[w].remove(i));
    if is_pending(o, x) {
        let v = choose|v: int| 0 <= v < o.len() && #[trigger] o[v].contains(x);
        if v == w {
            let k = choose|k: int| 0 <= k < o[w].len() && o[w][k] == x;
            if k < i {
                assert(s.outbox[w][k] == x);
            } else {
                assert(s.outbox[w][k + 1] == x);
            }
            assert(s.outbox[w].no_duplicates());
        } else {
            assert(s.outbox[v].contains(x));
        }
    }
}

/// The workers after a request to worker `w` was answered: as before, with
/// an empty worker more when `w` was spawned for it.
pub open spec fn spec_after_response(outbox: Seq<Seq<AddrReqId>>, w: int) -> Seq<Seq<AddrReqId>> {
    if w == outbox.len() {
        outbox.push(Seq::<AddrReqId>::empty())
    } else {
        outbox
    }
}

/// The number that a registration hands out belongs to no registered actor.
pub proof fn lemma_registration_number_is_fresh(s: SchedulerView)
    requires
        wf(s),
    ensures
        !s.actors.contains(s.next_actor_id),
{
}

/// No worker ever holds more than `max_tasks` requests, or more than one
/// when `max_tasks` is zero.
pub proof fn lemma_worker_load_bounded(s: SchedulerView, w: int)
    requires
        wf(s),
        0 <= w < s.outbox.len(),
    ensures
        s.outbox[w].len() <= task_cap(s.max_tasks),
{
}

/// Registering an actor and then unregistering another one leaves the new
/// actor registered and the other one gone; every further actor stays as it
/// was, and the workers keep their requests.
pub proof fn lemma_register_then_unregister_other(s: SchedulerView, other: ActorId, a: ActorId)
    requires
        wf(s),
        s.next_actor_id < usize::MAX,
        other != s.next_actor_id,
    ensures
        ({
            let t = spec_unregistered(spec_registered(s), other);
            &&& t.actors.contains(s.next_actor_id)
            &&& !t.actors.contains(other)
            &&& (a != other && a != s.next_actor_id) ==> (t.actors.contains(a) == s.actors.contains(a))
            &&& t.outbox == s.outbox
            &&& wf(t)
        }),
{
}

/// Whether key `k` is one that a drain for `key` takes: `key` itself, or,
/// with `whole_actor`, any key of the same actor.
pub open spec fn matches_key(k: AddrReqId, key: AddrReqId, whole_actor: bool) -> bool {
    if whole_actor {
        k.0 == key.0
    } else {
        k == key
    }
}

/// The handle of the last entry of `s` whose key a drain for `key` takes.
pub open spec fn last_match<R>(s: Seq<(AddrReqId, R)>, key: AddrReqId, whole_actor: bool) -> Option<R>
    decreases s.len(),
{
    if s.len() == 0 {
        None
    } else if matches_key(s.last().0, key, whole_actor) {
        Some(s.last().1)
    } else {
        last_match(s.drop_last(), key, whole_actor)
    }
}

/// The entries of `s` that a drain for `key` leaves, in their order.
pub open spec fn without_matching<R>(s: Seq<(AddrReqId, R)>, key: AddrReqId, whole_actor: bool) -> Seq<
    (AddrReqId, R),
>
    decreases s.len(),
{
    if s.len() == 0 {
        s
    } else if matches_key(s.last().0, key, whole_actor) {
        without_matching(s.drop_last(), key, whole_actor)
    } else {
        without_matching(s.drop_last(), key, whole_actor).push(s.last())
    }
}

/// The handle that the latest entry for `key` holds.
pub open spec fn latest_reply<R>(s: Seq<(AddrReqId, R)>, key: AddrReqId) -> Option<R> {
    last_match(s, key, false)
}

/// Draining leaves no entry for a taken key and keeps the latest handle of
/// every other key.
proof fn lemma_latest_after_drain<R>(s: Seq<(AddrReqId, R)>, key: AddrReqId, whole_actor: bool, k: AddrReqId)
    ensures
        latest_reply(without_matching(s, key, whole_actor), k) == if matches_key(k, key, whole_actor) {
            None
        } else {
            latest_reply(s, k)
        },
    decreases s.len(),
{
    if s.len() > 0 {
        lemma_latest_after_drain(s.drop_last(), key, whole_actor, k);
        if !matches_key(s.last().0, key, whole_actor) {
            let w = without_matching(s.drop_last(), key, whole_actor);
            assert(w.push(s.last()).drop_last() =~= w);
        }
    }
}

/// Who waits for the response to each request: the reply handle of each
/// (actor, request) pair that a worker holds.
pub struct ReplyTable<R> {
    entries: Vec<(AddrReqId, R)>,
}

impl<R> View for ReplyTable<R> {
    type V = Map<AddrReqId, R>;

    closed spec fn view(&self) -> Map<AddrReqId, R> {
        Map::new(
            |k: AddrReqId| latest_reply(self.entries@, k) is Some,
            |k: AddrReqId| latest_reply(self.entries@, k)->0,
        )
    }
}

impl<R> ReplyTable<R> {
    /// A table in which nobody waits.
    pub fn new() -> (r: ReplyTable<R>)
        ensures
            r@ == Map::<AddrReqId, R>::empty(),
    {
        let r = ReplyTable { entries: Vec::new() };
        assert(r@ =~= Map::<AddrReqId, R>::empty());
        r
    }

    /// Records that `reply` waits for the response to `key`, in place of
    /// any handle recorded for it before.
    pub fn insert(&mut self, key: AddrReqId, reply: R)
        ensures
            final(self)@ == old(self)@.insert(key, reply),
    {
        self.entries.push((key, reply));
        proof {
            let s = self.entries@;
            assert(s.drop_last() =~= old(self).entries@);
        }
        assert(self@ =~= old(self)@.insert(key, reply));
    }

    /// Takes out the entries that a drain for `key` takes, and gives the
    /// handle of the last of them.
    fn drain(&mut self, key: AddrReqId, whole_actor: bool) -> (r: Option<R>)
        ensures
            final(self).entries@ == without_matching(old(self).entries@, key, whole_actor),
            r == last_match(old(self).entries@, key, whole_actor),
    {
        let ghost all = self.entries@;
        let mut found: Option<R> = None;
        let mut i: usize = 0;
        let ghost mut j: int = 0;
        while i < self.entries.len()
            invariant
                0 <= j <= all.len(),
                self.entries@ == without_matching(all.take(j), key, whole_actor) + all.skip(j),
                i == without_matching(all.take(j), key, whole_actor).len(),
                found == last_match(all.take(j), key, whole_actor),
            decreases all.len() - j,
        {
            let ghost before = self.entries@;
            let ghost prefix = without_matching(all.take(j), key, whole_actor);
            assert(all.take(j + 1).drop_last() =~= all.take(j));
            assert(before[i as int] == all[j]);
            let k = self.entries[i].0;
            let taken = if whole_actor {
                k.0 == key.0
            } else {
                k == key
            };
            if taken {
                let (_, reply) = self.entries.remove(i);
                found = Some(reply);
                assert(self.entries@ =~= prefix + all.skip(j + 1));
            } else {
                i = i + 1;
                assert(self.entries@ =~= prefix.push(all[j]) + all.skip(j + 1));
            }
            proof {
                j = j + 1;
            }
        }
        assert(all.take(j) =~= all);
        found
    }

    /// Takes out the handle that waits for the response to `key`, if any.
    pub fn take(&mut self, key: AddrReqId) -> (r: Option<R>)
        ensures
            r == (if old(self)@.contains_key(key) {
                Some(old(self)@[key])
            } else {
                None::<R>
            }),
            final(self)@ == old(self)@.remove(key),
    {
        let r = self.drain(key, false);
        proof {
            assert forall|k: AddrReqId| true implies latest_reply(self.entries@, k) == if k == key {
                None
            } else {
                latest_reply(old(self).entries@, k)
            } by {
                lemma_latest_after_drain(old(self).entries@, key, false, k);
            }
        }
        assert(self@ =~= old(self)@.remove(key));
        r
    }

    /// Forgets every handle that waits for a response to `actor_id`.
    pub fn forget_actor(&mut self, actor_id: ActorId)
        ensures
            final(self)@ == old(self)@.remove_keys(Set::new(|k: AddrReqId| k.0 == actor_id)),
    {
        let key = AddrReqId(actor_id, 0);
        let _ = self.drain(key, true);
        proof {
            assert forall|k: AddrReqId| true implies latest_reply(self.entries@, k) == if k.0 == actor_id {
                None
            } else {
                latest_reply(old(self).entries@, k)
            } by {
                lemma_latest_after_drain(old(self).entries@, key, true, k);
            }
        }
        assert(self@ =~= old(self)@.remove_keys(Set::new(|k: AddrReqId| k.0 == actor_id)));
    }
}

} // verus!
