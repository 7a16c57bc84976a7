//! The agent/observer fabric: envelopes received from agents are fanned out
//! to the observers whose subscription matches them.

use vstd::prelude::*;
use vstd::string::*;

verus! {

/// Direction of an envelope.
#[derive(Debug, Clone, Copy, PartialEq, Eq, Structural)]
pub enum Direction {
    Up,
    Down,
}

/// The direction named `s` (`up`/`upstream`, `down`/`downstream`).
pub open spec fn direction_named(s: Seq<char>) -> Option<Direction> {
    if s == "up"@ || s == "upstream"@ {
        Some(Direction::Up)
    } else if s == "down"@ || s == "downstream"@ {
        Some(Direction::Down)
    } else {
        None
    }
}

impl Direction {
    /// Parses a direction name; `None` for anything else.
    pub fn from_name(s: &str) -> (r: Option<Direction>)
        ensures
            r == direction_named(s@),
    {
        let v = s.to_owned();
        if v == "up".to_owned() || v == "upstream".to_owned() {
            Some(Direction::Up)
        } else if v == "down".to_owned() || v == "downstream".to_owned() {
            Some(Direction::Down)
        } else {
            None
        }
    }

    /// The wire name: `up` or `down`.
    pub fn name(&self) -> (r: String)
        ensures
            r@ == (match *self {
                Direction::Up => "up"@,
                Direction::Down => "down"@,
            }),
    {
        match self {
            Direction::Up => "up".to_owned(),
            Direction::Down => "down".to_owned(),
        }
    }
}

/// Kind of an envelope, with a catch-all for kinds not known here.
#[derive(Debug, Clone, Copy, PartialEq, Eq, Structural)]
pub enum MessageKind {
    RegisterAgent,
    Heartbeat,
    Metrics,
    OfferCapacity,
    DirectiveProgress,
    UsageReport,
    ResourceProfiles,
    AvailableModelCapacity,
    PreloadModel,
    EvictModel,
    AssignWorkload,
    UpdateRegistry,
    Drain,
    RestartAgent,
    Ack,
    Error,
    Unknown,
}

/// The canonical lower-snake name of a kind.
pub open spec fn kind_name(k: MessageKind) -> Seq<char> {
    match k {
        MessageKind::RegisterAgent => "register_agent"@,
        MessageKind::Heartbeat => "heartbeat"@,
        MessageKind::Metrics => "metrics"@,
        MessageKind::OfferCapacity => "offer_capacity"@,
        MessageKind::DirectiveProgress => "directive_progress"@,
        MessageKind::UsageReport => "usage_report"@,
        MessageKind::ResourceProfiles => "resource_profiles"@,
        MessageKind::AvailableModelCapacity => "available_model_capacity"@,
        MessageKind::PreloadModel => "preload_model"@,
        MessageKind::EvictModel => "evict_model"@,
        MessageKind::AssignWorkload => "assign_workload"@,
        MessageKind::UpdateRegistry => "update_registry"@,
        MessageKind::Drain => "drain"@,
        MessageKind::RestartAgent => "restart_agent"@,
        MessageKind::Ack => "ack"@,
        MessageKind::Error => "error"@,
        MessageKind::Unknown => "unknown"@,
    }
}

/// The kind whose name is `s`; `Unknown` when no known kind has that name.
pub open spec fn kind_named(s: Seq<char>) -> MessageKind {
    if s == "register_agent"@ {
        MessageKind::RegisterAgent
    } else if s == "heartbeat"@ {
        MessageKind::Heartbeat
    } else if s == "metrics"@ {
        MessageKind::Metrics
    } else if s == "offer_capacity"@ {
        MessageKind::OfferCapacity
    } else if s == "directive_progress"@ {
        MessageKind::DirectiveProgress
    } else if s == "usage_report"@ {
        MessageKind::UsageReport
    } else if s == "resource_profiles"@ {
        MessageKind::ResourceProfiles
    } else if s == "available_model_capacity"@ {
        MessageKind::AvailableModelCapacity
    } else if s == "preload_model"@ {
        MessageKind::PreloadModel
    } else if s == "evict_model"@ {
        MessageKind::EvictModel
    } else if s == "assign_workload"@ {
        MessageKind::AssignWorkload
    } else if s == "update_registry"@ {
        MessageKind::UpdateRegistry
    } else if s == "drain"@ {
        MessageKind::Drain
    } else if s == "restart_agent"@ {
        MessageKind::RestartAgent
    } else if s == "ack"@ {
        MessageKind::Ack
    } else if s == "error"@ {
        MessageKind::Error
    } else {
        MessageKind::Unknown
    }
}

impl MessageKind {
    /// The canonical lower-snake name.
    pub fn name(&self) -> (r: String)
        ensures
            r@ == kind_name(*self),
    {
        match self {
            MessageKind::RegisterAgent => "register_agent".to_owned(),
            MessageKind::Heartbeat => "heartbeat".to_owned(),
            MessageKind::Metrics => "metrics".to_owned(),
            MessageKind::OfferCapacity => "offer_capacity".to_owned(),
            MessageKind::DirectiveProgress => "directive_progress".to_owned(),
            MessageKind::UsageReport => "usage_report".to_owned(),
            MessageKind::ResourceProfiles => "resource_profiles".to_owned(),
            MessageKind::AvailableModelCapacity => "available_model_capacity".to_owned(),
            MessageKind::PreloadModel => "preload_model".to_owned(),
            MessageKind::EvictModel => "evict_model".to_owned(),
            MessageKind::AssignWorkload => "assign_workload".to_owned(),
            MessageKind::UpdateRegistry => "update_registry".to_owned(),
            MessageKind::Drain => "drain".to_owned(),
            MessageKind::RestartAgent => "restart_agent".to_owned(),
            MessageKind::Ack => "ack".to_owned(),
            MessageKind::Error => "error".to_owned(),
            MessageKind::Unknown => "unknown".to_owned(),
        }
    }

    /// The kind with this name; names not known here fold to `Unknown`.
    pub fn from_name(s: &str) -> (r: MessageKind)
        ensures
            r == kind_named(s@),
    {
        let v = s.to_owned();
        if v == "register_agent".to_owned() {
            MessageKind::RegisterAgent
        } else if v == "heartbeat".to_owned() {
            MessageKind::Heartbeat
        } else if v == "metrics".to_owned() {
            MessageKind::Metrics
        } else if v == "offer_capacity".to_owned() {
            MessageKind::OfferCapacity
        } else if v == "directive_progress".to_owned() {
            MessageKind::DirectiveProgress
        } else if v == "usage_report".to_owned() {
            MessageKind::UsageReport
        } else if v == "resource_profiles".to_owned() {
            MessageKind::ResourceProfiles
        } else if v == "available_model_capacity".to_owned() {
            MessageKind::AvailableModelCapacity
        } else if v == "preload_model".to_owned() {
            MessageKind::PreloadModel
        } else if v == "evict_model".to_owned() {
            MessageKind::EvictModel
        } else if v == "assign_workload".to_owned() {
            MessageKind::AssignWorkload
        } else if v == "update_registry".to_owned() {
            MessageKind::UpdateRegistry
        } else if v == "drain".to_owned() {
            MessageKind::Drain
        } else if v == "restart_agent".to_owned() {
            MessageKind::RestartAgent
        } else if v == "ack".to_owned() {
            MessageKind::Ack
        } else if v == "error".to_owned() {
            MessageKind::Error
        } else {
            MessageKind::Unknown
        }
    }
}

/// A protocol envelope; the payload is carried as it came.
#[derive(Debug, Clone)]
pub struct Envelope {
    pub msg_id: String,
    pub site_id: Option<String>,
    pub agent_id: Option<String>,
    pub direction: Direction,
    pub kind: MessageKind,
    pub ts: Option<String>,
    pub payload: serde_json::Value,
}

impl Envelope {
    /// Assembles an envelope from its decoded fields; the direction must be
    /// a known name, the kind folds to `Unknown` when it is not known.
    pub fn from_parts(
        msg_id: String,
        site_id: Option<String>,
        agent_id: Option<String>,
        direction: &str,
        kind: &str,
        ts: Option<String>,
        payload: serde_json::Value,
    ) -> (r: Option<Envelope>)
        ensures
            match direction_named(direction@) {
                None => r is None,
                Some(d) => r matches Some(e) && e.direction == d && e.kind == kind_named(kind@)
                    && e.msg_id == msg_id && e.site_id == site_id && e.agent_id == agent_id && e.ts
                    == ts && e.payload == payload,
            },
    {
        match Direction::from_name(direction) {
            None => None,
            Some(d) => Some(
                Envelope {
                    msg_id,
                    site_id,
                    agent_id,
                    direction: d,
                    kind: MessageKind::from_name(kind),
                    ts,
                    payload,
                },
            ),
        }
    }
}

/// First identifier handed out to observers; agents get identifiers below
/// it, so the two ranges never meet.
pub const OBSERVER_ID_BASE: u64 = 1000000;

/// A connected agent.
#[derive(Debug, Clone)]
pub struct PortmanSubscriber {
    /// The peer's address, as text.
    pub peer_addr: String,
    /// Process-local identifier, never reused.
    pub connection_id: u64,
    /// Agent identity, once a registration has named it.
    pub agent_id: Option<String>,
}

fn copy_subscriber(s: &PortmanSubscriber) -> (r: PortmanSubscriber)
    ensures
        r == *s,
{
    let agent_id = match &s.agent_id {
        Some(a) => Some(a.clone()),
        None => None,
    };
    PortmanSubscriber { peer_addr: s.peer_addr.clone(), connection_id: s.connection_id, agent_id }
}

/// The connected agents.
#[derive(Debug)]
pub struct PortmanSubscribers {
    next_id: u64,
    connections: Vec<PortmanSubscriber>,
}

impl PortmanSubscribers {
    /// The connections, in the order they were added.
    pub closed spec fn spec_connections(&self) -> Seq<PortmanSubscriber> {
        self.connections@
    }

    /// The identifier the next connection receives.
    pub closed spec fn spec_next_id(&self) -> u64 {
        self.next_id
    }

    /// Identifiers are unique, all below the next one to hand out, and
    /// below the observers' range.
    pub open spec fn wf(&self) -> bool {
        &&& self.spec_next_id() <= OBSERVER_ID_BASE
        &&& forall|i: int|
            0 <= i < self.spec_connections().len() ==> (#[trigger] self.spec_connections()[i]).connection_id
                < self.spec_next_id()
        &&& forall|i: int, j: int|
            0 <= i < self.spec_connections().len() && 0 <= j < self.spec_connections().len() && i
                != j ==> (#[trigger] self.spec_connections()[i]).connection_id != (
            #[trigger] self.spec_connections()[j]).connection_id
    }

    /// No agent connected yet.
    pub fn new() -> (r: Self)
        ensures
            r.wf(),
            r.spec_connections().len() == 0,
            r.spec_next_id() == 0,
    {
        PortmanSubscribers { next_id: 0, connections: Vec::new() }
    }

    /// Whether another connection can be given a fresh identifier below the
    /// observers' range.
    pub fn has_capacity(&self) -> (r: bool)
        ensures
            r == (self.spec_next_id() < OBSERVER_ID_BASE),
    {
        self.next_id < OBSERVER_ID_BASE
    }

    /// Registers a new connection under a fresh identifier.
    pub fn add(&mut self, peer_addr: &str) -> (r: PortmanSubscriber)
        requires
            old(self).wf(),
            old(self).spec_next_id() < OBSERVER_ID_BASE,
        ensures
            final(self).wf(),
            r.connection_id == old(self).spec_next_id(),
            r.peer_addr@ == peer_addr@,
            r.agent_id is None,
            final(self).spec_next_id() == old(self).spec_next_id() + 1,
            final(self).spec_connections() == old(self).spec_connections().push(r),
    {
        let id = self.next_id;
        let sub = PortmanSubscriber { peer_addr: peer_addr.to_owned(), connection_id: id, agent_id: None };
        self.next_id = id + 1;
        self.connections.push(copy_subscriber(&sub));
        sub
    }

    /// Records the agent identity of connection `connection_id`, if present.
    pub fn set_agent_id(&mut self, connection_id: u64, agent_id: String)
        requires
            old(self).wf(),
        ensures
            final(self).wf(),
            final(self).spec_next_id() == old(self).spec_next_id(),
            final(self).spec_connections().len() == old(self).spec_connections().len(),
            forall|i: int|
                0 <= i < old(self).spec_connections().len() ==> {
                    let a = old(self).spec_connections()[i];
                    let b = #[trigger] final(self).spec_connections()[i];
                    &&& b.connection_id == a.connection_id
                    &&& b.peer_addr == a.peer_addr
                    &&& b.agent_id == if a.connection_id == connection_id {
                        Some(agent_id)
                    } else {
                        a.agent_id
                    }
                },
    {
        let mut i: usize = 0;
        while i < self.connections.len()
            invariant
                i <= self.connections@.len(),
                self.next_id == old(self).next_id,
                self.connections@.len() == old(self).connections@.len(),
                forall|x: int|
                    0 <= x < old(self).connections@.len() ==> {
                        let a = old(self).connections@[x];
                        let b = #[trigger] self.connections@[x];
                        &&& b.connection_id == a.connection_id
                        &&& b.peer_addr == a.peer_addr
                        &&& b.agent_id == if x < i && a.connection_id == connection_id {
                            Some(agent_id)
                        } else {
                            a.agent_id
                        }
                    },
            decreases self.connections.len() - i,
        {
            if self.connections[i].connection_id == connection_id {
                self.connections[i].agent_id = Some(agent_id.clone());
            }
            i += 1;
        }
        proof {
            assert forall|a: int, b: int|
                0 <= a < self.connections@.len() && 0 <= b < self.connections@.len() && a != b implies (
            #[trigger] self.connections@[a]).connection_id != (
            #[trigger] self.connections@[b]).connection_id by {
                assert(old(self).connections@[a].connection_id != old(self).connections@[b].connection_id);
            }
            assert forall|a: int| 0 <= a < self.connections@.len() implies (
            #[trigger] self.connections@[a]).connection_id < self.next_id by {
                assert(old(self).connections@[a].connection_id < old(self).next_id);
            }
        }
    }

    /// Removes connection `connection_id`, returning it if it was present.
    pub fn remove(&mut self, connection_id: u64) -> (r: Option<PortmanSubscriber>)
        requires
            old(self).wf(),
        ensures
            final(self).wf(),
            final(self).spec_next_id() == old(self).spec_next_id(),
            match r {
                Some(s) => exists|i: int|
                    0 <= i < old(self).spec_connections().len() && #[trigger] old(self).spec_connections()[i] == s && s.connection_id == connection_id
                        && final(self).spec_connections() == old(self).spec_connections().remove(i),
                None => final(self).spec_connections() == old(self).spec_connections()
                    && forall|i: int|
                    0 <= i < old(self).spec_connections().len() ==> (#[trigger] old(self).spec_connections()[i]).connection_id != connection_id,
            },
    {
        let mut i: usize = 0;
        while i < self.connections.len()
            invariant
                self == old(self),
                old(self).wf(),
                i <= self.connections@.len(),
                forall|x: int| 0 <= x < i ==> (#[trigger] self.connections@[x]).connection_id != connection_id,
            decreases self.connections.len() - i,
        {
            if self.connections[i].connection_id == connection_id {
                let s = self.connections.remove(i);
                proof {
                    let o = old(self).connections@;
                    assert(self.connections@ == o.remove(i as int));
                    assert forall|a: int, b: int|
                        0 <= a < self.connections@.len() && 0 <= b < self.connections@.len() && a != b implies (
                    #[trigger] self.connections@[a]).connection_id != (
                    #[trigger] self.connections@[b]).connection_id by {
                        let oa = if a < i { a } else { a + 1 };
                        let ob = if b < i { b } else { b + 1 };
                        assert(self.connections@[a] == o[oa]);
                        assert(self.connections@[b] == o[ob]);
                        assert(o[oa].connection_id != o[ob].connection_id);
                    }
                    assert forall|a: int| 0 <= a < self.connections@.len() implies (
                    #[trigger] self.connections@[a]).connection_id < self.next_id by {
                        let oa = if a < i { a } else { a + 1 };
                        assert(self.connections@[a] == o[oa]);
                        assert(o[oa].connection_id < old(self).next_id);
                    }
                }
                return Some(s);
            }
            i += 1;
        }
        None
    }

    /// A snapshot of the connections, in the order they were added.
    pub fn list(&self) -> (r: Vec<PortmanSubscriber>)
        ensures
            r@ == self.spec_connections(),
    {
        let mut out: Vec<PortmanSubscriber> = Vec::new();
        let mut i: usize = 0;
        while i < self.connections.len()
            invariant
                i <= self.connections@.len(),
                out@ == self.connections@.subrange(0, i as int),
            decreases self.connections.len() - i,
        {
            out.push(copy_subscriber(&self.connections[i]));
            i += 1;
        }
        assert(out@ =~= self.connections@);
        out
    }

    /// Number of connections.
    pub fn len(&self) -> (r: usize)
        ensures
            r == self.spec_connections().len(),
    {
        self.connections.len()
    }

    /// Whether no agent is connected.
    pub fn is_empty(&self) -> (r: bool)
        ensures
            r == (self.spec_connections().len() == 0),
    {
        self.connections.len() == 0
    }
}

/// What an observer can subscribe to.
#[derive(Debug, Clone, Copy, PartialEq, Eq, Structural)]
pub enum StreamKind {
    /// Every envelope.
    All,
    /// Envelopes whose kind is in the observer's filter.
    ByKind,
}

/// An observer's subscription.
#[derive(Debug, Clone)]
pub struct ObserverState {
    pub subscribed_kinds: Vec<StreamKind>,
    /// Kind names wanted through `ByKind`.
    pub kinds_filter: Option<Vec<String>>,
}

/// The filter names `name`.
pub open spec fn filter_names(f: Option<Vec<String>>, name: Seq<char>) -> bool {
    match f {
        Some(v) => exists|k: int| 0 <= k < v@.len() && (#[trigger] v@[k])@ == name,
        None => false,
    }
}

/// Observer state `st` receives envelopes of kind `kind`: it subscribed to
/// everything, or by kind with a filter that names the kind.
pub open spec fn wants(st: ObserverState, kind: MessageKind) -> bool {
    st.subscribed_kinds@.contains(StreamKind::All) || (st.subscribed_kinds@.contains(
        StreamKind::ByKind,
    ) && filter_names(st.kinds_filter, kind_name(kind)))
}

/// The identifiers of the observers in `os` that receive kind `k`, in order.
pub open spec fn recipients_in(os: Seq<(u64, ObserverState)>, k: MessageKind) -> Seq<u64>
    decreases os.len(),
{
    if os.len() == 0 {
        Seq::empty()
    } else {
        let r = recipients_in(os.drop_last(), k);
        if wants(os.last().1, k) {
            r.push(os.last().0)
        } else {
            r
        }
    }
}

/// No two observers share an identifier.
pub open spec fn ids_unique(os: Seq<(u64, ObserverState)>) -> bool {
    forall|i: int, j: int|
        0 <= i < os.len() && 0 <= j < os.len() && i != j ==> (#[trigger] os[i]).0 != (
        #[trigger] os[j]).0
}


fn copy_names(v: &Option<Vec<String>>) -> (r: Option<Vec<String>>)
    ensures
        same_names(r, *v),
{
    match v {
        None => None,
        Some(list) => {
            let mut out: Vec<String> = Vec::new();
            let mut k: usize = 0;
            while k < list.len()
                invariant
                    k <= list@.len(),
                    out@.len() == k,
                    forall|x: int| 0 <= x < k ==> (#[trigger] out@[x])@ == list@[x]@,
                decreases list.len() - k,
            {
                out.push(list[k].clone());
                k += 1;
            }
            Some(out)
        },
    }
}

/// Two optional name lists hold the same names.
pub open spec fn same_names(a: Option<Vec<String>>, b: Option<Vec<String>>) -> bool {
    match (a, b) {
        (Some(x), Some(y)) => x@.len() == y@.len() && forall|k: int|
            0 <= k < x@.len() ==> (#[trigger] x@[k])@ == y@[k]@,
        (None, None) => true,
        _ => false,
    }
}

/// Each of `All` and `ByKind` once, in that order, when `ks` holds it.
pub open spec fn canonical_kinds(ks: Seq<StreamKind>) -> Seq<StreamKind> {
    let a: Seq<StreamKind> = if ks.contains(StreamKind::All) {
        seq![StreamKind::All]
    } else {
        Seq::empty()
    };
    if ks.contains(StreamKind::ByKind) {
        a.push(StreamKind::ByKind)
    } else {
        a
    }
}

/// The distinct stream kinds of `ks`.
pub fn dedup_kinds(ks: &Vec<StreamKind>) -> (r: Vec<StreamKind>)
    ensures
        r@ == canonical_kinds(ks@),
{
    let mut all = false;
    let mut by_kind = false;
    let mut i: usize = 0;
    while i < ks.len()
        invariant
            i <= ks@.len(),
            all == ks@.subrange(0, i as int).contains(StreamKind::All),
            by_kind == ks@.subrange(0, i as int).contains(StreamKind::ByKind),
        decreases ks.len() - i,
    {
        proof {
            let a = ks@.subrange(0, i as int);
            let b = ks@.subrange(0, i + 1);
            assert(b =~= a.push(ks@[i as int]));
            assert forall|x: StreamKind| b.contains(x) == (a.contains(x) || ks@[i as int] == x) by {
                if b.contains(x) {
                    let j = choose|j: int| 0 <= j < b.len() && b[j] == x;
                    if j < i {
                        assert(a[j] == x);
                    }
                }
                if a.contains(x) {
                    let j = choose|j: int| 0 <= j < a.len() && a[j] == x;
                    assert(b[j] == x);
                }
                if ks@[i as int] == x {
                    assert(b[i as int] == x);
                }
            }
        }
        match ks[i] {
            StreamKind::All => {
                all = true;
            },
            StreamKind::ByKind => {
                by_kind = true;
            },
        }
        i += 1;
    }
    assert(ks@.subrange(0, ks@.len() as int) =~= ks@);
    let mut r: Vec<StreamKind> = Vec::new();
    if all {
        r.push(StreamKind::All);
    }
    if by_kind {
        r.push(StreamKind::ByKind);
    }
    proof {
        if all {
            assert(r@.subrange(0, 1) =~= seq![StreamKind::All]);
        }
        assert(r@ =~= canonical_kinds(ks@));
    }
    r
}

/// The connected observers and their subscriptions.
#[derive(Debug)]
pub struct Observers {
    next_id: u64,
    observers: Vec<(u64, ObserverState)>,
}

impl Observers {
    /// The observers, in the order they connected.
    pub closed spec fn spec_observers(&self) -> Seq<(u64, ObserverState)> {
        self.observers@
    }

    /// The identifier the next observer receives.
    pub closed spec fn spec_next_id(&self) -> u64 {
        self.next_id
    }

    /// Identifiers are unique, in the observers' range, and below the next
    /// one to hand out.
    pub open spec fn wf(&self) -> bool {
        &&& OBSERVER_ID_BASE <= self.spec_next_id()
        &&& forall|i: int|
            0 <= i < self.spec_observers().len() ==> OBSERVER_ID_BASE <= (
            #[trigger] self.spec_observers()[i]).0
        &&& ids_unique(self.spec_observers())
        &&& forall|i: int|
            0 <= i < self.spec_observers().len() ==> (#[trigger] self.spec_observers()[i]).0
                < self.spec_next_id()
    }

    /// No observer connected yet.
    pub fn new() -> (r: Self)
        ensures
            r.wf(),
            r.spec_observers().len() == 0,
            r.spec_next_id() == OBSERVER_ID_BASE,
    {
        Observers { next_id: OBSERVER_ID_BASE, observers: Vec::new() }
    }

    /// Whether another observer can be given a fresh identifier.
    pub fn has_capacity(&self) -> (r: bool)
        ensures
            r == (self.spec_next_id() < u64::MAX),
    {
        self.next_id < u64::MAX
    }

    /// Registers a new observer, subscribed to nothing, under a fresh
    /// identifier.
    pub fn open(&mut self) -> (r: u64)
        requires
            old(self).wf(),
            old(self).spec_next_id() < u64::MAX,
        ensures
            final(self).wf(),
            r == old(self).spec_next_id(),
            final(self).spec_next_id() == r + 1,
            final(self).spec_observers().len() == old(self).spec_observers().len() + 1,
            final(self).spec_observers().drop_last() == old(self).spec_observers(),
            final(self).spec_observers().last().0 == r,
            final(self).spec_observers().last().1.subscribed_kinds@.len() == 0,
            final(self).spec_observers().last().1.kinds_filter is None,
    {
        let id = self.next_id;
        self.next_id = id + 1;
        let st = ObserverState { subscribed_kinds: Vec::new(), kinds_filter: None };
        self.observers.push((id, st));
        proof {
            let o = old(self).observers@;
            assert(self.observers@.drop_last() =~= o);
            assert forall|i: int| 0 <= i < self.observers@.len() implies (
            #[trigger] self.observers@[i]).0 < self.next_id by {
                if i < o.len() {
                    assert(self.observers@[i] == o[i]);
                }
            }
            assert forall|i: int, j: int|
                0 <= i < self.observers@.len() && 0 <= j < self.observers@.len() && i != j implies (
            #[trigger] self.observers@[i]).0 != (#[trigger] self.observers@[j]).0 by {
                if i < o.len() {
                    assert(self.observers@[i] == o[i]);
                }
                if j < o.len() {
                    assert(self.observers@[j] == o[j]);
                }
            }
        }
        id
    }

    fn position(&self, connection_id: u64) -> (r: Option<usize>)
        ensures
            match r {
                Some(p) => p < self.spec_observers().len() && self.spec_observers()[p as int].0
                    == connection_id,
                None => forall|i: int|
                    0 <= i < self.spec_observers().len() ==> (#[trigger] self.spec_observers()[i]).0
                        != connection_id,
            },
    {
        let mut i: usize = 0;
        while i < self.observers.len()
            invariant
                i <= self.observers@.len(),
                forall|x: int| 0 <= x < i ==> (#[trigger] self.observers@[x]).0 != connection_id,
            decreases self.observers.len() - i,
        {
            if self.observers[i].0 == connection_id {
                return Some(i);
            }
            i += 1;
        }
        None
    }

    /// Removes observer `connection_id`, if present.
    pub fn remove(&mut self, connection_id: u64)
        requires
            old(self).wf(),
        ensures
            final(self).wf(),
            final(self).spec_next_id() == old(self).spec_next_id(),
            forall|i: int|
                0 <= i < final(self).spec_observers().len() ==> (#[trigger] final(self).spec_observers()[i]).0 != connection_id,
            forall|i: int|
                0 <= i < old(self).spec_observers().len() && (#[trigger] old(self).spec_observers()[i]).0 != connection_id ==> final(self).spec_observers().contains(
                    old(self).spec_observers()[i],
                ),
            (exists|p: int|
                0 <= p < old(self).spec_observers().len() && (#[trigger] old(self).spec_observers()[p]).0
                    == connection_id && final(self).spec_observers() == old(self).spec_observers().remove(p))
                || (final(self).spec_observers() == old(self).spec_observers() && forall|i: int|
                0 <= i < old(self).spec_observers().len() ==> (#[trigger] old(self).spec_observers()[i]).0
                    != connection_id),
    {
        match self.position(connection_id) {
            None => {},
            Some(p) => {
                let ghost o = self.observers@;
                self.observers.remove(p);
                proof {
                    assert(self.observers@ == o.remove(p as int));
                    assert forall|i: int| 0 <= i < self.observers@.len() implies (
                    #[trigger] self.observers@[i]).0 != connection_id by {
                        let oi = if i < p { i } else { i + 1 };
                        assert(self.observers@[i] == o[oi]);
                        assert(o[oi].0 != o[p as int].0);
                    }
                    assert forall|i: int|
                        0 <= i < o.len() && (#[trigger] o[i]).0 != connection_id implies self.observers@.contains(
                        o[i],
                    ) by {
                        let ni = if i < p { i } else { i - 1 };
                        assert(self.observers@[ni] == o[i]);
                    }
                    assert forall|a: int, b: int|
                        0 <= a < self.observers@.len() && 0 <= b < self.observers@.len() && a != b implies (
                    #[trigger] self.observers@[a]).0 != (#[trigger] self.observers@[b]).0 by {
                        let oa = if a < p { a } else { a + 1 };
                        let ob = if b < p { b } else { b + 1 };
                        assert(self.observers@[a] == o[oa]);
                        assert(self.observers@[b] == o[ob]);
                        assert(o[oa].0 != o[ob].0);
                    }
                    assert forall|a: int| 0 <= a < self.observers@.len() implies (
                    #[trigger] self.observers@[a]).0 < self.next_id by {
                        let oa = if a < p { a } else { a + 1 };
                        assert(self.observers@[a] == o[oa]);
                    }
                }
            },
        }
    }

    /// Replaces the subscription of observer `connection_id` (both its stream
    /// kinds and its kind filter), if it is present.
    pub fn set_subscription(
        &mut self,
        connection_id: u64,
        kinds: Vec<StreamKind>,
        kinds_filter: Option<Vec<String>>,
    )
        requires
            old(self).wf(),
        ensures
            final(self).wf(),
            final(self).spec_next_id() == old(self).spec_next_id(),
            final(self).spec_observers().len() == old(self).spec_observers().len(),
            forall|i: int|
                0 <= i < old(self).spec_observers().len() ==> {
                    let a = old(self).spec_observers()[i];
                    let b = #[trigger] final(self).spec_observers()[i];
                    &&& b.0 == a.0
                    &&& b.1 == if a.0 == connection_id {
                        ObserverState { subscribed_kinds: kinds, kinds_filter }
                    } else {
                        a.1
                    }
                },
    {
        match self.position(connection_id) {
            None => {},
            Some(p) => {
                let ghost o = self.observers@;
                self.observers.set(p, (connection_id, ObserverState { subscribed_kinds: kinds, kinds_filter }));
                proof {
                    assert forall|i: int| 0 <= i < o.len() && i != p implies o[i].0 != connection_id by {
                        assert(o[i].0 != o[p as int].0);
                    }
                    assert forall|a: int| 0 <= a < self.observers@.len() implies (
                    #[trigger] self.observers@[a]).0 < self.next_id by {
                        assert(self.observers@[a].0 == o[a].0);
                    }
                    assert forall|a: int, b: int|
                        0 <= a < self.observers@.len() && 0 <= b < self.observers@.len() && a != b implies (
                    #[trigger] self.observers@[a]).0 != (#[trigger] self.observers@[b]).0 by {
                        assert(self.observers@[a].0 == o[a].0);
                        assert(self.observers@[b].0 == o[b].0);
                    }
                }
            },
        }
    }

    /// A snapshot of the observers and their subscriptions.
    pub fn list(&self) -> (r: Vec<(u64, ObserverState)>)
        ensures
            r@.len() == self.spec_observers().len(),
            forall|i: int|
                0 <= i < r@.len() ==> (#[trigger] r@[i]).0 == self.spec_observers()[i].0 && r@[i].1.subscribed_kinds@
                    == self.spec_observers()[i].1.subscribed_kinds@ && same_names(
                    r@[i].1.kinds_filter,
                    self.spec_observers()[i].1.kinds_filter,
                ),
    {
        let mut out: Vec<(u64, ObserverState)> = Vec::new();
        let mut i: usize = 0;
        while i < self.observers.len()
            invariant
                i <= self.observers@.len(),
                out@.len() == i,
                forall|x: int|
                    0 <= x < i ==> (#[trigger] out@[x]).0 == self.observers@[x].0 && out@[x].1.subscribed_kinds@
                        == self.observers@[x].1.subscribed_kinds@ && same_names(
                        out@[x].1.kinds_filter,
                        self.observers@[x].1.kinds_filter,
                    ),
            decreases self.observers.len() - i,
        {
            let st = &self.observers[i].1;
            let kinds = st.subscribed_kinds.clone();
            proof {
                assert(kinds@ =~= st.subscribed_kinds@);
            }
            out.push((self.observers[i].0, ObserverState { subscribed_kinds: kinds, kinds_filter: copy_names(&st.kinds_filter) }));
            i += 1;
        }
        out
    }

    /// The observers that receive an envelope of kind `kind`, in the order
    /// they connected.
    pub fn recipients(&self, kind: MessageKind) -> (r: Vec<u64>)
        ensures
            r@ == recipients_in(self.spec_observers(), kind),
    {
        let ghost os = self.observers@;
        let mut out: Vec<u64> = Vec::new();
        let mut i: usize = 0;
        assert(os.subrange(0, 0) =~= Seq::<(u64, ObserverState)>::empty());
        while i < self.observers.len()
            invariant
                os == self.observers@,
                i <= os.len(),
                out@ == recipients_in(os.subrange(0, i as int), kind),
            decreases self.observers.len() - i,
        {
            proof {
                let s = os.subrange(0, i + 1);
                assert(s.drop_last() =~= os.subrange(0, i as int));
                assert(s.last() == os[i as int]);
            }
            if observer_wants(&self.observers[i].1, kind) {
                out.push(self.observers[i].0);
            }
            i += 1;
        }
        assert(os.subrange(0, os.len() as int) =~= os);
        out
    }
}

/// Whether observer state `st` receives envelopes of kind `kind`.
pub fn observer_wants(st: &ObserverState, kind: MessageKind) -> (r: bool)
    ensures
        r == wants(*st, kind),
{
    let mut all = false;
    let mut by_kind = false;
    let mut i: usize = 0;
    while i < st.subscribed_kinds.len()
        invariant
            i <= st.subscribed_kinds@.len(),
            all == exists|j: int| 0 <= j < i && st.subscribed_kinds@[j] == StreamKind::All,
            by_kind == exists|j: int| 0 <= j < i && st.subscribed_kinds@[j] == StreamKind::ByKind,
        decreases st.subscribed_kinds.len() - i,
    {
        match st.subscribed_kinds[i] {
            StreamKind::All => {
                all = true;
            },
            StreamKind::ByKind => {
                by_kind = true;
            },
        }
        i += 1;
    }
    if all {
        assert(st.subscribed_kinds@.contains(StreamKind::All));
        return true;
    }
    if !by_kind {
        return false;
    }
    assert(st.subscribed_kinds@.contains(StreamKind::ByKind));
    assert(!st.subscribed_kinds@.contains(StreamKind::All));
    let name = kind.name();
    match &st.kinds_filter {
        None => false,
        Some(f) => names_contain(f, &name),
    }
}

fn names_contain(f: &Vec<String>, name: &String) -> (r: bool)
    ensures
        r == exists|k: int| 0 <= k < f@.len() && (#[trigger] f@[k])@ == name@,
{
    let mut k: usize = 0;
    while k < f.len()
        invariant
            k <= f@.len(),
            forall|x: int| 0 <= x < k ==> (#[trigger] f@[x])@ != name@,
        decreases f.len() - k,
    {
        if f[k] == *name {
            return true;
        }
        k += 1;
    }
    false
}

/// A frame read from an agent connection, decoded as far as the socket layer
/// goes.
#[derive(Debug)]
pub enum AgentFrame {
    /// A text frame that decoded to an envelope.
    Envelope(Envelope),
    /// A text frame that did not decode, with the decoder's explanation.
    Malformed(String),
    Binary,
    Ping,
    Pong,
    Close,
    /// Reading from the socket failed.
    ReadError,
}

/// What the connection does with a frame.
#[derive(Debug)]
pub enum AgentAction {
    /// Send the envelope to these observers, then acknowledge with `ok`.
    Deliver { recipients: Vec<u64> },
    /// Answer with an `INVALID_ENVELOPE` error envelope carrying this message.
    ReplyInvalid { message: String },
    /// Nothing to do.
    Ignore,
    /// End the connection and deregister it.
    Stop,
}

/// The envelope registers an agent identity.
pub open spec fn registers(e: Envelope) -> bool {
    e.direction == Direction::Up && e.kind == MessageKind::RegisterAgent && e.agent_id is Some
}

/// Decides what the agent connection `connection_id` does with `frame`: a
/// registration records the agent identity; an envelope goes to the
/// observers that want its kind; a malformed one is answered with an error;
/// a close or read error ends the connection; anything else is ignored.
pub fn handle_agent_frame(
    agents: &mut PortmanSubscribers,
    observers: &Observers,
    connection_id: u64,
    frame: &AgentFrame,
) -> (r: AgentAction)
    requires
        old(agents).wf(),
    ensures
        final(agents).wf(),
        final(agents).spec_next_id() == old(agents).spec_next_id(),
        final(agents).spec_connections().len() == old(agents).spec_connections().len(),
        match frame {
            AgentFrame::Envelope(e) => {
                &&& r matches AgentAction::Deliver { recipients } && recipients@ == recipients_in(
                    observers.spec_observers(),
                    e.kind,
                )
                &&& forall|i: int|
                    0 <= i < old(agents).spec_connections().len() ==> {
                        let a = old(agents).spec_connections()[i];
                        let b = #[trigger] final(agents).spec_connections()[i];
                        &&& b.connection_id == a.connection_id
                        &&& b.agent_id == if registers(*e) && a.connection_id == connection_id {
                            e.agent_id
                        } else {
                            a.agent_id
                        }
                    }
            },
            AgentFrame::Malformed(why) => r matches AgentAction::ReplyInvalid { message } && message@
                == "failed to parse envelope: "@ + why@ && final(agents).spec_connections()
                == old(agents).spec_connections(),
            AgentFrame::Close | AgentFrame::ReadError => r is Stop && final(agents).spec_connections()
                == old(agents).spec_connections(),
            _ => r is Ignore && final(agents).spec_connections() == old(agents).spec_connections(),
        },
{
    match frame {
        AgentFrame::Envelope(e) => {
            if e.direction == Direction::Up && e.kind == MessageKind::RegisterAgent {
                match &e.agent_id {
                    Some(a) => agents.set_agent_id(connection_id, a.clone()),
                    None => {},
                }
            }
            AgentAction::Deliver { recipients: observers.recipients(e.kind) }
        },
        AgentFrame::Malformed(why) => {
            let mut message = "failed to parse envelope: ".to_owned();
            message.append(why.as_str());
            AgentAction::ReplyInvalid { message }
        },
        AgentFrame::Close | AgentFrame::ReadError => AgentAction::Stop,
        _ => AgentAction::Ignore,
    }
}

/// A command from an observer.
#[derive(Debug, Clone)]
pub enum ObserveCommand {
    /// Replace the subscription.
    Subscribe { kinds: Vec<StreamKind>, kinds_filter: Option<Vec<String>> },
    /// Ask for the connected agents.
    Discover { what: Option<String> },
}

/// The answer to an observer command.
#[derive(Debug)]
pub enum ObserveReply {
    /// The subscription now in force.
    Subscribed { kinds: Vec<StreamKind> },
    /// The connected agents.
    Agents { what: String, agents: Vec<PortmanSubscriber> },
    /// The command did not decode: help on valid commands, with this message.
    Help { message: String },
}

/// Carries out an observer's command (or answers with help when it did not
/// decode, `Err` holding the decoder's explanation).
pub fn handle_observe_command(
    observers: &mut Observers,
    agents: &PortmanSubscribers,
    connection_id: u64,
    command: Result<ObserveCommand, String>,
) -> (r: ObserveReply)
    requires
        old(observers).wf(),
    ensures
        final(observers).wf(),
        final(observers).spec_next_id() == old(observers).spec_next_id(),
        final(observers).spec_observers().len() == old(observers).spec_observers().len(),
        match command {
            Ok(ObserveCommand::Subscribe { kinds, kinds_filter }) => {
                &&& r matches ObserveReply::Subscribed { kinds: k } && k@ == canonical_kinds(kinds@)
                &&& forall|i: int|
                    0 <= i < old(observers).spec_observers().len() ==> {
                        let a = old(observers).spec_observers()[i];
                        let b = #[trigger] final(observers).spec_observers()[i];
                        &&& b.0 == a.0
                        &&& a.0 == connection_id ==> b.1.subscribed_kinds@ == canonical_kinds(kinds@)
                            && b.1.kinds_filter == kinds_filter
                        &&& a.0 != connection_id ==> b.1 == a.1
                    }
            },
            Ok(ObserveCommand::Discover { what }) => {
                &&& r matches ObserveReply::Agents { what: w, agents: list } && list@
                    == agents.spec_connections() && w@ == match what {
                    Some(x) => x@,
                    None => "agents"@,
                }
                &&& final(observers).spec_observers() == old(observers).spec_observers()
            },
            Err(why) => {
                &&& r matches ObserveReply::Help { message } && message@
                    == "failed to parse observe command: "@ + why@
                &&& final(observers).spec_observers() == old(observers).spec_observers()
            },
        },
{
    match command {
        Ok(ObserveCommand::Subscribe { kinds, kinds_filter }) => {
            let set = dedup_kinds(&kinds);
            let reply = dedup_kinds(&kinds);
            observers.set_subscription(connection_id, set, kinds_filter);
            ObserveReply::Subscribed { kinds: reply }
        },
        Ok(ObserveCommand::Discover { what }) => {
            let w = match what {
                Some(x) => x,
                None => "agents".to_owned(),
            };
            ObserveReply::Agents { what: w, agents: agents.list() }
        },
        Err(why) => {
            let mut message = "failed to parse observe command: ".to_owned();
            message.append(why.as_str());
            ObserveReply::Help { message }
        },
    }
}

/// Agent and observer identifiers never meet: in any pair of well-formed
/// registries, no agent connection shares its identifier with an observer.
pub proof fn lemma_agent_and_observer_ids_disjoint(agents: &PortmanSubscribers, observers: &Observers, i: int, j: int)
    requires
        agents.wf(),
        observers.wf(),
        0 <= i < agents.spec_connections().len(),
        0 <= j < observers.spec_observers().len(),
    ensures
        agents.spec_connections()[i].connection_id != observers.spec_observers()[j].0,
{
    assert(agents.spec_connections()[i].connection_id < agents.spec_next_id());
    assert(OBSERVER_ID_BASE <= observers.spec_observers()[j].0);
}

/// Some observer of `os` with identifier `id` receives kind `k`.
pub open spec fn wanted_by(os: Seq<(u64, ObserverState)>, k: MessageKind, id: u64) -> bool {
    exists|i: int| 0 <= i < os.len() && (#[trigger] os[i]).0 == id && wants(os[i].1, k)
}

/// Fan-out delivers each envelope once to every observer that wants it, and
/// to nobody else: in every observer registry, the recipients of kind `k`
/// are exactly the observers subscribed to it, without repetition.
pub proof fn lemma_fan_out_exactly_once(os: Seq<(u64, ObserverState)>, k: MessageKind)
    requires
        ids_unique(os),
    ensures
        forall|i: int|
            0 <= i < os.len() && wants(#[trigger] os[i].1, k) ==> recipients_in(os, k).contains(os[i].0),
        forall|p: int|
            0 <= p < recipients_in(os, k).len() ==> wanted_by(os, k, #[trigger] recipients_in(os, k)[p]),
        forall|p: int, q: int|
            0 <= p < recipients_in(os, k).len() && 0 <= q < recipients_in(os, k).len() && p != q
                ==> #[trigger] recipients_in(os, k)[p] != #[trigger] recipients_in(os, k)[q],
    decreases os.len(),
{
    if os.len() > 0 {
        let d = os.drop_last();
        assert(ids_unique(d)) by {
            assert forall|i: int, j: int|
                0 <= i < d.len() && 0 <= j < d.len() && i != j implies (#[trigger] d[i]).0 != (
                #[trigger] d[j]).0 by {
                assert(d[i] == os[i] && d[j] == os[j]);
            }
        }
        lemma_fan_out_exactly_once(d, k);
        let r = recipients_in(d, k);
        let last = os.last();
        assert forall|p: int| 0 <= p < r.len() implies #[trigger] r[p] != last.0 by {
            let i = choose|i: int| 0 <= i < d.len() && (#[trigger] d[i]).0 == r[p] && wants(d[i].1, k);
            assert(d[i] == os[i]);
            assert(os[i].0 != os[os.len() - 1].0);
        }
        assert forall|i: int| 0 <= i < os.len() && wants(#[trigger] os[i].1, k) implies recipients_in(
            os,
            k,
        ).contains(os[i].0) by {
            if i < os.len() - 1 {
                assert(d[i] == os[i]);
                assert(r.contains(d[i].0));
                let p = choose|p: int| 0 <= p < r.len() && r[p] == d[i].0;
                if wants(last.1, k) {
                    assert(recipients_in(os, k)[p] == r[p]);
                }
            } else {
                assert(recipients_in(os, k)[r.len() as int] == os[i].0);
            }
        }
        assert forall|p: int| 0 <= p < recipients_in(os, k).len() implies wanted_by(os, k, #[trigger] recipients_in(os, k)[p]) by {
            if p < r.len() {
                assert(recipients_in(os, k)[p] == r[p]);
                let i = choose|i: int| 0 <= i < d.len() && (#[trigger] d[i]).0 == r[p] && wants(d[i].1, k);
                assert(d[i] == os[i]);
                assert(0 <= i < os.len() && os[i].0 == recipients_in(os, k)[p] && wants(os[i].1, k));
            } else {
                assert(os[os.len() - 1] == last);
                assert(wants(last.1, k));
                assert(recipients_in(os, k) == r.push(last.0));
                assert(recipients_in(os, k)[p] == os[os.len() - 1].0);
                let i = os.len() - 1;
                assert(0 <= i < os.len() && os[i].0 == recipients_in(os, k)[p] && wants(os[i].1, k));
            }
        }
        assert forall|p: int, q: int|
            0 <= p < recipients_in(os, k).len() && 0 <= q < recipients_in(os, k).len() && p != q
                implies #[trigger] recipients_in(os, k)[p] != #[trigger] recipients_in(os, k)[q] by {
            if p < r.len() && q < r.len() {
                assert(recipients_in(os, k)[p] == r[p]);
                assert(recipients_in(os, k)[q] == r[q]);
            } else if p < r.len() {
                assert(recipients_in(os, k)[p] == r[p]);
            } else if q < r.len() {
                assert(recipients_in(os, k)[q] == r[q]);
            }
        }
    }
}

/// An observer subscribed only by kind, with an empty or absent kind
/// filter, receives nothing.
pub proof fn lemma_empty_filter_receives_nothing(st: ObserverState, k: MessageKind)
    requires
        !st.subscribed_kinds@.contains(StreamKind::All),
        match st.kinds_filter {
            Some(f) => f@.len() == 0,
            None => true,
        },
    ensures
        !wants(st, k),
{
}

} // verus!
