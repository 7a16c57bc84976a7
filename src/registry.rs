//! The endpoint registry: configured upstreams, their runtime state, and the
//! index from model identifier to the endpoints that advertise it.

use vstd::prelude::*;
use vstd::string::*;
use crate::error::LabmanError;
use crate::config::{http_scheme, EndpointConfig, LabmanConfig};
use crate::endpoint::{lists_model, unix_now, Endpoint, EndpointHealth, ModelDescriptor};
use crate::metrics::{ErrorKind, MetricEvent};
use crate::node::NodeCapabilities;
use crate::endpoint::models_contain;
use crate::discovery::{filter_models, filtered, models_url, models_url_of};
use crate::text::{str_starts_with, trim, trimmed};

verus! {

/// Errors building a registry from configuration.
#[derive(Debug, Clone)]
pub enum EndpointRegistryError {
    DuplicateEndpointName(String),
    InvalidEndpointUrl { name: String, reason: String },
}

/// The message of a registry error.
pub open spec fn registry_error_text(e: EndpointRegistryError) -> Seq<char> {
    match e {
        EndpointRegistryError::DuplicateEndpointName(n) => "duplicate endpoint name: "@ + n@,
        EndpointRegistryError::InvalidEndpointUrl { name, reason } => "invalid endpoint base_url for '"@
            + name@ + "': "@ + reason@,
    }
}

impl EndpointRegistryError {
    /// The human-readable message.
    pub fn to_string(&self) -> (r: String)
        ensures
            r@ == registry_error_text(*self),
    {
        match self {
            EndpointRegistryError::DuplicateEndpointName(n) => {
                let mut s = "duplicate endpoint name: ".to_owned();
                s.append(n.as_str());
                s
            },
            EndpointRegistryError::InvalidEndpointUrl { name, reason } => {
                let mut s = "invalid endpoint base_url for '".to_owned();
                s.append(name.as_str());
                s.append("': ");
                s.append(reason.as_str());
                s
            },
        }
    }

    /// The same failure as a configuration error of the node.
    pub fn into_labman_error(&self) -> (r: LabmanError)
        ensures
            r matches LabmanError::Config(m) && m@ == registry_error_text(*self),
    {
        LabmanError::Config(self.to_string())
    }
}

/// Static per-endpoint settings beyond name and URL.
#[derive(Debug, Clone)]
pub struct EndpointMeta {
    /// Cap on requests in flight; absent means unbounded.
    pub max_concurrent: Option<usize>,
    /// A model is kept only if one of these patterns matches it.
    pub models_include: Option<Vec<String>>,
    /// A model is dropped if one of these patterns matches it.
    pub models_exclude: Option<Vec<String>>,
}

/// One endpoint with its settings and runtime state.
#[derive(Debug)]
pub struct EndpointEntry {
    pub endpoint: Endpoint,
    pub meta: EndpointMeta,
    /// Requests currently routed to this endpoint.
    pub active_requests: usize,
    /// Models found by the latest successful discovery, after filtering.
    pub discovered_models: Vec<ModelDescriptor>,
}

impl EndpointEntry {
    /// The latest probe succeeded.
    pub open spec fn healthy(&self) -> bool {
        self.endpoint.health is Healthy
    }

    /// One more request may be routed here without passing the cap.
    pub open spec fn has_room(&self) -> bool {
        match self.meta.max_concurrent {
            Some(c) => self.active_requests < c,
            None => self.active_requests < usize::MAX,
        }
    }

    /// Requests in flight do not exceed the cap.
    pub open spec fn within_cap(&self) -> bool {
        match self.meta.max_concurrent {
            Some(c) => self.active_requests <= c,
            None => true,
        }
    }

    /// The endpoint may take a request now.
    pub open spec fn available(&self) -> bool {
        self.healthy() && self.has_room()
    }

    /// The endpoint currently advertises model `m`.
    pub open spec fn advertises(&self, m: Seq<char>) -> bool {
        lists_model(self.discovered_models@, m)
    }

    /// Whether the latest probe succeeded.
    pub fn is_healthy(&self) -> (r: bool)
        ensures
            r == self.healthy(),
    {
        self.endpoint.is_healthy()
    }

    /// Whether the endpoint may take a request now.
    pub fn is_available(&self) -> (r: bool)
        ensures
            r == self.available(),
    {
        if !self.is_healthy() {
            return false;
        }
        match self.meta.max_concurrent {
            Some(c) => self.active_requests < c,
            None => self.active_requests < usize::MAX,
        }
    }
}

/// The positions, in configuration order, of the endpoints advertising `m`.
pub open spec fn advertisers(es: Seq<EndpointEntry>, m: Seq<char>) -> Seq<usize>
    decreases es.len(),
{
    if es.len() == 0 {
        Seq::empty()
    } else {
        let rest = advertisers(es.drop_last(), m);
        if es.last().advertises(m) {
            rest.push((es.len() - 1) as usize)
        } else {
            rest
        }
    }
}

/// Endpoint `i` is the first, in configuration order, that advertises `m`
/// and may take a request.
pub open spec fn first_available(es: Seq<EndpointEntry>, m: Seq<char>, i: int) -> bool {
    &&& 0 <= i < es.len()
    &&& es[i].advertises(m)
    &&& es[i].available()
    &&& forall|j: int| 0 <= j < i && #[trigger] es[j].advertises(m) ==> !es[j].available()
}

/// No endpoint advertising `m` may take a request.
pub open spec fn none_available(es: Seq<EndpointEntry>, m: Seq<char>) -> bool {
    forall|i: int| 0 <= i < es.len() && #[trigger] es[i].advertises(m) ==> !es[i].available()
}

/// Every endpoint respects its cap and names are unique.
pub open spec fn entries_wf(es: Seq<EndpointEntry>) -> bool {
    &&& forall|i: int| 0 <= i < es.len() ==> (#[trigger] es[i]).within_cap()
    &&& forall|i: int, j: int|
        0 <= i < es.len() && 0 <= j < es.len() && i != j ==> (#[trigger] es[i]).endpoint.name@
            != (#[trigger] es[j]).endpoint.name@
}

/// One model identifier and the endpoints that advertise it.
#[derive(Debug, Clone)]
pub struct IndexSlot {
    pub model_id: String,
    pub endpoints: Vec<usize>,
}

/// The slots hold distinct identifiers.
pub open spec fn keys_unique(idx: Seq<IndexSlot>) -> bool {
    forall|a: int, b: int|
        0 <= a < idx.len() && 0 <= b < idx.len() && a != b ==> (#[trigger] idx[a]).model_id@
            != (#[trigger] idx[b]).model_id@
}

/// Some slot holds identifier `m`.
pub open spec fn has_key(idx: Seq<IndexSlot>, m: Seq<char>) -> bool {
    exists|s: int| 0 <= s < idx.len() && (#[trigger] idx[s]).model_id@ == m
}

/// The index maps each advertised model, and nothing else, to exactly its
/// advertisers in configuration order.
pub open spec fn index_wf(es: Seq<EndpointEntry>, idx: Seq<IndexSlot>) -> bool {
    &&& keys_unique(idx)
    &&& forall|s: int|
        0 <= s < idx.len() ==> (#[trigger] idx[s]).endpoints@ == advertisers(es, idx[s].model_id@)
    &&& forall|s: int| 0 <= s < idx.len() ==> (#[trigger] idx[s]).endpoints@.len() > 0
    &&& forall|i: int, m: Seq<char>| 0 <= i < es.len() && #[trigger] es[i].advertises(m) ==> has_key(idx, m)
}

proof fn lemma_advertisers(es: Seq<EndpointEntry>, m: Seq<char>)
    requires
        es.len() <= usize::MAX,
    ensures
        forall|k: int|
            0 <= k < advertisers(es, m).len() ==> (#[trigger] advertisers(es, m)[k] as int) < es.len()
                && es[advertisers(es, m)[k] as int].advertises(m),
        forall|i: int|
            0 <= i < es.len() && #[trigger] es[i].advertises(m) ==> exists|k: int|
                0 <= k < advertisers(es, m).len() && advertisers(es, m)[k] == i,
        forall|a: int, b: int|
            0 <= a < b < advertisers(es, m).len() ==> #[trigger] advertisers(es, m)[a]
                < #[trigger] advertisers(es, m)[b],
    decreases es.len(),
{
    if es.len() > 0 {
        let d = es.drop_last();
        lemma_advertisers(d, m);
        let rest = advertisers(d, m);
        assert forall|i: int| 0 <= i < es.len() && #[trigger] es[i].advertises(m) implies exists|k: int|
            0 <= k < advertisers(es, m).len() && advertisers(es, m)[k] == i by {
            if i < es.len() - 1 {
                assert(d[i] == es[i]);
                let k = choose|k: int| 0 <= k < rest.len() && rest[k] == i;
                assert(advertisers(es, m)[k] == i);
            } else {
                assert(es.last() == es[i]);
                assert(advertisers(es, m) == rest.push((es.len() - 1) as usize));
                assert(advertisers(es, m)[rest.len() as int] == i);
            }
        }
        assert forall|k: int| 0 <= k < advertisers(es, m).len() implies (#[trigger] advertisers(
            es,
            m,
        )[k] as int) < es.len() && es[advertisers(es, m)[k] as int].advertises(m) by {
            if k < rest.len() {
                assert(advertisers(es, m)[k] == rest[k]);
                assert(d[rest[k] as int] == es[rest[k] as int]);
            }
        }
    }
}

/// Advertisers among a prefix, extended by one endpoint.
proof fn lemma_advertisers_extend(es: Seq<EndpointEntry>, i: int, m: Seq<char>)
    requires
        0 <= i < es.len(),
    ensures
        advertisers(es.subrange(0, i + 1), m) == if es[i].advertises(m) {
            advertisers(es.subrange(0, i), m).push(i as usize)
        } else {
            advertisers(es.subrange(0, i), m)
        },
{
    assert(es.subrange(0, i + 1).drop_last() =~= es.subrange(0, i));
    assert(es.subrange(0, i + 1).last() == es[i]);
}

/// Advertisers depend on the discovered models alone.
proof fn lemma_advertisers_frame(a: Seq<EndpointEntry>, b: Seq<EndpointEntry>, m: Seq<char>)
    requires
        a.len() == b.len(),
        forall|i: int| 0 <= i < a.len() ==> (#[trigger] a[i]).discovered_models@ == b[i].discovered_models@,
    ensures
        advertisers(a, m) == advertisers(b, m),
    decreases a.len(),
{
    if a.len() > 0 {
        lemma_advertisers_frame(a.drop_last(), b.drop_last(), m);
        assert(a.last().discovered_models@ == b.last().discovered_models@);
    }
}

proof fn lemma_lists_model_extend(ms: Seq<ModelDescriptor>, k: int, m: Seq<char>)
    requires
        0 <= k < ms.len(),
    ensures
        lists_model(ms.subrange(0, k + 1), m) == (lists_model(ms.subrange(0, k), m) || ms[k].id@
            == m),
{
    let a = ms.subrange(0, k);
    let b = ms.subrange(0, k + 1);
    if lists_model(b, m) {
        let x = choose|x: int| 0 <= x < b.len() && (#[trigger] b[x]).id@ == m;
        if x < k {
            assert(a[x] == b[x]);
        }
    }
    if lists_model(a, m) {
        let x = choose|x: int| 0 <= x < a.len() && (#[trigger] a[x]).id@ == m;
        assert(b[x] == a[x]);
    }
    if ms[k].id@ == m {
        assert(b[k] == ms[k]);
    }
}

/// The endpoints recorded so far by an index rebuild that has seen every
/// model of the first `i` endpoints and the first `k` models of endpoint `i`.
pub open spec fn partial_advertisers(es: Seq<EndpointEntry>, m: Seq<char>, i: int, k: int) -> Seq<usize> {
    let done = advertisers(es.subrange(0, i), m);
    if i < es.len() && lists_model(es[i].discovered_models@.subrange(0, k), m) {
        done.push(i as usize)
    } else {
        done
    }
}

pub open spec fn partial_index_wf(es: Seq<EndpointEntry>, idx: Seq<IndexSlot>, i: int, k: int) -> bool {
    &&& keys_unique(idx)
    &&& forall|s: int|
        0 <= s < idx.len() ==> (#[trigger] idx[s]).endpoints@ == partial_advertisers(
            es,
            idx[s].model_id@,
            i,
            k,
        )
    &&& forall|s: int| 0 <= s < idx.len() ==> (#[trigger] idx[s]).endpoints@.len() > 0
    &&& forall|j: int, m: Seq<char>| 0 <= j < i && #[trigger] es[j].advertises(m) ==> has_key(idx, m)
    &&& i < es.len() ==> forall|x: int|
        0 <= x < k ==> has_key(idx, (#[trigger] es[i].discovered_models@[x]).id@)
}

fn find_slot(idx: &Vec<IndexSlot>, id: &String) -> (r: Option<usize>)
    ensures
        match r {
            Some(s) => s < idx@.len() && idx@[s as int].model_id@ == id@,
            None => !has_key(idx@, id@),
        },
{
    let mut s: usize = 0;
    while s < idx.len()
        invariant
            s <= idx@.len(),
            forall|x: int| 0 <= x < s ==> (#[trigger] idx@[x]).model_id@ != id@,
        decreases idx.len() - s,
    {
        if idx[s].model_id == *id {
            return Some(s);
        }
        s += 1;
    }
    None
}

/// Endpoint `i` of the configuration repeats an earlier name.
pub open spec fn duplicate_before(eps: Seq<EndpointConfig>, i: int) -> bool {
    exists|j: int| 0 <= j < i && (#[trigger] eps[j]).name@ == eps[i].name@
}

/// Endpoint `i` of the configuration has an `http(s)://` base URL once trimmed.
pub open spec fn url_ok(eps: Seq<EndpointConfig>, i: int) -> bool {
    http_scheme(trimmed(eps[i].base_url@))
}

/// Endpoint `i` of the configuration is rejected.
pub open spec fn rejected(eps: Seq<EndpointConfig>, i: int) -> bool {
    duplicate_before(eps, i) || !url_ok(eps, i)
}

/// `e` is the error reported for endpoint `i` of the configuration.
pub open spec fn error_for(e: EndpointRegistryError, eps: Seq<EndpointConfig>, i: int) -> bool {
    match e {
        EndpointRegistryError::DuplicateEndpointName(n) => duplicate_before(eps, i) && n@
            == eps[i].name@,
        EndpointRegistryError::InvalidEndpointUrl { name, .. } => !duplicate_before(eps, i)
            && !url_ok(eps, i) && name@ == eps[i].name@,
    }
}

/// Two optional pattern lists hold the same patterns.
pub open spec fn same_patterns(a: Option<Vec<String>>, b: Option<Vec<String>>) -> bool {
    match (a, b) {
        (Some(x), Some(y)) => x@.len() == y@.len() && forall|k: int|
            0 <= k < x@.len() ==> (#[trigger] x@[k])@ == y@[k]@,
        (None, None) => true,
        _ => false,
    }
}

/// `e` is the initial runtime state of configured endpoint `c`.
pub open spec fn fresh_entry(e: EndpointEntry, c: EndpointConfig) -> bool {
    &&& e.endpoint.name@ == c.name@
    &&& e.endpoint.base_url@ == trimmed(c.base_url@)
    &&& e.endpoint.health == EndpointHealth::Unknown
    &&& e.endpoint.consecutive_failures == 0
    &&& e.active_requests == 0
    &&& e.discovered_models@.len() == 0
    &&& e.meta.max_concurrent == c.max_concurrent
    &&& same_patterns(e.meta.models_include, c.models_include)
    &&& same_patterns(e.meta.models_exclude, c.models_exclude)
}

fn copy_patterns(v: &Option<Vec<String>>) -> (r: Option<Vec<String>>)
    ensures
        same_patterns(r, *v),
{
    match v {
        None => None,
        Some(list) => {
            let mut out: Vec<String> = Vec::new();
            let mut k: usize = 0;
            while k < list.len()
                invariant
                    k <= list@.len(),
                    out@.len() == k,
                    forall|x: int| 0 <= x < k ==> (#[trigger] out@[x])@ == list@[x]@,
                decreases list.len() - k,
            {
                out.push(list[k].clone());
                k += 1;
            }
            Some(out)
        },
    }
}

proof fn lemma_index_frame(a: Seq<EndpointEntry>, b: Seq<EndpointEntry>, idx: Seq<IndexSlot>)
    requires
        index_wf(a, idx),
        a.len() == b.len(),
        a.len() <= usize::MAX,
        forall|i: int| 0 <= i < a.len() ==> (#[trigger] a[i]).discovered_models@ == b[i].discovered_models@,
    ensures
        index_wf(b, idx),
{
    assert forall|m: Seq<char>| advertisers(a, m) == advertisers(b, m) by {
        lemma_advertisers_frame(a, b, m);
    }
    assert forall|i: int, m: Seq<char>| 0 <= i < b.len() && #[trigger] b[i].advertises(m) implies has_key(idx, m) by {
        assert(a[i].advertises(m));
    }
}

/// `e` with `n` requests in flight.
pub open spec fn with_active(e: EndpointEntry, n: usize) -> EndpointEntry {
    EndpointEntry {
        endpoint: e.endpoint,
        meta: e.meta,
        active_requests: n,
        discovered_models: e.discovered_models,
    }
}

/// An endpoint chosen for one request; hand it back with `release_endpoint`.
#[derive(Debug, Clone)]
pub struct EndpointLease {
    /// Position of the endpoint in configuration order.
    pub index: usize,
    pub name: String,
    pub base_url: String,
}

/// What a health probe of one endpoint came back with.
#[derive(Debug, Clone)]
pub enum ProbeOutcome {
    /// The endpoint answered with this HTTP status.
    Status(u16),
    /// The request failed (connection, timeout, ...), with a description.
    Failed(String),
}

/// A 2xx status.
pub open spec fn is_success_status(s: u16) -> bool {
    200 <= s < 300
}

/// The endpoint state after probe outcome `o`: healthy only on a 2xx answer.
pub open spec fn probed_ok(o: ProbeOutcome) -> bool {
    match o {
        ProbeOutcome::Status(s) => is_success_status(s),
        ProbeOutcome::Failed(_) => false,
    }
}

/// The metric recorded for probe outcome `o` of the endpoint named `name`.
pub open spec fn probe_event(name: String, o: ProbeOutcome) -> MetricEvent {
    match o {
        ProbeOutcome::Status(s) => if is_success_status(s) {
            MetricEvent::RequestEnd { endpoint: Some(name), model: None, success: true }
        } else {
            MetricEvent::Error { endpoint: Some(name), kind: ErrorKind::HealthHttpStatus }
        },
        ProbeOutcome::Failed(_) => MetricEvent::Error {
            endpoint: Some(name),
            kind: ErrorKind::HealthHttpError,
        },
    }
}

/// What asking one endpoint for its model list came back with.
#[derive(Debug, Clone)]
pub enum DiscoveryOutcome {
    /// A well-formed list of models.
    Listed(Vec<ModelDescriptor>),
    /// The endpoint answered with a non-2xx status.
    HttpStatus(u16),
    /// The request failed, with a description.
    RequestFailed(String),
    /// The body was not a model list, with a description.
    ParseFailed(String),
}

/// The models an endpoint holds after discovery outcome `o`: the filtered
/// list when the endpoint is healthy and answered with one, otherwise what
/// it held before.
pub open spec fn discovered_after(e: EndpointEntry, o: DiscoveryOutcome) -> Seq<ModelDescriptor> {
    if e.healthy() {
        match o {
            DiscoveryOutcome::Listed(ms) => filtered(ms@, e.meta.models_include, e.meta.models_exclude),
            _ => e.discovered_models@,
        }
    } else {
        e.discovered_models@
    }
}

/// The metric recorded for discovery outcome `o` of the endpoint named `name`.
pub open spec fn discovery_event(name: String, o: DiscoveryOutcome) -> MetricEvent {
    match o {
        DiscoveryOutcome::Listed(_) => MetricEvent::RequestEnd {
            endpoint: Some(name),
            model: None,
            success: true,
        },
        DiscoveryOutcome::HttpStatus(_) => MetricEvent::Error {
            endpoint: Some(name),
            kind: ErrorKind::ModelDiscoveryHttpStatus,
        },
        DiscoveryOutcome::RequestFailed(_) => MetricEvent::Error {
            endpoint: Some(name),
            kind: ErrorKind::ModelDiscoveryError,
        },
        DiscoveryOutcome::ParseFailed(_) => MetricEvent::Error {
            endpoint: Some(name),
            kind: ErrorKind::ModelDiscoveryParse,
        },
    }
}

/// The metrics of a discovery pass over the first `n` endpoints: one per
/// healthy endpoint, in order.
pub open spec fn discovery_events(es: Seq<EndpointEntry>, os: Seq<DiscoveryOutcome>, n: int) -> Seq<MetricEvent>
    decreases n,
{
    if n <= 0 {
        Seq::empty()
    } else {
        let rest = discovery_events(es, os, n - 1);
        if es[n - 1].healthy() {
            rest.push(discovery_event(es[n - 1].endpoint.name, os[n - 1]))
        } else {
            rest
        }
    }
}

/// Every discovered model of every endpoint, in configuration order.
pub open spec fn all_models(es: Seq<EndpointEntry>) -> Seq<ModelDescriptor>
    decreases es.len(),
{
    if es.len() == 0 {
        Seq::empty()
    } else {
        all_models(es.drop_last()) + es.last().discovered_models@
    }
}

/// The first descriptor of each identifier in `ms`, in order.
pub open spec fn first_occurrences(ms: Seq<ModelDescriptor>) -> Seq<ModelDescriptor>
    decreases ms.len(),
{
    if ms.len() == 0 {
        Seq::empty()
    } else {
        let r = first_occurrences(ms.drop_last());
        if lists_model(r, ms.last().id@) {
            r
        } else {
            r.push(ms.last())
        }
    }
}

/// The saturating sum of the caps that are set; absent when none is.
pub open spec fn cap_total(es: Seq<EndpointEntry>) -> Option<int>
    decreases es.len(),
{
    if es.len() == 0 {
        None
    } else {
        let r = cap_total(es.drop_last());
        match es.last().meta.max_concurrent {
            None => r,
            Some(c) => match r {
                None => Some(c as int),
                Some(t) => Some(if t + c > usize::MAX { usize::MAX as int } else { t + c }),
            },
        }
    }
}

/// Registry of the configured endpoints, in configuration order.
pub struct EndpointRegistry {
    entries: Vec<EndpointEntry>,
    model_index: Vec<IndexSlot>,
}

impl EndpointRegistry {
    /// The endpoints, in configuration order.
    pub closed spec fn spec_entries(&self) -> Seq<EndpointEntry> {
        self.entries@
    }

    /// The model index.
    pub closed spec fn spec_index(&self) -> Seq<IndexSlot> {
        self.model_index@
    }

    /// Caps respected, names unique, and the index exact.
    pub open spec fn wf(&self) -> bool {
        &&& entries_wf(self.spec_entries())
        &&& index_wf(self.spec_entries(), self.spec_index())
    }

    /// Builds the registry from configuration: one fresh endpoint per entry,
    /// in order. The first entry whose name repeats an earlier one, or whose
    /// trimmed base URL is not `http://` or `https://`, is reported.
    pub fn from_config(cfg: &LabmanConfig) -> (r: Result<Self, EndpointRegistryError>)
        ensures
            match r {
                Ok(reg) => {
                    &&& reg.wf()
                    &&& reg.spec_entries().len() == cfg.endpoints@.len()
                    &&& forall|i: int| 0 <= i < cfg.endpoints@.len() ==> !rejected(cfg.endpoints@, i)
                    &&& forall|i: int|
                        0 <= i < cfg.endpoints@.len() ==> fresh_entry(
                            #[trigger] reg.spec_entries()[i],
                            cfg.endpoints@[i],
                        )
                },
                Err(e) => exists|i: int|
                    0 <= i < cfg.endpoints@.len() && #[trigger] rejected(cfg.endpoints@, i)
                        && error_for(e, cfg.endpoints@, i) && forall|j: int|
                        0 <= j < i ==> !rejected(cfg.endpoints@, j),
            },
    {
        let eps = &cfg.endpoints;
        let mut entries: Vec<EndpointEntry> = Vec::new();
        let mut i: usize = 0;
        while i < eps.len()
            invariant
                eps == &cfg.endpoints,
                i <= eps@.len(),
                entries@.len() == i,
                forall|j: int| 0 <= j < i ==> !rejected(eps@, j),
                forall|j: int| 0 <= j < i ==> fresh_entry(#[trigger] entries@[j], eps@[j]),
            decreases eps.len() - i,
        {
            let ep = &eps[i];
            let mut j: usize = 0;
            while j < i
                invariant
                    eps == &cfg.endpoints,
                    i < eps@.len(),
                    j <= i,
                    ep == &eps@[i as int],
                    forall|x: int| 0 <= x < i ==> !rejected(eps@, x),
                    forall|x: int| 0 <= x < j ==> (#[trigger] eps@[x]).name@ != ep.name@,
                decreases i - j,
            {
                if eps[j].name == ep.name {
                    proof {
                        assert(eps@[j as int].name@ == eps@[i as int].name@);
                        assert(duplicate_before(eps@, i as int));
                        assert(rejected(eps@, i as int));
                    }
                    return Err(EndpointRegistryError::DuplicateEndpointName(ep.name.clone()));
                }
                j += 1;
            }
            assert(!duplicate_before(eps@, i as int));
            let url = trim(ep.base_url.as_str());
            proof {
                reveal_strlit("http://");
                reveal_strlit("https://");
            }
            if url.as_str().unicode_len() == 0 {
                proof {
                    assert(!url_ok(eps@, i as int));
                    assert(rejected(eps@, i as int));
                }
                return Err(
                    EndpointRegistryError::InvalidEndpointUrl {
                        name: ep.name.clone(),
                        reason: "base_url must not be empty".to_owned(),
                    },
                );
            }
            if !(str_starts_with(url.as_str(), "http://") || str_starts_with(url.as_str(), "https://")) {
                proof {
                    assert(!url_ok(eps@, i as int));
                    assert(rejected(eps@, i as int));
                }
                return Err(
                    EndpointRegistryError::InvalidEndpointUrl {
                        name: ep.name.clone(),
                        reason: "base_url must start with http:// or https://".to_owned(),
                    },
                );
            }
            let entry = EndpointEntry {
                endpoint: Endpoint::new(ep.name.as_str(), url.as_str()),
                meta: EndpointMeta {
                    max_concurrent: ep.max_concurrent,
                    models_include: copy_patterns(&ep.models_include),
                    models_exclude: copy_patterns(&ep.models_exclude),
                },
                active_requests: 0,
                discovered_models: Vec::new(),
            };
            entries.push(entry);
            i += 1;
        }
        let mut reg = EndpointRegistry { entries, model_index: Vec::new() };
        proof {
            let es = reg.entries@;
            assert forall|a: int, b: int|
                0 <= a < es.len() && 0 <= b < es.len() && a != b implies (#[trigger] es[a]).endpoint.name@
                    != (#[trigger] es[b]).endpoint.name@ by {
                assert(fresh_entry(es[a], eps@[a]));
                assert(fresh_entry(es[b], eps@[b]));
                if a < b {
                    assert(!rejected(eps@, b));
                    assert(eps@[a].name@ != eps@[b].name@);
                } else {
                    assert(!rejected(eps@, a));
                    assert(eps@[b].name@ != eps@[a].name@);
                }
            }
        }
        reg.rebuild_model_index();
        Ok(reg)
    }

    /// Number of configured endpoints.
    pub fn len(&self) -> (r: usize)
        ensures
            r == self.spec_entries().len(),
    {
        self.entries.len()
    }

    /// Whether no endpoint is configured.
    pub fn is_empty(&self) -> (r: bool)
        ensures
            r == (self.spec_entries().len() == 0),
    {
        self.entries.len() == 0
    }

    /// The endpoints, in configuration order.
    pub fn iter(&self) -> (r: &Vec<EndpointEntry>)
        ensures
            r@ == self.spec_entries(),
    {
        &self.entries
    }

    /// The model index: each advertised model with its endpoints' positions.
    pub fn model_index(&self) -> (r: &Vec<IndexSlot>)
        ensures
            r@ == self.spec_index(),
    {
        &self.model_index
    }

    /// The endpoint called `name`, if any.
    pub fn get(&self, name: &str) -> (r: Option<&EndpointEntry>)
        ensures
            match r {
                Some(e) => exists|i: int|
                    0 <= i < self.spec_entries().len() && #[trigger] self.spec_entries()[i] == *e
                        && e.endpoint.name@ == name@,
                None => forall|i: int|
                    0 <= i < self.spec_entries().len() ==> (#[trigger] self.spec_entries()[i]).endpoint.name@
                        != name@,
            },
    {
        let key = name.to_owned();
        let mut i: usize = 0;
        while i < self.entries.len()
            invariant
                i <= self.entries@.len(),
                key@ == name@,
                forall|x: int| 0 <= x < i ==> (#[trigger] self.entries@[x]).endpoint.name@ != name@,
            decreases self.entries.len() - i,
        {
            if self.entries[i].endpoint.name == key {
                return Some(&self.entries[i]);
            }
            i += 1;
        }
        None
    }

    fn select_index(&self, model_id: &str) -> (r: Option<usize>)
        requires
            self.wf(),
        ensures
            match r {
                Some(i) => first_available(self.spec_entries(), model_id@, i as int),
                None => none_available(self.spec_entries(), model_id@),
            },
    {
        let ghost es = self.entries@;
        let ghost m = model_id@;
        let n = self.entries.len();
        let key = model_id.to_owned();
        match find_slot(&self.model_index, &key) {
            None => {
                proof {
                    assert forall|i: int| 0 <= i < es.len() && #[trigger] es[i].advertises(m) implies !es[i].available() by {
                        assert(has_key(self.model_index@, m));
                    }
                }
                None
            },
            Some(s) => {
                let eps = &self.model_index[s].endpoints;
                proof {
                    lemma_advertisers(es, m);
                }
                let mut p: usize = 0;
                while p < eps.len()
                    invariant
                        es == self.entries@,
                        m == model_id@,
                        n == es.len(),
                        self.wf(),
                        eps@ == advertisers(es, m),
                        p <= eps@.len(),
                        forall|q: int| 0 <= q < p ==> !es[(#[trigger] eps@[q]) as int].available(),
                    decreases eps.len() - p,
                {
                    let e = eps[p];
                    proof {
                        lemma_advertisers(es, m);
                    }
                    if self.entries[e].is_available() {
                        proof {
                            assert(advertisers(es, m)[p as int] == e);
                            assert(es[e as int].advertises(m));
                            assert(es[e as int].available());
                            assert forall|j: int| 0 <= j < e && #[trigger] es[j].advertises(m) implies !es[j].available() by {
                                let k = choose|k: int| 0 <= k < eps@.len() && eps@[k] == j;
                                if k >= p {
                                    if k > p {
                                        assert(eps@[p as int] < eps@[k]);
                                    }
                                }
                            }
                        }
                        return Some(e);
                    }
                    p += 1;
                }
                proof {
                    lemma_advertisers(es, m);
                    assert forall|i: int| 0 <= i < es.len() && #[trigger] es[i].advertises(m) implies !es[i].available() by {
                        let k = choose|k: int| 0 <= k < eps@.len() && eps@[k] == i;
                    }
                }
                None
            },
        }
    }

    /// The first endpoint, in configuration order, that advertises
    /// `model_id`, is healthy and is below its cap; with its name.
    pub fn select_endpoint_for_model(&self, model_id: &str) -> (r: Option<(&String, &EndpointEntry)>)
        requires
            self.wf(),
        ensures
            match r {
                Some((name, e)) => exists|i: int|
                    first_available(self.spec_entries(), model_id@, i) && *e
                        == #[trigger] self.spec_entries()[i] && name == &e.endpoint.name,
                None => none_available(self.spec_entries(), model_id@),
            },
    {
        match self.select_index(model_id) {
            Some(i) => {
                let e = &self.entries[i];
                Some((&e.endpoint.name, e))
            },
            None => None,
        }
    }

    /// Chooses the endpoint for a request on `model_id`, as
    /// `select_endpoint_for_model` does, and counts the request against it.
    pub fn acquire_endpoint(&mut self, model_id: &str) -> (r: Option<EndpointLease>)
        requires
            old(self).wf(),
        ensures
            final(self).wf(),
            match r {
                None => none_available(old(self).spec_entries(), model_id@) && final(self).spec_entries()
                    == old(self).spec_entries(),
                Some(l) => {
                    let e = old(self).spec_entries()[l.index as int];
                    &&& first_available(old(self).spec_entries(), model_id@, l.index as int)
                    &&& l.name@ == e.endpoint.name@
                    &&& l.base_url@ == e.endpoint.base_url@
                    &&& final(self).spec_entries() == old(self).spec_entries().update(
                        l.index as int,
                        with_active(e, (e.active_requests + 1) as usize),
                    )
                },
            },
    {
        match self.select_index(model_id) {
            None => None,
            Some(i) => {
                let ghost before = self.entries@;
                let n = self.entries.len();
                let cur = self.entries[i].active_requests;
                self.entries[i].active_requests = cur + 1;
                proof {
                    assert(self.entries@ =~= before.update(
                        i as int,
                        with_active(before[i as int], (cur + 1) as usize),
                    ));
                    lemma_index_frame(before, self.entries@, self.model_index@);
                    assert forall|x: int| 0 <= x < self.entries@.len() implies (
                    #[trigger] self.entries@[x]).within_cap() by {
                        if x != i {
                            assert(before[x] == self.entries@[x]);
                        }
                    }
                    assert forall|a: int, b: int|
                        0 <= a < self.entries@.len() && 0 <= b < self.entries@.len() && a != b implies (
                    #[trigger] self.entries@[a]).endpoint.name@ != (
                    #[trigger] self.entries@[b]).endpoint.name@ by {
                        assert(self.entries@[a].endpoint == before[a].endpoint);
                        assert(self.entries@[b].endpoint == before[b].endpoint);
                    }
                }
                let e = &self.entries[i];
                Some(
                    EndpointLease {
                        index: i,
                        name: e.endpoint.name.clone(),
                        base_url: e.endpoint.base_url.clone(),
                    },
                )
            },
        }
    }

    /// Ends one request on endpoint `index`: one fewer in flight, never below
    /// zero.
    pub fn release_endpoint(&mut self, index: usize)
        requires
            old(self).wf(),
        ensures
            final(self).wf(),
            final(self).spec_entries() == if index < old(self).spec_entries().len()
                && old(self).spec_entries()[index as int].active_requests > 0 {
                old(self).spec_entries().update(
                    index as int,
                    with_active(
                        old(self).spec_entries()[index as int],
                        (old(self).spec_entries()[index as int].active_requests - 1) as usize,
                    ),
                )
            } else {
                old(self).spec_entries()
            },
    {
        let n = self.entries.len();
        if index < n && self.entries[index].active_requests > 0 {
            let ghost before = self.entries@;
            let cur = self.entries[index].active_requests;
            self.entries[index].active_requests = cur - 1;
            proof {
                assert(self.entries@ =~= before.update(
                    index as int,
                    with_active(before[index as int], (cur - 1) as usize),
                ));
                lemma_index_frame(before, self.entries@, self.model_index@);
                assert forall|x: int| 0 <= x < self.entries@.len() implies (
                #[trigger] self.entries@[x]).within_cap() by {
                    if x != index {
                        assert(before[x] == self.entries@[x]);
                    }
                }
                assert forall|a: int, b: int|
                    0 <= a < self.entries@.len() && 0 <= b < self.entries@.len() && a != b implies (
                #[trigger] self.entries@[a]).endpoint.name@ != (
                #[trigger] self.entries@[b]).endpoint.name@ by {
                    assert(self.entries@[a].endpoint == before[a].endpoint);
                    assert(self.entries@[b].endpoint == before[b].endpoint);
                }
            }
        }
    }

    /// Records the outcome of probing endpoint `index`: healthy with its
    /// failure count reset on a 2xx answer, otherwise unhealthy with one more
    /// failure. Returns the metric to record.
    pub fn record_probe(&mut self, index: usize, outcome: ProbeOutcome) -> (r: MetricEvent)
        requires
            old(self).wf(),
            index < old(self).spec_entries().len(),
        ensures
            final(self).wf(),
            final(self).spec_entries().len() == old(self).spec_entries().len(),
            forall|j: int|
                0 <= j < old(self).spec_entries().len() && j != index
                    ==> #[trigger] final(self).spec_entries()[j] == old(self).spec_entries()[j],
            ({
                let a = old(self).spec_entries()[index as int];
                let b = final(self).spec_entries()[index as int];
                &&& b.endpoint.name == a.endpoint.name
                &&& b.endpoint.base_url == a.endpoint.base_url
                &&& b.meta == a.meta
                &&& b.active_requests == a.active_requests
                &&& b.discovered_models == a.discovered_models
                &&& b.healthy() == probed_ok(outcome)
                &&& probed_ok(outcome) ==> b.endpoint.consecutive_failures == 0
                &&& !probed_ok(outcome) ==> b.endpoint.consecutive_failures as int == if a.endpoint.consecutive_failures
                    == u32::MAX {
                    u32::MAX as int
                } else {
                    a.endpoint.consecutive_failures + 1
                }
            }),
            r == probe_event(old(self).spec_entries()[index as int].endpoint.name, outcome),
    {
        let ghost before = self.entries@;
        let n = self.entries.len();
        let name = self.entries[index].endpoint.name.clone();
        let ok = match &outcome {
            ProbeOutcome::Status(s) => 200 <= *s && *s < 300,
            ProbeOutcome::Failed(_) => false,
        };
        let event = match &outcome {
            ProbeOutcome::Status(s) => if 200 <= *s && *s < 300 {
                MetricEvent::RequestEnd { endpoint: Some(name), model: None, success: true }
            } else {
                MetricEvent::Error { endpoint: Some(name), kind: ErrorKind::HealthHttpStatus }
            },
            ProbeOutcome::Failed(_) => MetricEvent::Error {
                endpoint: Some(name),
                kind: ErrorKind::HealthHttpError,
            },
        };
        self.entries[index].endpoint.last_checked = Some(unix_now());
        if ok {
            self.entries[index].endpoint.mark_healthy();
        } else {
            let reason = match outcome {
                ProbeOutcome::Status(_) => "non-success HTTP status".to_owned(),
                ProbeOutcome::Failed(msg) => msg,
            };
            self.entries[index].endpoint.mark_unhealthy(reason);
        }
        proof {
            lemma_index_frame(before, self.entries@, self.model_index@);
            assert forall|x: int| 0 <= x < self.entries@.len() implies (
            #[trigger] self.entries@[x]).within_cap() by {
                if x != index {
                    assert(before[x] == self.entries@[x]);
                }
            }
            assert forall|a: int, b: int|
                0 <= a < self.entries@.len() && 0 <= b < self.entries@.len() && a != b implies (
            #[trigger] self.entries@[a]).endpoint.name@ != (#[trigger] self.entries@[b]).endpoint.name@ by {
                assert(self.entries@[a].endpoint.name == before[a].endpoint.name);
                assert(self.entries@[b].endpoint.name == before[b].endpoint.name);
            }
        }
        event
    }

    /// Marks every endpoint healthy without probing it; one success metric
    /// per endpoint, in order.
    pub fn health_check_all(&mut self) -> (r: Vec<MetricEvent>)
        requires
            old(self).wf(),
        ensures
            final(self).wf(),
            final(self).spec_entries().len() == old(self).spec_entries().len(),
            r@.len() == old(self).spec_entries().len(),
            forall|i: int|
                0 <= i < old(self).spec_entries().len() ==> {
                    let a = old(self).spec_entries()[i];
                    let b = #[trigger] final(self).spec_entries()[i];
                    &&& b.healthy()
                    &&& b.endpoint.consecutive_failures == 0
                    &&& b.endpoint.name == a.endpoint.name
                    &&& b.endpoint.base_url == a.endpoint.base_url
                    &&& b.meta == a.meta
                    &&& b.active_requests == a.active_requests
                    &&& b.discovered_models == a.discovered_models
                    &&& r@[i] == (MetricEvent::RequestEnd {
                        endpoint: Some(a.endpoint.name),
                        model: None,
                        success: true,
                    })
                },
    {
        let ghost start = self.entries@;
        let n = self.entries.len();
        let mut events: Vec<MetricEvent> = Vec::new();
        let mut i: usize = 0;
        while i < n
            invariant
                n == start.len(),
                self.model_index@ == old(self).model_index@,
                self.entries@.len() == n,
                i <= n,
                events@.len() == i,
                index_wf(start, self.model_index@),
                entries_wf(start),
                forall|x: int|
                    i <= x < n ==> #[trigger] self.entries@[x] == start[x],
                forall|x: int|
                    0 <= x < i ==> {
                        let a = start[x];
                        let b = #[trigger] self.entries@[x];
                        &&& b.healthy()
                        &&& b.endpoint.consecutive_failures == 0
                        &&& b.endpoint.name == a.endpoint.name
                        &&& b.endpoint.base_url == a.endpoint.base_url
                        &&& b.meta == a.meta
                        &&& b.active_requests == a.active_requests
                        &&& b.discovered_models == a.discovered_models
                        &&& events@[x] == (MetricEvent::RequestEnd {
                            endpoint: Some(a.endpoint.name),
                            model: None,
                            success: true,
                        })
                    },
            decreases n - i,
        {
            let name = self.entries[i].endpoint.name.clone();
            self.entries[i].endpoint.mark_healthy();
            events.push(MetricEvent::RequestEnd { endpoint: Some(name), model: None, success: true });
            i += 1;
        }
        proof {
            lemma_index_frame(start, self.entries@, self.model_index@);
            assert forall|x: int| 0 <= x < self.entries@.len() implies (
            #[trigger] self.entries@[x]).within_cap() by {
                assert(start[x].within_cap());
            }
            assert forall|a: int, b: int|
                0 <= a < self.entries@.len() && 0 <= b < self.entries@.len() && a != b implies (
            #[trigger] self.entries@[a]).endpoint.name@ != (#[trigger] self.entries@[b]).endpoint.name@ by {
                assert(start[a].endpoint.name@ != start[b].endpoint.name@);
            }
        }
        events
    }

    /// For each endpoint in order: its model-list URL when it is healthy,
    /// nothing when discovery skips it.
    pub fn discovery_targets(&self) -> (r: Vec<Option<String>>)
        ensures
            r@.len() == self.spec_entries().len(),
            forall|i: int|
                0 <= i < r@.len() ==> match #[trigger] r@[i] {
                    Some(u) => self.spec_entries()[i].healthy() && u@ == models_url_of(
                        self.spec_entries()[i].endpoint.base_url@,
                    ),
                    None => !self.spec_entries()[i].healthy(),
                },
    {
        let mut out: Vec<Option<String>> = Vec::new();
        let mut i: usize = 0;
        while i < self.entries.len()
            invariant
                i <= self.entries@.len(),
                out@.len() == i,
                forall|x: int|
                    0 <= x < i ==> match #[trigger] out@[x] {
                        Some(u) => self.entries@[x].healthy() && u@ == models_url_of(
                            self.entries@[x].endpoint.base_url@,
                        ),
                        None => !self.entries@[x].healthy(),
                    },
            decreases self.entries.len() - i,
        {
            if self.entries[i].is_healthy() {
                out.push(Some(models_url(self.entries[i].endpoint.base_url.as_str())));
            } else {
                out.push(None);
            }
            i += 1;
        }
        out
    }

    /// Applies one discovery pass: `outcomes[i]` is what endpoint `i` answered
    /// (ignored when the endpoint is unhealthy). Healthy endpoints that listed
    /// models take the filtered list; the others keep theirs. The index is then
    /// rebuilt. Returns one metric per healthy endpoint, in order.
    pub fn apply_discovery_pass(&mut self, outcomes: &Vec<DiscoveryOutcome>) -> (r: Vec<MetricEvent>)
        requires
            old(self).wf(),
            outcomes@.len() == old(self).spec_entries().len(),
        ensures
            final(self).wf(),
            final(self).spec_entries().len() == old(self).spec_entries().len(),
            forall|i: int|
                0 <= i < old(self).spec_entries().len() ==> {
                    let a = old(self).spec_entries()[i];
                    let b = #[trigger] final(self).spec_entries()[i];
                    &&& b.endpoint == a.endpoint
                    &&& b.meta == a.meta
                    &&& b.active_requests == a.active_requests
                    &&& b.discovered_models@ == discovered_after(a, outcomes@[i])
                },
            r@ == discovery_events(old(self).spec_entries(), outcomes@, old(self).spec_entries().len() as int),
    {
        let ghost start = self.entries@;
        let n = self.entries.len();
        let mut events: Vec<MetricEvent> = Vec::new();
        let mut i: usize = 0;
        while i < n
            invariant
                n == start.len(),
                outcomes@.len() == n,
                self.entries@.len() == n,
                i <= n,
                entries_wf(start),
                events@ == discovery_events(start, outcomes@, i as int),
                forall|x: int| i <= x < n ==> #[trigger] self.entries@[x] == start[x],
                forall|x: int|
                    0 <= x < i ==> {
                        let a = start[x];
                        let b = #[trigger] self.entries@[x];
                        &&& b.endpoint == a.endpoint
                        &&& b.meta == a.meta
                        &&& b.active_requests == a.active_requests
                        &&& b.discovered_models@ == discovered_after(a, outcomes@[x])
                    },
            decreases n - i,
        {
            if self.entries[i].is_healthy() {
                let name = self.entries[i].endpoint.name.clone();
                match &outcomes[i] {
                    DiscoveryOutcome::Listed(ms) => {
                        let kept = filter_models(
                            ms,
                            &self.entries[i].meta.models_include,
                            &self.entries[i].meta.models_exclude,
                        );
                        self.entries[i].discovered_models = kept;
                        events.push(
                            MetricEvent::RequestEnd { endpoint: Some(name), model: None, success: true },
                        );
                    },
                    DiscoveryOutcome::HttpStatus(_) => {
                        events.push(
                            MetricEvent::Error {
                                endpoint: Some(name),
                                kind: ErrorKind::ModelDiscoveryHttpStatus,
                            },
                        );
                    },
                    DiscoveryOutcome::RequestFailed(_) => {
                        events.push(
                            MetricEvent::Error { endpoint: Some(name), kind: ErrorKind::ModelDiscoveryError },
                        );
                    },
                    DiscoveryOutcome::ParseFailed(_) => {
                        events.push(
                            MetricEvent::Error { endpoint: Some(name), kind: ErrorKind::ModelDiscoveryParse },
                        );
                    },
                }
            }
            i += 1;
        }
        proof {
            assert forall|x: int| 0 <= x < self.entries@.len() implies (
            #[trigger] self.entries@[x]).within_cap() by {
                assert(start[x].within_cap());
            }
            assert forall|a: int, b: int|
                0 <= a < self.entries@.len() && 0 <= b < self.entries@.len() && a != b implies (
            #[trigger] self.entries@[a]).endpoint.name@ != (#[trigger] self.entries@[b]).endpoint.name@ by {
                assert(start[a].endpoint.name@ != start[b].endpoint.name@);
            }
        }
        self.rebuild_model_index();
        events
    }

    /// The capability snapshot: each discovered model once (its first
    /// occurrence in configuration order), the endpoint count, and the
    /// saturating sum of the caps that are set.
    pub fn to_node_capabilities(&self) -> (r: NodeCapabilities)
        ensures
            r.models@ == first_occurrences(all_models(self.spec_entries())),
            r.endpoint_count == self.spec_entries().len(),
            r.max_concurrent_requests == match cap_total(self.spec_entries()) {
                Some(t) => Some(t as usize),
                None => None,
            },
            r.max_concurrent_requests is Some ==> cap_total(self.spec_entries()) is Some,
            r.supports_streaming && r.supports_chat && r.supports_completions,
            r.metadata@.len() == 0,
    {
        let ghost es = self.entries@;
        let n = self.entries.len();
        let mut models: Vec<ModelDescriptor> = Vec::new();
        let mut total: Option<usize> = None;
        let mut i: usize = 0;
        assert(es.subrange(0, 0) =~= Seq::<EndpointEntry>::empty());
        while i < n
            invariant
                es == self.entries@,
                n == es.len(),
                i <= n,
                models@ == first_occurrences(all_models(es.subrange(0, i as int))),
                match cap_total(es.subrange(0, i as int)) {
                    Some(t) => 0 <= t <= usize::MAX && total == Some(t as usize),
                    None => total is None,
                },
            decreases n - i,
        {
            let dm = &self.entries[i].discovered_models;
            let ghost flat = all_models(es.subrange(0, i as int));
            let mut k: usize = 0;
            assert(flat + dm@.subrange(0, 0) =~= flat);
            while k < dm.len()
                invariant
                    es == self.entries@,
                    i < n,
                    n == es.len(),
                    dm == &es[i as int].discovered_models,
                    flat == all_models(es.subrange(0, i as int)),
                    k <= dm@.len(),
                    models@ == first_occurrences(flat + dm@.subrange(0, k as int)),
                decreases dm.len() - k,
            {
                proof {
                    let a = flat + dm@.subrange(0, k as int);
                    let b = flat + dm@.subrange(0, k + 1);
                    assert(b.drop_last() =~= a);
                    assert(b.last() == dm@[k as int]);
                }
                if !models_contain(&models, dm[k].id.as_str()) {
                    models.push(dm[k].duplicate());
                }
                k += 1;
            }
            proof {
                let s = es.subrange(0, i + 1);
                assert(s.drop_last() =~= es.subrange(0, i as int));
                assert(s.last() == es[i as int]);
                assert(dm@.subrange(0, dm@.len() as int) =~= dm@);
            }
            match self.entries[i].meta.max_concurrent {
                None => {},
                Some(c) => {
                    total = match total {
                        None => Some(c),
                        Some(t) => Some(t.saturating_add(c)),
                    };
                },
            }
            i += 1;
        }
        proof {
            assert(es.subrange(0, n as int) =~= es);
        }
        let caps = NodeCapabilities::new(models, n);
        match total {
            Some(t) => caps.with_max_concurrent(t),
            None => caps,
        }
    }

    /// Rebuilds the model index from every endpoint's discovered models.
    pub fn rebuild_model_index(&mut self)
        requires
            entries_wf(old(self).spec_entries()),
        ensures
            final(self).wf(),
            final(self).spec_entries() == old(self).spec_entries(),
    {
        let mut idx: Vec<IndexSlot> = Vec::new();
        let n = self.entries.len();
        let ghost es = self.entries@;
        let mut i: usize = 0;
        assert(es.subrange(0, 0).len() == 0);
        while i < n
            invariant
                es == self.entries@,
                n == es.len(),
                i <= n,
                partial_index_wf(es, idx@, i as int, 0),
            decreases n - i,
        {
            let models = &self.entries[i].discovered_models;
            let mut k: usize = 0;
            while k < models.len()
                invariant
                    es == self.entries@,
                    n == es.len(),
                    i < n,
                    models == &es[i as int].discovered_models,
                    k <= models@.len(),
                    partial_index_wf(es, idx@, i as int, k as int),
                decreases models.len() - k,
            {
                let id = &models[k].id;
                let ghost mid = id@;
                let ghost old_idx = idx@;
                proof {
                    assert forall|m: Seq<char>|
                        lists_model(es[i as int].discovered_models@.subrange(0, k + 1), m) == (
                        lists_model(es[i as int].discovered_models@.subrange(0, k as int), m) || m
                            == mid) by {
                        lemma_lists_model_extend(es[i as int].discovered_models@, k as int, m);
                    }
                    lemma_advertisers(es.subrange(0, i as int), mid);
                }
                match find_slot(&idx, id) {
                    Some(s) => {
                        let len = idx[s].endpoints.len();
                        if len == 0 || idx[s].endpoints[len - 1] != i {
                            proof {
                                let done = advertisers(es.subrange(0, i as int), mid);
                                if lists_model(
                                    es[i as int].discovered_models@.subrange(0, k as int),
                                    mid,
                                ) {
                                    assert(idx@[s as int].endpoints@ == done.push(i as usize));
                                    assert(false);
                                }
                            }
                            idx[s].endpoints.push(i);
                        }
                        proof {
                            assert forall|x: int| 0 <= x < idx@.len() implies (
                            #[trigger] idx@[x]).endpoints@ == partial_advertisers(
                                es,
                                idx@[x].model_id@,
                                i as int,
                                k + 1,
                            ) by {
                                if x != s {
                                    assert(old_idx[x] == idx@[x]);
                                    assert(old_idx[x].model_id@ != mid);
                                }
                            }
                            assert forall|j: int, m: Seq<char>|
                                0 <= j < i && #[trigger] es[j].advertises(m) implies has_key(
                                idx@,
                                m,
                            ) by {
                                let t = choose|t: int| 0 <= t < old_idx.len() && (#[trigger] old_idx[t]).model_id@ == m;
                                assert(idx@[t].model_id@ == m);
                            }
                            assert forall|x: int| 0 <= x < k + 1 implies has_key(
                                idx@,
                                (#[trigger] es[i as int].discovered_models@[x]).id@,
                            ) by {
                                let m = es[i as int].discovered_models@[x].id@;
                                if x < k {
                                    let t = choose|t: int| 0 <= t < old_idx.len() && (#[trigger] old_idx[t]).model_id@ == m;
                                    assert(idx@[t].model_id@ == m);
                                } else {
                                    assert(idx@[s as int].model_id@ == m);
                                }
                            }
                            assert forall|x: int| 0 <= x < idx@.len() implies (
                            #[trigger] idx@[x]).endpoints@.len() > 0 by {
                                if x != s {
                                    assert(old_idx[x] == idx@[x]);
                                }
                            }
                            assert(keys_unique(idx@)) by {
                                assert forall|a: int, b: int|
                                    0 <= a < idx@.len() && 0 <= b < idx@.len() && a != b implies (
                                #[trigger] idx@[a]).model_id@ != (#[trigger] idx@[b]).model_id@ by {
                                    assert(idx@[a].model_id@ == old_idx[a].model_id@);
                                    assert(idx@[b].model_id@ == old_idx[b].model_id@);
                                }
                            }
                        }
                    },
                    None => {
                        proof {
                            let done = advertisers(es.subrange(0, i as int), mid);
                            if done.len() > 0 {
                                let j = done[0] as int;
                                assert(es.subrange(0, i as int)[j] == es[j]);
                                assert(es[j].advertises(mid));
                                assert(has_key(old_idx, mid));
                            }
                            assert(done =~= Seq::<usize>::empty());
                            if lists_model(es[i as int].discovered_models@.subrange(0, k as int), mid) {
                                let x = choose|x: int|
                                    0 <= x < k && (#[trigger] es[i as int].discovered_models@.subrange(0, k as int)[x]).id@ == mid;
                                assert(es[i as int].discovered_models@.subrange(0, k as int)[x]
                                    == es[i as int].discovered_models@[x]);
                                assert(has_key(old_idx, es[i as int].discovered_models@[x].id@));
                            }
                        }
                        let mut eps: Vec<usize> = Vec::new();
                        eps.push(i);
                        idx.push(IndexSlot { model_id: id.clone(), endpoints: eps });
                        proof {
                            let last = (idx@.len() - 1) as int;
                            assert(idx@[last].endpoints@ =~= Seq::<usize>::empty().push(i as usize));
                            assert forall|x: int| 0 <= x < idx@.len() implies (
                            #[trigger] idx@[x]).endpoints@ == partial_advertisers(
                                es,
                                idx@[x].model_id@,
                                i as int,
                                k + 1,
                            ) by {
                                if x != last {
                                    assert(old_idx[x] == idx@[x]);
                                    assert(old_idx[x].model_id@ != mid);
                                }
                            }
                            assert forall|j: int, m: Seq<char>|
                                0 <= j < i && #[trigger] es[j].advertises(m) implies has_key(
                                idx@,
                                m,
                            ) by {
                                let t = choose|t: int| 0 <= t < old_idx.len() && (#[trigger] old_idx[t]).model_id@ == m;
                                assert(idx@[t].model_id@ == m);
                            }
                            assert forall|x: int| 0 <= x < k + 1 implies has_key(
                                idx@,
                                (#[trigger] es[i as int].discovered_models@[x]).id@,
                            ) by {
                                let m = es[i as int].discovered_models@[x].id@;
                                if x < k {
                                    let t = choose|t: int| 0 <= t < old_idx.len() && (#[trigger] old_idx[t]).model_id@ == m;
                                    assert(idx@[t].model_id@ == m);
                                } else {
                                    assert(idx@[last].model_id@ == m);
                                }
                            }
                            assert forall|x: int| 0 <= x < idx@.len() implies (
                            #[trigger] idx@[x]).endpoints@.len() > 0 by {
                                if x != last {
                                    assert(old_idx[x] == idx@[x]);
                                }
                            }
                            assert(keys_unique(idx@)) by {
                                assert forall|a: int, b: int|
                                    0 <= a < idx@.len() && 0 <= b < idx@.len() && a != b implies (
                                #[trigger] idx@[a]).model_id@ != (#[trigger] idx@[b]).model_id@ by {
                                    if a != last && b != last {
                                        assert(idx@[a] == old_idx[a]);
                                        assert(idx@[b] == old_idx[b]);
                                    } else if a == last {
                                        assert(idx@[b] == old_idx[b]);
                                    } else {
                                        assert(idx@[a] == old_idx[a]);
                                    }
                                }
                            }
                        }
                    },
                }
                k += 1;
            }
            proof {
                let dm = es[i as int].discovered_models@;
                assert(dm.subrange(0, dm.len() as int) =~= dm);
                assert(dm.subrange(0, 0).len() == 0);
                assert forall|m: Seq<char>| #[trigger]
                    partial_advertisers(es, m, i as int, dm.len() as int) == partial_advertisers(
                        es,
                        m,
                        i + 1,
                        0,
                    ) by {
                    lemma_advertisers_extend(es, i as int, m);
                    if i + 1 < es.len() {
                        assert(!lists_model(es[i + 1].discovered_models@.subrange(0, 0), m));
                    }
                }
                assert forall|j: int, m: Seq<char>| 0 <= j < i + 1 && #[trigger] es[j].advertises(m) implies has_key(
                    idx@,
                    m,
                ) by {
                    if j == i {
                        let x = choose|x: int| 0 <= x < dm.len() && (#[trigger] dm[x]).id@ == m;
                        assert(has_key(idx@, dm[x].id@));
                    }
                }
            }
            i += 1;
        }
        proof {
            assert(es.subrange(0, n as int) =~= es);
        }
        self.model_index = idx;
    }
}

/// Capacity invariant: in every registry state, every endpoint has at most
/// as many requests in flight as its cap allows.
pub proof fn lemma_active_within_cap(reg: &EndpointRegistry, i: int)
    requires
        reg.wf(),
        0 <= i < reg.spec_entries().len(),
    ensures
        match reg.spec_entries()[i].meta.max_concurrent {
            Some(c) => reg.spec_entries()[i].active_requests <= c,
            None => true,
        },
{
    assert(reg.spec_entries()[i].within_cap());
}

/// Index exactness: in every registry state, model `m` has an index slot
/// exactly when some endpoint currently advertises it, and the slot lists
/// exactly those endpoints, in configuration order.
pub proof fn lemma_index_exact(reg: &EndpointRegistry, m: Seq<char>)
    requires
        reg.wf(),
    ensures
        has_key(reg.spec_index(), m) <==> exists|i: int|
            0 <= i < reg.spec_entries().len() && #[trigger] reg.spec_entries()[i].advertises(m),
        forall|s: int|
            0 <= s < reg.spec_index().len() && (#[trigger] reg.spec_index()[s]).model_id@ == m ==> {
                let eps = reg.spec_index()[s].endpoints@;
                &&& forall|a: int, b: int| 0 <= a < b < eps.len() ==> #[trigger] eps[a] < #[trigger] eps[b]
                &&& forall|k: int|
                    0 <= k < eps.len() ==> (#[trigger] eps[k] as int) < reg.spec_entries().len()
                        && reg.spec_entries()[eps[k] as int].advertises(m)
                &&& forall|i: int|
                    0 <= i < reg.spec_entries().len() && #[trigger] reg.spec_entries()[i].advertises(m)
                        ==> eps.contains(i as usize)
            },
{
    let es = reg.spec_entries();
    let idx = reg.spec_index();
    assert(es.len() <= usize::MAX) by {
        assert(reg.entries@.len() == reg.entries.len());
    }
    lemma_advertisers(es, m);
    if has_key(idx, m) {
        let s = choose|s: int| 0 <= s < idx.len() && (#[trigger] idx[s]).model_id@ == m;
        assert(idx[s].endpoints@.len() > 0);
        assert(es[advertisers(es, m)[0] as int].advertises(m));
    }
    assert forall|s: int|
        0 <= s < idx.len() && (#[trigger] idx[s]).model_id@ == m implies {
            let eps = idx[s].endpoints@;
            forall|i: int|
                0 <= i < es.len() && #[trigger] es[i].advertises(m) ==> eps.contains(i as usize)
        } by {
        let eps = idx[s].endpoints@;
        assert forall|i: int| 0 <= i < es.len() && #[trigger] es[i].advertises(m) implies eps.contains(
            i as usize,
        ) by {
            let k = choose|k: int| 0 <= k < advertisers(es, m).len() && advertisers(es, m)[k] == i;
            assert(eps[k] == i as usize);
        }
    }
}

/// Selection finds an endpoint exactly when one exists: when no endpoint
/// advertising `m` is at its cap, a request for `m` is routed if and only if
/// some endpoint advertising `m` is healthy, and then to a healthy one.
pub proof fn lemma_select_iff_healthy_exists(reg: &EndpointRegistry, m: Seq<char>, r: Option<int>)
    requires
        reg.wf(),
        forall|i: int|
            0 <= i < reg.spec_entries().len() && #[trigger] reg.spec_entries()[i].advertises(m)
                ==> reg.spec_entries()[i].has_room(),
        match r {
            Some(i) => first_available(reg.spec_entries(), m, i),
            None => none_available(reg.spec_entries(), m),
        },
    ensures
        r is Some <==> exists|i: int|
            0 <= i < reg.spec_entries().len() && #[trigger] reg.spec_entries()[i].advertises(m)
                && reg.spec_entries()[i].healthy(),
        r matches Some(i) ==> reg.spec_entries()[i].healthy(),
{
    let es = reg.spec_entries();
    if r is None {
        if exists|i: int| 0 <= i < es.len() && #[trigger] es[i].advertises(m) && es[i].healthy() {
            let i = choose|i: int| 0 <= i < es.len() && #[trigger] es[i].advertises(m) && es[i].healthy();
            assert(es[i].available());
        }
    } else {
        let i = r->Some_0;
        assert(es[i].advertises(m) && es[i].healthy());
    }
}

} // verus!
