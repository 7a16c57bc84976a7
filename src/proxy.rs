//! Decisions of the OpenAI-compatible proxy: which upstream serves a
//! request, what the client is answered, and what is counted. The daemon
//! performs the HTTP exchanges and reports their outcome here.

use vstd::prelude::*;
use vstd::string::*;
use crate::discovery::{chat_completions_url, chat_url_of};
use crate::endpoint::{ModelDescriptor, ModelListResponse};
use crate::metrics::{ErrorKind, MetricEvent};
use crate::registry::{
    all_models, first_available, first_occurrences, none_available, with_active, EndpointLease,
    EndpointRegistry,
};

verus! {

/// Failure to serve HTTP.
#[derive(Debug, Clone)]
pub enum ProxyError {
    Http(String),
}

impl ProxyError {
    /// The human-readable message.
    pub fn to_string(&self) -> (r: String)
        ensures
            match self {
                ProxyError::Http(m) => r@ == "proxy HTTP error: "@ + m@,
            },
    {
        match self {
            ProxyError::Http(m) => {
                let mut s = "proxy HTTP error: ".to_owned();
                s.append(m.as_str());
                s
            },
        }
    }
}

/// Failure of the admin HTTP server.
#[derive(Debug, Clone)]
pub enum ServerError {
    /// The listening address could not be bound.
    BindFailed(String),
    /// Serving failed.
    ServeFailed(String),
}

impl ServerError {
    /// The human-readable message.
    pub fn to_string(&self) -> (r: String)
        ensures
            match self {
                ServerError::BindFailed(m) => r@ == "failed to bind HTTP server: "@ + m@,
                ServerError::ServeFailed(m) => r@ == "HTTP server error: "@ + m@,
            },
    {
        match self {
            ServerError::BindFailed(m) => {
                let mut s = "failed to bind HTTP server: ".to_owned();
                s.append(m.as_str());
                s
            },
            ServerError::ServeFailed(m) => {
                let mut s = "HTTP server error: ".to_owned();
                s.append(m.as_str());
                s
            },
        }
    }
}

/// One chat message.
#[derive(Debug, Clone)]
pub struct ChatMessage {
    pub role: String,
    pub content: String,
}

/// A chat completion request: what routing reads, plus every other field,
/// forwarded unchanged.
#[derive(Debug, Clone)]
pub struct ChatCompletionRequest {
    pub model: String,
    pub messages: Vec<ChatMessage>,
    pub stream: Option<bool>,
    pub extra: serde_json::Value,
}

/// Counts of proxied requests: every started request has ended or is still
/// in flight.
pub struct RequestLedger {
    started: u64,
    ended: u64,
    in_flight: u64,
}

impl RequestLedger {
    /// Started requests equal ended ones plus those in flight.
    pub open spec fn balanced(&self) -> bool {
        self.spec_started() == self.spec_ended() + self.spec_in_flight()
    }

    /// Requests started so far.
    pub closed spec fn spec_started(&self) -> nat {
        self.started as nat
    }

    /// Requests ended so far.
    pub closed spec fn spec_ended(&self) -> nat {
        self.ended as nat
    }

    /// Requests in flight.
    pub closed spec fn spec_in_flight(&self) -> nat {
        self.in_flight as nat
    }

    /// Nothing counted yet.
    pub fn new() -> (r: Self)
        ensures
            r.spec_started() == 0 && r.spec_ended() == 0 && r.spec_in_flight() == 0,
            r.balanced(),
    {
        RequestLedger { started: 0, ended: 0, in_flight: 0 }
    }

    /// Whether another request can be counted.
    pub fn can_start(&self) -> (r: bool)
        ensures
            r == (self.spec_started() < u64::MAX),
    {
        self.started < u64::MAX
    }

    /// Requests in flight.
    pub fn in_flight(&self) -> (r: u64)
        ensures
            r == self.spec_in_flight(),
    {
        self.in_flight
    }

    /// Requests started so far.
    pub fn started(&self) -> (r: u64)
        ensures
            r == self.spec_started(),
    {
        self.started
    }

    /// Requests ended so far.
    pub fn ended(&self) -> (r: u64)
        ensures
            r == self.spec_ended(),
    {
        self.ended
    }

    fn start(&mut self)
        requires
            old(self).balanced(),
            old(self).spec_started() < u64::MAX,
        ensures
            final(self).balanced(),
            final(self).spec_started() == old(self).spec_started() + 1,
            final(self).spec_ended() == old(self).spec_ended(),
            final(self).spec_in_flight() == old(self).spec_in_flight() + 1,
    {
        self.started = self.started + 1;
        self.in_flight = self.in_flight + 1;
    }

    fn end(&mut self)
        requires
            old(self).balanced(),
            old(self).spec_in_flight() > 0,
        ensures
            final(self).balanced(),
            final(self).spec_started() == old(self).spec_started(),
            final(self).spec_ended() == old(self).spec_ended() + 1,
            final(self).spec_in_flight() == old(self).spec_in_flight() - 1,
    {
        self.ended = self.ended + 1;
        self.in_flight = self.in_flight - 1;
    }
}

/// A request that holds an upstream slot.
#[derive(Debug)]
pub struct RoutedRequest {
    pub lease: EndpointLease,
    /// Where to post the unchanged request body.
    pub upstream_url: String,
    /// The model asked for.
    pub model: String,
    /// Whether the response is streamed through.
    pub streaming: bool,
    /// The request-start metric of this request.
    pub start: MetricEvent,
}

/// An answer to the client, with what it is counted under: the request-end
/// metric of a routed request, and the error, if any.
#[derive(Debug)]
pub struct Reply {
    pub status: u16,
    pub end: Option<MetricEvent>,
    pub error: Option<MetricEvent>,
}

/// How the upstream exchange of a routed request ended.
#[derive(Debug, Clone, Copy)]
pub enum UpstreamOutcome {
    /// No connection could be made.
    ConnectFailed,
    /// The upstream did not answer within the bounded time.
    TimedOut,
    /// The upstream answered with this status and its body was passed on.
    Responded(u16),
    /// The upstream answered but its body could not be read.
    BodyReadFailed,
}

/// A 2xx status.
pub open spec fn success_status(s: u16) -> bool {
    200 <= s < 300
}

/// The client's status for an upstream outcome: the upstream's own status,
/// or 502 when there is none to pass on.
pub open spec fn reply_status(o: UpstreamOutcome) -> u16 {
    match o {
        UpstreamOutcome::Responded(s) => s,
        _ => 502,
    }
}

/// The request-end metric of a routed request on endpoint `name` for model
/// `model`: a success only for a 2xx answer passed on.
pub open spec fn outcome_end(name: String, model: String, o: UpstreamOutcome) -> MetricEvent {
    MetricEvent::RequestEnd {
        endpoint: Some(name),
        model: Some(model),
        success: match o {
            UpstreamOutcome::Responded(s) => success_status(s),
            _ => false,
        },
    }
}

/// The error metric of an upstream outcome on endpoint `name`, if any.
pub open spec fn outcome_error(name: String, o: UpstreamOutcome) -> Option<MetricEvent> {
    match o {
        UpstreamOutcome::ConnectFailed => Some(
            MetricEvent::Error { endpoint: Some(name), kind: ErrorKind::UpstreamRequestError },
        ),
        UpstreamOutcome::TimedOut => Some(MetricEvent::Error { endpoint: Some(name), kind: ErrorKind::Timeout }),
        UpstreamOutcome::BodyReadFailed => Some(
            MetricEvent::Error { endpoint: Some(name), kind: ErrorKind::UpstreamBodyReadError },
        ),
        UpstreamOutcome::Responded(_) => None,
    }
}

/// The answer to a body that is not a valid chat completion request.
pub fn bad_request_reply() -> (r: Reply)
    ensures
        r.status == 400,
        r.end is None,
        r.error == Some(MetricEvent::Error { endpoint: None, kind: ErrorKind::BadRequest }),
{
    Reply {
        status: 400,
        end: None,
        error: Some(MetricEvent::Error { endpoint: None, kind: ErrorKind::BadRequest }),
    }
}

/// Routes a chat completion request: the first healthy endpoint with room
/// that advertises the model takes it, and the request is counted as
/// started. When there is none, the answer is 400, counted as
/// `model_not_found`, and nothing changes.
pub fn route_chat_completion(
    registry: &mut EndpointRegistry,
    ledger: &mut RequestLedger,
    req: &ChatCompletionRequest,
) -> (r: Result<RoutedRequest, Reply>)
    requires
        old(registry).wf(),
        old(ledger).balanced(),
        old(ledger).spec_started() < u64::MAX,
    ensures
        final(registry).wf(),
        final(ledger).balanced(),
        match r {
            Ok(routed) => {
                let i = routed.lease.index as int;
                let e = old(registry).spec_entries()[i];
                &&& first_available(old(registry).spec_entries(), req.model@, i)
                &&& final(registry).spec_entries() == old(registry).spec_entries().update(
                    i,
                    with_active(e, (e.active_requests + 1) as usize),
                )
                &&& routed.lease.name@ == e.endpoint.name@
                &&& routed.upstream_url@ == chat_url_of(e.endpoint.base_url@)
                &&& routed.model@ == req.model@
                &&& routed.streaming == (req.stream == Some(true))
                &&& routed.start matches MetricEvent::RequestStart { endpoint: Some(n), model: Some(m) }
                    && n@ == e.endpoint.name@ && m@ == req.model@
                &&& final(ledger).spec_started() == old(ledger).spec_started() + 1
                &&& final(ledger).spec_ended() == old(ledger).spec_ended()
                &&& final(ledger).spec_in_flight() == old(ledger).spec_in_flight() + 1
            },
            Err(reply) => {
                &&& none_available(old(registry).spec_entries(), req.model@)
                &&& reply.status == 400
                &&& reply.end is None
                &&& reply.error == Some(MetricEvent::Error { endpoint: None, kind: ErrorKind::ModelNotFound })
                &&& final(registry).spec_entries() == old(registry).spec_entries()
                &&& final(ledger).spec_started() == old(ledger).spec_started()
                &&& final(ledger).spec_ended() == old(ledger).spec_ended()
                &&& final(ledger).spec_in_flight() == old(ledger).spec_in_flight()
            },
        },
{
    match registry.acquire_endpoint(req.model.as_str()) {
        None => Err(
            Reply {
                status: 400,
                end: None,
                error: Some(MetricEvent::Error { endpoint: None, kind: ErrorKind::ModelNotFound }),
            },
        ),
        Some(lease) => {
            ledger.start();
            let upstream_url = chat_completions_url(lease.base_url.as_str());
            let streaming = match req.stream {
                Some(b) => b,
                None => false,
            };
            let start = MetricEvent::RequestStart {
                endpoint: Some(lease.name.clone()),
                model: Some(req.model.clone()),
            };
            Ok(RoutedRequest { lease, upstream_url, model: req.model.clone(), streaming, start })
        },
    }
}

/// Ends a routed request once its upstream exchange is over, on every exit
/// path: its slot is released, it is counted as ended, and the client is
/// answered with the upstream's status (502 when there is none).
pub fn finish_chat_completion(
    registry: &mut EndpointRegistry,
    ledger: &mut RequestLedger,
    routed: RoutedRequest,
    outcome: UpstreamOutcome,
) -> (r: Reply)
    requires
        old(registry).wf(),
        old(ledger).balanced(),
        old(ledger).spec_in_flight() > 0,
    ensures
        final(registry).wf(),
        final(ledger).balanced(),
        ({
            let i = routed.lease.index as int;
            let es = old(registry).spec_entries();
            final(registry).spec_entries() == if 0 <= i < es.len() && es[i].active_requests > 0 {
                es.update(i, with_active(es[i], (es[i].active_requests - 1) as usize))
            } else {
                es
            }
        }),
        final(ledger).spec_started() == old(ledger).spec_started(),
        final(ledger).spec_ended() == old(ledger).spec_ended() + 1,
        final(ledger).spec_in_flight() == old(ledger).spec_in_flight() - 1,
        r.status == reply_status(outcome),
        r.end == Some(outcome_end(routed.lease.name, routed.model, outcome)),
        r.error == outcome_error(routed.lease.name, outcome),
{
    registry.release_endpoint(routed.lease.index);
    ledger.end();
    let name = routed.lease.name;
    let model = routed.model;
    let (status, success, error) = match outcome {
        UpstreamOutcome::ConnectFailed => (
            502,
            false,
            Some(MetricEvent::Error { endpoint: Some(name.clone()), kind: ErrorKind::UpstreamRequestError }),
        ),
        UpstreamOutcome::TimedOut => (
            502,
            false,
            Some(MetricEvent::Error { endpoint: Some(name.clone()), kind: ErrorKind::Timeout }),
        ),
        UpstreamOutcome::BodyReadFailed => (
            502,
            false,
            Some(MetricEvent::Error { endpoint: Some(name.clone()), kind: ErrorKind::UpstreamBodyReadError }),
        ),
        UpstreamOutcome::Responded(s) => (s, 200 <= s && s < 300, None),
    };
    Reply {
        status,
        end: Some(MetricEvent::RequestEnd { endpoint: Some(name), model: Some(model), success }),
        error,
    }
}

/// Whether an upstream response header is copied to the client: all but
/// `content-length` (header names are compared in lower case).
pub fn forward_header(name: &str) -> (r: bool)
    ensures
        r == (name@ != "content-length"@),
{
    let n = name.to_owned();
    let cl = "content-length".to_owned();
    !(n == cl)
}

/// The answer to `GET /v1/models`: the capability snapshot's models as a
/// `list`, counted as a success of endpoint `proxy`, model `models_list`.
pub fn list_models(registry: &EndpointRegistry) -> (r: (ModelListResponse, MetricEvent))
    ensures
        r.0.object@ == "list"@,
        r.0.data@ == first_occurrences(all_models(registry.spec_entries())),
        r.1 matches MetricEvent::RequestEnd { endpoint: Some(e), model: Some(m), success: true }
            && e@ == "proxy"@ && m@ == "models_list"@,
{
    let caps = registry.to_node_capabilities();
    (
        ModelListResponse::new(caps.models),
        MetricEvent::RequestEnd {
            endpoint: Some("proxy".to_owned()),
            model: Some("models_list".to_owned()),
            success: true,
        },
    )
}

} // verus!
