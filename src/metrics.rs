//! Metric observations produced by the library's decisions. The daemon hands
//! each one to whichever recorder is configured.

use vstd::prelude::*;

verus! {

/// The machine-readable kinds of recorded errors.
#[derive(Debug, Clone, Copy, PartialEq, Eq, Structural)]
pub enum ErrorKind {
    HealthHttpStatus,
    HealthHttpError,
    ModelDiscoveryParse,
    ModelDiscoveryHttpStatus,
    ModelDiscoveryError,
    BadRequest,
    ModelNotFound,
    UpstreamRequestError,
    UpstreamBodyReadError,
    Timeout,
}

/// The label under which an error kind is counted.
pub open spec fn error_kind_label(k: ErrorKind) -> Seq<char> {
    match k {
        ErrorKind::HealthHttpStatus => "health_http_status"@,
        ErrorKind::HealthHttpError => "health_http_error"@,
        ErrorKind::ModelDiscoveryParse => "model_discovery_parse"@,
        ErrorKind::ModelDiscoveryHttpStatus => "model_discovery_http_status"@,
        ErrorKind::ModelDiscoveryError => "model_discovery_error"@,
        ErrorKind::BadRequest => "bad_request"@,
        ErrorKind::ModelNotFound => "model_not_found"@,
        ErrorKind::UpstreamRequestError => "upstream_request_error"@,
        ErrorKind::UpstreamBodyReadError => "upstream_body_read_error"@,
        ErrorKind::Timeout => "timeout"@,
    }
}

impl ErrorKind {
    /// The counter label of this kind.
    pub fn label(&self) -> (r: String)
        ensures
            r@ == error_kind_label(*self),
    {
        match self {
            ErrorKind::HealthHttpStatus => "health_http_status".to_owned(),
            ErrorKind::HealthHttpError => "health_http_error".to_owned(),
            ErrorKind::ModelDiscoveryParse => "model_discovery_parse".to_owned(),
            ErrorKind::ModelDiscoveryHttpStatus => "model_discovery_http_status".to_owned(),
            ErrorKind::ModelDiscoveryError => "model_discovery_error".to_owned(),
            ErrorKind::BadRequest => "bad_request".to_owned(),
            ErrorKind::ModelNotFound => "model_not_found".to_owned(),
            ErrorKind::UpstreamRequestError => "upstream_request_error".to_owned(),
            ErrorKind::UpstreamBodyReadError => "upstream_body_read_error".to_owned(),
            ErrorKind::Timeout => "timeout".to_owned(),
        }
    }
}

/// One observation for the metrics recorder.
#[derive(Debug, Clone)]
pub enum MetricEvent {
    /// A request was started.
    RequestStart { endpoint: Option<String>, model: Option<String> },
    /// A request ended; the latency is measured by the caller, where it applies.
    RequestEnd { endpoint: Option<String>, model: Option<String>, success: bool },
    /// An error of the given kind.
    Error { endpoint: Option<String>, kind: ErrorKind },
    /// The number of requests in flight.
    ActiveRequests(u64),
}

/// The label used for an absent endpoint or model.
pub open spec fn label_or_unknown(v: Option<Seq<char>>) -> Seq<char> {
    match v {
        Some(s) => s,
        None => "_unknown"@,
    }
}

/// The label for an optional value: the value itself, or `_unknown`.
pub fn label_of(v: &Option<String>) -> (r: String)
    ensures
        r@ == label_or_unknown(
            match v {
                Some(s) => Some(s@),
                None => None,
            },
        ),
{
    match v {
        Some(s) => s.clone(),
        None => "_unknown".to_owned(),
    }
}

} // verus!
