//! The library-wide error type.

use vstd::prelude::*;
use vstd::string::*;
use crate::text::{has_prefix, push_char};

verus! {

#[verifier::external_type_specification]
#[verifier::external_body]
pub struct ExReqwestError(reqwest::Error);

#[verifier::external_type_specification]
#[verifier::external_body]
pub struct ExJsonError(serde_json::Error);

#[verifier::external_type_specification]
#[verifier::external_body]
pub struct ExIoError(std::io::Error);

/// Everything that can go wrong in the node daemon, by kind.
#[derive(Debug)]
pub enum LabmanError {
    Config(String),
    InvalidConfig { field: String, message: String },
    ConfigNotFound(String),
    WireGuard(String),
    Rosenpass(String),
    NetworkInterface(String),
    Endpoint { endpoint: String, message: String },
    EndpointNotFound(String),
    EndpointUnhealthy(String),
    ModelNotFound(String),
    ModelDiscovery { endpoint: String, message: String },
    Http(String),
    HttpClient(reqwest::Error),
    Timeout(u64),
    InvalidRequest(String),
    InvalidResponse { endpoint: String, message: String },
    Proxy(String),
    Streaming(String),
    ControlPlane(String),
    Authentication(String),
    Registration(String),
    Heartbeat(String),
    Serialization(String),
    Json(serde_json::Error),
    Toml(String),
    Io(std::io::Error),
    FileSystem(String),
    PermissionDenied(String),
    ResourceUnavailable(String),
    Unsupported(String),
    InvalidState(String),
    ConcurrencyLimitReached(String),
    Shutdown,
    Internal(String),
}

/// Outcome of a fallible operation of the node.
pub type Result<T> = std::result::Result<T, LabmanError>;

/// The decimal numeral of `n`.
pub open spec fn decimal(n: nat) -> Seq<char>
    decreases n,
{
    if n < 10 {
        seq![((48 + n) as u8) as char]
    } else {
        decimal(n / 10).push(((48 + n % 10) as u8) as char)
    }
}

/// The decimal numeral of `n`.
pub fn decimal_string(n: u64) -> (r: String)
    ensures
        r@ == decimal(n as nat),
    decreases n,
{
    if n < 10 {
        let mut s = String::new();
        push_char(&mut s, ((48 + n) as u8) as char);
        s
    } else {
        let mut s = decimal_string(n / 10);
        push_char(&mut s, ((48 + n % 10) as u8) as char);
        s
    }
}

/// Relies on the `Display` of reqwest::Error: its description.
#[verifier::external_body]
fn reqwest_error_text(e: &reqwest::Error) -> String {
    e.to_string()
}

/// Relies on the `Display` of serde_json::Error: its description.
#[verifier::external_body]
fn json_error_text(e: &serde_json::Error) -> String {
    e.to_string()
}

/// Relies on the `Display` of std::io::Error: its description.
#[verifier::external_body]
fn io_error_text(e: &std::io::Error) -> String {
    e.to_string()
}

/// The message of an error that carries only text, as `head` + text + `tail`.
pub open spec fn framed(head: Seq<char>, body: Seq<char>, tail: Seq<char>) -> Seq<char> {
    head + body + tail
}

/// The message of an error; for the kinds that wrap another library's
/// error, only its fixed beginning is stated.
pub open spec fn error_text(e: LabmanError, r: Seq<char>) -> bool {
    match e {
        LabmanError::Config(m) => r == framed("Configuration error: "@, m@, ""@),
        LabmanError::InvalidConfig { field, message } => r == "Invalid configuration for '"@ + field@
            + "': "@ + message@,
        LabmanError::ConfigNotFound(m) => r == framed("Configuration file not found at path: "@, m@, ""@),
        LabmanError::WireGuard(m) => r == framed("WireGuard error: "@, m@, ""@),
        LabmanError::Rosenpass(m) => r == framed("Rosenpass error: "@, m@, ""@),
        LabmanError::NetworkInterface(m) => r == framed("Network interface error: "@, m@, ""@),
        LabmanError::Endpoint { endpoint, message } => r == "Endpoint '"@ + endpoint@ + "' error: "@
            + message@,
        LabmanError::EndpointNotFound(m) => r == framed("Endpoint not found: "@, m@, ""@),
        LabmanError::EndpointUnhealthy(m) => r == framed("Endpoint '"@, m@, "' is unhealthy"@),
        LabmanError::ModelNotFound(m) => r == framed("Model '"@, m@, "' not found on any healthy endpoint"@),
        LabmanError::ModelDiscovery { endpoint, message } => r == "Failed to discover models from endpoint '"@
            + endpoint@ + "': "@ + message@,
        LabmanError::Http(m) => r == framed("HTTP request failed: "@, m@, ""@),
        LabmanError::HttpClient(_) => has_prefix(r, "HTTP client error: "@),
        LabmanError::Timeout(n) => r == framed("Request timed out after "@, decimal(n as nat), "s"@),
        LabmanError::InvalidRequest(m) => r == framed("Invalid request: "@, m@, ""@),
        LabmanError::InvalidResponse { endpoint, message } => r == "Invalid response from endpoint '"@
            + endpoint@ + "': "@ + message@,
        LabmanError::Proxy(m) => r == framed("Proxy error: "@, m@, ""@),
        LabmanError::Streaming(m) => r == framed("Streaming error: "@, m@, ""@),
        LabmanError::ControlPlane(m) => r == framed("Control plane error: "@, m@, ""@),
        LabmanError::Authentication(m) => r == framed("Control plane authentication failed: "@, m@, ""@),
        LabmanError::Registration(m) => r == framed("Node registration failed: "@, m@, ""@),
        LabmanError::Heartbeat(m) => r == framed("Heartbeat failed: "@, m@, ""@),
        LabmanError::Serialization(m) => r == framed("Serialization error: "@, m@, ""@),
        LabmanError::Json(_) => has_prefix(r, "JSON error: "@),
        LabmanError::Toml(m) => r == framed("TOML error: "@, m@, ""@),
        LabmanError::Io(_) => has_prefix(r, "I/O error: "@),
        LabmanError::FileSystem(m) => r == framed("File system error: "@, m@, ""@),
        LabmanError::PermissionDenied(m) => r == framed("Permission denied: "@, m@, ""@),
        LabmanError::ResourceUnavailable(m) => r == framed("Resource not available: "@, m@, ""@),
        LabmanError::Unsupported(m) => r == framed("Operation not supported: "@, m@, ""@),
        LabmanError::InvalidState(m) => r == framed("Invalid state: "@, m@, ""@),
        LabmanError::ConcurrencyLimitReached(m) => r == framed(
            "Concurrent operation limit reached for endpoint '"@,
            m@,
            "'"@,
        ),
        LabmanError::Shutdown => r == "Shutdown signal received"@,
        LabmanError::Internal(m) => r == framed("Internal error: "@, m@, ""@),
    }
}

fn frame(head: &str, body: &str, tail: &str) -> (r: String)
    ensures
        r@ == framed(head@, body@, tail@),
{
    let mut s = head.to_owned();
    s.append(body);
    s.append(tail);
    s
}

fn join4(a: &str, b: &str, c: &str, d: &str) -> (r: String)
    ensures
        r@ == a@ + b@ + c@ + d@,
{
    let mut s = a.to_owned();
    s.append(b);
    s.append(c);
    s.append(d);
    s
}

/// Kinds worth retrying.
pub open spec fn transient(e: LabmanError) -> bool {
    e is Http || e is HttpClient || e is Timeout || e is EndpointUnhealthy || e is Heartbeat
        || e is ResourceUnavailable
}

/// Kinds that stop the daemon.
pub open spec fn fatal(e: LabmanError) -> bool {
    e is ConfigNotFound || e is PermissionDenied || e is Shutdown || e is Authentication
}

impl LabmanError {
    /// A configuration error.
    pub fn config(message: &str) -> (r: Self)
        ensures
            r matches LabmanError::Config(m) && m@ == message@,
    {
        LabmanError::Config(message.to_owned())
    }

    /// An invalid value for a configuration field.
    pub fn invalid_config(field: &str, message: &str) -> (r: Self)
        ensures
            r matches LabmanError::InvalidConfig { field: f, message: m } && f@ == field@ && m@
                == message@,
    {
        LabmanError::InvalidConfig { field: field.to_owned(), message: message.to_owned() }
    }

    /// A WireGuard error.
    pub fn wireguard(message: &str) -> (r: Self)
        ensures
            r matches LabmanError::WireGuard(m) && m@ == message@,
    {
        LabmanError::WireGuard(message.to_owned())
    }

    /// A Rosenpass error.
    pub fn rosenpass(message: &str) -> (r: Self)
        ensures
            r matches LabmanError::Rosenpass(m) && m@ == message@,
    {
        LabmanError::Rosenpass(message.to_owned())
    }

    /// An error talking to an endpoint.
    pub fn endpoint(endpoint: &str, message: &str) -> (r: Self)
        ensures
            r matches LabmanError::Endpoint { endpoint: e, message: m } && e@ == endpoint@ && m@
                == message@,
    {
        LabmanError::Endpoint { endpoint: endpoint.to_owned(), message: message.to_owned() }
    }

    /// A failed model discovery.
    pub fn model_discovery(endpoint: &str, message: &str) -> (r: Self)
        ensures
            r matches LabmanError::ModelDiscovery { endpoint: e, message: m } && e@ == endpoint@
                && m@ == message@,
    {
        LabmanError::ModelDiscovery { endpoint: endpoint.to_owned(), message: message.to_owned() }
    }

    /// An unusable response from an endpoint.
    pub fn invalid_response(endpoint: &str, message: &str) -> (r: Self)
        ensures
            r matches LabmanError::InvalidResponse { endpoint: e, message: m } && e@ == endpoint@
                && m@ == message@,
    {
        LabmanError::InvalidResponse { endpoint: endpoint.to_owned(), message: message.to_owned() }
    }

    /// The human-readable message of the error.
    pub fn to_string(&self) -> (r: String)
        ensures
            error_text(*self, r@),
    {
        match self {
            LabmanError::Config(m) => frame("Configuration error: ", m.as_str(), ""),
            LabmanError::InvalidConfig { field, message } => join4(
                "Invalid configuration for '",
                field.as_str(),
                "': ",
                message.as_str(),
            ),
            LabmanError::ConfigNotFound(m) => frame("Configuration file not found at path: ", m.as_str(), ""),
            LabmanError::WireGuard(m) => frame("WireGuard error: ", m.as_str(), ""),
            LabmanError::Rosenpass(m) => frame("Rosenpass error: ", m.as_str(), ""),
            LabmanError::NetworkInterface(m) => frame("Network interface error: ", m.as_str(), ""),
            LabmanError::Endpoint { endpoint, message } => join4(
                "Endpoint '",
                endpoint.as_str(),
                "' error: ",
                message.as_str(),
            ),
            LabmanError::EndpointNotFound(m) => frame("Endpoint not found: ", m.as_str(), ""),
            LabmanError::EndpointUnhealthy(m) => frame("Endpoint '", m.as_str(), "' is unhealthy"),
            LabmanError::ModelNotFound(m) => frame("Model '", m.as_str(), "' not found on any healthy endpoint"),
            LabmanError::ModelDiscovery { endpoint, message } => join4(
                "Failed to discover models from endpoint '",
                endpoint.as_str(),
                "': ",
                message.as_str(),
            ),
            LabmanError::Http(m) => frame("HTTP request failed: ", m.as_str(), ""),
            LabmanError::HttpClient(e) => {
                let t = reqwest_error_text(e);
                let r = frame("HTTP client error: ", t.as_str(), "");
                proof {
                    assert(r@.subrange(0, "HTTP client error: "@.len() as int) =~= "HTTP client error: "@);
                }
                r
            },
            LabmanError::Timeout(n) => {
                let d = decimal_string(*n);
                frame("Request timed out after ", d.as_str(), "s")
            },
            LabmanError::InvalidRequest(m) => frame("Invalid request: ", m.as_str(), ""),
            LabmanError::InvalidResponse { endpoint, message } => join4(
                "Invalid response from endpoint '",
                endpoint.as_str(),
                "': ",
                message.as_str(),
            ),
            LabmanError::Proxy(m) => frame("Proxy error: ", m.as_str(), ""),
            LabmanError::Streaming(m) => frame("Streaming error: ", m.as_str(), ""),
            LabmanError::ControlPlane(m) => frame("Control plane error: ", m.as_str(), ""),
            LabmanError::Authentication(m) => frame("Control plane authentication failed: ", m.as_str(), ""),
            LabmanError::Registration(m) => frame("Node registration failed: ", m.as_str(), ""),
            LabmanError::Heartbeat(m) => frame("Heartbeat failed: ", m.as_str(), ""),
            LabmanError::Serialization(m) => frame("Serialization error: ", m.as_str(), ""),
            LabmanError::Json(e) => {
                let t = json_error_text(e);
                let r = frame("JSON error: ", t.as_str(), "");
                proof {
                    assert(r@.subrange(0, "JSON error: "@.len() as int) =~= "JSON error: "@);
                }
                r
            },
            LabmanError::Toml(m) => frame("TOML error: ", m.as_str(), ""),
            LabmanError::Io(e) => {
                let t = io_error_text(e);
                let r = frame("I/O error: ", t.as_str(), "");
                proof {
                    assert(r@.subrange(0, "I/O error: "@.len() as int) =~= "I/O error: "@);
                }
                r
            },
            LabmanError::FileSystem(m) => frame("File system error: ", m.as_str(), ""),
            LabmanError::PermissionDenied(m) => frame("Permission denied: ", m.as_str(), ""),
            LabmanError::ResourceUnavailable(m) => frame("Resource not available: ", m.as_str(), ""),
            LabmanError::Unsupported(m) => frame("Operation not supported: ", m.as_str(), ""),
            LabmanError::InvalidState(m) => frame("Invalid state: ", m.as_str(), ""),
            LabmanError::ConcurrencyLimitReached(m) => frame(
                "Concurrent operation limit reached for endpoint '",
                m.as_str(),
                "'",
            ),
            LabmanError::Shutdown => "Shutdown signal received".to_owned(),
            LabmanError::Internal(m) => frame("Internal error: ", m.as_str(), ""),
        }
    }

    /// Whether the error is transient, so that the operation may be retried.
    pub fn is_transient(&self) -> (r: bool)
        ensures
            r == transient(*self),
    {
        match self {
            LabmanError::Http(_) | LabmanError::HttpClient(_) | LabmanError::Timeout(_)
            | LabmanError::EndpointUnhealthy(_) | LabmanError::Heartbeat(_)
            | LabmanError::ResourceUnavailable(_) => true,
            _ => false,
        }
    }

    /// Whether the error is fatal, so that the daemon must stop.
    pub fn is_fatal(&self) -> (r: bool)
        ensures
            r == fatal(*self),
    {
        match self {
            LabmanError::ConfigNotFound(_) | LabmanError::PermissionDenied(_)
            | LabmanError::Shutdown | LabmanError::Authentication(_) => true,
            _ => false,
        }
    }
}

} // verus!
