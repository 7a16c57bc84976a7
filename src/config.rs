//! The operator-supplied configuration and its structural validation.

use vstd::prelude::*;
use vstd::string::*;
use crate::error::LabmanError;
use crate::text::{blank, has_infix, has_prefix, has_suffix, is_blank, str_contains, str_ends_with, str_starts_with, trim, trimmed};

verus! {

/// Control-plane connectivity and identity.
#[derive(Debug, Clone)]
pub struct ControlPlaneConfig {
    pub base_url: String,
    pub node_token: String,
    pub region: Option<String>,
    pub description: Option<String>,
}

/// Rosenpass key paths.
#[derive(Debug, Clone)]
pub struct RosenpassConfig {
    pub private_key_path: Option<String>,
    pub public_key_path: Option<String>,
    pub peer_public_key_path: Option<String>,
}

/// The WireGuard tunnel towards the control plane.
#[derive(Debug, Clone)]
pub struct WireGuardConfig {
    pub interface_name: String,
    pub address: Option<String>,
    pub private_key_path: Option<String>,
    pub public_key_path: Option<String>,
    pub peer_endpoint: Option<String>,
    pub allowed_ips: Vec<String>,
    pub rosenpass: Option<RosenpassConfig>,
}

/// The local OpenAI-compatible proxy.
#[derive(Debug, Clone)]
pub struct ProxyConfig {
    pub listen_port: u16,
    pub listen_addr: Option<String>,
}

/// Logging and metrics.
#[derive(Debug, Clone)]
pub struct TelemetryConfig {
    pub log_level: Option<String>,
    pub log_format: Option<String>,
    pub disable_metrics: bool,
    pub metrics_port: u16,
}

/// One configured upstream.
#[derive(Debug, Clone)]
pub struct EndpointConfig {
    pub name: String,
    pub base_url: String,
    pub max_concurrent: Option<usize>,
    pub models_include: Option<Vec<String>>,
    pub models_exclude: Option<Vec<String>>,
}

/// The whole configuration.
#[derive(Debug, Clone)]
pub struct LabmanConfig {
    pub control_plane: ControlPlaneConfig,
    pub wireguard: WireGuardConfig,
    pub proxy: ProxyConfig,
    pub telemetry: Option<TelemetryConfig>,
    pub endpoints: Vec<EndpointConfig>,
}

/// Default WireGuard interface name.
pub fn default_interface_name() -> (r: String)
    ensures
        r@ == "labman0"@,
{
    "labman0".to_owned()
}

/// Default proxy port.
pub fn default_listen_port() -> (r: u16)
    ensures
        r == 8080,
{
    8080
}

/// Default metrics port.
pub fn default_metrics_port() -> (r: u16)
    ensures
        r == 9090,
{
    9090
}

impl LabmanConfig {
    /// The port of the metrics server: the configured one (9090 when there is
    /// no telemetry section), or nothing when metrics are disabled.
    pub fn metrics_port(&self) -> (r: Option<u16>)
        ensures
            r == match self.telemetry {
                Some(t) => if t.disable_metrics {
                    None
                } else {
                    Some(t.metrics_port)
                },
                None => Some(9090u16),
            },
    {
        match &self.telemetry {
            Some(t) => if t.disable_metrics {
                None
            } else {
                Some(t.metrics_port)
            },
            None => Some(default_metrics_port()),
        }
    }
}

/// The URL starts with an `http://` or `https://` scheme.
pub open spec fn http_scheme(u: Seq<char>) -> bool {
    has_prefix(u, "http://"@) || has_prefix(u, "https://"@)
}

/// The URL ends with `/v1` or holds `/v1/`.
pub open spec fn has_v1_path(u: Seq<char>) -> bool {
    has_suffix(u, "/v1"@) || has_infix(u, "/v1/"@)
}

/// The field of the first failed check on the control-plane section.
pub open spec fn control_plane_problem(c: ControlPlaneConfig) -> Option<Seq<char>> {
    if is_blank(c.base_url@) {
        Some("control_plane.base_url"@)
    } else if is_blank(c.node_token@) {
        Some("control_plane.node_token"@)
    } else if !http_scheme(trimmed(c.base_url@)) {
        Some("control_plane.base_url"@)
    } else {
        None
    }
}

/// The field of the first failed check on endpoint `i`, given those before it.
pub open spec fn endpoint_problem(eps: Seq<EndpointConfig>, i: int) -> Option<Seq<char>> {
    let e = eps[i];
    let u = trimmed(e.base_url@);
    if is_blank(e.name@) {
        Some("endpoints.name"@)
    } else if exists|j: int| 0 <= j < i && (#[trigger] eps[j]).name@ == e.name@ {
        Some("endpoints.name"@)
    } else if u.len() == 0 {
        Some("endpoints.base_url"@)
    } else if !http_scheme(u) {
        Some("endpoints.base_url"@)
    } else if !has_v1_path(u) {
        Some("endpoints.base_url"@)
    } else {
        None
    }
}

/// The field of the first failed check among the first `n` endpoints.
pub open spec fn endpoints_problem(eps: Seq<EndpointConfig>, n: int) -> Option<Seq<char>>
    decreases n,
{
    if n <= 0 {
        None
    } else {
        match endpoints_problem(eps, n - 1) {
            Some(f) => Some(f),
            None => endpoint_problem(eps, n - 1),
        }
    }
}

proof fn lemma_problem_sticks(eps: Seq<EndpointConfig>, n: int, m: int)
    requires
        0 <= n <= m,
        endpoints_problem(eps, n) is Some,
    ensures
        endpoints_problem(eps, m) == endpoints_problem(eps, n),
    decreases m - n,
{
    if m > n {
        lemma_problem_sticks(eps, n, m - 1);
    }
}

/// The field of the first failed check on the WireGuard section.
pub open spec fn wireguard_problem(w: WireGuardConfig) -> Option<Seq<char>> {
    if is_blank(w.interface_name@) {
        Some("wireguard.interface_name"@)
    } else if exists|k: int| 0 <= k < w.allowed_ips@.len() && is_blank(#[trigger] w.allowed_ips@[k]@) {
        Some("wireguard.allowed_ips"@)
    } else {
        None
    }
}

/// The field of the first failed check on the whole configuration, if any.
pub open spec fn config_problem(c: LabmanConfig) -> Option<Seq<char>> {
    match control_plane_problem(c.control_plane) {
        Some(f) => Some(f),
        None => match endpoints_problem(c.endpoints@, c.endpoints@.len() as int) {
            Some(f) => Some(f),
            None => wireguard_problem(c.wireguard),
        },
    }
}

/// `r` reports exactly the problem `p`: `Ok` when there is none, otherwise an
/// invalid-configuration error naming the field.
pub open spec fn reports(r: Result<(), LabmanError>, p: Option<Seq<char>>) -> bool {
    match p {
        None => r is Ok,
        Some(f) => r matches Err(LabmanError::InvalidConfig { field, .. }) && field@ == f,
    }
}

fn invalid(field: &str, message: &str) -> (r: Result<(), LabmanError>)
    ensures
        r matches Err(LabmanError::InvalidConfig { field: f, .. }) && f@ == field@,
{
    Err(LabmanError::invalid_config(field, message))
}

fn http_scheme_ok(u: &str) -> (r: bool)
    ensures
        r == http_scheme(u@),
{
    str_starts_with(u, "http://") || str_starts_with(u, "https://")
}

fn names_before(eps: &Vec<EndpointConfig>, i: usize) -> (r: bool)
    requires
        i < eps@.len(),
    ensures
        r == exists|j: int| 0 <= j < i && (#[trigger] eps@[j]).name@ == eps@[i as int].name@,
{
    let mut j: usize = 0;
    while j < i
        invariant
            i < eps@.len(),
            j <= i,
            forall|x: int| 0 <= x < j ==> (#[trigger] eps@[x]).name@ != eps@[i as int].name@,
        decreases i - j,
    {
        if eps[j].name == eps[i].name {
            return true;
        }
        j += 1;
    }
    false
}

impl LabmanConfig {
    /// Structural validation; reports the first problem found, checking the
    /// control plane, then each endpoint in order, then WireGuard.
    pub fn validate(&self) -> (r: Result<(), LabmanError>)
        ensures
            reports(r, config_problem(*self)),
    {
        let c = self.validate_control_plane();
        if c.is_err() {
            return c;
        }
        let e = self.validate_endpoints();
        if e.is_err() {
            return e;
        }
        self.validate_wireguard()
    }

    fn validate_control_plane(&self) -> (r: Result<(), LabmanError>)
        ensures
            reports(r, control_plane_problem(self.control_plane)),
    {
        let cp = &self.control_plane;
        if blank(cp.base_url.as_str()) {
            return invalid("control_plane.base_url", "control_plane.base_url must not be empty");
        }
        if blank(cp.node_token.as_str()) {
            return invalid(
                "control_plane.node_token",
                "control_plane.node_token must not be empty",
            );
        }
        let url = trim(cp.base_url.as_str());
        if !http_scheme_ok(url.as_str()) {
            return invalid(
                "control_plane.base_url",
                "control_plane.base_url must start with http:// or https://",
            );
        }
        Ok(())
    }

    fn validate_endpoints(&self) -> (r: Result<(), LabmanError>)
        ensures
            reports(r, endpoints_problem(self.endpoints@, self.endpoints@.len() as int)),
    {
        let eps = &self.endpoints;
        let mut i: usize = 0;
        while i < eps.len()
            invariant
                eps == &self.endpoints,
                i <= eps@.len(),
                endpoints_problem(eps@, i as int) is None,
            decreases eps.len() - i,
        {
            let ep = &eps[i];
            assert(ep == eps@[i as int]);
            let name = ep.name.as_str();
            if blank(name) {
                let m = "endpoint name must not be empty".to_owned();
                proof {
                    lemma_problem_sticks(eps@, i + 1, eps@.len() as int);
                }
                return invalid("endpoints.name", m.as_str());
            }
            if names_before(eps, i) {
                let mut m = "duplicate endpoint name: ".to_owned();
                m.append(name);
                proof {
                    lemma_problem_sticks(eps@, i + 1, eps@.len() as int);
                }
                return invalid("endpoints.name", m.as_str());
            }
            let url = trim(ep.base_url.as_str());
            if url.as_str().unicode_len() == 0 {
                let mut m = "endpoint '".to_owned();
                m.append(name);
                m.append("' has an empty base_url");
                proof {
                    lemma_problem_sticks(eps@, i + 1, eps@.len() as int);
                }
                return invalid("endpoints.base_url", m.as_str());
            }
            if !http_scheme_ok(url.as_str()) {
                let mut m = "endpoint '".to_owned();
                m.append(name);
                m.append("' base_url must start with http:// or https://");
                proof {
                    lemma_problem_sticks(eps@, i + 1, eps@.len() as int);
                }
                return invalid("endpoints.base_url", m.as_str());
            }
            if !(str_ends_with(url.as_str(), "/v1") || str_contains(url.as_str(), "/v1/")) {
                let mut m = "endpoint '".to_owned();
                m.append(name);
                m.append("' base_url should typically end with /v1 (got '");
                m.append(url.as_str());
                m.append("')");
                proof {
                    lemma_problem_sticks(eps@, i + 1, eps@.len() as int);
                }
                return invalid("endpoints.base_url", m.as_str());
            }
            i += 1;
        }
        Ok(())
    }

    fn validate_wireguard(&self) -> (r: Result<(), LabmanError>)
        ensures
            reports(r, wireguard_problem(self.wireguard)),
    {
        let wg = &self.wireguard;
        if blank(wg.interface_name.as_str()) {
            return invalid(
                "wireguard.interface_name",
                "wireguard.interface_name must not be empty",
            );
        }
        let mut k: usize = 0;
        while k < wg.allowed_ips.len()
            invariant
                wg == &self.wireguard,
                !is_blank(wg.interface_name@),
                k <= wg.allowed_ips@.len(),
                forall|x: int| 0 <= x < k ==> !is_blank((#[trigger] wg.allowed_ips@[x])@),
            decreases wg.allowed_ips.len() - k,
        {
            if blank(wg.allowed_ips[k].as_str()) {
                assert(is_blank(wg.allowed_ips@[k as int]@));
                return invalid(
                    "wireguard.allowed_ips",
                    "wireguard.allowed_ips must not contain empty entries",
                );
            }
            k += 1;
        }
        Ok(())
    }
}

} // verus!
