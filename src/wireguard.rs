//! The tunnel collaborator: WireGuard interface settings, the commands that
//! manage an interface, and how their output is read.

use vstd::prelude::*;
use vstd::string::*;
use crate::text::{blank, is_blank, has_infix, str_contains};

verus! {

/// Errors managing WireGuard and Rosenpass.
#[derive(Debug)]
pub enum WireGuardError {
    InvalidConfig(String),
    WireGuard(String),
    Rosenpass(String),
    Io(std::io::Error),
}

/// Settings of one WireGuard interface.
#[derive(Debug, Clone)]
pub struct WireGuardConfig {
    pub interface_name: String,
    pub address: String,
    pub peer_endpoint: String,
    pub allowed_ips: Vec<String>,
    pub private_key_path: Option<String>,
    pub public_key_path: Option<String>,
}

/// An interface managed by the node.
#[derive(Debug, Clone)]
pub struct WireGuardInterface {
    pub name: String,
    pub address: String,
    pub peer_endpoint: String,
    pub allowed_ips: Vec<String>,
}

/// State of an interface.
#[derive(Debug, Clone, Copy, PartialEq, Eq, Structural)]
pub enum InterfaceStatus {
    Up,
    Down,
    Unknown,
}

/// Rosenpass settings.
#[derive(Debug, Clone)]
pub struct RosenpassConfig {
    pub config_path: Option<String>,
    pub state_dir: Option<String>,
    pub socket_path: Option<String>,
}

/// Operations on WireGuard interfaces.
pub trait WireGuardBackend {
    /// Creates an interface from its settings.
    fn create_interface(&self, cfg: &WireGuardConfig) -> Result<WireGuardInterface, WireGuardError>;

    /// Brings the interface up.
    fn bring_up(&self, iface: &WireGuardInterface) -> Result<(), WireGuardError>;

    /// Brings the interface down and deletes it.
    fn bring_down(&self, iface: &WireGuardInterface) -> Result<(), WireGuardError>;

    /// Queries the state of interface `name`.
    fn status(&self, name: &str) -> Result<InterfaceStatus, WireGuardError>;
}

/// Post-quantum key exchange and key management.
pub trait RosenpassEngine {
    /// Prepares Rosenpass for this node.
    fn init(&self, cfg: &RosenpassConfig) -> Result<(), WireGuardError>;

    /// The WireGuard key pair `(private, public)`.
    fn ensure_keys(&self) -> Result<(String, String), WireGuardError>;
}

/// A backend that runs the system's `ip` tool.
#[derive(Debug, Clone)]
pub struct ShellWireGuardBackend {
    /// Time limit for one command, if any.
    pub command_timeout: Option<std::time::Duration>,
}

impl ShellWireGuardBackend {
    /// A backend without a command time limit.
    pub fn new() -> (r: Self)
        ensures
            r.command_timeout is None,
    {
        ShellWireGuardBackend { command_timeout: None }
    }

    /// A backend whose commands are limited to `timeout`.
    pub fn with_timeout(timeout: std::time::Duration) -> (r: Self)
        ensures
            r.command_timeout == Some(timeout),
    {
        ShellWireGuardBackend { command_timeout: Some(timeout) }
    }
}

fn words(parts: &[&str]) -> (r: Vec<String>)
    ensures
        r@.len() == parts@.len(),
        forall|k: int| 0 <= k < parts@.len() ==> (#[trigger] r@[k])@ == parts@[k]@,
{
    let mut out: Vec<String> = Vec::new();
    let mut k: usize = 0;
    while k < parts.len()
        invariant
            k <= parts@.len(),
            out@.len() == k,
            forall|x: int| 0 <= x < k ==> (#[trigger] out@[x])@ == parts@[x]@,
        decreases parts.len() - k,
    {
        out.push(parts[k].to_owned());
        k += 1;
    }
    out
}

/// The interface settings are usable: a name and an address that are not
/// blank.
pub open spec fn interface_config_ok(cfg: WireGuardConfig) -> bool {
    !is_blank(cfg.interface_name@) && !is_blank(cfg.address@)
}

/// Checks the settings and describes the interface they create, or says
/// which setting is missing.
pub fn plan_interface(cfg: &WireGuardConfig) -> (r: Result<WireGuardInterface, WireGuardError>)
    ensures
        match r {
            Ok(iface) => interface_config_ok(*cfg) && iface.name@ == cfg.interface_name@
                && iface.address@ == cfg.address@ && iface.peer_endpoint@ == cfg.peer_endpoint@
                && iface.allowed_ips@.len() == cfg.allowed_ips@.len() && forall|k: int|
                0 <= k < cfg.allowed_ips@.len() ==> (#[trigger] iface.allowed_ips@[k])@ == cfg.allowed_ips@[k]@,
            Err(e) => !interface_config_ok(*cfg) && e is InvalidConfig,
        },
{
    if blank(cfg.interface_name.as_str()) {
        return Err(WireGuardError::InvalidConfig("interface_name must not be empty".to_owned()));
    }
    if blank(cfg.address.as_str()) {
        return Err(WireGuardError::InvalidConfig("address must not be empty".to_owned()));
    }
    let mut ips: Vec<String> = Vec::new();
    let mut k: usize = 0;
    while k < cfg.allowed_ips.len()
        invariant
            k <= cfg.allowed_ips@.len(),
            ips@.len() == k,
            forall|x: int| 0 <= x < k ==> (#[trigger] ips@[x])@ == cfg.allowed_ips@[x]@,
        decreases cfg.allowed_ips.len() - k,
    {
        ips.push(cfg.allowed_ips[k].clone());
        k += 1;
    }
    Ok(
        WireGuardInterface {
            name: cfg.interface_name.clone(),
            address: cfg.address.clone(),
            peer_endpoint: cfg.peer_endpoint.clone(),
            allowed_ips: ips,
        },
    )
}

/// The arguments `v` are exactly the words `ws`.
pub open spec fn words_are(v: Seq<String>, ws: Seq<Seq<char>>) -> bool {
    v.len() == ws.len() && forall|k: int| 0 <= k < v.len() ==> (#[trigger] v[k])@ == ws[k]
}

/// The `ip` invocations that create an interface: add the link, then the
/// address.
pub fn create_commands(iface: &WireGuardInterface) -> (r: Vec<Vec<String>>)
    ensures
        r@.len() == 2,
        words_are(r@[0]@, seq!["link"@, "add"@, "dev"@, iface.name@, "type"@, "wireguard"@]),
        words_are(r@[1]@, seq!["address"@, "add"@, iface.address@, "dev"@, iface.name@]),
{
    let name = iface.name.as_str();
    let addr = iface.address.as_str();
    let mut out: Vec<Vec<String>> = Vec::new();
    out.push(words(&["link", "add", "dev", name, "type", "wireguard"]));
    out.push(words(&["address", "add", addr, "dev", name]));
    out
}

/// The `ip` invocation that brings an interface up.
pub fn bring_up_command(iface: &WireGuardInterface) -> (r: Vec<String>)
    ensures
        words_are(r@, seq!["link"@, "set"@, "up"@, "dev"@, iface.name@]),
{
    words(&["link", "set", "up", "dev", iface.name.as_str()])
}

/// The `ip` invocation that deletes an interface.
pub fn bring_down_command(iface: &WireGuardInterface) -> (r: Vec<String>)
    ensures
        words_are(r@, seq!["link"@, "del"@, "dev"@, iface.name@]),
{
    words(&["link", "del", "dev", iface.name.as_str()])
}

/// The `ip` invocation that shows an interface.
pub fn status_command(name: &str) -> (r: Vec<String>)
    ensures
        words_are(r@, seq!["link"@, "show"@, "dev"@, name@]),
{
    words(&["link", "show", "dev", name])
}

/// What the output of the show command says: `Up` on `state UP`, `Down` on
/// `state DOWN`, `Unknown` otherwise or when the command failed.
pub fn status_from_output(succeeded: bool, stdout: &str) -> (r: InterfaceStatus)
    ensures
        r == if !succeeded {
            InterfaceStatus::Unknown
        } else if has_infix(stdout@, "state UP"@) {
            InterfaceStatus::Up
        } else if has_infix(stdout@, "state DOWN"@) {
            InterfaceStatus::Down
        } else {
            InterfaceStatus::Unknown
        },
{
    if !succeeded {
        InterfaceStatus::Unknown
    } else if str_contains(stdout, "state UP") {
        InterfaceStatus::Up
    } else if str_contains(stdout, "state DOWN") {
        InterfaceStatus::Down
    } else {
        InterfaceStatus::Unknown
    }
}

/// Rosenpass run as an outside program.
#[derive(Debug, Clone)]
pub struct SystemRosenpassEngine;

impl SystemRosenpassEngine {
    /// The engine.
    pub fn new() -> (r: Self) {
        SystemRosenpassEngine
    }

    /// Key material is not managed by this engine: always an error saying so.
    pub fn missing_keys() -> (r: WireGuardError)
        ensures
            r is Rosenpass,
    {
        WireGuardError::Rosenpass(
            "Rosenpass key management is not available in this engine; provide key material on disk or through a control socket".to_owned(),
        )
    }
}

} // verus!
