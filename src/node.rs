//! Node identity, capabilities and status as reported to the control plane.

use vstd::prelude::*;
use crate::endpoint::{unix_now, ModelDescriptor};

verus! {

/// The version this node reports.
pub const NODE_VERSION: &'static str = "0.1.0";

/// What the node can serve.
#[derive(Debug, Clone)]
pub struct NodeCapabilities {
    /// Models available across all endpoints, each identifier once.
    pub models: Vec<ModelDescriptor>,
    /// Number of configured endpoints.
    pub endpoint_count: usize,
    /// Total concurrent request capacity, when any endpoint has a cap.
    pub max_concurrent_requests: Option<usize>,
    pub supports_streaming: bool,
    pub supports_chat: bool,
    pub supports_completions: bool,
    /// Further key/value facts, each key once, in insertion order.
    pub metadata: Vec<(String, serde_json::Value)>,
}

/// The default of the capability flags.
pub fn default_true() -> (r: bool)
    ensures
        r,
{
    true
}

impl NodeCapabilities {
    /// Capabilities with these models and endpoint count, no capacity
    /// figure, all features on and no metadata.
    pub fn new(models: Vec<ModelDescriptor>, endpoint_count: usize) -> (r: Self)
        ensures
            r.models == models,
            r.endpoint_count == endpoint_count,
            r.max_concurrent_requests is None,
            r.supports_streaming && r.supports_chat && r.supports_completions,
            r.metadata@.len() == 0,
    {
        NodeCapabilities {
            models,
            endpoint_count,
            max_concurrent_requests: None,
            supports_streaming: true,
            supports_chat: true,
            supports_completions: true,
            metadata: Vec::new(),
        }
    }

    /// The same capabilities with total capacity `max`.
    pub fn with_max_concurrent(self, max: usize) -> (r: Self)
        ensures
            r.max_concurrent_requests == Some(max),
            r.models == self.models,
            r.endpoint_count == self.endpoint_count,
            r.supports_streaming == self.supports_streaming,
            r.supports_chat == self.supports_chat,
            r.supports_completions == self.supports_completions,
            r.metadata == self.metadata,
    {
        let mut c = self;
        c.max_concurrent_requests = Some(max);
        c
    }

    /// The same capabilities with metadata `key` set to `value`, replacing
    /// an earlier value of that key.
    pub fn with_metadata(self, key: &str, value: serde_json::Value) -> (r: Self)
        ensures
            r.models == self.models,
            r.endpoint_count == self.endpoint_count,
            r.max_concurrent_requests == self.max_concurrent_requests,
            exists|k: int| 0 <= k < r.metadata@.len() && (#[trigger] r.metadata@[k]).0@ == key@
                && r.metadata@[k].1 == value,
            forall|k: int|
                0 <= k < self.metadata@.len() && (#[trigger] self.metadata@[k]).0@ != key@
                    ==> r.metadata@.contains(self.metadata@[k]),
    {
        let mut c = self;
        let wanted_key = key.to_owned();
        let mut i: usize = 0;
        while i < c.metadata.len()
            invariant
                wanted_key@ == key@,
                c.metadata == self.metadata,
                c.models == self.models,
                c.endpoint_count == self.endpoint_count,
                c.max_concurrent_requests == self.max_concurrent_requests,
                i <= c.metadata@.len(),
                forall|x: int| 0 <= x < i ==> (#[trigger] c.metadata@[x]).0@ != key@,
            decreases c.metadata.len() - i,
        {
            if c.metadata[i].0 == wanted_key {
                c.metadata.set(i, (wanted_key, value));
                proof {
                    assert(c.metadata@[i as int].0@ == key@);
                    assert forall|k: int|
                        0 <= k < self.metadata@.len() && (#[trigger] self.metadata@[k]).0@ != key@
                            implies c.metadata@.contains(self.metadata@[k]) by {
                        assert(k != i);
                        assert(c.metadata@[k] == self.metadata@[k]);
                    }
                }
                return c;
            }
            i += 1;
        }
        let ghost before = c.metadata@;
        c.metadata.push((wanted_key, value));
        proof {
            assert(c.metadata@[before.len() as int].0@ == key@);
            assert forall|k: int|
                0 <= k < self.metadata@.len() && (#[trigger] self.metadata@[k]).0@ != key@ implies c.metadata@.contains(
                self.metadata@[k],
            ) by {
                assert(c.metadata@[k] == self.metadata@[k]);
            }
        }
        c
    }

    /// Number of distinct models.
    pub fn model_count(&self) -> (r: usize)
        ensures
            r == self.models@.len(),
    {
        self.models.len()
    }
}

/// Node identity and capabilities, sent on registration.
#[derive(Debug, Clone)]
pub struct NodeInfo {
    pub id: String,
    pub region: Option<String>,
    pub description: Option<String>,
    pub capabilities: NodeCapabilities,
    /// Registration time, in seconds since the Unix epoch.
    pub registered_at: Option<i64>,
    pub version: String,
}

impl NodeInfo {
    /// A node with this identifier and these capabilities.
    pub fn new(id: &str, capabilities: NodeCapabilities) -> (r: Self)
        ensures
            r.id@ == id@,
            r.region is None,
            r.description is None,
            r.capabilities == capabilities,
            r.registered_at is None,
            r.version@ == NODE_VERSION@,
    {
        NodeInfo {
            id: id.to_owned(),
            region: None,
            description: None,
            capabilities,
            registered_at: None,
            version: NODE_VERSION.to_owned(),
        }
    }

    /// The same node in region `region`.
    pub fn with_region(self, region: &str) -> (r: Self)
        ensures
            r.region matches Some(g) && g@ == region@,
            r.id == self.id,
            r.description == self.description,
            r.capabilities == self.capabilities,
            r.registered_at == self.registered_at,
    {
        let mut n = self;
        n.region = Some(region.to_owned());
        n
    }

    /// The same node with description `description`.
    pub fn with_description(self, description: &str) -> (r: Self)
        ensures
            r.description matches Some(d) && d@ == description@,
            r.id == self.id,
            r.region == self.region,
            r.capabilities == self.capabilities,
            r.registered_at == self.registered_at,
    {
        let mut n = self;
        n.description = Some(description.to_owned());
        n
    }

    /// The same node registered at `timestamp` (seconds since the Unix epoch).
    pub fn with_registered_at(self, timestamp: i64) -> (r: Self)
        ensures
            r.registered_at == Some(timestamp),
            r.id == self.id,
            r.region == self.region,
            r.description == self.description,
            r.capabilities == self.capabilities,
    {
        let mut n = self;
        n.registered_at = Some(timestamp);
        n
    }
}

/// Operational state of a node.
#[derive(Debug, Clone, Copy, PartialEq, Eq, Structural)]
pub enum NodeState {
    Starting,
    Running,
    Degraded,
    Maintenance,
    Error,
    Stopping,
}

/// The lower-case name of a state.
pub open spec fn state_name(s: NodeState) -> Seq<char> {
    match s {
        NodeState::Starting => "starting"@,
        NodeState::Running => "running"@,
        NodeState::Degraded => "degraded"@,
        NodeState::Maintenance => "maintenance"@,
        NodeState::Error => "error"@,
        NodeState::Stopping => "stopping"@,
    }
}

impl NodeState {
    /// The lower-case name of the state.
    pub fn to_string(&self) -> (r: String)
        ensures
            r@ == state_name(*self),
    {
        match self {
            NodeState::Starting => "starting".to_owned(),
            NodeState::Running => "running".to_owned(),
            NodeState::Degraded => "degraded".to_owned(),
            NodeState::Maintenance => "maintenance".to_owned(),
            NodeState::Error => "error".to_owned(),
            NodeState::Stopping => "stopping".to_owned(),
        }
    }
}

/// Operational status, sent as heartbeat.
#[derive(Debug, Clone)]
pub struct NodeStatus {
    pub node_id: String,
    pub state: NodeState,
    pub healthy_endpoints: usize,
    pub total_endpoints: usize,
    pub active_requests: usize,
    pub total_requests: u64,
    pub total_errors: u64,
    pub uptime_seconds: u64,
    /// When the report was made, in seconds since the Unix epoch.
    pub timestamp: i64,
    pub error_message: Option<String>,
}

impl NodeStatus {
    /// A starting node with nothing counted yet.
    pub fn new(node_id: &str) -> (r: Self)
        ensures
            r.node_id@ == node_id@,
            r.state == NodeState::Starting,
            r.healthy_endpoints == 0 && r.total_endpoints == 0 && r.active_requests == 0,
            r.total_requests == 0 && r.total_errors == 0 && r.uptime_seconds == 0,
            r.error_message is None,
    {
        NodeStatus {
            node_id: node_id.to_owned(),
            state: NodeState::Starting,
            healthy_endpoints: 0,
            total_endpoints: 0,
            active_requests: 0,
            total_requests: 0,
            total_errors: 0,
            uptime_seconds: 0,
            timestamp: unix_now(),
            error_message: None,
        }
    }

    /// A running node with these endpoint counts.
    pub fn running(node_id: &str, healthy_endpoints: usize, total_endpoints: usize) -> (r: Self)
        ensures
            r.node_id@ == node_id@,
            r.state == NodeState::Running,
            r.healthy_endpoints == healthy_endpoints,
            r.total_endpoints == total_endpoints,
            r.active_requests == 0,
            r.total_requests == 0 && r.total_errors == 0 && r.uptime_seconds == 0,
            r.error_message is None,
    {
        NodeStatus {
            node_id: node_id.to_owned(),
            state: NodeState::Running,
            healthy_endpoints,
            total_endpoints,
            active_requests: 0,
            total_requests: 0,
            total_errors: 0,
            uptime_seconds: 0,
            timestamp: unix_now(),
            error_message: None,
        }
    }

    /// Stamps the report with the current time.
    pub fn update_timestamp(&mut self)
        ensures
            final(self).node_id == old(self).node_id,
            final(self).state == old(self).state,
            final(self).error_message == old(self).error_message,
    {
        self.timestamp = unix_now();
    }

    /// Puts the node in the error state with `message`.
    pub fn set_error(&mut self, message: &str)
        ensures
            final(self).state == NodeState::Error,
            final(self).error_message matches Some(m) && m@ == message@,
            final(self).node_id == old(self).node_id,
            final(self).healthy_endpoints == old(self).healthy_endpoints,
    {
        self.state = NodeState::Error;
        self.error_message = Some(message.to_owned());
    }

    /// Running with at least one healthy endpoint.
    pub fn is_healthy(&self) -> (r: bool)
        ensures
            r == (self.state == NodeState::Running && self.healthy_endpoints > 0),
    {
        self.state == NodeState::Running && self.healthy_endpoints > 0
    }
}

/// Registration request to the control plane.
#[derive(Debug, Clone)]
pub struct RegistrationRequest {
    pub token: String,
    pub node_info: NodeInfo,
    pub wireguard_public_key: String,
    pub rosenpass_public_key: String,
}

/// The control plane's answer to a registration.
#[derive(Debug, Clone)]
pub struct RegistrationResponse {
    pub success: bool,
    pub node_id: String,
    pub message: Option<String>,
    pub wireguard_address: String,
}

/// Heartbeat to the control plane.
#[derive(Debug, Clone)]
pub struct HeartbeatRequest {
    pub node_id: String,
    pub status: NodeStatus,
    pub capabilities: Option<NodeCapabilities>,
}

/// The control plane's answer to a heartbeat.
#[derive(Debug, Clone)]
pub struct HeartbeatResponse {
    pub success: bool,
    pub message: Option<String>,
    pub requested_state: Option<NodeState>,
}

} // verus!
