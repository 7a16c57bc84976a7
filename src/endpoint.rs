//! Upstream endpoints, their health, and the models they advertise.

use vstd::prelude::*;
use vstd::string::*;

verus! {

#[verifier::external_type_specification]
#[verifier::external_body]
pub struct ExJsonValue(serde_json::Value);

/// Relies on the derived `Clone` of serde_json::Value: a structural copy.
pub assume_specification[ <serde_json::Value as Clone>::clone ](v: &serde_json::Value) -> (r: serde_json::Value)
    ensures
        r == *v,
;

/// Relies on serde_json::Value::Null, the JSON `null` value.
#[verifier::external_body]
pub(crate) fn json_null() -> (r: serde_json::Value) {
    serde_json::Value::Null
}

/// Relies on chrono's conversion of std::time::SystemTime::now() to a
/// `DateTime<Utc>`, which also handles clocks set before 1970: the current
/// time, in whole seconds since the Unix epoch.
#[verifier::external_body]
pub(crate) fn unix_now() -> (r: i64) {
    chrono::DateTime::<chrono::Utc>::from(std::time::SystemTime::now()).timestamp()
}

/// Health status of an endpoint.
#[derive(Debug, Clone, PartialEq)]
pub enum EndpointHealth {
    /// The endpoint answered its last probe with a 2xx status.
    Healthy,
    /// The endpoint failed its last probe.
    Unhealthy { reason: String },
    /// The endpoint has not been probed yet.
    Unknown,
}

/// The text form of a health status.
pub open spec fn health_text(h: EndpointHealth) -> Seq<char> {
    match h {
        EndpointHealth::Healthy => "healthy"@,
        EndpointHealth::Unhealthy { reason } => "unhealthy: "@ + reason@,
        EndpointHealth::Unknown => "unknown"@,
    }
}

impl EndpointHealth {
    /// The text form: `healthy`, `unhealthy: <reason>` or `unknown`.
    pub fn to_string(&self) -> (r: String)
        ensures
            r@ == health_text(*self),
    {
        match self {
            EndpointHealth::Healthy => "healthy".to_owned(),
            EndpointHealth::Unhealthy { reason } => {
                let mut s = "unhealthy: ".to_owned();
                s.append(reason.as_str());
                s
            },
            EndpointHealth::Unknown => "unknown".to_owned(),
        }
    }
}

/// A model as listed by an OpenAI-style `/v1/models` API.
#[derive(Debug, Clone, PartialEq)]
pub struct ModelDescriptor {
    /// Model identifier, the routing key.
    pub id: String,
    /// Creation time in seconds since the Unix epoch, if given.
    pub created: Option<i64>,
    /// Owner or organisation, if given.
    pub owned_by: Option<String>,
    /// Any further fields of the upstream's listing, kept as they came.
    pub metadata: serde_json::Value,
}

impl ModelDescriptor {
    /// A descriptor with only an identifier.
    pub fn new(id: &str) -> (r: Self)
        ensures
            r.id@ == id@,
            r.created is None,
            r.owned_by is None,
    {
        ModelDescriptor { id: id.to_owned(), created: None, owned_by: None, metadata: json_null() }
    }

    /// A descriptor with an identifier, creation time and owner.
    pub fn with_details(id: &str, created: Option<i64>, owned_by: Option<String>) -> (r: Self)
        ensures
            r.id@ == id@,
            r.created == created,
            r.owned_by == owned_by,
    {
        ModelDescriptor { id: id.to_owned(), created, owned_by, metadata: json_null() }
    }

    /// An identical copy.
    pub fn duplicate(&self) -> (r: Self)
        ensures
            r == *self,
    {
        let owned_by = match &self.owned_by {
            Some(o) => Some(o.clone()),
            None => None,
        };
        ModelDescriptor {
            id: self.id.clone(),
            created: self.created,
            owned_by,
            metadata: self.metadata.clone(),
        }
    }
}

/// Whether some descriptor in `models` has identifier `id`.
pub open spec fn lists_model(models: Seq<ModelDescriptor>, id: Seq<char>) -> bool {
    exists|k: int| 0 <= k < models.len() && (#[trigger] models[k]).id@ == id
}

/// Whether `id` is listed in `models`.
pub fn models_contain(models: &Vec<ModelDescriptor>, id: &str) -> (r: bool)
    ensures
        r == lists_model(models@, id@),
{
    let key = id.to_owned();
    let mut k: usize = 0;
    while k < models.len()
        invariant
            k <= models@.len(),
            key@ == id@,
            forall|x: int| 0 <= x < k ==> (#[trigger] models@[x]).id@ != id@,
        decreases models.len() - k,
    {
        if models[k].id == key {
            return true;
        }
        k += 1;
    }
    false
}

/// An OpenAI-style model list: `{object: "list", data: [...]}`.
#[derive(Debug, Clone)]
pub struct ModelListResponse {
    /// Always `list`.
    pub object: String,
    /// The models.
    pub data: Vec<ModelDescriptor>,
}

impl ModelListResponse {
    /// A `list` object holding `models`.
    pub fn new(models: Vec<ModelDescriptor>) -> (r: Self)
        ensures
            r.object@ == "list"@,
            r.data == models,
    {
        ModelListResponse { object: "list".to_owned(), data: models }
    }
}

/// An OpenAI-compatible upstream and what is known of it.
#[derive(Debug, Clone, PartialEq)]
pub struct Endpoint {
    /// Unique name.
    pub name: String,
    /// Base URL, e.g. `http://127.0.0.1:11434/v1`.
    pub base_url: String,
    /// Result of the latest probe.
    pub health: EndpointHealth,
    /// Models discovered on the endpoint.
    pub models: Vec<ModelDescriptor>,
    /// When the endpoint was last probed (seconds since the Unix epoch).
    pub last_checked: Option<i64>,
    /// When the endpoint last answered a probe successfully.
    pub last_success: Option<i64>,
    /// Probes failed in a row since the last success.
    pub consecutive_failures: u32,
}

impl Endpoint {
    /// A fresh endpoint: health unknown, no models, never probed.
    pub fn new(name: &str, base_url: &str) -> (r: Self)
        ensures
            r.name@ == name@,
            r.base_url@ == base_url@,
            r.health == EndpointHealth::Unknown,
            r.models@.len() == 0,
            r.last_checked is None,
            r.last_success is None,
            r.consecutive_failures == 0,
    {
        Endpoint {
            name: name.to_owned(),
            base_url: base_url.to_owned(),
            health: EndpointHealth::Unknown,
            models: Vec::new(),
            last_checked: None,
            last_success: None,
            consecutive_failures: 0,
        }
    }

    /// Whether the latest probe succeeded.
    pub fn is_healthy(&self) -> (r: bool)
        ensures
            r == (self.health is Healthy),
    {
        match self.health {
            EndpointHealth::Healthy => true,
            _ => false,
        }
    }

    /// Whether the endpoint lists `model_name`.
    pub fn has_model(&self, model_name: &str) -> (r: bool)
        ensures
            r == lists_model(self.models@, model_name@),
    {
        models_contain(&self.models, model_name)
    }

    /// Records a successful probe.
    pub fn mark_healthy(&mut self)
        ensures
            final(self).health == EndpointHealth::Healthy,
            final(self).consecutive_failures == 0,
            final(self).last_success is Some,
            final(self).name == old(self).name,
            final(self).base_url == old(self).base_url,
            final(self).models == old(self).models,
            final(self).last_checked == old(self).last_checked,
    {
        self.health = EndpointHealth::Healthy;
        self.last_success = Some(unix_now());
        self.consecutive_failures = 0;
    }

    /// Records a failed probe and its reason.
    pub fn mark_unhealthy(&mut self, reason: String)
        ensures
            final(self).health == (EndpointHealth::Unhealthy { reason }),
            final(self).consecutive_failures as int == if old(self).consecutive_failures
                == u32::MAX {
                u32::MAX as int
            } else {
                old(self).consecutive_failures + 1
            },
            final(self).name == old(self).name,
            final(self).base_url == old(self).base_url,
            final(self).models == old(self).models,
            final(self).last_checked == old(self).last_checked,
            final(self).last_success == old(self).last_success,
    {
        self.health = EndpointHealth::Unhealthy { reason };
        self.consecutive_failures = self.consecutive_failures.saturating_add(1);
    }

    /// Replaces the discovered models.
    pub fn update_models(&mut self, models: Vec<ModelDescriptor>)
        ensures
            final(self).models == models,
            final(self).name == old(self).name,
            final(self).base_url == old(self).base_url,
            final(self).health == old(self).health,
            final(self).consecutive_failures == old(self).consecutive_failures,
    {
        self.models = models;
    }

    /// Number of discovered models.
    pub fn model_count(&self) -> (r: usize)
        ensures
            r == self.models@.len(),
    {
        self.models.len()
    }
}

} // verus!
