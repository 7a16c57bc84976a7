use labman::endpoint::{Endpoint, EndpointHealth, ModelDescriptor, ModelListResponse};
use labman::error::{LabmanError, Result};
use labman::node::{NodeCapabilities, NodeInfo, NodeState, NodeStatus};
use labman::proxy::{ProxyError, ServerError};
use labman::registry::EndpointRegistryError;

#[test]
fn test_endpoint_creation() {
    let endpoint = Endpoint::new("test", "http://localhost:8000/v1");
    assert_eq!(endpoint.name, "test");
    assert_eq!(endpoint.base_url, "http://localhost:8000/v1");
    assert_eq!(endpoint.health, EndpointHealth::Unknown);
    assert_eq!(endpoint.models.len(), 0);
}

#[test]
fn test_endpoint_health_tracking() {
    let mut endpoint = Endpoint::new("test", "http://localhost:8000/v1");
    assert!(!endpoint.is_healthy());

    endpoint.mark_healthy();
    assert!(endpoint.is_healthy());
    assert_eq!(endpoint.consecutive_failures, 0);
    assert!(endpoint.last_success.is_some());

    endpoint.mark_unhealthy("connection failed".to_string());
    assert!(!endpoint.is_healthy());
    assert_eq!(endpoint.consecutive_failures, 1);

    endpoint.mark_unhealthy("timeout".to_string());
    assert_eq!(endpoint.consecutive_failures, 2);

    endpoint.mark_healthy();
    assert_eq!(endpoint.consecutive_failures, 0);
}

#[test]
fn failure_count_saturates() {
    let mut endpoint = Endpoint::new("test", "http://localhost:8000/v1");
    endpoint.consecutive_failures = u32::MAX;
    endpoint.mark_unhealthy("down".to_string());
    assert_eq!(endpoint.consecutive_failures, u32::MAX);
}

#[test]
fn test_endpoint_has_model() {
    let mut endpoint = Endpoint::new("test", "http://localhost:8000/v1");
    let models = vec![ModelDescriptor::new("llama3.2:3b"), ModelDescriptor::new("mixtral:8x7b")];
    endpoint.update_models(models);

    assert!(endpoint.has_model("llama3.2:3b"));
    assert!(endpoint.has_model("mixtral:8x7b"));
    assert!(!endpoint.has_model("gpt-4"));
    assert_eq!(endpoint.model_count(), 2);
}

#[test]
fn test_endpoint_health_display() {
    let healthy = EndpointHealth::Healthy;
    assert_eq!(healthy.to_string(), "healthy");

    let unhealthy = EndpointHealth::Unhealthy { reason: "timeout".to_string() };
    assert_eq!(unhealthy.to_string(), "unhealthy: timeout");

    let unknown = EndpointHealth::Unknown;
    assert_eq!(unknown.to_string(), "unknown");
}

#[test]
fn test_model_list_response() {
    let models = vec![ModelDescriptor::new("model-1"), ModelDescriptor::new("model-2")];
    let response = ModelListResponse::new(models);
    assert_eq!(response.object, "list");
    assert_eq!(response.data.len(), 2);
    assert_eq!(response.data[0].id, "model-1");
}

#[test]
fn model_descriptor_details_and_copy() {
    let m = ModelDescriptor::with_details("gpt-4", Some(7), Some("openai".to_string()));
    assert_eq!(m.created, Some(7));
    assert_eq!(m.owned_by.as_deref(), Some("openai"));
    assert_eq!(m.duplicate(), m);
    assert!(m.metadata.is_null());
}

#[test]
fn test_transient_errors() {
    assert!(LabmanError::Timeout(30).is_transient());
    assert!(LabmanError::Http("test".into()).is_transient());
    assert!(!LabmanError::ConfigNotFound("test".into()).is_transient());
}

#[test]
fn test_fatal_errors() {
    assert!(LabmanError::Shutdown.is_fatal());
    assert!(LabmanError::PermissionDenied("test".into()).is_fatal());
    assert!(!LabmanError::Timeout(30).is_fatal());
}

#[test]
fn error_constructors_fill_fields() {
    match LabmanError::invalid_config("test_field", "test message") {
        LabmanError::InvalidConfig { field, message } => {
            assert_eq!(field, "test_field");
            assert_eq!(message, "test message");
        }
        other => panic!("unexpected {:?}", other),
    }
    match LabmanError::endpoint("test-endpoint", "connection failed") {
        LabmanError::Endpoint { endpoint, message } => {
            assert_eq!(endpoint, "test-endpoint");
            assert_eq!(message, "connection failed");
        }
        other => panic!("unexpected {:?}", other),
    }
    assert!(matches!(LabmanError::config("x"), LabmanError::Config(m) if m == "x"));
}

#[test]
fn test_prelude_imports() {
    let _endpoint = Endpoint::new("test", "http://localhost");
    let _error = LabmanError::config("test");
    let _state = NodeState::Running;
}

#[test]
fn test_result_type() {
    fn returns_result() -> Result<i32> {
        Ok(42)
    }

    assert_eq!(returns_result().unwrap(), 42);
}

#[test]
fn test_node_info_creation() {
    let capabilities = NodeCapabilities::new(vec![], 0);
    let info = NodeInfo::new("test-node", capabilities)
        .with_region("us-west")
        .with_description("Test node");

    assert_eq!(info.id, "test-node");
    assert_eq!(info.region, Some("us-west".to_string()));
    assert_eq!(info.description, Some("Test node".to_string()));
    assert_eq!(info.with_registered_at(1700000000).registered_at, Some(1700000000));
}

#[test]
fn test_node_capabilities() {
    let models = vec![ModelDescriptor::new("llama3.2"), ModelDescriptor::new("mixtral")];

    let capabilities = NodeCapabilities::new(models, 2)
        .with_max_concurrent(16)
        .with_metadata("gpu_count", serde_json::Value::from(2));

    assert_eq!(capabilities.model_count(), 2);
    assert_eq!(capabilities.endpoint_count, 2);
    assert_eq!(capabilities.max_concurrent_requests, Some(16));
    assert!(capabilities.supports_streaming);
}

#[test]
fn metadata_key_is_replaced() {
    let caps = NodeCapabilities::new(vec![], 0)
        .with_metadata("gpu_count", serde_json::Value::from(2))
        .with_metadata("gpu_count", serde_json::Value::from(4));
    assert_eq!(caps.metadata.len(), 1);
    assert_eq!(caps.metadata[0].1, serde_json::Value::from(4));
}

#[test]
fn test_node_status() {
    let mut status = NodeStatus::new("test-node");
    assert_eq!(status.state, NodeState::Starting);
    assert!(!status.is_healthy());

    status.state = NodeState::Running;
    status.healthy_endpoints = 1;
    assert!(status.is_healthy());

    status.set_error("test error");
    assert_eq!(status.state, NodeState::Error);
    assert!(!status.is_healthy());
    assert_eq!(status.error_message, Some("test error".to_string()));
}

#[test]
fn test_node_state_display() {
    assert_eq!(NodeState::Starting.to_string(), "starting");
    assert_eq!(NodeState::Running.to_string(), "running");
    assert_eq!(NodeState::Error.to_string(), "error");
}

#[test]
fn test_node_status_running() {
    let status = NodeStatus::running("test-node", 3, 4);
    assert_eq!(status.state, NodeState::Running);
    assert_eq!(status.healthy_endpoints, 3);
    assert_eq!(status.total_endpoints, 4);
}

#[test]
fn test_error_display() {
    let err = LabmanError::config("test message");
    assert_eq!(err.to_string(), "Configuration error: test message");
}

#[test]
fn test_invalid_config_error() {
    let err = LabmanError::invalid_config("test_field", "test message");
    assert_eq!(err.to_string(), "Invalid configuration for 'test_field': test message");
}

#[test]
fn test_endpoint_error() {
    let err = LabmanError::endpoint("test-endpoint", "connection failed");
    assert_eq!(err.to_string(), "Endpoint 'test-endpoint' error: connection failed");
}

#[test]
fn error_texts_with_numbers_and_wrapped_errors() {
    assert_eq!(LabmanError::Timeout(30).to_string(), "Request timed out after 30s");
    assert_eq!(LabmanError::Timeout(0).to_string(), "Request timed out after 0s");
    assert_eq!(labman::error::decimal_string(u64::MAX), u64::MAX.to_string());
    assert_eq!(LabmanError::Shutdown.to_string(), "Shutdown signal received");
    assert_eq!(LabmanError::EndpointUnhealthy("a".into()).to_string(), "Endpoint 'a' is unhealthy");
    let json_err = serde_json::from_str::<serde_json::Value>("{").unwrap_err();
    let text = json_err.to_string();
    assert_eq!(LabmanError::Json(json_err).to_string(), format!("JSON error: {}", text));
    let io = std::io::Error::new(std::io::ErrorKind::Other, "disk gone");
    assert_eq!(LabmanError::Io(io).to_string(), "I/O error: disk gone");
}

#[test]
fn registry_and_server_error_texts() {
    let dup = EndpointRegistryError::DuplicateEndpointName("dup".into());
    assert_eq!(dup.to_string(), "duplicate endpoint name: dup");
    assert!(matches!(dup.into_labman_error(), LabmanError::Config(m) if m == "duplicate endpoint name: dup"));
    let bad = EndpointRegistryError::InvalidEndpointUrl { name: "a".into(), reason: "no scheme".into() };
    assert_eq!(bad.to_string(), "invalid endpoint base_url for 'a': no scheme");
    assert_eq!(ServerError::BindFailed("in use".into()).to_string(), "failed to bind HTTP server: in use");
    assert_eq!(ServerError::ServeFailed("x".into()).to_string(), "HTTP server error: x");
    assert_eq!(ProxyError::Http("x".into()).to_string(), "proxy HTTP error: x");
}
