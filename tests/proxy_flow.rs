use labman::config::{ControlPlaneConfig, EndpointConfig, LabmanConfig, ProxyConfig, WireGuardConfig};
use labman::endpoint::ModelDescriptor;
use labman::metrics::{ErrorKind, MetricEvent};
use labman::proxy::{
    bad_request_reply, finish_chat_completion, forward_header, list_models, route_chat_completion,
    ChatCompletionRequest, RequestLedger, UpstreamOutcome,
};
use labman::registry::{DiscoveryOutcome, EndpointRegistry, ProbeOutcome};

fn config(endpoints: Vec<EndpointConfig>) -> LabmanConfig {
    LabmanConfig {
        control_plane: ControlPlaneConfig {
            base_url: "https://control.example.com/api/v1".to_string(),
            node_token: "token".to_string(),
            region: None,
            description: None,
        },
        wireguard: WireGuardConfig {
            interface_name: "labman0".to_string(),
            address: None,
            private_key_path: None,
            public_key_path: None,
            peer_endpoint: None,
            allowed_ips: Vec::new(),
            rosenpass: None,
        },
        proxy: ProxyConfig { listen_port: 8080, listen_addr: None },
        telemetry: None,
        endpoints,
    }
}

fn local() -> EndpointConfig {
    EndpointConfig {
        name: "local".to_string(),
        base_url: "http://127.0.0.1:11434/v1".to_string(),
        max_concurrent: None,
        models_include: None,
        models_exclude: None,
    }
}

fn started_registry() -> EndpointRegistry {
    let mut reg = EndpointRegistry::from_config(&config(vec![local()])).unwrap();
    reg.record_probe(0, ProbeOutcome::Status(200));
    reg.apply_discovery_pass(&vec![DiscoveryOutcome::Listed(vec![ModelDescriptor::new("llama3")])]);
    reg
}

fn request(model: &str, stream: Option<bool>) -> ChatCompletionRequest {
    ChatCompletionRequest { model: model.to_string(), messages: vec![], stream, extra: serde_json::Value::Null }
}

#[test]
fn get_models_returns_empty_list_for_empty_registry() {
    let reg = EndpointRegistry::from_config(&config(vec![])).unwrap();
    let (list, event) = list_models(&reg);
    assert_eq!(list.object, "list");
    assert!(list.data.is_empty());
    assert!(matches!(event, MetricEvent::RequestEnd { success: true, .. }));
}

#[test]
fn empty_registry_rejects_chat_completions() {
    let mut reg = EndpointRegistry::from_config(&config(vec![])).unwrap();
    let mut ledger = RequestLedger::new();
    let r = route_chat_completion(&mut reg, &mut ledger, &request("llama3", None));
    assert_eq!(r.unwrap_err().status, 400);
    assert_eq!(ledger.started(), 0);
}

#[test]
fn single_healthy_endpoint_serves_models_and_chat() {
    let mut reg = started_registry();
    let (list, event) = list_models(&reg);
    let ids: Vec<&str> = list.data.iter().map(|m| m.id.as_str()).collect();
    assert_eq!(ids, vec!["llama3"]);
    match event {
        MetricEvent::RequestEnd { endpoint, model, success } => {
            assert_eq!(endpoint.as_deref(), Some("proxy"));
            assert_eq!(model.as_deref(), Some("models_list"));
            assert!(success);
        }
        other => panic!("unexpected {:?}", other),
    }

    let mut ledger = RequestLedger::new();
    let routed = route_chat_completion(&mut reg, &mut ledger, &request("llama3", None)).unwrap();
    assert_eq!(routed.upstream_url, "http://127.0.0.1:11434/v1/chat/completions");
    assert_eq!(routed.lease.name, "local");
    assert!(!routed.streaming);
    assert_eq!(reg.iter()[0].active_requests, 1);
    let reply = finish_chat_completion(&mut reg, &mut ledger, routed, UpstreamOutcome::Responded(200));
    assert_eq!(reply.status, 200);
    assert!(matches!(reply.end, Some(MetricEvent::RequestEnd { success: true, .. })));
    assert!(reply.error.is_none());
    assert_eq!(reg.iter()[0].active_requests, 0);
}

#[test]
fn unknown_model_is_rejected_and_counted() {
    let mut reg = started_registry();
    let mut ledger = RequestLedger::new();
    let reply = route_chat_completion(&mut reg, &mut ledger, &request("gpt-5", None)).unwrap_err();
    assert_eq!(reply.status, 400);
    assert!(matches!(reply.error, Some(MetricEvent::Error { endpoint: None, kind: ErrorKind::ModelNotFound })));
    assert!(reply.end.is_none());
    assert_eq!(ErrorKind::ModelNotFound.label(), "model_not_found");
}

#[test]
fn streaming_requests_are_marked_for_passthrough() {
    let mut reg = started_registry();
    let mut ledger = RequestLedger::new();
    let routed = route_chat_completion(&mut reg, &mut ledger, &request("llama3", Some(true))).unwrap();
    assert!(routed.streaming);
    let reply = finish_chat_completion(&mut reg, &mut ledger, routed, UpstreamOutcome::Responded(200));
    assert_eq!(reply.status, 200);
}

#[test]
fn upstream_failures_map_to_bad_gateway() {
    let cases = [
        (UpstreamOutcome::ConnectFailed, ErrorKind::UpstreamRequestError),
        (UpstreamOutcome::TimedOut, ErrorKind::Timeout),
        (UpstreamOutcome::BodyReadFailed, ErrorKind::UpstreamBodyReadError),
    ];
    for (outcome, kind) in cases {
        let mut reg = started_registry();
        let mut ledger = RequestLedger::new();
        let routed = route_chat_completion(&mut reg, &mut ledger, &request("llama3", None)).unwrap();
        let reply = finish_chat_completion(&mut reg, &mut ledger, routed, outcome);
        assert_eq!(reply.status, 502);
        assert!(matches!(reply.end, Some(MetricEvent::RequestEnd { success: false, .. })));
        match reply.error.unwrap() {
            MetricEvent::Error { endpoint, kind: k } => {
                assert_eq!(endpoint.as_deref(), Some("local"));
                assert_eq!(k, kind);
            }
            other => panic!("unexpected {:?}", other),
        }
        assert_eq!(reg.iter()[0].active_requests, 0);
    }
}

#[test]
fn upstream_error_status_is_passed_on_as_failure() {
    let mut reg = started_registry();
    let mut ledger = RequestLedger::new();
    let routed = route_chat_completion(&mut reg, &mut ledger, &request("llama3", None)).unwrap();
    let reply = finish_chat_completion(&mut reg, &mut ledger, routed, UpstreamOutcome::Responded(503));
    assert_eq!(reply.status, 503);
    assert!(matches!(reply.end, Some(MetricEvent::RequestEnd { success: false, .. })));
    assert!(reply.error.is_none());
}

#[test]
fn ledger_counts_every_request_once() {
    let mut reg = started_registry();
    let mut ledger = RequestLedger::new();
    let a = route_chat_completion(&mut reg, &mut ledger, &request("llama3", None)).unwrap();
    let b = route_chat_completion(&mut reg, &mut ledger, &request("llama3", None)).unwrap();
    let _ = route_chat_completion(&mut reg, &mut ledger, &request("nope", None));
    assert_eq!((ledger.started(), ledger.ended(), ledger.in_flight()), (2, 0, 2));
    finish_chat_completion(&mut reg, &mut ledger, a, UpstreamOutcome::Responded(200));
    assert_eq!((ledger.started(), ledger.ended(), ledger.in_flight()), (2, 1, 1));
    finish_chat_completion(&mut reg, &mut ledger, b, UpstreamOutcome::ConnectFailed);
    assert_eq!(ledger.started(), ledger.ended() + ledger.in_flight());
    assert_eq!(reg.iter()[0].active_requests, 0);
    assert!(ledger.can_start());
}

#[test]
fn metric_stream_has_one_start_and_one_end_per_routed_request() {
    let mut reg = started_registry();
    let mut ledger = RequestLedger::new();
    let (mut starts, mut ends) = (0, 0);
    for outcome in [UpstreamOutcome::Responded(200), UpstreamOutcome::ConnectFailed, UpstreamOutcome::TimedOut] {
        let routed = route_chat_completion(&mut reg, &mut ledger, &request("llama3", None)).unwrap();
        match &routed.start {
            MetricEvent::RequestStart { endpoint, model } => {
                assert_eq!(endpoint.as_deref(), Some("local"));
                assert_eq!(model.as_deref(), Some("llama3"));
                starts += 1;
            }
            other => panic!("unexpected {:?}", other),
        }
        let reply = finish_chat_completion(&mut reg, &mut ledger, routed, outcome);
        if matches!(reply.end, Some(MetricEvent::RequestEnd { .. })) {
            ends += 1;
        }
    }
    let rejected = route_chat_completion(&mut reg, &mut ledger, &request("nope", None)).unwrap_err();
    assert!(rejected.end.is_none());
    assert_eq!(starts, ends);
    assert_eq!(ledger.started(), 3);
}

#[test]
fn headers_pass_except_content_length() {
    assert!(!forward_header("content-length"));
    assert!(forward_header("content-type"));
    assert!(forward_header("transfer-encoding"));
}

#[test]
fn malformed_body_is_a_bad_request() {
    let r = bad_request_reply();
    assert_eq!(r.status, 400);
    assert!(matches!(r.error, Some(MetricEvent::Error { endpoint: None, kind: ErrorKind::BadRequest })));
    assert!(r.end.is_none());
    assert_eq!(ErrorKind::BadRequest.label(), "bad_request");
}
