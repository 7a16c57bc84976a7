use labman::config::{
    ControlPlaneConfig, EndpointConfig, LabmanConfig, ProxyConfig, TelemetryConfig, WireGuardConfig,
};
use labman::control::{ControlLoop, LoopAction, LoopEvent};
use labman::endpoint::ModelDescriptor;
use labman::metrics::{ErrorKind, MetricEvent};
use labman::registry::{DiscoveryOutcome, EndpointRegistry, EndpointRegistryError, ProbeOutcome};

fn minimal_config() -> LabmanConfig {
    LabmanConfig {
        control_plane: ControlPlaneConfig {
            base_url: "https://control.local/api/v1".to_string(),
            node_token: "test-token".to_string(),
            region: Some("test-region".to_string()),
            description: Some("test node".to_string()),
        },
        wireguard: WireGuardConfig {
            interface_name: "labman0".to_string(),
            address: Some("10.90.0.2/32".to_string()),
            private_key_path: None,
            public_key_path: None,
            peer_endpoint: None,
            allowed_ips: Vec::new(),
            rosenpass: None,
        },
        proxy: ProxyConfig { listen_port: 8080, listen_addr: None },
        telemetry: Some(TelemetryConfig {
            log_level: Some("info".to_string()),
            log_format: Some("text".to_string()),
            disable_metrics: false,
            metrics_port: 9090,
        }),
        endpoints: vec![],
    }
}

fn ep(name: &str, url: &str, cap: Option<usize>) -> EndpointConfig {
    EndpointConfig {
        name: name.to_string(),
        base_url: url.to_string(),
        max_concurrent: cap,
        models_include: None,
        models_exclude: None,
    }
}

fn listed(ids: &[&str]) -> DiscoveryOutcome {
    DiscoveryOutcome::Listed(ids.iter().map(|i| ModelDescriptor::new(i)).collect())
}

fn selected(reg: &EndpointRegistry, model: &str) -> Option<String> {
    reg.select_endpoint_for_model(model).map(|(name, _)| name.clone())
}

#[test]
fn registry_from_empty_config_is_empty() {
    let cfg = minimal_config();
    let registry = EndpointRegistry::from_config(&cfg).expect("build registry");
    assert_eq!(registry.len(), 0);
    assert!(registry.is_empty());
}

#[test]
fn registry_rejects_duplicate_names() {
    let mut cfg = minimal_config();
    cfg.endpoints = vec![
        ep("dup", "http://127.0.0.1:11434/v1", None),
        ep("dup", "http://127.0.0.1:11434/v1", None),
    ];
    let res = EndpointRegistry::from_config(&cfg);
    assert!(res.is_err());
    assert!(matches!(res, Err(EndpointRegistryError::DuplicateEndpointName(n)) if n == "dup"));
}

#[test]
fn registry_rejects_bad_scheme() {
    let mut cfg = minimal_config();
    cfg.endpoints = vec![ep("a", "ftp://host/v1", None)];
    assert!(matches!(
        EndpointRegistry::from_config(&cfg),
        Err(EndpointRegistryError::InvalidEndpointUrl { name, .. }) if name == "a"
    ));
    cfg.endpoints = vec![ep("b", "   ", None)];
    assert!(matches!(
        EndpointRegistry::from_config(&cfg),
        Err(EndpointRegistryError::InvalidEndpointUrl { name, .. }) if name == "b"
    ));
}

#[test]
fn registry_builds_single_endpoint() {
    let mut cfg = minimal_config();
    cfg.endpoints = vec![EndpointConfig {
        name: "local-llm".to_string(),
        base_url: "http://127.0.0.1:11434/v1".to_string(),
        max_concurrent: Some(8),
        models_include: Some(vec!["llama*".to_string()]),
        models_exclude: Some(vec!["*test*".to_string()]),
    }];

    let registry = EndpointRegistry::from_config(&cfg).expect("build registry");
    assert_eq!(registry.len(), 1);

    let entry = registry.get("local-llm").expect("endpoint present");
    assert_eq!(entry.endpoint.name, "local-llm");
    assert_eq!(entry.endpoint.base_url, "http://127.0.0.1:11434/v1");
    assert_eq!(entry.meta.max_concurrent, Some(8));
    assert_eq!(entry.meta.models_include.as_ref().unwrap(), &vec!["llama*".to_string()]);
    assert_eq!(entry.meta.models_exclude.as_ref().unwrap(), &vec!["*test*".to_string()]);
    assert!(!entry.is_healthy());
    assert_eq!(entry.active_requests, 0);
}

#[test]
fn to_node_capabilities_flattens_models_and_sums_capacity() {
    let mut cfg = minimal_config();
    cfg.endpoints = vec![
        ep("ep1", "http://127.0.0.1:1111/v1", Some(2)),
        ep("ep2", "http://127.0.0.1:2222/v1", Some(3)),
    ];
    let mut registry = EndpointRegistry::from_config(&cfg).expect("build registry");
    registry.record_probe(0, ProbeOutcome::Status(200));
    registry.record_probe(1, ProbeOutcome::Status(200));
    let owned = |id: &str, by: &str| ModelDescriptor::with_details(id, None, Some(by.to_string()));
    registry.apply_discovery_pass(&vec![
        DiscoveryOutcome::Listed(vec![owned("gpt-4", "openai"), owned("gpt-3.5", "openai")]),
        DiscoveryOutcome::Listed(vec![owned("gpt-4", "openai"), owned("llama3", "meta")]),
    ]);

    let caps = registry.to_node_capabilities();
    assert_eq!(caps.endpoint_count, 2);
    assert_eq!(caps.max_concurrent_requests, Some(5));
    let model_ids: std::collections::HashSet<_> = caps.models.iter().map(|m| m.id.as_str()).collect();
    assert_eq!(model_ids.len(), 3);
    assert!(model_ids.contains("gpt-4"));
    assert!(model_ids.contains("gpt-3.5"));
    assert!(model_ids.contains("llama3"));
    let order: Vec<&str> = caps.models.iter().map(|m| m.id.as_str()).collect();
    assert_eq!(order, vec!["gpt-4", "gpt-3.5", "llama3"]);
}

#[test]
fn capacity_sum_saturates_and_is_absent_without_caps() {
    let mut cfg = minimal_config();
    cfg.endpoints = vec![ep("a", "http://h/v1", Some(usize::MAX)), ep("b", "http://i/v1", Some(3))];
    let reg = EndpointRegistry::from_config(&cfg).unwrap();
    assert_eq!(reg.to_node_capabilities().max_concurrent_requests, Some(usize::MAX));
    cfg.endpoints = vec![ep("a", "http://h/v1", None), ep("b", "http://i/v1", None)];
    let reg = EndpointRegistry::from_config(&cfg).unwrap();
    assert_eq!(reg.to_node_capabilities().max_concurrent_requests, None);
}

#[test]
fn rebuild_model_index_and_select_endpoint_for_model_respects_health() {
    let mut cfg = minimal_config();
    cfg.endpoints = vec![
        ep("healthy-ep", "http://127.0.0.1:1111/v1", Some(2)),
        ep("unhealthy-ep", "http://127.0.0.1:2222/v1", Some(2)),
    ];
    let mut registry = EndpointRegistry::from_config(&cfg).expect("build registry");
    registry.record_probe(0, ProbeOutcome::Status(200));
    registry.record_probe(1, ProbeOutcome::Status(200));
    registry.apply_discovery_pass(&vec![listed(&["gpt-4"]), listed(&["gpt-4"])]);
    registry.record_probe(1, ProbeOutcome::Failed("connection refused".to_string()));

    let selected = registry.select_endpoint_for_model("gpt-4");
    assert!(selected.is_some());
    let (name, entry) = selected.unwrap();
    assert_eq!(name.as_str(), "healthy-ep");
    assert!(entry.is_healthy());

    let none = registry.select_endpoint_for_model("non-existent-model");
    assert!(none.is_none());
}

#[test]
fn index_lists_advertisers_in_configuration_order() {
    let mut cfg = minimal_config();
    cfg.endpoints = vec![ep("a", "http://a/v1", None), ep("b", "http://b/v1", None), ep("c", "http://c/v1", None)];
    let mut reg = EndpointRegistry::from_config(&cfg).unwrap();
    for i in 0..3 {
        reg.record_probe(i, ProbeOutcome::Status(204));
    }
    reg.apply_discovery_pass(&vec![listed(&["m", "x"]), listed(&["x"]), listed(&["m", "m"])]);
    let idx = reg.model_index();
    let slot = |id: &str| idx.iter().find(|s| s.model_id == id).map(|s| s.endpoints.clone());
    assert_eq!(slot("m"), Some(vec![0, 2]));
    assert_eq!(slot("x"), Some(vec![0, 1]));
    assert_eq!(slot("y"), None);
    assert_eq!(idx.len(), 2);
}

#[test]
fn unhealthy_endpoints_keep_their_models_through_discovery() {
    let mut cfg = minimal_config();
    cfg.endpoints = vec![ep("a", "http://a/v1", None)];
    let mut reg = EndpointRegistry::from_config(&cfg).unwrap();
    reg.record_probe(0, ProbeOutcome::Status(200));
    reg.apply_discovery_pass(&vec![listed(&["m"])]);
    reg.record_probe(0, ProbeOutcome::Status(503));
    let events = reg.apply_discovery_pass(&vec![listed(&["other"])]);
    assert!(events.is_empty());
    assert_eq!(reg.iter()[0].discovered_models[0].id, "m");
    assert_eq!(reg.discovery_targets(), vec![None]);
}

#[test]
fn discovery_errors_leave_models_and_are_counted() {
    let mut cfg = minimal_config();
    cfg.endpoints = vec![ep("a", "http://a/v1", None)];
    let mut reg = EndpointRegistry::from_config(&cfg).unwrap();
    reg.record_probe(0, ProbeOutcome::Status(200));
    assert_eq!(reg.discovery_targets(), vec![Some("http://a/v1/models".to_string())]);
    reg.apply_discovery_pass(&vec![listed(&["m"])]);
    let events = reg.apply_discovery_pass(&vec![DiscoveryOutcome::ParseFailed("bad json".to_string())]);
    assert!(matches!(&events[0], MetricEvent::Error { kind: ErrorKind::ModelDiscoveryParse, .. }));
    assert_eq!(reg.iter()[0].discovered_models.len(), 1);
    let events = reg.apply_discovery_pass(&vec![DiscoveryOutcome::HttpStatus(500)]);
    assert!(matches!(&events[0], MetricEvent::Error { kind: ErrorKind::ModelDiscoveryHttpStatus, .. }));
    let events = reg.apply_discovery_pass(&vec![DiscoveryOutcome::RequestFailed("refused".into())]);
    assert!(matches!(&events[0], MetricEvent::Error { kind: ErrorKind::ModelDiscoveryError, .. }));
}

#[test]
fn failover_by_health() {
    let mut cfg = minimal_config();
    cfg.endpoints = vec![ep("a", "http://a/v1", None), ep("b", "http://b/v1", None)];
    let mut reg = EndpointRegistry::from_config(&cfg).unwrap();
    reg.record_probe(0, ProbeOutcome::Status(200));
    reg.record_probe(1, ProbeOutcome::Status(200));
    reg.apply_discovery_pass(&vec![listed(&["m"]), listed(&["m"])]);
    assert_eq!(selected(&reg, "m").as_deref(), Some("a"));

    let ev = reg.record_probe(0, ProbeOutcome::Status(500));
    assert!(matches!(ev, MetricEvent::Error { kind: ErrorKind::HealthHttpStatus, .. }));
    reg.record_probe(1, ProbeOutcome::Status(200));
    assert_eq!(selected(&reg, "m").as_deref(), Some("b"));

    reg.record_probe(0, ProbeOutcome::Status(200));
    assert_eq!(selected(&reg, "m").as_deref(), Some("a"));
}

#[test]
fn non_success_probe_marks_unhealthy_and_counts_failures() {
    let mut cfg = minimal_config();
    cfg.endpoints = vec![ep("a", "http://a/v1", None)];
    let mut reg = EndpointRegistry::from_config(&cfg).unwrap();
    reg.record_probe(0, ProbeOutcome::Status(200));
    reg.apply_discovery_pass(&vec![listed(&["m"])]);
    reg.record_probe(0, ProbeOutcome::Status(404));
    reg.record_probe(0, ProbeOutcome::Failed("timeout".into()));
    let e = &reg.iter()[0];
    assert!(!e.is_healthy());
    assert_eq!(e.endpoint.consecutive_failures, 2);
    assert!(e.endpoint.last_checked.is_some());
    assert_eq!(selected(&reg, "m"), None);
    let ev = reg.record_probe(0, ProbeOutcome::Status(299));
    assert!(matches!(ev, MetricEvent::RequestEnd { success: true, .. }));
    assert_eq!(reg.iter()[0].endpoint.consecutive_failures, 0);
    assert_eq!(selected(&reg, "m").as_deref(), Some("a"));
}

#[test]
fn acquisition_respects_the_cap() {
    let mut cfg = minimal_config();
    cfg.endpoints = vec![ep("a", "http://a/v1", Some(2)), ep("b", "http://b/v1", Some(1))];
    let mut reg = EndpointRegistry::from_config(&cfg).unwrap();
    reg.record_probe(0, ProbeOutcome::Status(200));
    reg.record_probe(1, ProbeOutcome::Status(200));
    reg.apply_discovery_pass(&vec![listed(&["m"]), listed(&["m"])]);

    let l1 = reg.acquire_endpoint("m").unwrap();
    let l2 = reg.acquire_endpoint("m").unwrap();
    let l3 = reg.acquire_endpoint("m").unwrap();
    assert_eq!((l1.index, l2.index, l3.index), (0, 0, 1));
    assert!(reg.acquire_endpoint("m").is_none());
    for e in reg.iter() {
        assert!(e.active_requests <= e.meta.max_concurrent.unwrap());
    }
    reg.release_endpoint(l2.index);
    assert_eq!(reg.acquire_endpoint("m").unwrap().name, "a");
    reg.release_endpoint(7);
    reg.release_endpoint(l3.index);
    reg.release_endpoint(l3.index);
    assert_eq!(reg.iter()[1].active_requests, 0);
}

#[test]
fn health_check_all_marks_everything_healthy() {
    let mut cfg = minimal_config();
    cfg.endpoints = vec![ep("a", "http://a/v1", None), ep("b", "http://b/v1", None)];
    let mut reg = EndpointRegistry::from_config(&cfg).unwrap();
    let events = reg.health_check_all();
    assert_eq!(events.len(), 2);
    assert!(reg.iter().iter().all(|e| e.is_healthy()));
}

#[test]
fn selection_finds_an_endpoint_iff_a_healthy_one_exists() {
    let mut cfg = minimal_config();
    cfg.endpoints = vec![ep("a", "http://a/v1", None), ep("b", "http://b/v1", None)];
    let mut reg = EndpointRegistry::from_config(&cfg).unwrap();
    reg.record_probe(0, ProbeOutcome::Status(200));
    reg.record_probe(1, ProbeOutcome::Status(200));
    reg.apply_discovery_pass(&vec![listed(&["m"]), listed(&["m"])]);
    reg.record_probe(0, ProbeOutcome::Status(500));
    reg.record_probe(1, ProbeOutcome::Status(500));
    assert!(reg.select_endpoint_for_model("m").is_none());
    reg.record_probe(1, ProbeOutcome::Status(200));
    let (name, entry) = reg.select_endpoint_for_model("m").unwrap();
    assert_eq!(name, "b");
    assert!(entry.is_healthy());
}

#[test]
fn control_loop_runs_until_shutdown() {
    use_control_loop();
}

fn use_control_loop() {
    let mut l = ControlLoop::new();
    assert_eq!(l.on_event(LoopEvent::Tick), LoopAction::RunPasses);
    assert_eq!(l.on_event(LoopEvent::Tick), LoopAction::RunPasses);
    assert_eq!(l.passes, 2);
    assert_eq!(l.on_event(LoopEvent::Shutdown), LoopAction::Exit);
    assert_eq!(l.on_event(LoopEvent::Tick), LoopAction::Exit);
    assert_eq!(l.passes, 2);
    assert!(l.stopped);
}
