use labman::config::{
    default_interface_name, default_listen_port, ControlPlaneConfig, EndpointConfig, LabmanConfig,
    ProxyConfig, TelemetryConfig, WireGuardConfig,
};
use labman::error::LabmanError;

fn base() -> LabmanConfig {
    LabmanConfig {
        control_plane: ControlPlaneConfig {
            base_url: "https://control.example.com/api/v1".to_string(),
            node_token: "token".to_string(),
            region: None,
            description: None,
        },
        wireguard: WireGuardConfig {
            interface_name: "labman0".to_string(),
            address: None,
            private_key_path: None,
            public_key_path: None,
            peer_endpoint: None,
            allowed_ips: Vec::new(),
            rosenpass: None,
        },
        proxy: ProxyConfig { listen_port: 8080, listen_addr: None },
        telemetry: None,
        endpoints: Vec::new(),
    }
}

fn ep(name: &str, url: &str) -> EndpointConfig {
    EndpointConfig { name: name.to_string(), base_url: url.to_string(), max_concurrent: None, models_include: None, models_exclude: None }
}

fn field_of(r: Result<(), LabmanError>) -> String {
    match r {
        Err(LabmanError::InvalidConfig { field, .. }) => field,
        other => panic!("unexpected {:?}", other),
    }
}

#[test]
fn test_validate_rejects_empty_control_plane_url() {
    let mut cfg = base();
    cfg.control_plane.base_url = "".to_string();
    let res = cfg.validate();
    assert!(res.is_err());
}

#[test]
fn test_validate_rejects_duplicate_endpoint_names() {
    let mut cfg = base();
    cfg.endpoints = vec![ep("dup", "http://127.0.0.1:11434/v1"), ep("dup", "http://127.0.0.1:11434/v1")];
    let res = cfg.validate();
    assert!(res.is_err());
    assert_eq!(field_of(res), "endpoints.name");
}

#[test]
fn validation_reports_the_first_problem() {
    assert!(base().validate().is_ok());
    let mut cfg = base();
    cfg.control_plane.node_token = "  ".to_string();
    assert_eq!(field_of(cfg.validate()), "control_plane.node_token");
    let mut cfg = base();
    cfg.control_plane.base_url = "ftp://x".to_string();
    assert_eq!(field_of(cfg.validate()), "control_plane.base_url");
    let mut cfg = base();
    cfg.endpoints = vec![ep("a", "http://h:1/v2")];
    assert_eq!(field_of(cfg.validate()), "endpoints.base_url");
    let mut cfg = base();
    cfg.endpoints = vec![ep("a", "http://h:1/v1/extra"), ep(" ", "http://h/v1")];
    assert_eq!(field_of(cfg.validate()), "endpoints.name");
    let mut cfg = base();
    cfg.wireguard.allowed_ips = vec!["10.0.0.0/8".to_string(), "".to_string()];
    assert_eq!(field_of(cfg.validate()), "wireguard.allowed_ips");
    let mut cfg = base();
    cfg.wireguard.interface_name = "".to_string();
    assert_eq!(field_of(cfg.validate()), "wireguard.interface_name");
}

#[test]
fn defaults_and_metrics_port() {
    assert_eq!(default_interface_name(), "labman0");
    assert_eq!(default_listen_port(), 8080);
    let mut cfg = base();
    assert_eq!(cfg.metrics_port(), Some(9090));
    cfg.telemetry = Some(TelemetryConfig { log_level: None, log_format: None, disable_metrics: true, metrics_port: 9100 });
    assert_eq!(cfg.metrics_port(), None);
    cfg.telemetry = Some(TelemetryConfig { log_level: None, log_format: None, disable_metrics: false, metrics_port: 9100 });
    assert_eq!(cfg.metrics_port(), Some(9100));
}

#[test]
fn summary_lists_every_section() {
    let mut cfg = base();
    let lines = labman::summary::config_summary_lines(&cfg);
    assert_eq!(lines[0], "labmand configuration summary:");
    assert_eq!(lines[2], "  control_plane.region    = -");
    assert_eq!(lines[7], "  wireguard.allowed_ips    = [<none>]");
    assert_eq!(lines[8], "  proxy.listen_port        = 8080");
    assert_eq!(lines.last().unwrap(), "    <none configured>");

    cfg.wireguard.allowed_ips = vec!["10.0.0.0/8".to_string(), "10.1.0.0/16".to_string()];
    let mut e = ep("local", "http://127.0.0.1:11434/v1");
    e.max_concurrent = Some(8);
    e.models_include = Some(vec!["llama*".to_string(), "qwen*".to_string()]);
    cfg.endpoints = vec![e];
    let lines = labman::summary::config_summary_lines(&cfg);
    assert_eq!(lines[7], "  wireguard.allowed_ips    = [10.0.0.0/8, 10.1.0.0/16]");
    assert_eq!(
        &lines[11..],
        &[
            "    - name        = local".to_string(),
            "      base_url    = http://127.0.0.1:11434/v1".to_string(),
            "      max_concurrent = 8".to_string(),
            "      models_include = [llama*, qwen*]".to_string(),
            "      models_exclude = <none>".to_string(),
        ]
    );
}
