use sha2::Digest;
use labman::slug::{base62_encode_u64, encode_model_slug};
use labman::wireguard::{
    bring_down_command, bring_up_command, create_commands, plan_interface, status_command,
    status_from_output, InterfaceStatus, ShellWireGuardBackend, SystemRosenpassEngine, WireGuardConfig,
    WireGuardError,
};

#[test]
fn slug_is_stable_for_same_input() {
    let s1 = encode_model_slug("tenantA", "10.6.0.213:11434/v1", "mistral-nemo:12b");
    let s2 = encode_model_slug("tenantA", "10.6.0.213:11434/v1", "mistral-nemo:12b");
    assert_eq!(s1, s2);
}

#[test]
fn slug_changes_when_any_component_differs() {
    let base = encode_model_slug("tenantA", "10.6.0.213:11434/v1", "mistral-nemo:12b");
    let diff_tenant = encode_model_slug("tenantB", "10.6.0.213:11434/v1", "mistral-nemo:12b");
    let diff_endpoint = encode_model_slug("tenantA", "10.6.0.214:11434/v1", "mistral-nemo:12b");
    let diff_model = encode_model_slug("tenantA", "10.6.0.213:11434/v1", "llama3.1:70b");
    assert_ne!(base, diff_tenant);
    assert_ne!(base, diff_endpoint);
    assert_ne!(base, diff_model);
}

#[test]
fn slug_is_reasonably_short() {
    let s = encode_model_slug("tenantA", "10.6.0.213:11434/v1", "mistral-nemo:12b");
    assert!(s.len() <= 11);
    assert!(!s.is_empty());
}

#[test]
fn slug_is_the_base62_of_the_digest_prefix() {
    let digest = sha2::Sha256::digest(b"t\ne\nm");
    let mut buf = [0u8; 8];
    buf.copy_from_slice(&digest[..8]);
    let expected = base62_encode_u64(u64::from_be_bytes(buf));
    assert_eq!(encode_model_slug("t", "e", "m"), expected);
}

#[test]
fn base62_digits() {
    assert_eq!(base62_encode_u64(0), "0");
    assert_eq!(base62_encode_u64(61), "z");
    assert_eq!(base62_encode_u64(62), "10");
    assert_eq!(base62_encode_u64(3843), "zz");
    assert_eq!(base62_encode_u64(u64::MAX), "LygHa16AHYF");
}

fn wg(name: &str, addr: &str) -> WireGuardConfig {
    WireGuardConfig {
        interface_name: name.to_string(),
        address: addr.to_string(),
        peer_endpoint: "vpn.example.com:51820".to_string(),
        allowed_ips: vec!["10.90.0.0/24".to_string()],
        private_key_path: None,
        public_key_path: None,
    }
}

#[test]
fn interface_plan_and_commands() {
    let iface = plan_interface(&wg("labman0", "10.90.0.2/32")).unwrap();
    assert_eq!(iface.name, "labman0");
    assert_eq!(iface.allowed_ips, vec!["10.90.0.0/24".to_string()]);
    let cmds = create_commands(&iface);
    assert_eq!(cmds[0], vec!["link", "add", "dev", "labman0", "type", "wireguard"]);
    assert_eq!(cmds[1], vec!["address", "add", "10.90.0.2/32", "dev", "labman0"]);
    assert_eq!(bring_up_command(&iface), vec!["link", "set", "up", "dev", "labman0"]);
    assert_eq!(bring_down_command(&iface), vec!["link", "del", "dev", "labman0"]);
    assert_ne!(bring_up_command(&iface), bring_down_command(&iface));
    assert_eq!(status_command("labman0"), vec!["link", "show", "dev", "labman0"]);
    assert!(matches!(plan_interface(&wg(" ", "10.90.0.2/32")), Err(WireGuardError::InvalidConfig(_))));
    assert!(matches!(plan_interface(&wg("labman0", "")), Err(WireGuardError::InvalidConfig(_))));
}

#[test]
fn interface_status_is_read_from_output() {
    assert_eq!(status_from_output(true, "4: labman0: <POINTOPOINT> state UP mode"), InterfaceStatus::Up);
    assert_eq!(status_from_output(true, "state DOWN"), InterfaceStatus::Down);
    assert_eq!(status_from_output(true, "state UNKNOWN"), InterfaceStatus::Unknown);
    assert_eq!(status_from_output(false, "state UP"), InterfaceStatus::Unknown);
}

#[test]
fn backends_construct() {
    assert!(ShellWireGuardBackend::new().command_timeout.is_none());
    let b = ShellWireGuardBackend::with_timeout(std::time::Duration::from_secs(5));
    assert_eq!(b.command_timeout, Some(std::time::Duration::from_secs(5)));
    let _ = SystemRosenpassEngine::new();
    assert!(matches!(SystemRosenpassEngine::missing_keys(), WireGuardError::Rosenpass(_)));
}
