use infra_graph::types::{
    AuthMethod, CommandError, InfraGraphState, SavedServerProfile, ServerProfile,
};

fn profile() -> ServerProfile {
    ServerProfile {
        id: "p1".to_string(),
        name: "staging".to_string(),
        host: "203.0.113.7".to_string(),
        port: 22,
        username: "ops".to_string(),
        auth_method: AuthMethod::Password { password: "not-a-real-password".to_string() },
    }
}

#[test]
fn key_based_auth_is_detected() {
    let key = AuthMethod::PrivateKey { key_path: "/home/ops/.ssh/id_ed25519".to_string(), passphrase: None };
    assert!(key.is_key_based());
    let pw = AuthMethod::Password { password: "not-a-real-password".to_string() };
    assert!(!pw.is_key_based());
}

#[test]
fn saving_a_profile_stamps_creation_time() {
    let saved = SavedServerProfile::from_profile(profile(), 1700000000000);
    assert_eq!(saved.id, "p1");
    assert_eq!(saved.name, "staging");
    assert_eq!(saved.host, "203.0.113.7");
    assert_eq!(saved.port, 22);
    assert_eq!(saved.username, "ops");
    assert_eq!(saved.created_at, 1700000000000);
    assert!(saved.last_connected.is_none());
    assert!(!saved.connect_on_startup);
}

#[test]
fn saved_profile_converts_back() {
    let saved = SavedServerProfile::from_profile(profile(), 42);
    let back = ServerProfile::from(saved);
    assert_eq!(back.id, "p1");
    assert_eq!(back.name, "staging");
    assert_eq!(back.host, "203.0.113.7");
    assert_eq!(back.port, 22);
    assert_eq!(back.username, "ops");
}

#[test]
fn command_error_from_message() {
    let e = CommandError::from("connection reset".to_string());
    assert_eq!(e.message, "connection reset");
    assert_eq!(e.code, -1);
}

#[test]
fn graph_state_default_exists() {
    let _state: InfraGraphState = Default::default();
}
