use infra_graph::extract::{
    extract_backend, extract_listen_port, extract_root_path, extract_server_name,
    parse_containers, parse_network_line, parse_network_members, parse_port_mappings,
    parse_subnet, parse_vhost,
};

#[test]
fn listen_directive_yields_port() {
    assert_eq!(extract_listen_port("listen 8080;"), Some("8080".to_string()));
}

#[test]
fn listen_directive_with_options_takes_first_token() {
    assert_eq!(extract_listen_port("    listen 443 ssl;\n"), Some("443".to_string()));
}

#[test]
fn missing_listen_directive_defaults_to_80() {
    let config = "server {\n    server_name example.com;\n}\n";
    assert_eq!(extract_listen_port(config), None);
    let enabled: Vec<String> = Vec::new();
    let vhost = parse_vhost("mysite", config, &enabled);
    assert_eq!(vhost.listen_port, "80");
}

#[test]
fn ssl_certificate_presence_sets_ssl_flag() {
    let config = "server {\n    listen 443;\n    ssl_certificate /etc/ssl/cert.pem;\n}\n";
    let enabled: Vec<String> = Vec::new();
    let vhost = parse_vhost("mysite", config, &enabled);
    assert!(vhost.ssl_enabled);
    let plain = parse_vhost("mysite", "server {\n    listen 80;\n}\n", &enabled);
    assert!(!plain.ssl_enabled);
}

#[test]
fn server_name_takes_first_name() {
    let config = "server {\n    server_name example.com www.example.com;\n}\n";
    assert_eq!(extract_server_name(config), Some("example.com".to_string()));
}

#[test]
fn server_name_strips_terminator() {
    assert_eq!(extract_server_name("server_name example.com;"), Some("example.com".to_string()));
}

#[test]
fn missing_server_name_falls_back_to_entry_name() {
    let enabled: Vec<String> = Vec::new();
    let vhost = parse_vhost("mysite", "server {\n    listen 80;\n}\n", &enabled);
    assert_eq!(vhost.server_name, "mysite");
}

#[test]
fn root_path_keeps_whole_argument() {
    let config = "server {\n    root /var/www/html;\n}\n";
    assert_eq!(extract_root_path(config), Some("/var/www/html".to_string()));
}

#[test]
fn enabled_iff_name_in_enabled_listing() {
    let enabled = vec!["a".to_string(), "mysite".to_string()];
    let vhost = parse_vhost("mysite", "listen 80;", &enabled);
    assert!(vhost.enabled);
    let other = parse_vhost("othersite", "listen 80;", &enabled);
    assert!(!other.enabled);
}

#[test]
fn proxy_pass_yields_backend() {
    let config = "server {\n    proxy_pass http://app:3000;\n}\n";
    assert_eq!(extract_backend(config), "http://app:3000");
}

#[test]
fn missing_proxy_pass_yields_static_sentinel() {
    let config = "server {\n    root /var/www/html;\n}\n";
    assert_eq!(extract_backend(config), "static");
}

#[test]
fn port_mapping_line_parses() {
    let mappings = parse_port_mappings("80/tcp -> 0.0.0.0:8080");
    assert_eq!(mappings.len(), 1);
    assert_eq!(mappings[0].container_port, "80");
    assert_eq!(mappings[0].protocol, "tcp");
    assert_eq!(mappings[0].host_port, "8080");
    assert_eq!(mappings[0].host_ip, "0.0.0.0");
}

#[test]
fn port_mapping_without_arrow_is_skipped() {
    let mappings = parse_port_mappings("no separator here\n80/tcp -> 0.0.0.0:8080\n");
    assert_eq!(mappings.len(), 1);
    assert_eq!(mappings[0].host_port, "8080");
}

#[test]
fn port_mapping_protocol_defaults_to_tcp() {
    let mappings = parse_port_mappings("80 -> 0.0.0.0:8080");
    assert_eq!(mappings.len(), 1);
    assert_eq!(mappings[0].protocol, "tcp");
}

#[test]
fn port_mapping_empty_host_port_is_skipped() {
    let mappings = parse_port_mappings("80/tcp -> 0.0.0.0:");
    assert_eq!(mappings.len(), 0);
}

#[test]
fn port_mapping_ipv6_binding_takes_last_colon_field() {
    let mappings = parse_port_mappings("80/tcp -> [::]:8080");
    assert_eq!(mappings.len(), 1);
    assert_eq!(mappings[0].host_port, "8080");
}

#[test]
fn container_listing_parses_four_fields() {
    let out = "abc123|web|nginx:latest|running\n";
    let containers = parse_containers(out);
    assert_eq!(containers.len(), 1);
    assert_eq!(containers[0].id, "abc123");
    assert_eq!(containers[0].name, "web");
    assert_eq!(containers[0].image, "nginx:latest");
    assert_eq!(containers[0].state, "running");
    assert_eq!(containers[0].status, "running");
    assert!(containers[0].ports.is_empty());
}

#[test]
fn malformed_container_line_is_skipped() {
    let out = "abc123|web\nxyz789|db|postgres:16|exited\n";
    let containers = parse_containers(out);
    assert_eq!(containers.len(), 1);
    assert_eq!(containers[0].name, "db");
}

#[test]
fn network_line_parses() {
    let network = parse_network_line("netid1|appnet|bridge|local").expect("network expected");
    assert_eq!(network.id, "netid1");
    assert_eq!(network.name, "appnet");
    assert_eq!(network.driver, "bridge");
    assert_eq!(network.scope, "local");
    assert!(network.containers.is_empty());
    assert!(network.subnet.is_none());
}

#[test]
fn null_and_host_networks_are_skipped() {
    assert!(parse_network_line("id1|null|null|local").is_none());
    assert!(parse_network_line("id2|host|host|local").is_none());
    assert!(parse_network_line("short|line").is_none());
}

#[test]
fn network_members_drop_trailing_commas_and_empties() {
    let members = parse_network_members("web,db,");
    assert_eq!(members, vec!["web".to_string(), "db".to_string()]);
    let none = parse_network_members("");
    assert!(none.is_empty());
}

#[test]
fn subnet_is_trimmed_or_absent() {
    assert_eq!(parse_subnet("172.18.0.0/16\n"), Some("172.18.0.0/16".to_string()));
    assert_eq!(parse_subnet("   \n"), None);
}

#[test]
fn commented_directive_line_still_matches() {
    // A known fidelity gap of the extraction rule: the scan does not skip
    // comments, it only trims and matches the keyword at line start.
    let config = "server {\n    listen 8080;\n}\n";
    assert_eq!(extract_listen_port(config), Some("8080".to_string()));
    let commented = "#listen 9090;\nlisten 8080;\n";
    assert_eq!(extract_listen_port(commented), Some("8080".to_string()));
}
