use infra_graph::collect::get_infrastructure_graph;
use infra_graph::types::{CommandError, CommandExecutor};

/// A scripted host: answers each diagnostic command with canned text, the
/// way the managed host's shell would.
struct ScriptedHost {
    docker_ps_fails: bool,
}

const VHOST_CONFIG: &str = "server {\n    listen 443 ssl;\n    server_name example.com;\n    ssl_certificate /etc/ssl/cert.pem;\n    proxy_pass http://web:3000;\n}\n";

impl CommandExecutor for ScriptedHost {
    fn execute_command(&self, command: &str) -> Result<String, CommandError> {
        if command == "systemctl is-active nginx 2>/dev/null || echo 'inactive'" {
            Ok("active\n".to_string())
        } else if command == "nginx -v 2>&1 | cut -d'/' -f2" {
            Ok("1.24.0\n".to_string())
        } else if command == "ip route | grep default | awk '{print $5}' | head -1" {
            Ok("eth0\n".to_string())
        } else if command == "ls -1 /etc/nginx/sites-available/ 2>/dev/null | grep -v '^default$'" {
            Ok("mysite\n".to_string())
        } else if command == "ls -1 /etc/nginx/sites-enabled/ 2>/dev/null" {
            Ok("mysite\n".to_string())
        } else if command == "cat /etc/nginx/sites-available/mysite" {
            Ok(VHOST_CONFIG.to_string())
        } else if command
            == "docker ps --format '{{.ID}}|{{.Names}}|{{.Image}}|{{.State}}' --no-trunc"
        {
            if self.docker_ps_fails {
                Err(CommandError { message: "docker daemon unreachable".to_string(), code: 1 })
            } else {
                Ok("abc123def4567890|web|nginx:latest|running\n".to_string())
            }
        } else if command == "docker network ls --format '{{.ID}}|{{.Name}}|{{.Driver}}|{{.Scope}}'"
        {
            Ok("netid1|appnet|bridge|local\n".to_string())
        } else if command
            == "docker network inspect netid1 --format '{{range .Containers}}{.Name},{end}'"
        {
            Ok("web,".to_string())
        } else if command
            == "docker network inspect netid1 --format '{{(index .IPAM.Config 0).Subnet}}'"
        {
            Ok("172.18.0.0/16\n".to_string())
        } else if command == "docker port web" {
            Ok("80/tcp -> 0.0.0.0:8080\n".to_string())
        } else {
            Err(CommandError { message: format!("unknown command: {}", command), code: 127 })
        }
    }
}

#[test]
fn end_to_end_scenario_produces_expected_topology() {
    let host = ScriptedHost { docker_ps_fails: false };
    let g = get_infrastructure_graph(&host).expect("collection should succeed");

    let ids: Vec<&str> = g.nodes.iter().map(|n| n.id.as_str()).collect();
    for expected in [
        "internet",
        "nginx",
        "host_network",
        "vhost:mysite",
        "container:web",
        "network:appnet",
        "hostport:8080",
    ] {
        assert!(ids.contains(&expected), "missing node {}", expected);
    }
    assert_eq!(g.nodes.len(), 7);

    let has_edge = |s: &str, t: &str, k: &str| {
        g.edges.iter().any(|e| e.source == s && e.target == t && e.edge_type == k)
    };
    assert!(has_edge("internet", "nginx", "routes_to"));
    assert!(has_edge("host_network", "internet", "outbound"));
    assert!(has_edge("nginx", "vhost:mysite", "serves"));
    assert!(has_edge("vhost:mysite", "container:web", "proxies_to"));
    assert!(has_edge("network:appnet", "host_network", "nat"));
    assert!(has_edge("container:web", "network:appnet", "connected_to"));
    assert!(has_edge("internet", "hostport:8080", "direct_access"));
    assert!(has_edge("hostport:8080", "container:web", "port_mapping"));
    assert_eq!(g.edges.len(), 8);

    // No dangling edges, and no duplicated identifier.
    for e in &g.edges {
        assert!(ids.contains(&e.source.as_str()));
        assert!(ids.contains(&e.target.as_str()));
    }
    let mut sorted = ids.clone();
    sorted.sort();
    sorted.dedup();
    assert_eq!(sorted.len(), ids.len());

    assert_eq!(g.summary.total_containers, 1);
    assert_eq!(g.summary.running_containers, 1);
    assert_eq!(g.summary.total_vhosts, 1);
    assert_eq!(g.summary.enabled_vhosts, 1);
    assert_eq!(g.summary.nginx_status, "running");
    assert_eq!(g.summary.total_networks, 1);
}

#[test]
fn vhost_details_survive_collection() {
    let host = ScriptedHost { docker_ps_fails: false };
    let g = get_infrastructure_graph(&host).expect("collection should succeed");
    let vhost = g.nodes.iter().find(|n| n.id == "vhost:mysite").expect("vhost node");
    assert_eq!(vhost.label, "example.com");
    assert!(matches!(vhost.status, infra_graph::types::NodeStatus::Healthy));
    let serves = g
        .edges
        .iter()
        .find(|e| e.edge_type == "serves")
        .expect("serves edge");
    assert_eq!(serves.label, Some("443".to_string()));
}

#[test]
fn failed_container_listing_aborts_the_pass() {
    let host = ScriptedHost { docker_ps_fails: true };
    let err = get_infrastructure_graph(&host).expect_err("listing failure must be fatal");
    assert_eq!(err, "docker daemon unreachable");
}

#[test]
fn collection_is_idempotent_for_identical_outputs() {
    let host = ScriptedHost { docker_ps_fails: false };
    let g1 = get_infrastructure_graph(&host).expect("first pass");
    let g2 = get_infrastructure_graph(&host).expect("second pass");
    let ids1: Vec<&str> = g1.nodes.iter().map(|n| n.id.as_str()).collect();
    let ids2: Vec<&str> = g2.nodes.iter().map(|n| n.id.as_str()).collect();
    assert_eq!(ids1, ids2);
    let e1: Vec<(String, String, String)> = g1
        .edges
        .iter()
        .map(|e| (e.source.clone(), e.target.clone(), e.edge_type.clone()))
        .collect();
    let e2: Vec<(String, String, String)> = g2
        .edges
        .iter()
        .map(|e| (e.source.clone(), e.target.clone(), e.edge_type.clone()))
        .collect();
    assert_eq!(e1, e2);
    assert_eq!(g1.summary.enabled_vhosts, g2.summary.enabled_vhosts);
}
