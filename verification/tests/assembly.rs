use infra_graph::correlate::{backend_matches, member_matches};
use infra_graph::graph::{assemble_graph, build_summary, InfraFacts};
use infra_graph::types::{
    DockerContainer, DockerNetwork, InfraGraphNodeType, InfrastructureGraph, NginxVhost,
    PortMapping,
};

fn container(id: &str, name: &str, state: &str) -> DockerContainer {
    DockerContainer {
        id: id.to_string(),
        name: name.to_string(),
        image: "img:latest".to_string(),
        status: "running".to_string(),
        state: state.to_string(),
        memory_usage: 0,
        memory_limit: 0,
        ports: Vec::new(),
    }
}

fn vhost(name: &str, enabled: bool) -> NginxVhost {
    NginxVhost {
        name: name.to_string(),
        enabled,
        server_name: format!("{}.example.com", name),
        listen_port: "80".to_string(),
        ssl_enabled: false,
        root_path: String::new(),
    }
}

fn network(id: &str, name: &str, members: Vec<String>) -> DockerNetwork {
    DockerNetwork {
        id: id.to_string(),
        name: name.to_string(),
        driver: "bridge".to_string(),
        scope: "local".to_string(),
        subnet: None,
        gateway: None,
        containers: members,
    }
}

fn mapping(host_port: &str, container_port: &str) -> PortMapping {
    PortMapping {
        host_ip: "0.0.0.0".to_string(),
        host_port: host_port.to_string(),
        container_port: container_port.to_string(),
        protocol: "tcp".to_string(),
    }
}

fn sample_facts() -> InfraFacts {
    InfraFacts {
        nginx_running: true,
        nginx_version: "1.24.0".to_string(),
        host_interface: "eth0".to_string(),
        vhosts: vec![vhost("site_a", true), vhost("site_b", false)],
        proxy_targets: vec![Some("http://app:3000".to_string()), None],
        containers: vec![
            container("aaaabbbbccccdddd", "app", "running"),
            container("eeeeffff00001111", "db", "exited"),
        ],
        networks: vec![network("n1", "appnet", vec!["app".to_string()])],
        container_ports: vec![vec![mapping("8080", "80")], vec![]],
    }
}

fn node_ids(g: &InfrastructureGraph) -> Vec<String> {
    g.nodes.iter().map(|n| n.id.clone()).collect()
}

#[test]
fn every_edge_references_existing_nodes() {
    let g = assemble_graph(&sample_facts());
    let ids = node_ids(&g);
    for e in &g.edges {
        assert!(ids.contains(&e.source), "dangling source {}", e.source);
        assert!(ids.contains(&e.target), "dangling target {}", e.target);
    }
}

#[test]
fn node_ids_are_unique() {
    let g = assemble_graph(&sample_facts());
    let ids = node_ids(&g);
    for (i, a) in ids.iter().enumerate() {
        for b in ids.iter().skip(i + 1) {
            assert_ne!(a, b);
        }
    }
}

#[test]
fn identical_facts_assemble_identically() {
    let g1 = assemble_graph(&sample_facts());
    let g2 = assemble_graph(&sample_facts());
    assert_eq!(node_ids(&g1), node_ids(&g2));
    let e1: Vec<(String, String, String)> = g1
        .edges
        .iter()
        .map(|e| (e.source.clone(), e.target.clone(), e.edge_type.clone()))
        .collect();
    let e2: Vec<(String, String, String)> = g2
        .edges
        .iter()
        .map(|e| (e.source.clone(), e.target.clone(), e.edge_type.clone()))
        .collect();
    assert_eq!(e1, e2);
    assert_eq!(g1.summary.total_containers, g2.summary.total_containers);
    assert_eq!(g1.summary.running_containers, g2.summary.running_containers);
    assert_eq!(g1.summary.total_vhosts, g2.summary.total_vhosts);
    assert_eq!(g1.summary.enabled_vhosts, g2.summary.enabled_vhosts);
    assert_eq!(g1.summary.nginx_status, g2.summary.nginx_status);
}

#[test]
fn matching_backend_yields_exactly_one_proxies_to_edge() {
    let g = assemble_graph(&sample_facts());
    let proxy_edges: Vec<_> = g.edges.iter().filter(|e| e.edge_type == "proxies_to").collect();
    assert_eq!(proxy_edges.len(), 1);
    assert_eq!(proxy_edges[0].source, "vhost:site_a");
    assert_eq!(proxy_edges[0].target, "container:app");
    assert_eq!(proxy_edges[0].label, Some("http://app:3000".to_string()));
}

#[test]
fn unmatched_backend_yields_no_proxies_to_edge() {
    let mut facts = sample_facts();
    facts.proxy_targets = vec![Some("http://elsewhere:9".to_string()), None];
    let g = assemble_graph(&facts);
    assert!(g.edges.iter().all(|e| e.edge_type != "proxies_to"));
}

#[test]
fn static_backend_yields_no_proxies_to_edge() {
    let mut facts = sample_facts();
    // A container whose name is a substring of the sentinel must still not match.
    facts.containers.push(container("9999888877776666", "tat", "running"));
    facts.container_ports.push(vec![]);
    facts.proxy_targets = vec![Some("static".to_string()), None];
    let g = assemble_graph(&facts);
    assert!(g.edges.iter().all(|e| e.edge_type != "proxies_to"));
}

#[test]
fn short_id_backend_reference_matches() {
    let facts = InfraFacts {
        nginx_running: true,
        nginx_version: String::new(),
        host_interface: "eth0".to_string(),
        vhosts: vec![vhost("site_a", true)],
        proxy_targets: vec![Some("http://aaaabbbbcccc:80".to_string())],
        containers: vec![container("aaaabbbbccccdddd", "app", "running")],
        networks: vec![],
        container_ports: vec![vec![]],
    };
    let g = assemble_graph(&facts);
    assert_eq!(g.edges.iter().filter(|e| e.edge_type == "proxies_to").count(), 1);
}

#[test]
fn backend_matching_with_short_identifier() {
    let c = container("aaaabbbbccccdddd", "app", "running");
    assert!(backend_matches("http://aaaabbbbcccc:80", &c));
    assert!(backend_matches("http://app:3000", &c));
    assert!(!backend_matches("http://other:3000", &c));
}

#[test]
fn backend_matching_with_sub_twelve_character_identifier() {
    // An identifier shorter than twelve characters degrades to comparing
    // whatever is available.
    let c = container("ab12", "svc", "running");
    assert!(backend_matches("http://ab12:80", &c));
    assert!(!backend_matches("http://ab1:80", &c));
}

#[test]
fn member_matching_by_name_and_short_id_prefix() {
    let c = container("aaaabbbbccccdddd", "app", "running");
    let by_name = network("n1", "net", vec!["app".to_string()]);
    assert!(member_matches(&by_name, &c));
    let by_prefix = network("n2", "net2", vec!["aaaabbbbcccc_suffix".to_string()]);
    assert!(member_matches(&by_prefix, &c));
    let neither = network("n3", "net3", vec!["db".to_string()]);
    assert!(!member_matches(&neither, &c));
}

#[test]
fn connected_to_edges_follow_membership() {
    let g = assemble_graph(&sample_facts());
    let connect: Vec<_> = g.edges.iter().filter(|e| e.edge_type == "connected_to").collect();
    assert_eq!(connect.len(), 1);
    assert_eq!(connect[0].source, "container:app");
    assert_eq!(connect[0].target, "network:appnet");
}

#[test]
fn port_mapping_emits_hostport_node_and_two_edges() {
    let g = assemble_graph(&sample_facts());
    assert!(node_ids(&g).contains(&"hostport:8080".to_string()));
    let direct: Vec<_> = g.edges.iter().filter(|e| e.edge_type == "direct_access").collect();
    assert_eq!(direct.len(), 1);
    assert_eq!(direct[0].source, "internet");
    assert_eq!(direct[0].target, "hostport:8080");
    let mapped: Vec<_> = g.edges.iter().filter(|e| e.edge_type == "port_mapping").collect();
    assert_eq!(mapped.len(), 1);
    assert_eq!(mapped[0].source, "hostport:8080");
    assert_eq!(mapped[0].target, "container:app");
}

#[test]
fn summary_counts_are_exact() {
    let s = build_summary(&sample_facts());
    assert_eq!(s.total_containers, 2);
    assert_eq!(s.running_containers, 1);
    assert_eq!(s.total_vhosts, 2);
    assert_eq!(s.enabled_vhosts, 1);
    assert_eq!(s.nginx_status, "running");
    assert_eq!(s.total_volumes, 0);
    assert_eq!(s.total_networks, 1);
}

#[test]
fn shared_host_port_yields_one_node_and_all_edges() {
    // One container publishing the same host port over tcp and udp: the
    // host-port node is emitted once, both mappings keep their edges.
    let mut facts = sample_facts();
    facts.container_ports = vec![
        vec![mapping("8080", "80"), {
            let mut m = mapping("8080", "80");
            m.protocol = "udp".to_string();
            m
        }],
        vec![],
    ];
    let g = assemble_graph(&facts);
    let hostports: Vec<_> = g.nodes.iter().filter(|n| n.id == "hostport:8080").collect();
    assert_eq!(hostports.len(), 1);
    assert_eq!(g.edges.iter().filter(|e| e.edge_type == "direct_access").count(), 2);
    assert_eq!(g.edges.iter().filter(|e| e.edge_type == "port_mapping").count(), 2);
    let ids = node_ids(&g);
    for (i, a) in ids.iter().enumerate() {
        for b in ids.iter().skip(i + 1) {
            assert_ne!(a, b);
        }
    }
}

#[test]
fn same_host_port_on_two_containers_yields_one_node() {
    let mut facts = sample_facts();
    facts.container_ports = vec![vec![mapping("8080", "80")], vec![mapping("8080", "5432")]];
    let g = assemble_graph(&facts);
    assert_eq!(g.nodes.iter().filter(|n| n.id == "hostport:8080").count(), 1);
    // Each container still gets its own mapping edge from the shared port.
    assert!(g.edges.iter().any(|e| e.source == "hostport:8080" && e.target == "container:app"));
    assert!(g.edges.iter().any(|e| e.source == "hostport:8080" && e.target == "container:db"));
}

#[test]
fn duplicate_record_names_yield_one_node_each() {
    let mut facts = sample_facts();
    facts.containers.push(container("ffff0000ffff0000", "app", "exited"));
    facts.container_ports.push(vec![]);
    facts.vhosts.push(vhost("site_a", false));
    facts.proxy_targets.push(None);
    facts.networks.push(network("n9", "appnet", vec![]));
    let g = assemble_graph(&facts);
    assert_eq!(g.nodes.iter().filter(|n| n.id == "container:app").count(), 1);
    assert_eq!(g.nodes.iter().filter(|n| n.id == "vhost:site_a").count(), 1);
    assert_eq!(g.nodes.iter().filter(|n| n.id == "network:appnet").count(), 1);
    let ids = node_ids(&g);
    for (i, a) in ids.iter().enumerate() {
        for b in ids.iter().skip(i + 1) {
            assert_ne!(a, b);
        }
    }
    // Edges are still drawn per record: two serves edges for the two
    // site_a entries, two NAT edges for the two appnet entries.
    assert_eq!(g.edges.iter().filter(|e| e.edge_type == "serves").count(), 3);
    assert_eq!(g.edges.iter().filter(|e| e.edge_type == "nat").count(), 2);
}

#[test]
fn summary_totals_equal_emitted_node_counts() {
    let g = assemble_graph(&sample_facts());
    let count = |t: fn(&InfraGraphNodeType) -> bool| {
        g.nodes.iter().filter(|n| t(&n.node_type)).count()
    };
    assert_eq!(g.summary.total_vhosts, count(|t| matches!(t, InfraGraphNodeType::Vhost)));
    assert_eq!(g.summary.total_containers, count(|t| matches!(t, InfraGraphNodeType::Container)));
    assert_eq!(
        g.summary.total_networks,
        count(|t| matches!(t, InfraGraphNodeType::DockerNetwork))
    );
}

#[test]
fn stopped_proxy_reflected_in_summary_and_node() {
    let mut facts = sample_facts();
    facts.nginx_running = false;
    let g = assemble_graph(&facts);
    assert_eq!(g.summary.nginx_status, "stopped");
    let nginx = g.nodes.iter().find(|n| n.id == "nginx").expect("proxy node");
    assert!(matches!(nginx.status, infra_graph::types::NodeStatus::Stopped));
}

#[test]
fn base_layer_edges_are_present() {
    let g = assemble_graph(&sample_facts());
    assert!(g.edges.iter().any(|e| e.source == "internet" && e.target == "nginx"
        && e.edge_type == "routes_to"));
    assert!(g.edges.iter().any(|e| e.source == "host_network" && e.target == "internet"
        && e.edge_type == "outbound"));
    assert!(g.edges.iter().any(|e| e.source == "network:appnet" && e.target == "host_network"
        && e.edge_type == "nat"));
}
