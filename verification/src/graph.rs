//! Graph assembly: turns one pass's collected records into the node/edge
//! graph with stable identifiers, derived status and the aggregate summary.
//!
//! The layers are appended in a fixed order: the Internet node, the reverse
//! proxy, the host network, then one node per distinct vhost name, container
//! name, network name and mapped host port, so that node identifiers are
//! unique in every generated graph.  Edges are drawn once per record — the
//! graph is a multigraph.  [`spec_assemble`] defines the whole result as a
//! function of the collected facts; [`assemble_graph`] is proved to return
//! exactly that.

use vstd::prelude::*;
use vstd::string::*;

use crate::correlate::{backend_matches, member_matches, spec_backend_matches, spec_member_matches};
use crate::text::{push_tracked, str_eq};
use crate::types::{
    DockerContainer, DockerContainerV, DockerNetwork, DockerNetworkV, InfraGraphEdge,
    InfraGraphEdgeV, InfraGraphNode, InfraGraphNodeType, InfraGraphNodeV, InfraSummary,
    InfraSummaryV, InfrastructureGraph, InfrastructureGraphV, MetaEntry, MetaEntryV, MetaValue,
    MetaValueV, NginxVhost, NginxVhostV, NodeStatus, PortMapping, PortMappingV,
};

verus! {

// ==================== COLLECTED FACTS ====================

/// Everything one collection pass learned from the host, ready for assembly.
///
/// `proxy_targets` is parallel to `vhosts` (the backend read from each
/// vhost's configuration, absent when that read failed), and
/// `container_ports` is parallel to `containers`.  `nginx_version` and
/// `host_interface` are stored trimmed.
pub struct InfraFacts {
    pub nginx_running: bool,
    pub nginx_version: String,
    pub host_interface: String,
    pub vhosts: Vec<NginxVhost>,
    pub proxy_targets: Vec<Option<String>>,
    pub containers: Vec<DockerContainer>,
    pub networks: Vec<DockerNetwork>,
    pub container_ports: Vec<Vec<PortMapping>>,
}

#[verifier::ext_equal]
pub ghost struct InfraFactsV {
    pub nginx_running: bool,
    pub nginx_version: Seq<char>,
    pub host_interface: Seq<char>,
    pub vhosts: Seq<NginxVhostV>,
    pub proxy_targets: Seq<Option<Seq<char>>>,
    pub containers: Seq<DockerContainerV>,
    pub networks: Seq<DockerNetworkV>,
    pub container_ports: Seq<Seq<PortMappingV>>,
}

impl View for InfraFacts {
    type V = InfraFactsV;

    open spec fn view(&self) -> InfraFactsV {
        InfraFactsV {
            nginx_running: self.nginx_running,
            nginx_version: self.nginx_version@,
            host_interface: self.host_interface@,
            vhosts: self.vhosts.deep_view(),
            proxy_targets: self.proxy_targets.deep_view(),
            containers: self.containers.deep_view(),
            networks: self.networks.deep_view(),
            container_ports: self.container_ports.deep_view(),
        }
    }
}

/// The two parallel-list invariants of a fact set.
pub open spec fn facts_wf(f: InfraFactsV) -> bool {
    &&& f.proxy_targets.len() == f.vhosts.len()
    &&& f.container_ports.len() == f.containers.len()
}

// ==================== FIRST OCCURRENCES ====================
//
// Each keyed layer emits one node per distinct natural key: a record gets a
// node only when no earlier record of its layer carries the same key.  That
// keeps node identifiers unique in every generated graph, while the edges
// are still drawn once per record (the graph is a multigraph).

/// No earlier vhost record carries this record's name.
pub open spec fn vhost_fresh(f: InfraFactsV, i: int) -> bool {
    forall|q: int| 0 <= q < i ==> (#[trigger] f.vhosts[q]).name != f.vhosts[i].name
}

/// No earlier container record carries this record's name.
pub open spec fn container_fresh(f: InfraFactsV, i: int) -> bool {
    forall|q: int| 0 <= q < i ==> (#[trigger] f.containers[q]).name != f.containers[i].name
}

/// No earlier network record carries this record's name.
pub open spec fn network_fresh(f: InfraFactsV, i: int) -> bool {
    forall|q: int| 0 <= q < i ==> (#[trigger] f.networks[q]).name != f.networks[i].name
}

/// No earlier mapping of the flat list binds this mapping's host port.
pub open spec fn mapping_fresh(ms: Seq<PortMappingV>, i: int) -> bool {
    forall|q: int| 0 <= q < i ==> (#[trigger] ms[q]).host_port != ms[i].host_port
}

// ==================== IDENTIFIERS ====================

pub open spec fn internet_id() -> Seq<char> {
    "internet"@
}

pub open spec fn nginx_id() -> Seq<char> {
    "nginx"@
}

pub open spec fn host_network_id() -> Seq<char> {
    "host_network"@
}

/// Stable identifier of a vhost node: the type prefix and the natural key.
pub open spec fn vhost_id(name: Seq<char>) -> Seq<char> {
    "vhost:"@ + name
}

pub open spec fn container_id(name: Seq<char>) -> Seq<char> {
    "container:"@ + name
}

pub open spec fn network_id(name: Seq<char>) -> Seq<char> {
    "network:"@ + name
}

pub open spec fn hostport_id(port: Seq<char>) -> Seq<char> {
    "hostport:"@ + port
}

// ==================== NODES ====================

pub open spec fn internet_node() -> InfraGraphNodeV {
    InfraGraphNodeV {
        id: internet_id(),
        label: "Internet"@,
        node_type: InfraGraphNodeType::Internet,
        status: NodeStatus::Healthy,
        metadata: seq![
            MetaEntryV { key: "description"@, value: MetaValueV::Text("External network"@) },
        ],
    }
}

pub open spec fn nginx_node(f: InfraFactsV) -> InfraGraphNodeV {
    InfraGraphNodeV {
        id: nginx_id(),
        label: "Nginx "@ + f.nginx_version,
        node_type: InfraGraphNodeType::Nginx,
        status: if f.nginx_running {
            NodeStatus::Running
        } else {
            NodeStatus::Stopped
        },
        metadata: seq![
            MetaEntryV { key: "version"@, value: MetaValueV::Text(f.nginx_version) },
            MetaEntryV { key: "running"@, value: MetaValueV::Flag(f.nginx_running) },
        ],
    }
}

pub open spec fn host_network_node(f: InfraFactsV) -> InfraGraphNodeV {
    InfraGraphNodeV {
        id: host_network_id(),
        label: "Host ("@ + f.host_interface + ")"@,
        node_type: InfraGraphNodeType::HostNetwork,
        status: NodeStatus::Running,
        metadata: seq![
            MetaEntryV { key: "interface"@, value: MetaValueV::Text(f.host_interface) },
            MetaEntryV { key: "type"@, value: MetaValueV::Text("host"@) },
        ],
    }
}

pub open spec fn vhost_node(v: NginxVhostV) -> InfraGraphNodeV {
    InfraGraphNodeV {
        id: vhost_id(v.name),
        label: v.server_name,
        node_type: InfraGraphNodeType::Vhost,
        status: if v.enabled {
            NodeStatus::Healthy
        } else {
            NodeStatus::Stopped
        },
        metadata: seq![
            MetaEntryV { key: "name"@, value: MetaValueV::Text(v.name) },
            MetaEntryV { key: "server_name"@, value: MetaValueV::Text(v.server_name) },
            MetaEntryV { key: "enabled"@, value: MetaValueV::Flag(v.enabled) },
            MetaEntryV { key: "ssl"@, value: MetaValueV::Flag(v.ssl_enabled) },
        ],
    }
}

pub open spec fn container_node(c: DockerContainerV) -> InfraGraphNodeV {
    InfraGraphNodeV {
        id: container_id(c.name),
        label: c.name,
        node_type: InfraGraphNodeType::Container,
        status: if c.state == "running"@ {
            NodeStatus::Running
        } else {
            NodeStatus::Stopped
        },
        metadata: seq![
            MetaEntryV { key: "id"@, value: MetaValueV::Text(c.id) },
            MetaEntryV { key: "image"@, value: MetaValueV::Text(c.image) },
            MetaEntryV { key: "state"@, value: MetaValueV::Text(c.state) },
        ],
    }
}

pub open spec fn network_node(n: DockerNetworkV) -> InfraGraphNodeV {
    InfraGraphNodeV {
        id: network_id(n.name),
        label: n.name + " ("@ + n.driver + ")"@,
        node_type: InfraGraphNodeType::DockerNetwork,
        status: NodeStatus::Healthy,
        metadata: seq![
            MetaEntryV { key: "driver"@, value: MetaValueV::Text(n.driver) },
            MetaEntryV { key: "scope"@, value: MetaValueV::Text(n.scope) },
            MetaEntryV {
                key: "subnet"@,
                value: match n.subnet {
                    Some(s) => MetaValueV::Text(s),
                    None => MetaValueV::Missing,
                },
            },
            MetaEntryV { key: "containers"@, value: MetaValueV::Count(n.containers.len() as int) },
        ],
    }
}

pub open spec fn hostport_node(p: PortMappingV) -> InfraGraphNodeV {
    InfraGraphNodeV {
        id: hostport_id(p.host_port),
        label: "Port :"@ + p.host_port,
        node_type: InfraGraphNodeType::HostPort,
        status: NodeStatus::Running,
        metadata: seq![
            MetaEntryV { key: "host_port"@, value: MetaValueV::Text(p.host_port) },
            MetaEntryV { key: "container_port"@, value: MetaValueV::Text(p.container_port) },
            MetaEntryV { key: "protocol"@, value: MetaValueV::Text(p.protocol) },
        ],
    }
}

// ==================== EDGES ====================

pub open spec fn internet_nginx_edge() -> InfraGraphEdgeV {
    InfraGraphEdgeV {
        source: internet_id(),
        target: nginx_id(),
        edge_type: "routes_to"@,
        label: Some("80/443"@),
        metadata: None,
    }
}

pub open spec fn host_out_edge() -> InfraGraphEdgeV {
    InfraGraphEdgeV {
        source: host_network_id(),
        target: internet_id(),
        edge_type: "outbound"@,
        label: Some("NAT"@),
        metadata: None,
    }
}

pub open spec fn serve_edge(v: NginxVhostV) -> InfraGraphEdgeV {
    InfraGraphEdgeV {
        source: nginx_id(),
        target: vhost_id(v.name),
        edge_type: "serves"@,
        label: Some(v.listen_port),
        metadata: None,
    }
}

pub open spec fn proxy_edge(v: NginxVhostV, c: DockerContainerV, backend: Seq<char>) -> InfraGraphEdgeV {
    InfraGraphEdgeV {
        source: vhost_id(v.name),
        target: container_id(c.name),
        edge_type: "proxies_to"@,
        label: Some(backend),
        metadata: None,
    }
}

pub open spec fn nat_edge(n: DockerNetworkV) -> InfraGraphEdgeV {
    InfraGraphEdgeV {
        source: network_id(n.name),
        target: host_network_id(),
        edge_type: "nat"@,
        label: Some("masquerade"@),
        metadata: None,
    }
}

pub open spec fn connect_edge(c: DockerContainerV, n: DockerNetworkV) -> InfraGraphEdgeV {
    InfraGraphEdgeV {
        source: container_id(c.name),
        target: network_id(n.name),
        edge_type: "connected_to"@,
        label: None,
        metadata: None,
    }
}

pub open spec fn direct_edge(p: PortMappingV) -> InfraGraphEdgeV {
    InfraGraphEdgeV {
        source: internet_id(),
        target: hostport_id(p.host_port),
        edge_type: "direct_access"@,
        label: Some(":"@ + p.host_port),
        metadata: None,
    }
}

pub open spec fn map_edge(p: PortMappingV, c: DockerContainerV) -> InfraGraphEdgeV {
    InfraGraphEdgeV {
        source: hostport_id(p.host_port),
        target: container_id(c.name),
        edge_type: "port_mapping"@,
        label: Some("-> :"@ + p.container_port),
        metadata: None,
    }
}

// ==================== LAYERS ====================

pub open spec fn base_nodes(f: InfraFactsV) -> Seq<InfraGraphNodeV> {
    seq![internet_node(), nginx_node(f), host_network_node(f)]
}

/// The vhost nodes of the first `n` vhost records, one per distinct name.
pub open spec fn vhost_nodes_upto(f: InfraFactsV, n: int) -> Seq<InfraGraphNodeV>
    decreases n,
{
    if n <= 0 {
        Seq::empty()
    } else {
        vhost_nodes_upto(f, n - 1) + (if vhost_fresh(f, n - 1) {
            seq![vhost_node(f.vhosts[n - 1])]
        } else {
            Seq::empty()
        })
    }
}

pub open spec fn vhost_nodes(f: InfraFactsV) -> Seq<InfraGraphNodeV> {
    vhost_nodes_upto(f, f.vhosts.len() as int)
}

/// The container nodes of the first `n` records, one per distinct name.
pub open spec fn container_nodes_upto(f: InfraFactsV, n: int) -> Seq<InfraGraphNodeV>
    decreases n,
{
    if n <= 0 {
        Seq::empty()
    } else {
        container_nodes_upto(f, n - 1) + (if container_fresh(f, n - 1) {
            seq![container_node(f.containers[n - 1])]
        } else {
            Seq::empty()
        })
    }
}

pub open spec fn container_nodes(f: InfraFactsV) -> Seq<InfraGraphNodeV> {
    container_nodes_upto(f, f.containers.len() as int)
}

/// The network nodes of the first `n` records, one per distinct name.
pub open spec fn network_nodes_upto(f: InfraFactsV, n: int) -> Seq<InfraGraphNodeV>
    decreases n,
{
    if n <= 0 {
        Seq::empty()
    } else {
        network_nodes_upto(f, n - 1) + (if network_fresh(f, n - 1) {
            seq![network_node(f.networks[n - 1])]
        } else {
            Seq::empty()
        })
    }
}

pub open spec fn network_nodes(f: InfraFactsV) -> Seq<InfraGraphNodeV> {
    network_nodes_upto(f, f.networks.len() as int)
}

/// The port mappings of the first `n` containers, flattened in emission
/// order.
pub open spec fn mappings_upto(f: InfraFactsV, n: int) -> Seq<PortMappingV>
    decreases n,
{
    if n <= 0 {
        Seq::empty()
    } else {
        mappings_upto(f, n - 1) + f.container_ports[n - 1]
    }
}

/// Every port mapping of the pass, in emission order.
pub open spec fn all_mappings(f: InfraFactsV) -> Seq<PortMappingV> {
    mappings_upto(f, f.containers.len() as int)
}

/// The `HostPort` nodes of the first `n` flat mappings, one per distinct
/// host port.
pub open spec fn hostport_nodes_from(ms: Seq<PortMappingV>, n: int) -> Seq<InfraGraphNodeV>
    decreases n,
{
    if n <= 0 {
        Seq::empty()
    } else {
        hostport_nodes_from(ms, n - 1) + (if mapping_fresh(ms, n - 1) {
            seq![hostport_node(ms[n - 1])]
        } else {
            Seq::empty()
        })
    }
}

pub open spec fn hostport_nodes(f: InfraFactsV) -> Seq<InfraGraphNodeV> {
    hostport_nodes_from(all_mappings(f), all_mappings(f).len() as int)
}

/// Every node of the assembled graph, in layer order.
pub open spec fn all_nodes(f: InfraFactsV) -> Seq<InfraGraphNodeV> {
    base_nodes(f) + vhost_nodes(f) + container_nodes(f) + network_nodes(f) + hostport_nodes(f)
}

/// Where the mapping `r` of container `q` sits in the flat mapping list.
pub proof fn lemma_pair_flat(f: InfraFactsV, n: int, q: int, r: int)
    requires
        0 <= q < n <= f.container_ports.len(),
        0 <= r < f.container_ports[q].len(),
    ensures
        mappings_upto(f, q).len() + r < mappings_upto(f, n).len(),
        mappings_upto(f, n)[mappings_upto(f, q).len() + r] == f.container_ports[q][r],
    decreases n,
{
    if q == n - 1 {
        assert(mappings_upto(f, n)[mappings_upto(f, n - 1).len() + r] == f.container_ports[n
            - 1][r]);
    } else {
        lemma_pair_flat(f, n - 1, q, r);
        assert(mappings_upto(f, n)[mappings_upto(f, q).len() + r] == mappings_upto(f, n - 1)[
        mappings_upto(f, q).len() + r]);
    }
}

pub open spec fn base_edges() -> Seq<InfraGraphEdgeV> {
    seq![internet_nginx_edge(), host_out_edge()]
}

pub open spec fn serve_edges(f: InfraFactsV) -> Seq<InfraGraphEdgeV> {
    Seq::new(f.vhosts.len(), |i: int| serve_edge(f.vhosts[i]))
}

/// The `proxies_to` edges one (container, vhost) pair contributes: one edge
/// when that vhost's backend was read, is not the `static` sentinel, and
/// matches the container.
pub open spec fn proxy_pair_edges(f: InfraFactsV, ci: int, vi: int) -> Seq<InfraGraphEdgeV> {
    match f.proxy_targets[vi] {
        Some(b) => if b != "static"@ && spec_backend_matches(b, f.containers[ci]) {
            seq![proxy_edge(f.vhosts[vi], f.containers[ci], b)]
        } else {
            Seq::empty()
        },
        None => Seq::empty(),
    }
}

/// The `proxies_to` edges of container `ci` against the first `vn` vhosts.
pub open spec fn proxy_edges_for_container_upto(f: InfraFactsV, ci: int, vn: int) -> Seq<
    InfraGraphEdgeV,
>
    decreases vn,
{
    if vn <= 0 {
        Seq::empty()
    } else {
        proxy_edges_for_container_upto(f, ci, vn - 1) + proxy_pair_edges(f, ci, vn - 1)
    }
}

/// The `proxies_to` edges of the first `cn` containers.
pub open spec fn proxy_edges_upto(f: InfraFactsV, cn: int) -> Seq<InfraGraphEdgeV>
    decreases cn,
{
    if cn <= 0 {
        Seq::empty()
    } else {
        proxy_edges_upto(f, cn - 1) + proxy_edges_for_container_upto(
            f,
            cn - 1,
            f.vhosts.len() as int,
        )
    }
}

/// The `connected_to` edges of network `ni` against the first `cn`
/// containers.
pub open spec fn connect_edges_upto(f: InfraFactsV, ni: int, cn: int) -> Seq<InfraGraphEdgeV>
    decreases cn,
{
    if cn <= 0 {
        Seq::empty()
    } else {
        connect_edges_upto(f, ni, cn - 1) + (if spec_member_matches(
            f.networks[ni].containers,
            f.containers[cn - 1],
        ) {
            seq![connect_edge(f.containers[cn - 1], f.networks[ni])]
        } else {
            Seq::empty()
        })
    }
}

/// The NAT and `connected_to` edges of the first `nn` networks.
pub open spec fn network_edges_upto(f: InfraFactsV, nn: int) -> Seq<InfraGraphEdgeV>
    decreases nn,
{
    if nn <= 0 {
        Seq::empty()
    } else {
        network_edges_upto(f, nn - 1) + (seq![nat_edge(f.networks[nn - 1])] + connect_edges_upto(
            f,
            nn - 1,
            f.containers.len() as int,
        ))
    }
}

/// The ingress and mapping edges of one container's first `jn` port
/// mappings: `direct_access` into the host port, then `port_mapping` on to
/// the container.
pub open spec fn port_edges_for(c: DockerContainerV, ports: Seq<PortMappingV>, jn: int) -> Seq<
    InfraGraphEdgeV,
>
    decreases jn,
{
    if jn <= 0 {
        Seq::empty()
    } else {
        port_edges_for(c, ports, jn - 1) + seq![
            direct_edge(ports[jn - 1]),
            map_edge(ports[jn - 1], c),
        ]
    }
}

/// The port-mapping edges of the first `cn` containers.
pub open spec fn port_edges_upto(f: InfraFactsV, cn: int) -> Seq<InfraGraphEdgeV>
    decreases cn,
{
    if cn <= 0 {
        Seq::empty()
    } else {
        port_edges_upto(f, cn - 1) + port_edges_for(
            f.containers[cn - 1],
            f.container_ports[cn - 1],
            f.container_ports[cn - 1].len() as int,
        )
    }
}

/// Every edge of the assembled graph, in layer order.
pub open spec fn all_edges(f: InfraFactsV) -> Seq<InfraGraphEdgeV> {
    base_edges() + serve_edges(f) + proxy_edges_upto(f, f.containers.len() as int)
        + network_edges_upto(f, f.networks.len() as int) + port_edges_upto(
        f,
        f.containers.len() as int,
    )
}

// ==================== SUMMARY ====================

/// How many of the first `n` containers report the running state.
pub open spec fn count_running(cs: Seq<DockerContainerV>, n: int) -> int
    decreases n,
{
    if n <= 0 {
        0
    } else {
        count_running(cs, n - 1) + (if cs[n - 1].state == "running"@ {
            1int
        } else {
            0int
        })
    }
}

/// How many of the first `n` vhosts are enabled.
pub open spec fn count_enabled(vs: Seq<NginxVhostV>, n: int) -> int
    decreases n,
{
    if n <= 0 {
        0
    } else {
        count_enabled(vs, n - 1) + (if vs[n - 1].enabled {
            1int
        } else {
            0int
        })
    }
}

/// The aggregate summary, a pure reduction over the record sets.
pub open spec fn spec_summary(f: InfraFactsV) -> InfraSummaryV {
    InfraSummaryV {
        total_containers: f.containers.len() as int,
        running_containers: count_running(f.containers, f.containers.len() as int),
        total_vhosts: f.vhosts.len() as int,
        enabled_vhosts: count_enabled(f.vhosts, f.vhosts.len() as int),
        nginx_status: if f.nginx_running {
            "running"@
        } else {
            "stopped"@
        },
        total_volumes: 0,
        total_networks: f.networks.len() as int,
    }
}

/// The whole graph one fact set assembles to.
pub open spec fn spec_assemble(f: InfraFactsV) -> InfrastructureGraphV {
    InfrastructureGraphV { nodes: all_nodes(f), edges: all_edges(f), summary: spec_summary(f) }
}

// ==================== NODE BUILDERS ====================

fn build_internet_node() -> (n: InfraGraphNode)
    ensures
        n@ == internet_node(),
{
    let mut md: Vec<MetaEntry> = Vec::new();
    proof {
        assert(md.deep_view() =~= Seq::<MetaEntryV>::empty());
    }
    push_tracked(
        &mut md,
        MetaEntry { key: "description".to_owned(), value: MetaValue::Text("External network".to_owned()) },
    );
    let n = InfraGraphNode {
        id: "internet".to_owned(),
        label: "Internet".to_owned(),
        node_type: InfraGraphNodeType::Internet,
        status: NodeStatus::Healthy,
        metadata: md,
    };
    proof {
        assert(n.metadata.deep_view() =~= internet_node().metadata);
        assert(n@ =~= internet_node());
    }
    n
}

fn build_nginx_node(f: &InfraFacts) -> (n: InfraGraphNode)
    ensures
        n@ == nginx_node(f@),
{
    let mut md: Vec<MetaEntry> = Vec::new();
    proof {
        assert(md.deep_view() =~= Seq::<MetaEntryV>::empty());
    }
    push_tracked(
        &mut md,
        MetaEntry { key: "version".to_owned(), value: MetaValue::Text(f.nginx_version.clone()) },
    );
    push_tracked(&mut md, MetaEntry { key: "running".to_owned(), value: MetaValue::Flag(f.nginx_running) });
    let n = InfraGraphNode {
        id: "nginx".to_owned(),
        label: "Nginx ".to_owned().concat(f.nginx_version.as_str()),
        node_type: InfraGraphNodeType::Nginx,
        status: if f.nginx_running {
            NodeStatus::Running
        } else {
            NodeStatus::Stopped
        },
        metadata: md,
    };
    proof {
        assert(n.metadata.deep_view() =~= nginx_node(f@).metadata);
        assert(n@ =~= nginx_node(f@));
    }
    n
}

fn build_host_network_node(f: &InfraFacts) -> (n: InfraGraphNode)
    ensures
        n@ == host_network_node(f@),
{
    let mut md: Vec<MetaEntry> = Vec::new();
    proof {
        assert(md.deep_view() =~= Seq::<MetaEntryV>::empty());
    }
    push_tracked(
        &mut md,
        MetaEntry { key: "interface".to_owned(), value: MetaValue::Text(f.host_interface.clone()) },
    );
    push_tracked(&mut md, MetaEntry { key: "type".to_owned(), value: MetaValue::Text("host".to_owned()) });
    let n = InfraGraphNode {
        id: "host_network".to_owned(),
        label: "Host (".to_owned().concat(f.host_interface.as_str()).concat(")"),
        node_type: InfraGraphNodeType::HostNetwork,
        status: NodeStatus::Running,
        metadata: md,
    };
    proof {
        assert(n.metadata.deep_view() =~= host_network_node(f@).metadata);
        assert(n@ =~= host_network_node(f@));
    }
    n
}

fn build_vhost_node(v: &NginxVhost) -> (n: InfraGraphNode)
    ensures
        n@ == vhost_node(v@),
{
    let mut md: Vec<MetaEntry> = Vec::new();
    proof {
        assert(md.deep_view() =~= Seq::<MetaEntryV>::empty());
    }
    push_tracked(&mut md, MetaEntry { key: "name".to_owned(), value: MetaValue::Text(v.name.clone()) });
    push_tracked(
        &mut md,
        MetaEntry { key: "server_name".to_owned(), value: MetaValue::Text(v.server_name.clone()) },
    );
    push_tracked(&mut md, MetaEntry { key: "enabled".to_owned(), value: MetaValue::Flag(v.enabled) });
    push_tracked(&mut md, MetaEntry { key: "ssl".to_owned(), value: MetaValue::Flag(v.ssl_enabled) });
    let n = InfraGraphNode {
        id: "vhost:".to_owned().concat(v.name.as_str()),
        label: v.server_name.clone(),
        node_type: InfraGraphNodeType::Vhost,
        status: if v.enabled {
            NodeStatus::Healthy
        } else {
            NodeStatus::Stopped
        },
        metadata: md,
    };
    proof {
        assert(n.metadata.deep_view() =~= vhost_node(v@).metadata);
        assert(n@ =~= vhost_node(v@));
    }
    n
}

fn build_container_node(c: &DockerContainer) -> (n: InfraGraphNode)
    ensures
        n@ == container_node(c@),
{
    let mut md: Vec<MetaEntry> = Vec::new();
    proof {
        assert(md.deep_view() =~= Seq::<MetaEntryV>::empty());
    }
    push_tracked(&mut md, MetaEntry { key: "id".to_owned(), value: MetaValue::Text(c.id.clone()) });
    push_tracked(&mut md, MetaEntry { key: "image".to_owned(), value: MetaValue::Text(c.image.clone()) });
    push_tracked(&mut md, MetaEntry { key: "state".to_owned(), value: MetaValue::Text(c.state.clone()) });
    let n = InfraGraphNode {
        id: "container:".to_owned().concat(c.name.as_str()),
        label: c.name.clone(),
        node_type: InfraGraphNodeType::Container,
        status: if str_eq(c.state.as_str(), "running") {
            NodeStatus::Running
        } else {
            NodeStatus::Stopped
        },
        metadata: md,
    };
    proof {
        assert(n.metadata.deep_view() =~= container_node(c@).metadata);
        assert(n@ =~= container_node(c@));
    }
    n
}

fn build_network_node(nw: &DockerNetwork) -> (n: InfraGraphNode)
    ensures
        n@ == network_node(nw@),
{
    let mut md: Vec<MetaEntry> = Vec::new();
    proof {
        assert(md.deep_view() =~= Seq::<MetaEntryV>::empty());
    }
    push_tracked(&mut md, MetaEntry { key: "driver".to_owned(), value: MetaValue::Text(nw.driver.clone()) });
    push_tracked(&mut md, MetaEntry { key: "scope".to_owned(), value: MetaValue::Text(nw.scope.clone()) });
    let subnet_value = match &nw.subnet {
        Some(s) => MetaValue::Text(s.clone()),
        None => MetaValue::Missing,
    };
    push_tracked(&mut md, MetaEntry { key: "subnet".to_owned(), value: subnet_value });
    push_tracked(
        &mut md,
        MetaEntry { key: "containers".to_owned(), value: MetaValue::Count(nw.containers.len()) },
    );
    let n = InfraGraphNode {
        id: "network:".to_owned().concat(nw.name.as_str()),
        label: nw.name.clone().concat(" (").concat(nw.driver.as_str()).concat(")"),
        node_type: InfraGraphNodeType::DockerNetwork,
        status: NodeStatus::Healthy,
        metadata: md,
    };
    proof {
        assert(nw@.containers.len() == nw.containers@.len());
        assert(n.metadata.deep_view() =~= network_node(nw@).metadata);
        assert(n@ =~= network_node(nw@));
    }
    n
}

fn build_hostport_node(p: &PortMapping) -> (n: InfraGraphNode)
    ensures
        n@ == hostport_node(p@),
{
    let mut md: Vec<MetaEntry> = Vec::new();
    proof {
        assert(md.deep_view() =~= Seq::<MetaEntryV>::empty());
    }
    push_tracked(
        &mut md,
        MetaEntry { key: "host_port".to_owned(), value: MetaValue::Text(p.host_port.clone()) },
    );
    push_tracked(
        &mut md,
        MetaEntry {
            key: "container_port".to_owned(),
            value: MetaValue::Text(p.container_port.clone()),
        },
    );
    push_tracked(
        &mut md,
        MetaEntry { key: "protocol".to_owned(), value: MetaValue::Text(p.protocol.clone()) },
    );
    let n = InfraGraphNode {
        id: "hostport:".to_owned().concat(p.host_port.as_str()),
        label: "Port :".to_owned().concat(p.host_port.as_str()),
        node_type: InfraGraphNodeType::HostPort,
        status: NodeStatus::Running,
        metadata: md,
    };
    proof {
        assert(n.metadata.deep_view() =~= hostport_node(p@).metadata);
        assert(n@ =~= hostport_node(p@));
    }
    n
}

// ==================== EDGE BUILDERS ====================

fn build_internet_nginx_edge() -> (e: InfraGraphEdge)
    ensures
        e@ == internet_nginx_edge(),
{
    let e = InfraGraphEdge {
        source: "internet".to_owned(),
        target: "nginx".to_owned(),
        edge_type: "routes_to".to_owned(),
        label: Some("80/443".to_owned()),
        metadata: None,
    };
    proof {
        assert(e@ =~= internet_nginx_edge());
    }
    e
}

fn build_host_out_edge() -> (e: InfraGraphEdge)
    ensures
        e@ == host_out_edge(),
{
    let e = InfraGraphEdge {
        source: "host_network".to_owned(),
        target: "internet".to_owned(),
        edge_type: "outbound".to_owned(),
        label: Some("NAT".to_owned()),
        metadata: None,
    };
    proof {
        assert(e@ =~= host_out_edge());
    }
    e
}

fn build_serve_edge(v: &NginxVhost) -> (e: InfraGraphEdge)
    ensures
        e@ == serve_edge(v@),
{
    let e = InfraGraphEdge {
        source: "nginx".to_owned(),
        target: "vhost:".to_owned().concat(v.name.as_str()),
        edge_type: "serves".to_owned(),
        label: Some(v.listen_port.clone()),
        metadata: None,
    };
    proof {
        assert(e@ =~= serve_edge(v@));
    }
    e
}

fn build_proxy_edge(v: &NginxVhost, c: &DockerContainer, backend: &String) -> (e: InfraGraphEdge)
    ensures
        e@ == proxy_edge(v@, c@, backend@),
{
    let e = InfraGraphEdge {
        source: "vhost:".to_owned().concat(v.name.as_str()),
        target: "container:".to_owned().concat(c.name.as_str()),
        edge_type: "proxies_to".to_owned(),
        label: Some(backend.clone()),
        metadata: None,
    };
    proof {
        assert(e@ =~= proxy_edge(v@, c@, backend@));
    }
    e
}

fn build_nat_edge(nw: &DockerNetwork) -> (e: InfraGraphEdge)
    ensures
        e@ == nat_edge(nw@),
{
    let e = InfraGraphEdge {
        source: "network:".to_owned().concat(nw.name.as_str()),
        target: "host_network".to_owned(),
        edge_type: "nat".to_owned(),
        label: Some("masquerade".to_owned()),
        metadata: None,
    };
    proof {
        assert(e@ =~= nat_edge(nw@));
    }
    e
}

fn build_connect_edge(c: &DockerContainer, nw: &DockerNetwork) -> (e: InfraGraphEdge)
    ensures
        e@ == connect_edge(c@, nw@),
{
    let e = InfraGraphEdge {
        source: "container:".to_owned().concat(c.name.as_str()),
        target: "network:".to_owned().concat(nw.name.as_str()),
        edge_type: "connected_to".to_owned(),
        label: None,
        metadata: None,
    };
    proof {
        assert(e@ =~= connect_edge(c@, nw@));
    }
    e
}

fn build_direct_edge(p: &PortMapping) -> (e: InfraGraphEdge)
    ensures
        e@ == direct_edge(p@),
{
    let e = InfraGraphEdge {
        source: "internet".to_owned(),
        target: "hostport:".to_owned().concat(p.host_port.as_str()),
        edge_type: "direct_access".to_owned(),
        label: Some(":".to_owned().concat(p.host_port.as_str())),
        metadata: None,
    };
    proof {
        assert(e@ =~= direct_edge(p@));
    }
    e
}

fn build_map_edge(p: &PortMapping, c: &DockerContainer) -> (e: InfraGraphEdge)
    ensures
        e@ == map_edge(p@, c@),
{
    let e = InfraGraphEdge {
        source: "hostport:".to_owned().concat(p.host_port.as_str()),
        target: "container:".to_owned().concat(c.name.as_str()),
        edge_type: "port_mapping".to_owned(),
        label: Some("-> :".to_owned().concat(p.container_port.as_str())),
        metadata: None,
    };
    proof {
        assert(e@ =~= map_edge(p@, c@));
    }
    e
}

// ==================== LAYER ASSEMBLY ====================

/// Whether an earlier vhost record already carries this record's name.
fn vhost_name_seen(f: &InfraFacts, i: usize) -> (r: bool)
    requires
        i < f@.vhosts.len(),
    ensures
        r == !vhost_fresh(f@, i as int),
{
    let ghost fv = f@;
    let mut seen = false;
    let mut q: usize = 0;
    while q < i
        invariant
            q <= i < fv.vhosts.len(),
            fv == f@,
            seen == !(forall|t: int| 0 <= t < q ==> (#[trigger] fv.vhosts[t]).name != fv.vhosts[i as int].name),
        decreases i - q,
    {
        proof {
            assert(fv.vhosts[q as int] == f.vhosts@[q as int]@);
            assert(fv.vhosts[i as int] == f.vhosts@[i as int]@);
        }
        if str_eq(f.vhosts[q].name.as_str(), f.vhosts[i].name.as_str()) {
            seen = true;
        }
        q = q + 1;
    }
    seen
}

/// Appends one node per distinct vhost name and one `serves` edge per vhost.
fn push_vhost_layer(f: &InfraFacts, nodes: &mut Vec<InfraGraphNode>, edges: &mut Vec<InfraGraphEdge>)
    ensures
        final(nodes).deep_view() == old(nodes).deep_view() + vhost_nodes(f@),
        final(edges).deep_view() == old(edges).deep_view() + serve_edges(f@),
{
    let ghost fv = f@;
    let ghost n0 = nodes.deep_view();
    let ghost e0 = edges.deep_view();
    let mut i: usize = 0;
    proof {
        assert(n0 + vhost_nodes_upto(fv, 0) =~= n0);
        assert(e0 + Seq::new(0, |k: int| serve_edge(fv.vhosts[k])) =~= e0);
    }
    while i < f.vhosts.len()
        invariant
            i <= f.vhosts.len(),
            fv == f@,
            nodes.deep_view() == n0 + vhost_nodes_upto(fv, i as int),
            edges.deep_view() == e0 + Seq::new(i as nat, |k: int| serve_edge(fv.vhosts[k])),
        decreases f.vhosts.len() - i,
    {
        proof {
            assert(fv.vhosts[i as int] == f.vhosts@[i as int]@);
        }
        if !vhost_name_seen(f, i) {
            let vn = build_vhost_node(&f.vhosts[i]);
            push_tracked(nodes, vn);
            proof {
                assert(nodes.deep_view() =~= n0 + vhost_nodes_upto(fv, i as int + 1));
            }
        } else {
            proof {
                assert(vhost_nodes_upto(fv, i as int) + Seq::<InfraGraphNodeV>::empty()
                    =~= vhost_nodes_upto(fv, i as int));
                assert(nodes.deep_view() =~= n0 + vhost_nodes_upto(fv, i as int + 1));
            }
        }
        let se = build_serve_edge(&f.vhosts[i]);
        push_tracked(edges, se);
        proof {
            assert(edges.deep_view() =~= e0 + Seq::new(
                (i + 1) as nat,
                |k: int| serve_edge(fv.vhosts[k]),
            ));
        }
        i = i + 1;
    }
    proof {
        assert(Seq::new(f.vhosts@.len(), |k: int| serve_edge(fv.vhosts[k])) =~= serve_edges(fv));
    }
}

/// Whether an earlier container record already carries this record's name.
fn container_name_seen(f: &InfraFacts, i: usize) -> (r: bool)
    requires
        i < f@.containers.len(),
    ensures
        r == !container_fresh(f@, i as int),
{
    let ghost fv = f@;
    let mut seen = false;
    let mut q: usize = 0;
    while q < i
        invariant
            q <= i < fv.containers.len(),
            fv == f@,
            seen == !(forall|t: int| 0 <= t < q ==> (#[trigger] fv.containers[t]).name
                != fv.containers[i as int].name),
        decreases i - q,
    {
        proof {
            assert(fv.containers[q as int] == f.containers@[q as int]@);
            assert(fv.containers[i as int] == f.containers@[i as int]@);
        }
        if str_eq(f.containers[q].name.as_str(), f.containers[i].name.as_str()) {
            seen = true;
        }
        q = q + 1;
    }
    seen
}

/// Appends one node per distinct container name and the `proxies_to` edges
/// of correlation rule one (one per matching record pair).
fn push_container_layer(
    f: &InfraFacts,
    nodes: &mut Vec<InfraGraphNode>,
    edges: &mut Vec<InfraGraphEdge>,
)
    requires
        facts_wf(f@),
    ensures
        final(nodes).deep_view() == old(nodes).deep_view() + container_nodes(f@),
        final(edges).deep_view() == old(edges).deep_view() + proxy_edges_upto(
            f@,
            f@.containers.len() as int,
        ),
{
    let ghost fv = f@;
    let ghost n0 = nodes.deep_view();
    let ghost e0 = edges.deep_view();
    let mut ci: usize = 0;
    proof {
        assert(n0 + container_nodes_upto(fv, 0) =~= n0);
        assert(e0 + proxy_edges_upto(fv, 0) =~= e0);
    }
    while ci < f.containers.len()
        invariant
            ci <= f.containers.len(),
            fv == f@,
            facts_wf(fv),
            nodes.deep_view() == n0 + container_nodes_upto(fv, ci as int),
            edges.deep_view() == e0 + proxy_edges_upto(fv, ci as int),
        decreases f.containers.len() - ci,
    {
        proof {
            assert(fv.containers[ci as int] == f.containers@[ci as int]@);
        }
        if !container_name_seen(f, ci) {
            let cn = build_container_node(&f.containers[ci]);
            push_tracked(nodes, cn);
            proof {
                assert(nodes.deep_view() =~= n0 + container_nodes_upto(fv, ci as int + 1));
            }
        } else {
            proof {
                assert(container_nodes_upto(fv, ci as int) + Seq::<InfraGraphNodeV>::empty()
                    =~= container_nodes_upto(fv, ci as int));
                assert(nodes.deep_view() =~= n0 + container_nodes_upto(fv, ci as int + 1));
            }
        }
        let ghost n1 = nodes.deep_view();
        let ghost e1 = edges.deep_view();
        let mut vi: usize = 0;
        proof {
            assert(e1 + proxy_edges_for_container_upto(fv, ci as int, 0) =~= e1);
        }
        while vi < f.vhosts.len()
            invariant
                vi <= f.vhosts.len(),
                ci < f.containers.len(),
                fv == f@,
                facts_wf(fv),
                nodes.deep_view() == n1,
                edges.deep_view() == e1 + proxy_edges_for_container_upto(fv, ci as int, vi as int),
            decreases f.vhosts.len() - vi,
        {
            proof {
                assert(fv.proxy_targets[vi as int] == f.proxy_targets@[vi as int].deep_view());
                assert(fv.vhosts[vi as int] == f.vhosts@[vi as int]@);
                assert(fv.containers[ci as int] == f.containers@[ci as int]@);
            }
            let target = &f.proxy_targets[vi];
            match target {
                Some(b) => {
                    if !str_eq(b.as_str(), "static") && backend_matches(b.as_str(), &f.containers[ci]) {
                        let pe = build_proxy_edge(&f.vhosts[vi], &f.containers[ci], b);
                        push_tracked(edges, pe);
                        proof {
                            assert(proxy_pair_edges(fv, ci as int, vi as int) =~= seq![
                                proxy_edge(
                                    fv.vhosts[vi as int],
                                    fv.containers[ci as int],
                                    b@,
                                ),
                            ]);
                        }
                    } else {
                        proof {
                            assert(proxy_pair_edges(fv, ci as int, vi as int)
                                =~= Seq::<InfraGraphEdgeV>::empty());
                        }
                    }
                },
                None => {
                    proof {
                        assert(proxy_pair_edges(fv, ci as int, vi as int)
                            =~= Seq::<InfraGraphEdgeV>::empty());
                    }
                },
            }
            proof {
                assert(edges.deep_view() =~= e1 + proxy_edges_for_container_upto(
                    fv,
                    ci as int,
                    vi as int + 1,
                ));
            }
            vi = vi + 1;
        }
        proof {
            assert(edges.deep_view() =~= e0 + proxy_edges_upto(fv, ci as int + 1));
        }
        ci = ci + 1;
    }
    proof {
        assert(fv.containers.len() == f.containers@.len());
    }
}

/// Whether an earlier network record already carries this record's name.
fn network_name_seen(f: &InfraFacts, i: usize) -> (r: bool)
    requires
        i < f@.networks.len(),
    ensures
        r == !network_fresh(f@, i as int),
{
    let ghost fv = f@;
    let mut seen = false;
    let mut q: usize = 0;
    while q < i
        invariant
            q <= i < fv.networks.len(),
            fv == f@,
            seen == !(forall|t: int| 0 <= t < q ==> (#[trigger] fv.networks[t]).name != fv.networks[i as int].name),
        decreases i - q,
    {
        proof {
            assert(fv.networks[q as int] == f.networks@[q as int]@);
            assert(fv.networks[i as int] == f.networks@[i as int]@);
        }
        if str_eq(f.networks[q].name.as_str(), f.networks[i].name.as_str()) {
            seen = true;
        }
        q = q + 1;
    }
    seen
}

/// Appends one node per distinct network name, one NAT edge per record, and
/// the `connected_to` edges of correlation rule two.
fn push_network_layer(
    f: &InfraFacts,
    nodes: &mut Vec<InfraGraphNode>,
    edges: &mut Vec<InfraGraphEdge>,
)
    ensures
        final(nodes).deep_view() == old(nodes).deep_view() + network_nodes(f@),
        final(edges).deep_view() == old(edges).deep_view() + network_edges_upto(
            f@,
            f@.networks.len() as int,
        ),
{
    let ghost fv = f@;
    let ghost n0 = nodes.deep_view();
    let ghost e0 = edges.deep_view();
    let mut ni: usize = 0;
    proof {
        assert(n0 + network_nodes_upto(fv, 0) =~= n0);
        assert(e0 + network_edges_upto(fv, 0) =~= e0);
    }
    while ni < f.networks.len()
        invariant
            ni <= f.networks.len(),
            fv == f@,
            nodes.deep_view() == n0 + network_nodes_upto(fv, ni as int),
            edges.deep_view() == e0 + network_edges_upto(fv, ni as int),
        decreases f.networks.len() - ni,
    {
        proof {
            assert(fv.networks[ni as int] == f.networks@[ni as int]@);
        }
        if !network_name_seen(f, ni) {
            let nn = build_network_node(&f.networks[ni]);
            push_tracked(nodes, nn);
            proof {
                assert(nodes.deep_view() =~= n0 + network_nodes_upto(fv, ni as int + 1));
            }
        } else {
            proof {
                assert(network_nodes_upto(fv, ni as int) + Seq::<InfraGraphNodeV>::empty()
                    =~= network_nodes_upto(fv, ni as int));
                assert(nodes.deep_view() =~= n0 + network_nodes_upto(fv, ni as int + 1));
            }
        }
        let ne = build_nat_edge(&f.networks[ni]);
        push_tracked(edges, ne);
        let ghost n1 = nodes.deep_view();
        let ghost e1 = edges.deep_view();
        let mut ci: usize = 0;
        proof {
            assert(e1 + connect_edges_upto(fv, ni as int, 0) =~= e1);
        }
        while ci < f.containers.len()
            invariant
                ci <= f.containers.len(),
                ni < f.networks.len(),
                fv == f@,
                nodes.deep_view() == n1,
                edges.deep_view() == e1 + connect_edges_upto(fv, ni as int, ci as int),
            decreases f.containers.len() - ci,
        {
            proof {
                assert(fv.containers[ci as int] == f.containers@[ci as int]@);
                assert(fv.networks[ni as int] == f.networks@[ni as int]@);
            }
            if member_matches(&f.networks[ni], &f.containers[ci]) {
                let ce = build_connect_edge(&f.containers[ci], &f.networks[ni]);
                push_tracked(edges, ce);
            }
            proof {
                assert(edges.deep_view() =~= e1 + connect_edges_upto(
                    fv,
                    ni as int,
                    ci as int + 1,
                ));
            }
            ci = ci + 1;
        }
        proof {
            assert(edges.deep_view() =~= e0 + network_edges_upto(fv, ni as int + 1));
        }
        ni = ni + 1;
    }
    proof {
        assert(fv.networks.len() == f.networks@.len());
    }
}

/// Appends one `HostPort` node per distinct mapped host port, and the two
/// ingress edges of every mapping, container by container.
fn push_port_layer(f: &InfraFacts, nodes: &mut Vec<InfraGraphNode>, edges: &mut Vec<InfraGraphEdge>)
    requires
        facts_wf(f@),
    ensures
        final(nodes).deep_view() == old(nodes).deep_view() + hostport_nodes(f@),
        final(edges).deep_view() == old(edges).deep_view() + port_edges_upto(
            f@,
            f@.containers.len() as int,
        ),
{
    let ghost fv = f@;
    let ghost n0 = nodes.deep_view();
    let ghost e0 = edges.deep_view();
    let ghost am = all_mappings(fv);
    let mut seen: Vec<String> = Vec::new();
    let mut fp: usize = 0;
    let mut ci: usize = 0;
    proof {
        assert(n0 + hostport_nodes_from(am, 0) =~= n0);
        assert(e0 + port_edges_upto(fv, 0) =~= e0);
        assert(seen.deep_view() =~= Seq::new(0, |t: int| am[t].host_port));
    }
    while ci < f.containers.len()
        invariant
            ci <= f.containers.len(),
            fv == f@,
            facts_wf(fv),
            am == all_mappings(fv),
            fp == seen.len(),
            fp == mappings_upto(fv, ci as int).len(),
            seen.deep_view() == Seq::new(fp as nat, |t: int| am[t].host_port),
            nodes.deep_view() == n0 + hostport_nodes_from(am, fp as int),
            edges.deep_view() == e0 + port_edges_upto(fv, ci as int),
        decreases f.containers.len() - ci,
    {
        let ghost cv = fv.containers[ci as int];
        let ghost pv = fv.container_ports[ci as int];
        proof {
            assert(cv == f.containers@[ci as int]@);
            assert(pv == f.container_ports@[ci as int].deep_view());
        }
        let ghost e1 = edges.deep_view();
        let ports_ci = &f.container_ports[ci];
        let mut j: usize = 0;
        proof {
            assert(e1 + port_edges_for(cv, pv, 0) =~= e1);
        }
        while j < ports_ci.len()
            invariant
                j <= ports_ci.len(),
                ci < f.containers.len(),
                fv == f@,
                facts_wf(fv),
                am == all_mappings(fv),
                cv == fv.containers[ci as int],
                pv == ports_ci.deep_view(),
                pv == fv.container_ports[ci as int],
                cv == f.containers@[ci as int]@,
                fp == seen.len(),
                fp == mappings_upto(fv, ci as int).len() + j,
                seen.deep_view() == Seq::new(fp as nat, |t: int| am[t].host_port),
                nodes.deep_view() == n0 + hostport_nodes_from(am, fp as int),
                edges.deep_view() == e1 + port_edges_for(cv, pv, j as int),
            decreases ports_ci.len() - j,
        {
            proof {
                assert(pv[j as int] == ports_ci@[j as int]@);
                lemma_pair_flat(fv, fv.container_ports.len() as int, ci as int, j as int);
                assert(am[fp as int] == pv[j as int]);
            }
            // Does an earlier mapping already bind this host port?
            let key = ports_ci[j].host_port.clone();
            proof {
                assert(key@ == pv[j as int].host_port);
            }
            let mut dup = false;
            let mut t: usize = 0;
            while t < seen.len()
                invariant
                    t <= seen.len(),
                    fp == seen.len(),
                    key@ == pv[j as int].host_port,
                    seen.deep_view() == Seq::new(fp as nat, |u: int| am[u].host_port),
                    dup == !(forall|u: int|
                        0 <= u < t ==> (#[trigger] seen.deep_view()[u]) != key@),
                decreases seen.len() - t,
            {
                proof {
                    assert(seen.deep_view()[t as int] == seen@[t as int]@);
                }
                if str_eq(seen[t].as_str(), key.as_str()) {
                    dup = true;
                }
                t = t + 1;
            }
            proof {
                assert forall|q: int| 0 <= q < fp implies #[trigger] am[q].host_port
                    == seen.deep_view()[q] by {}
                assert(!dup == mapping_fresh(am, fp as int));
            }
            if !dup {
                let hn = build_hostport_node(&ports_ci[j]);
                push_tracked(nodes, hn);
                proof {
                    assert(nodes.deep_view() =~= n0 + hostport_nodes_from(am, fp as int + 1));
                }
            } else {
                proof {
                    assert(hostport_nodes_from(am, fp as int) + Seq::<InfraGraphNodeV>::empty()
                        =~= hostport_nodes_from(am, fp as int));
                    assert(nodes.deep_view() =~= n0 + hostport_nodes_from(am, fp as int + 1));
                }
            }
            let de = build_direct_edge(&ports_ci[j]);
            push_tracked(edges, de);
            let me = build_map_edge(&ports_ci[j], &f.containers[ci]);
            push_tracked(edges, me);
            push_tracked(&mut seen, key);
            proof {
                assert(edges.deep_view() =~= e1 + port_edges_for(cv, pv, j as int + 1));
                assert(seen.deep_view() =~= Seq::new(
                    (fp + 1) as nat,
                    |u: int| am[u].host_port,
                ));
            }
            fp = seen.len();
            j = j + 1;
        }
        proof {
            assert(pv.len() == ports_ci@.len());
            assert(mappings_upto(fv, ci as int + 1).len() == mappings_upto(fv, ci as int).len()
                + pv.len());
            assert(edges.deep_view() =~= e0 + port_edges_upto(fv, ci as int + 1));
        }
        ci = ci + 1;
    }
    proof {
        assert(fp as int == am.len());
    }
}

// ==================== SUMMARY ====================

/// Computes the aggregate summary of one fact set.
pub fn build_summary(f: &InfraFacts) -> (s: InfraSummary)
    ensures
        s@ == spec_summary(f@),
{
    let ghost fv = f@;
    let mut running: usize = 0;
    let mut i: usize = 0;
    while i < f.containers.len()
        invariant
            i <= f.containers.len(),
            fv == f@,
            running <= i,
            running as int == count_running(fv.containers, i as int),
        decreases f.containers.len() - i,
    {
        proof {
            assert(fv.containers[i as int] == f.containers@[i as int]@);
        }
        if str_eq(f.containers[i].state.as_str(), "running") {
            running = running + 1;
        }
        i = i + 1;
    }
    let mut enabled: usize = 0;
    let mut k: usize = 0;
    while k < f.vhosts.len()
        invariant
            k <= f.vhosts.len(),
            fv == f@,
            enabled <= k,
            enabled as int == count_enabled(fv.vhosts, k as int),
        decreases f.vhosts.len() - k,
    {
        proof {
            assert(fv.vhosts[k as int] == f.vhosts@[k as int]@);
        }
        if f.vhosts[k].enabled {
            enabled = enabled + 1;
        }
        k = k + 1;
    }
    let s = InfraSummary {
        total_containers: f.containers.len(),
        running_containers: running,
        total_vhosts: f.vhosts.len(),
        enabled_vhosts: enabled,
        nginx_status: if f.nginx_running {
            "running".to_owned()
        } else {
            "stopped".to_owned()
        },
        total_volumes: 0,
        total_networks: f.networks.len(),
    };
    proof {
        assert(s@ =~= spec_summary(fv));
    }
    s
}

// ==================== ASSEMBLY ====================

/// Assembles the graph of one fact set: the fixed base layer, then vhosts,
/// containers, networks and direct port mappings, then the summary.  The
/// result is exactly [`spec_assemble`] of the facts, and its node
/// identifiers are unique whatever the records hold.
pub fn assemble_graph(f: &InfraFacts) -> (g: InfrastructureGraph)
    requires
        facts_wf(f@),
    ensures
        g@ == spec_assemble(f@),
        crate::laws::unique_node_ids(g@.nodes),
{
    let ghost fv = f@;
    let mut nodes: Vec<InfraGraphNode> = Vec::new();
    let mut edges: Vec<InfraGraphEdge> = Vec::new();
    proof {
        assert(nodes.deep_view() =~= Seq::<InfraGraphNodeV>::empty());
        assert(edges.deep_view() =~= Seq::<InfraGraphEdgeV>::empty());
    }
    push_tracked(&mut nodes, build_internet_node());
    push_tracked(&mut nodes, build_nginx_node(f));
    push_tracked(&mut nodes, build_host_network_node(f));
    push_tracked(&mut edges, build_internet_nginx_edge());
    push_tracked(&mut edges, build_host_out_edge());
    proof {
        assert(nodes.deep_view() =~= base_nodes(fv));
        assert(edges.deep_view() =~= base_edges());
    }
    push_vhost_layer(f, &mut nodes, &mut edges);
    push_container_layer(f, &mut nodes, &mut edges);
    push_network_layer(f, &mut nodes, &mut edges);
    push_port_layer(f, &mut nodes, &mut edges);
    proof {
        assert(nodes.deep_view() =~= all_nodes(fv));
        assert(edges.deep_view() =~= all_edges(fv));
    }
    let summary = build_summary(f);
    let g = InfrastructureGraph { nodes, edges, summary };
    proof {
        assert(g@ =~= spec_assemble(fv));
        crate::laws::lemma_node_ids_unique(fv);
    }
    g
}

} // verus!
