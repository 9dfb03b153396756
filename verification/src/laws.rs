//! Structural laws of the assembled graph.
//!
//! Proved here, over [`spec_assemble`]: every edge's endpoints name emitted
//! nodes; node identifiers are unique in every generated graph, with no
//! hypothesis on the collected records; assembly is a pure function of the
//! collected facts, so two passes over identical records agree; and the
//! summary's totals count the emitted nodes of each kind.

use vstd::prelude::*;

use crate::graph::{
    all_edges, all_mappings, all_nodes, base_edges, base_nodes, connect_edges_upto,
    container_fresh, container_id, container_node, container_nodes, container_nodes_upto,
    facts_wf, host_network_id, hostport_id, hostport_node, hostport_nodes, hostport_nodes_from,
    internet_id, lemma_pair_flat, mapping_fresh, mappings_upto, network_edges_upto, network_fresh,
    network_id, network_node, network_nodes, network_nodes_upto, nginx_id, port_edges_for,
    port_edges_upto, proxy_edge, proxy_edges_for_container_upto, proxy_edges_upto, proxy_pair_edges,
    serve_edges, spec_assemble, vhost_fresh, vhost_id, vhost_node, vhost_nodes, vhost_nodes_upto,
    InfraFactsV,
};
use crate::correlate::spec_backend_matches;
use crate::types::{
    InfraGraphEdgeV, InfraGraphNodeType, InfraGraphNodeV, InfrastructureGraphV, PortMappingV,
};

verus! {

/// Some node of `nodes` carries the identifier `id`.
pub open spec fn node_ids_contain(nodes: Seq<InfraGraphNodeV>, id: Seq<char>) -> bool {
    exists|i: int| 0 <= i < nodes.len() && nodes[i].id == id
}

/// Every edge's source and target name an emitted node.
pub open spec fn edges_closed(g: InfrastructureGraphV) -> bool {
    forall|k: int|
        0 <= k < g.edges.len() ==> node_ids_contain(g.nodes, (#[trigger] g.edges[k]).source)
            && node_ids_contain(g.nodes, g.edges[k].target)
}

/// No two nodes carry the same identifier.
pub open spec fn unique_node_ids(nodes: Seq<InfraGraphNodeV>) -> bool {
    forall|i: int, j: int|
        0 <= i < j < nodes.len() ==> (#[trigger] nodes[i]).id != (#[trigger] nodes[j]).id
}

/// Both endpoints of `e` are present among the assembled nodes.
pub open spec fn endpoints_ok(f: InfraFactsV, e: InfraGraphEdgeV) -> bool {
    node_ids_contain(all_nodes(f), e.source) && node_ids_contain(all_nodes(f), e.target)
}

proof fn lemma_contains_left(a: Seq<InfraGraphNodeV>, b: Seq<InfraGraphNodeV>, id: Seq<char>)
    requires
        node_ids_contain(a, id),
    ensures
        node_ids_contain(a + b, id),
{
    let i = choose|i: int| 0 <= i < a.len() && a[i].id == id;
    assert((a + b)[i].id == id);
}

proof fn lemma_contains_right(a: Seq<InfraGraphNodeV>, b: Seq<InfraGraphNodeV>, id: Seq<char>)
    requires
        node_ids_contain(b, id),
    ensures
        node_ids_contain(a + b, id),
{
    let i = choose|i: int| 0 <= i < b.len() && b[i].id == id;
    assert((a + b)[a.len() + i].id == id);
}

proof fn lemma_in_all_from_base(f: InfraFactsV, id: Seq<char>)
    requires
        node_ids_contain(base_nodes(f), id),
    ensures
        node_ids_contain(all_nodes(f), id),
{
    lemma_contains_left(base_nodes(f), vhost_nodes(f), id);
    lemma_contains_left(base_nodes(f) + vhost_nodes(f), container_nodes(f), id);
    lemma_contains_left(base_nodes(f) + vhost_nodes(f) + container_nodes(f), network_nodes(f), id);
    lemma_contains_left(
        base_nodes(f) + vhost_nodes(f) + container_nodes(f) + network_nodes(f),
        hostport_nodes(f),
        id,
    );
}

proof fn lemma_in_all_from_vhosts(f: InfraFactsV, id: Seq<char>)
    requires
        node_ids_contain(vhost_nodes(f), id),
    ensures
        node_ids_contain(all_nodes(f), id),
{
    lemma_contains_right(base_nodes(f), vhost_nodes(f), id);
    lemma_contains_left(base_nodes(f) + vhost_nodes(f), container_nodes(f), id);
    lemma_contains_left(base_nodes(f) + vhost_nodes(f) + container_nodes(f), network_nodes(f), id);
    lemma_contains_left(
        base_nodes(f) + vhost_nodes(f) + container_nodes(f) + network_nodes(f),
        hostport_nodes(f),
        id,
    );
}

proof fn lemma_in_all_from_containers(f: InfraFactsV, id: Seq<char>)
    requires
        node_ids_contain(container_nodes(f), id),
    ensures
        node_ids_contain(all_nodes(f), id),
{
    lemma_contains_right(base_nodes(f) + vhost_nodes(f), container_nodes(f), id);
    lemma_contains_left(base_nodes(f) + vhost_nodes(f) + container_nodes(f), network_nodes(f), id);
    lemma_contains_left(
        base_nodes(f) + vhost_nodes(f) + container_nodes(f) + network_nodes(f),
        hostport_nodes(f),
        id,
    );
}

proof fn lemma_in_all_from_networks(f: InfraFactsV, id: Seq<char>)
    requires
        node_ids_contain(network_nodes(f), id),
    ensures
        node_ids_contain(all_nodes(f), id),
{
    lemma_contains_right(base_nodes(f) + vhost_nodes(f) + container_nodes(f), network_nodes(f), id);
    lemma_contains_left(
        base_nodes(f) + vhost_nodes(f) + container_nodes(f) + network_nodes(f),
        hostport_nodes(f),
        id,
    );
}

proof fn lemma_in_all_from_hostports(f: InfraFactsV, id: Seq<char>)
    requires
        node_ids_contain(hostport_nodes(f), id),
    ensures
        node_ids_contain(all_nodes(f), id),
{
    lemma_contains_right(
        base_nodes(f) + vhost_nodes(f) + container_nodes(f) + network_nodes(f),
        hostport_nodes(f),
        id,
    );
}

proof fn lemma_internet_in(f: InfraFactsV)
    ensures
        node_ids_contain(all_nodes(f), internet_id()),
{
    assert(base_nodes(f)[0].id == internet_id());
    lemma_in_all_from_base(f, internet_id());
}

proof fn lemma_nginx_in(f: InfraFactsV)
    ensures
        node_ids_contain(all_nodes(f), nginx_id()),
{
    assert(base_nodes(f)[1].id == nginx_id());
    lemma_in_all_from_base(f, nginx_id());
}

proof fn lemma_host_network_in(f: InfraFactsV)
    ensures
        node_ids_contain(all_nodes(f), host_network_id()),
{
    assert(base_nodes(f)[2].id == host_network_id());
    lemma_in_all_from_base(f, host_network_id());
}

// ==================== FIRST OCCURRENCES ARE EMITTED ====================

proof fn lemma_vhost_first(f: InfraFactsV, i: int)
    requires
        0 <= i < f.vhosts.len(),
    ensures
        exists|q: int|
            0 <= q <= i && vhost_fresh(f, q) && (#[trigger] f.vhosts[q]).name == f.vhosts[i].name,
    decreases i,
{
    if vhost_fresh(f, i) {
        assert(vhost_fresh(f, i) && (f.vhosts[i]).name == f.vhosts[i].name);
    } else {
        let q0 = choose|q: int| 0 <= q < i && (#[trigger] f.vhosts[q]).name == f.vhosts[i].name;
        lemma_vhost_first(f, q0);
    }
}

proof fn lemma_container_first(f: InfraFactsV, i: int)
    requires
        0 <= i < f.containers.len(),
    ensures
        exists|q: int|
            0 <= q <= i && container_fresh(f, q) && (#[trigger] f.containers[q]).name
                == f.containers[i].name,
    decreases i,
{
    if container_fresh(f, i) {
        assert(container_fresh(f, i) && (f.containers[i]).name == f.containers[i].name);
    } else {
        let q0 = choose|q: int|
            0 <= q < i && (#[trigger] f.containers[q]).name == f.containers[i].name;
        lemma_container_first(f, q0);
    }
}

proof fn lemma_network_first(f: InfraFactsV, i: int)
    requires
        0 <= i < f.networks.len(),
    ensures
        exists|q: int|
            0 <= q <= i && network_fresh(f, q) && (#[trigger] f.networks[q]).name == f.networks[i].name,
    decreases i,
{
    if network_fresh(f, i) {
        assert(network_fresh(f, i) && (f.networks[i]).name == f.networks[i].name);
    } else {
        let q0 = choose|q: int| 0 <= q < i && (#[trigger] f.networks[q]).name == f.networks[i].name;
        lemma_network_first(f, q0);
    }
}

proof fn lemma_mapping_first(ms: Seq<PortMappingV>, i: int)
    requires
        0 <= i < ms.len(),
    ensures
        exists|q: int|
            0 <= q <= i && mapping_fresh(ms, q) && (#[trigger] ms[q]).host_port == ms[i].host_port,
    decreases i,
{
    if mapping_fresh(ms, i) {
        assert(mapping_fresh(ms, i) && (ms[i]).host_port == ms[i].host_port);
    } else {
        let q0 = choose|q: int| 0 <= q < i && (#[trigger] ms[q]).host_port == ms[i].host_port;
        lemma_mapping_first(ms, q0);
    }
}

proof fn lemma_vhost_emitted(f: InfraFactsV, n: int, q: int)
    requires
        0 <= q < n <= f.vhosts.len(),
        vhost_fresh(f, q),
    ensures
        node_ids_contain(vhost_nodes_upto(f, n), vhost_id(f.vhosts[q].name)),
    decreases n,
{
    let id = vhost_id(f.vhosts[q].name);
    let tail: Seq<InfraGraphNodeV> = if vhost_fresh(f, n - 1) {
        seq![vhost_node(f.vhosts[n - 1])]
    } else {
        Seq::empty()
    };
    if q == n - 1 {
        assert(tail[0].id == id);
        lemma_contains_right(vhost_nodes_upto(f, n - 1), tail, id);
    } else {
        lemma_vhost_emitted(f, n - 1, q);
        lemma_contains_left(vhost_nodes_upto(f, n - 1), tail, id);
    }
}

proof fn lemma_container_emitted(f: InfraFactsV, n: int, q: int)
    requires
        0 <= q < n <= f.containers.len(),
        container_fresh(f, q),
    ensures
        node_ids_contain(container_nodes_upto(f, n), container_id(f.containers[q].name)),
    decreases n,
{
    let id = container_id(f.containers[q].name);
    let tail: Seq<InfraGraphNodeV> = if container_fresh(f, n - 1) {
        seq![container_node(f.containers[n - 1])]
    } else {
        Seq::empty()
    };
    if q == n - 1 {
        assert(tail[0].id == id);
        lemma_contains_right(container_nodes_upto(f, n - 1), tail, id);
    } else {
        lemma_container_emitted(f, n - 1, q);
        lemma_contains_left(container_nodes_upto(f, n - 1), tail, id);
    }
}

proof fn lemma_network_emitted(f: InfraFactsV, n: int, q: int)
    requires
        0 <= q < n <= f.networks.len(),
        network_fresh(f, q),
    ensures
        node_ids_contain(network_nodes_upto(f, n), network_id(f.networks[q].name)),
    decreases n,
{
    let id = network_id(f.networks[q].name);
    let tail: Seq<InfraGraphNodeV> = if network_fresh(f, n - 1) {
        seq![network_node(f.networks[n - 1])]
    } else {
        Seq::empty()
    };
    if q == n - 1 {
        assert(tail[0].id == id);
        lemma_contains_right(network_nodes_upto(f, n - 1), tail, id);
    } else {
        lemma_network_emitted(f, n - 1, q);
        lemma_contains_left(network_nodes_upto(f, n - 1), tail, id);
    }
}

proof fn lemma_hostport_emitted(ms: Seq<PortMappingV>, n: int, q: int)
    requires
        0 <= q < n <= ms.len(),
        mapping_fresh(ms, q),
    ensures
        node_ids_contain(hostport_nodes_from(ms, n), hostport_id(ms[q].host_port)),
    decreases n,
{
    let id = hostport_id(ms[q].host_port);
    let tail: Seq<InfraGraphNodeV> = if mapping_fresh(ms, n - 1) {
        seq![hostport_node(ms[n - 1])]
    } else {
        Seq::empty()
    };
    if q == n - 1 {
        assert(tail[0].id == id);
        lemma_contains_right(hostport_nodes_from(ms, n - 1), tail, id);
    } else {
        lemma_hostport_emitted(ms, n - 1, q);
        lemma_contains_left(hostport_nodes_from(ms, n - 1), tail, id);
    }
}

proof fn lemma_vhost_in(f: InfraFactsV, vi: int)
    requires
        0 <= vi < f.vhosts.len(),
    ensures
        node_ids_contain(all_nodes(f), vhost_id(f.vhosts[vi].name)),
{
    lemma_vhost_first(f, vi);
    let q = choose|q: int|
        0 <= q <= vi && vhost_fresh(f, q) && (#[trigger] f.vhosts[q]).name == f.vhosts[vi].name;
    lemma_vhost_emitted(f, f.vhosts.len() as int, q);
    lemma_in_all_from_vhosts(f, vhost_id(f.vhosts[vi].name));
}

proof fn lemma_container_in(f: InfraFactsV, ci: int)
    requires
        0 <= ci < f.containers.len(),
    ensures
        node_ids_contain(all_nodes(f), container_id(f.containers[ci].name)),
{
    lemma_container_first(f, ci);
    let q = choose|q: int|
        0 <= q <= ci && container_fresh(f, q) && (#[trigger] f.containers[q]).name == f.containers[ci].name;
    lemma_container_emitted(f, f.containers.len() as int, q);
    lemma_in_all_from_containers(f, container_id(f.containers[ci].name));
}

proof fn lemma_network_in(f: InfraFactsV, ni: int)
    requires
        0 <= ni < f.networks.len(),
    ensures
        node_ids_contain(all_nodes(f), network_id(f.networks[ni].name)),
{
    lemma_network_first(f, ni);
    let q = choose|q: int|
        0 <= q <= ni && network_fresh(f, q) && (#[trigger] f.networks[q]).name == f.networks[ni].name;
    lemma_network_emitted(f, f.networks.len() as int, q);
    lemma_in_all_from_networks(f, network_id(f.networks[ni].name));
}

proof fn lemma_hostport_in(f: InfraFactsV, ci: int, j: int)
    requires
        facts_wf(f),
        0 <= ci < f.containers.len(),
        0 <= j < f.container_ports[ci].len(),
    ensures
        node_ids_contain(all_nodes(f), hostport_id(f.container_ports[ci][j].host_port)),
{
    let ms = all_mappings(f);
    lemma_pair_flat(f, f.container_ports.len() as int, ci, j);
    let p = mappings_upto(f, ci).len() + j;
    assert(ms[p] == f.container_ports[ci][j]);
    lemma_mapping_first(ms, p);
    let q = choose|q: int|
        0 <= q <= p && mapping_fresh(ms, q) && (#[trigger] ms[q]).host_port == ms[p].host_port;
    lemma_hostport_emitted(ms, ms.len() as int, q);
    lemma_in_all_from_hostports(f, hostport_id(f.container_ports[ci][j].host_port));
}

// ==================== NO DANGLING EDGES ====================

proof fn lemma_serve_edges_closed(f: InfraFactsV)
    ensures
        forall|k: int|
            0 <= k < serve_edges(f).len() ==> endpoints_ok(f, #[trigger] serve_edges(f)[k]),
{
    assert forall|k: int|
        0 <= k < serve_edges(f).len() implies endpoints_ok(f, #[trigger] serve_edges(f)[k]) by {
        lemma_nginx_in(f);
        lemma_vhost_in(f, k);
    }
}

proof fn lemma_proxy_pair_closed(f: InfraFactsV, ci: int, vi: int)
    requires
        facts_wf(f),
        0 <= ci < f.containers.len(),
        0 <= vi < f.vhosts.len(),
    ensures
        forall|k: int|
            0 <= k < proxy_pair_edges(f, ci, vi).len() ==> endpoints_ok(
                f,
                #[trigger] proxy_pair_edges(f, ci, vi)[k],
            ),
{
    assert forall|k: int|
        0 <= k < proxy_pair_edges(f, ci, vi).len() implies endpoints_ok(
        f,
        #[trigger] proxy_pair_edges(f, ci, vi)[k],
    ) by {
        lemma_vhost_in(f, vi);
        lemma_container_in(f, ci);
    }
}

proof fn lemma_proxy_container_closed(f: InfraFactsV, ci: int, vn: int)
    requires
        facts_wf(f),
        0 <= ci < f.containers.len(),
        0 <= vn <= f.vhosts.len(),
    ensures
        forall|k: int|
            0 <= k < proxy_edges_for_container_upto(f, ci, vn).len() ==> endpoints_ok(
                f,
                #[trigger] proxy_edges_for_container_upto(f, ci, vn)[k],
            ),
    decreases vn,
{
    if vn > 0 {
        lemma_proxy_container_closed(f, ci, vn - 1);
        lemma_proxy_pair_closed(f, ci, vn - 1);
        let a = proxy_edges_for_container_upto(f, ci, vn - 1);
        let b = proxy_pair_edges(f, ci, vn - 1);
        assert forall|k: int|
            0 <= k < proxy_edges_for_container_upto(f, ci, vn).len() implies endpoints_ok(
            f,
            #[trigger] proxy_edges_for_container_upto(f, ci, vn)[k],
        ) by {
            if k < a.len() {
                assert(proxy_edges_for_container_upto(f, ci, vn)[k] == a[k]);
            } else {
                assert(proxy_edges_for_container_upto(f, ci, vn)[k] == b[k - a.len()]);
            }
        }
    }
}

proof fn lemma_proxy_closed(f: InfraFactsV, cn: int)
    requires
        facts_wf(f),
        0 <= cn <= f.containers.len(),
    ensures
        forall|k: int|
            0 <= k < proxy_edges_upto(f, cn).len() ==> endpoints_ok(
                f,
                #[trigger] proxy_edges_upto(f, cn)[k],
            ),
    decreases cn,
{
    if cn > 0 {
        lemma_proxy_closed(f, cn - 1);
        lemma_proxy_container_closed(f, cn - 1, f.vhosts.len() as int);
        let a = proxy_edges_upto(f, cn - 1);
        let b = proxy_edges_for_container_upto(f, cn - 1, f.vhosts.len() as int);
        assert forall|k: int|
            0 <= k < proxy_edges_upto(f, cn).len() implies endpoints_ok(
            f,
            #[trigger] proxy_edges_upto(f, cn)[k],
        ) by {
            if k < a.len() {
                assert(proxy_edges_upto(f, cn)[k] == a[k]);
            } else {
                assert(proxy_edges_upto(f, cn)[k] == b[k - a.len()]);
            }
        }
    }
}

proof fn lemma_connect_closed(f: InfraFactsV, ni: int, cn: int)
    requires
        facts_wf(f),
        0 <= ni < f.networks.len(),
        0 <= cn <= f.containers.len(),
    ensures
        forall|k: int|
            0 <= k < connect_edges_upto(f, ni, cn).len() ==> endpoints_ok(
                f,
                #[trigger] connect_edges_upto(f, ni, cn)[k],
            ),
    decreases cn,
{
    if cn > 0 {
        lemma_connect_closed(f, ni, cn - 1);
        let a = connect_edges_upto(f, ni, cn - 1);
        assert forall|k: int|
            0 <= k < connect_edges_upto(f, ni, cn).len() implies endpoints_ok(
            f,
            #[trigger] connect_edges_upto(f, ni, cn)[k],
        ) by {
            if k < a.len() {
                assert(connect_edges_upto(f, ni, cn)[k] == a[k]);
            } else {
                lemma_container_in(f, cn - 1);
                lemma_network_in(f, ni);
            }
        }
    }
}

proof fn lemma_network_edges_closed(f: InfraFactsV, nn: int)
    requires
        facts_wf(f),
        0 <= nn <= f.networks.len(),
    ensures
        forall|k: int|
            0 <= k < network_edges_upto(f, nn).len() ==> endpoints_ok(
                f,
                #[trigger] network_edges_upto(f, nn)[k],
            ),
    decreases nn,
{
    if nn > 0 {
        lemma_network_edges_closed(f, nn - 1);
        lemma_connect_closed(f, nn - 1, f.containers.len() as int);
        let a = network_edges_upto(f, nn - 1);
        let b = seq![crate::graph::nat_edge(f.networks[nn - 1])] + connect_edges_upto(
            f,
            nn - 1,
            f.containers.len() as int,
        );
        assert forall|k: int|
            0 <= k < network_edges_upto(f, nn).len() implies endpoints_ok(
            f,
            #[trigger] network_edges_upto(f, nn)[k],
        ) by {
            if k < a.len() {
                assert(network_edges_upto(f, nn)[k] == a[k]);
            } else {
                assert(network_edges_upto(f, nn)[k] == b[k - a.len()]);
                if k == a.len() {
                    lemma_network_in(f, nn - 1);
                    lemma_host_network_in(f);
                } else {
                    assert(b[k - a.len()] == connect_edges_upto(
                        f,
                        nn - 1,
                        f.containers.len() as int,
                    )[k - a.len() - 1]);
                }
            }
        }
    }
}

proof fn lemma_port_edges_for_closed(f: InfraFactsV, ci: int, jn: int)
    requires
        facts_wf(f),
        0 <= ci < f.containers.len(),
        0 <= jn <= f.container_ports[ci].len(),
    ensures
        forall|k: int|
            0 <= k < port_edges_for(f.containers[ci], f.container_ports[ci], jn).len()
                ==> endpoints_ok(
                f,
                #[trigger] port_edges_for(f.containers[ci], f.container_ports[ci], jn)[k],
            ),
    decreases jn,
{
    if jn > 0 {
        lemma_port_edges_for_closed(f, ci, jn - 1);
        let a = port_edges_for(f.containers[ci], f.container_ports[ci], jn - 1);
        assert forall|k: int|
            0 <= k < port_edges_for(f.containers[ci], f.container_ports[ci], jn).len()
                implies endpoints_ok(
            f,
            #[trigger] port_edges_for(f.containers[ci], f.container_ports[ci], jn)[k],
        ) by {
            if k < a.len() {
                assert(port_edges_for(f.containers[ci], f.container_ports[ci], jn)[k] == a[k]);
            } else {
                lemma_internet_in(f);
                lemma_hostport_in(f, ci, jn - 1);
                lemma_container_in(f, ci);
            }
        }
    }
}

proof fn lemma_port_edges_closed(f: InfraFactsV, cn: int)
    requires
        facts_wf(f),
        0 <= cn <= f.containers.len(),
    ensures
        forall|k: int|
            0 <= k < port_edges_upto(f, cn).len() ==> endpoints_ok(
                f,
                #[trigger] port_edges_upto(f, cn)[k],
            ),
    decreases cn,
{
    if cn > 0 {
        lemma_port_edges_closed(f, cn - 1);
        lemma_port_edges_for_closed(f, cn - 1, f.container_ports[cn - 1].len() as int);
        let a = port_edges_upto(f, cn - 1);
        let b = port_edges_for(
            f.containers[cn - 1],
            f.container_ports[cn - 1],
            f.container_ports[cn - 1].len() as int,
        );
        assert forall|k: int|
            0 <= k < port_edges_upto(f, cn).len() implies endpoints_ok(
            f,
            #[trigger] port_edges_upto(f, cn)[k],
        ) by {
            if k < a.len() {
                assert(port_edges_upto(f, cn)[k] == a[k]);
            } else {
                assert(port_edges_upto(f, cn)[k] == b[k - a.len()]);
            }
        }
    }
}

/// Law: every generated graph is closed — each edge's `source` and `target`
/// equal the identifier of some emitted node, for every well-formed fact
/// set, whatever the host reported.
pub proof fn lemma_edges_reference_nodes(f: InfraFactsV)
    requires
        facts_wf(f),
    ensures
        edges_closed(spec_assemble(f)),
{
    lemma_serve_edges_closed(f);
    lemma_proxy_closed(f, f.containers.len() as int);
    lemma_network_edges_closed(f, f.networks.len() as int);
    lemma_port_edges_closed(f, f.containers.len() as int);
    let e1 = base_edges();
    let e2 = serve_edges(f);
    let e3 = proxy_edges_upto(f, f.containers.len() as int);
    let e4 = network_edges_upto(f, f.networks.len() as int);
    let e5 = port_edges_upto(f, f.containers.len() as int);
    assert forall|k: int|
        0 <= k < all_edges(f).len() implies endpoints_ok(f, #[trigger] all_edges(f)[k]) by {
        let a2 = e1 + e2;
        let a3 = a2 + e3;
        let a4 = a3 + e4;
        if k < a4.len() {
            assert(all_edges(f)[k] == a4[k]);
            if k < a3.len() {
                assert(a4[k] == a3[k]);
                if k < a2.len() {
                    assert(a3[k] == a2[k]);
                    if k < e1.len() {
                        assert(a2[k] == e1[k]);
                        lemma_internet_in(f);
                        lemma_nginx_in(f);
                        lemma_host_network_in(f);
                    } else {
                        assert(a2[k] == e2[k - e1.len()]);
                    }
                } else {
                    assert(a3[k] == e3[k - a2.len()]);
                }
            } else {
                assert(a4[k] == e4[k - a3.len()]);
            }
        } else {
            assert(all_edges(f)[k] == e5[k - a4.len()]);
        }
    }
    assert(spec_assemble(f).nodes == all_nodes(f));
    assert(spec_assemble(f).edges == all_edges(f));
}

// ==================== UNIQUE NODE IDENTIFIERS ====================

proof fn lemma_ne_by_index(a: Seq<char>, b: Seq<char>, i: int)
    requires
        0 <= i < a.len(),
        0 <= i < b.len(),
        a[i] != b[i],
    ensures
        a != b,
{
    if a == b {
        assert(a[i] == b[i]);
    }
}

proof fn lemma_prefixed_ne(p1: Seq<char>, s1: Seq<char>, p2: Seq<char>, s2: Seq<char>, i: int)
    requires
        0 <= i < p1.len(),
        0 <= i < p2.len(),
        p1[i] != p2[i],
    ensures
        p1 + s1 != p2 + s2,
{
    assert((p1 + s1)[i] == p1[i]);
    assert((p2 + s2)[i] == p2[i]);
    lemma_ne_by_index(p1 + s1, p2 + s2, i);
}

proof fn lemma_lit_vs_prefixed(l: Seq<char>, p: Seq<char>, s: Seq<char>, i: int)
    requires
        0 <= i < l.len(),
        0 <= i < p.len(),
        l[i] != p[i],
    ensures
        l != p + s,
{
    assert((p + s)[i] == p[i]);
    lemma_ne_by_index(l, p + s, i);
}

proof fn lemma_append_inj(p: Seq<char>, a: Seq<char>, b: Seq<char>)
    requires
        p + a == p + b,
    ensures
        a == b,
{
    assert(a =~= (p + a).subrange(p.len() as int, (p + a).len() as int));
    assert(b =~= (p + b).subrange(p.len() as int, (p + b).len() as int));
}

/// The element at `k` of the layer's first `n` records is the node of
/// some fresh record.
pub open spec fn vhost_layer_elem_ok(f: InfraFactsV, n: int, k: int) -> bool {
    exists|q: int| 0 <= q < n && vhost_fresh(f, q) && vhost_nodes_upto(f, n)[k] == #[trigger] vhost_node(f.vhosts[q])
}

proof fn lemma_vhost_layer(f: InfraFactsV, n: int)
    requires
        0 <= n <= f.vhosts.len(),
    ensures
        forall|k: int| 0 <= k < vhost_nodes_upto(f, n).len() ==> #[trigger] vhost_layer_elem_ok(f, n, k),
        forall|k1: int, k2: int|
            0 <= k1 < k2 < vhost_nodes_upto(f, n).len() ==> (#[trigger] vhost_nodes_upto(f, n)[k1]).id != (#[trigger] vhost_nodes_upto(f, n)[k2]).id,
    decreases n,
{
    if n > 0 {
        lemma_vhost_layer(f, n - 1);
        let a = vhost_nodes_upto(f, n - 1);
        if !vhost_fresh(f, n - 1) {
            assert(vhost_nodes_upto(f, n) =~= a);
        }
        assert forall|k: int| 0 <= k < vhost_nodes_upto(f, n).len() implies #[trigger] vhost_layer_elem_ok(f, n, k) by {
            if k < a.len() {
                assert(vhost_nodes_upto(f, n)[k] == a[k]);
                assert(vhost_layer_elem_ok(f, n - 1, k));
                let q = choose|q: int|
                    0 <= q < n - 1 && vhost_fresh(f, q) && vhost_nodes_upto(f, n - 1)[k] == #[trigger] vhost_node(f.vhosts[q]);
                assert(0 <= q < n && vhost_fresh(f, q) && vhost_nodes_upto(f, n)[k] == vhost_node(f.vhosts[q]));
            } else {
                assert(vhost_fresh(f, n - 1));
                assert(vhost_nodes_upto(f, n)[k] == vhost_node(f.vhosts[n - 1]));
            }
        }
        assert forall|k1: int, k2: int|
            0 <= k1 < k2 < vhost_nodes_upto(f, n).len() implies (#[trigger] vhost_nodes_upto(f, n)[k1]).id != (#[trigger] vhost_nodes_upto(f, n)[k2]).id by {
            if k2 < a.len() {
                assert(vhost_nodes_upto(f, n)[k1] == a[k1]);
                assert(vhost_nodes_upto(f, n)[k2] == a[k2]);
            } else {
                assert(vhost_fresh(f, n - 1));
                assert(vhost_nodes_upto(f, n)[k2] == vhost_node(f.vhosts[n - 1]));
                assert(vhost_nodes_upto(f, n)[k1] == a[k1]);
                assert(vhost_layer_elem_ok(f, n - 1, k1));
                let q = choose|q: int|
                    0 <= q < n - 1 && vhost_fresh(f, q) && vhost_nodes_upto(f, n - 1)[k1] == #[trigger] vhost_node(f.vhosts[q]);
                if vhost_nodes_upto(f, n)[k1].id == vhost_nodes_upto(f, n)[k2].id {
                    lemma_append_inj("vhost:"@, f.vhosts[q].name, f.vhosts[n - 1].name);
                    assert(false);
                }
            }
        }
    }
}
/// The element at `k` of the layer's first `n` records is the node of
/// some fresh record.
pub open spec fn container_layer_elem_ok(f: InfraFactsV, n: int, k: int) -> bool {
    exists|q: int| 0 <= q < n && container_fresh(f, q) && container_nodes_upto(f, n)[k] == #[trigger] container_node(f.containers[q])
}

proof fn lemma_container_layer(f: InfraFactsV, n: int)
    requires
        0 <= n <= f.containers.len(),
    ensures
        forall|k: int| 0 <= k < container_nodes_upto(f, n).len() ==> #[trigger] container_layer_elem_ok(f, n, k),
        forall|k1: int, k2: int|
            0 <= k1 < k2 < container_nodes_upto(f, n).len() ==> (#[trigger] container_nodes_upto(f, n)[k1]).id != (#[trigger] container_nodes_upto(f, n)[k2]).id,
    decreases n,
{
    if n > 0 {
        lemma_container_layer(f, n - 1);
        let a = container_nodes_upto(f, n - 1);
        if !container_fresh(f, n - 1) {
            assert(container_nodes_upto(f, n) =~= a);
        }
        assert forall|k: int| 0 <= k < container_nodes_upto(f, n).len() implies #[trigger] container_layer_elem_ok(f, n, k) by {
            if k < a.len() {
                assert(container_nodes_upto(f, n)[k] == a[k]);
                assert(container_layer_elem_ok(f, n - 1, k));
                let q = choose|q: int|
                    0 <= q < n - 1 && container_fresh(f, q) && container_nodes_upto(f, n - 1)[k] == #[trigger] container_node(f.containers[q]);
                assert(0 <= q < n && container_fresh(f, q) && container_nodes_upto(f, n)[k] == container_node(f.containers[q]));
            } else {
                assert(container_fresh(f, n - 1));
                assert(container_nodes_upto(f, n)[k] == container_node(f.containers[n - 1]));
            }
        }
        assert forall|k1: int, k2: int|
            0 <= k1 < k2 < container_nodes_upto(f, n).len() implies (#[trigger] container_nodes_upto(f, n)[k1]).id != (#[trigger] container_nodes_upto(f, n)[k2]).id by {
            if k2 < a.len() {
                assert(container_nodes_upto(f, n)[k1] == a[k1]);
                assert(container_nodes_upto(f, n)[k2] == a[k2]);
            } else {
                assert(container_fresh(f, n - 1));
                assert(container_nodes_upto(f, n)[k2] == container_node(f.containers[n - 1]));
                assert(container_nodes_upto(f, n)[k1] == a[k1]);
                assert(container_layer_elem_ok(f, n - 1, k1));
                let q = choose|q: int|
                    0 <= q < n - 1 && container_fresh(f, q) && container_nodes_upto(f, n - 1)[k1] == #[trigger] container_node(f.containers[q]);
                if container_nodes_upto(f, n)[k1].id == container_nodes_upto(f, n)[k2].id {
                    lemma_append_inj("container:"@, f.containers[q].name, f.containers[n - 1].name);
                    assert(false);
                }
            }
        }
    }
}
/// The element at `k` of the layer's first `n` records is the node of
/// some fresh record.
pub open spec fn network_layer_elem_ok(f: InfraFactsV, n: int, k: int) -> bool {
    exists|q: int| 0 <= q < n && network_fresh(f, q) && network_nodes_upto(f, n)[k] == #[trigger] network_node(f.networks[q])
}

proof fn lemma_network_layer(f: InfraFactsV, n: int)
    requires
        0 <= n <= f.networks.len(),
    ensures
        forall|k: int| 0 <= k < network_nodes_upto(f, n).len() ==> #[trigger] network_layer_elem_ok(f, n, k),
        forall|k1: int, k2: int|
            0 <= k1 < k2 < network_nodes_upto(f, n).len() ==> (#[trigger] network_nodes_upto(f, n)[k1]).id != (#[trigger] network_nodes_upto(f, n)[k2]).id,
    decreases n,
{
    if n > 0 {
        lemma_network_layer(f, n - 1);
        let a = network_nodes_upto(f, n - 1);
        if !network_fresh(f, n - 1) {
            assert(network_nodes_upto(f, n) =~= a);
        }
        assert forall|k: int| 0 <= k < network_nodes_upto(f, n).len() implies #[trigger] network_layer_elem_ok(f, n, k) by {
            if k < a.len() {
                assert(network_nodes_upto(f, n)[k] == a[k]);
                assert(network_layer_elem_ok(f, n - 1, k));
                let q = choose|q: int|
                    0 <= q < n - 1 && network_fresh(f, q) && network_nodes_upto(f, n - 1)[k] == #[trigger] network_node(f.networks[q]);
                assert(0 <= q < n && network_fresh(f, q) && network_nodes_upto(f, n)[k] == network_node(f.networks[q]));
            } else {
                assert(network_fresh(f, n - 1));
                assert(network_nodes_upto(f, n)[k] == network_node(f.networks[n - 1]));
            }
        }
        assert forall|k1: int, k2: int|
            0 <= k1 < k2 < network_nodes_upto(f, n).len() implies (#[trigger] network_nodes_upto(f, n)[k1]).id != (#[trigger] network_nodes_upto(f, n)[k2]).id by {
            if k2 < a.len() {
                assert(network_nodes_upto(f, n)[k1] == a[k1]);
                assert(network_nodes_upto(f, n)[k2] == a[k2]);
            } else {
                assert(network_fresh(f, n - 1));
                assert(network_nodes_upto(f, n)[k2] == network_node(f.networks[n - 1]));
                assert(network_nodes_upto(f, n)[k1] == a[k1]);
                assert(network_layer_elem_ok(f, n - 1, k1));
                let q = choose|q: int|
                    0 <= q < n - 1 && network_fresh(f, q) && network_nodes_upto(f, n - 1)[k1] == #[trigger] network_node(f.networks[q]);
                if network_nodes_upto(f, n)[k1].id == network_nodes_upto(f, n)[k2].id {
                    lemma_append_inj("network:"@, f.networks[q].name, f.networks[n - 1].name);
                    assert(false);
                }
            }
        }
    }
}
/// The element at `k` of the layer's first `n` records is the node of
/// some fresh record.
pub open spec fn hostport_layer_elem_ok(ms: Seq<PortMappingV>, n: int, k: int) -> bool {
    exists|q: int| 0 <= q < n && mapping_fresh(ms, q) && hostport_nodes_from(ms, n)[k] == #[trigger] hostport_node(ms[q])
}

proof fn lemma_hostport_layer(ms: Seq<PortMappingV>, n: int)
    requires
        0 <= n <= ms.len(),
    ensures
        forall|k: int| 0 <= k < hostport_nodes_from(ms, n).len() ==> #[trigger] hostport_layer_elem_ok(ms, n, k),
        forall|k1: int, k2: int|
            0 <= k1 < k2 < hostport_nodes_from(ms, n).len() ==> (#[trigger] hostport_nodes_from(ms, n)[k1]).id != (#[trigger] hostport_nodes_from(ms, n)[k2]).id,
    decreases n,
{
    if n > 0 {
        lemma_hostport_layer(ms, n - 1);
        let a = hostport_nodes_from(ms, n - 1);
        if !mapping_fresh(ms, n - 1) {
            assert(hostport_nodes_from(ms, n) =~= a);
        }
        assert forall|k: int| 0 <= k < hostport_nodes_from(ms, n).len() implies #[trigger] hostport_layer_elem_ok(ms, n, k) by {
            if k < a.len() {
                assert(hostport_nodes_from(ms, n)[k] == a[k]);
                assert(hostport_layer_elem_ok(ms, n - 1, k));
                let q = choose|q: int|
                    0 <= q < n - 1 && mapping_fresh(ms, q) && hostport_nodes_from(ms, n - 1)[k] == #[trigger] hostport_node(ms[q]);
                assert(0 <= q < n && mapping_fresh(ms, q) && hostport_nodes_from(ms, n)[k] == hostport_node(ms[q]));
            } else {
                assert(mapping_fresh(ms, n - 1));
                assert(hostport_nodes_from(ms, n)[k] == hostport_node(ms[n - 1]));
            }
        }
        assert forall|k1: int, k2: int|
            0 <= k1 < k2 < hostport_nodes_from(ms, n).len() implies (#[trigger] hostport_nodes_from(ms, n)[k1]).id != (#[trigger] hostport_nodes_from(ms, n)[k2]).id by {
            if k2 < a.len() {
                assert(hostport_nodes_from(ms, n)[k1] == a[k1]);
                assert(hostport_nodes_from(ms, n)[k2] == a[k2]);
            } else {
                assert(mapping_fresh(ms, n - 1));
                assert(hostport_nodes_from(ms, n)[k2] == hostport_node(ms[n - 1]));
                assert(hostport_nodes_from(ms, n)[k1] == a[k1]);
                assert(hostport_layer_elem_ok(ms, n - 1, k1));
                let q = choose|q: int|
                    0 <= q < n - 1 && mapping_fresh(ms, q) && hostport_nodes_from(ms, n - 1)[k1] == #[trigger] hostport_node(ms[q]);
                if hostport_nodes_from(ms, n)[k1].id == hostport_nodes_from(ms, n)[k2].id {
                    lemma_append_inj("hostport:"@, ms[q].host_port, ms[n - 1].host_port);
                    assert(false);
                }
            }
        }
    }
}
proof fn lemma_all_nodes_split(f: InfraFactsV)
    ensures
        all_nodes(f).len() == 3 + vhost_nodes(f).len() + container_nodes(f).len() + network_nodes(
            f,
        ).len() + hostport_nodes(f).len(),
        forall|x: int| 0 <= x < 3 ==> #[trigger] all_nodes(f)[x] == base_nodes(f)[x],
        forall|x: int|
            3 <= x < 3 + vhost_nodes(f).len() ==> #[trigger] all_nodes(f)[x] == vhost_nodes(f)[x
                - 3],
        forall|x: int|
            3 + vhost_nodes(f).len() <= x < 3 + vhost_nodes(f).len() + container_nodes(f).len()
                ==> #[trigger] all_nodes(f)[x] == container_nodes(f)[x - 3 - vhost_nodes(f).len()],
        forall|x: int|
            3 + vhost_nodes(f).len() + container_nodes(f).len() <= x < 3 + vhost_nodes(f).len()
                + container_nodes(f).len() + network_nodes(f).len() ==> #[trigger] all_nodes(f)[x]
                == network_nodes(f)[x - 3 - vhost_nodes(f).len() - container_nodes(f).len()],
        forall|x: int|
            3 + vhost_nodes(f).len() + container_nodes(f).len() + network_nodes(f).len() <= x
                < all_nodes(f).len() ==> #[trigger] all_nodes(f)[x] == hostport_nodes(f)[x - 3
                - vhost_nodes(f).len() - container_nodes(f).len() - network_nodes(f).len()],
{
    let b = base_nodes(f);
    let vh = vhost_nodes(f);
    let ct = container_nodes(f);
    let nw = network_nodes(f);
    let hp = hostport_nodes(f);
    let a2 = b + vh;
    let a3 = a2 + ct;
    let a4 = a3 + nw;
    assert forall|x: int| 0 <= x < all_nodes(f).len() implies #[trigger] all_nodes(f)[x] == (if x
        < a4.len() {
        a4[x]
    } else {
        hp[x - a4.len()]
    }) by {}
    assert forall|x: int| 0 <= x < a4.len() implies #[trigger] a4[x] == (if x < a3.len() {
        a3[x]
    } else {
        nw[x - a3.len()]
    }) by {}
    assert forall|x: int| 0 <= x < a3.len() implies #[trigger] a3[x] == (if x < a2.len() {
        a2[x]
    } else {
        ct[x - a2.len()]
    }) by {}
    assert forall|x: int| 0 <= x < a2.len() implies #[trigger] a2[x] == (if x < 3 {
        b[x]
    } else {
        vh[x - 3]
    }) by {}
}

/// Law: node identifiers are unique in every generated graph.  Each keyed
/// layer emits one node per distinct natural key, and the fixed
/// `<type-prefix>:<key>` scheme keeps the layers' key spaces apart, so no
/// hypothesis on the collected records is needed.
pub proof fn lemma_node_ids_unique(f: InfraFactsV)
    requires
        facts_wf(f),
    ensures
        unique_node_ids(spec_assemble(f).nodes),
{
    reveal_strlit("internet");
    reveal_strlit("nginx");
    reveal_strlit("host_network");
    reveal_strlit("vhost:");
    reveal_strlit("container:");
    reveal_strlit("network:");
    reveal_strlit("hostport:");
    let ms = all_mappings(f);
    lemma_vhost_layer(f, f.vhosts.len() as int);
    lemma_container_layer(f, f.containers.len() as int);
    lemma_network_layer(f, f.networks.len() as int);
    lemma_hostport_layer(ms, ms.len() as int);
    lemma_all_nodes_split(f);
    let ns = all_nodes(f);
    let vh = vhost_nodes(f);
    let ct = container_nodes(f);
    let nw = network_nodes(f);
    let hp = hostport_nodes(f);
    let b1 = 3 + vh.len() as int;
    let b2 = b1 + ct.len() as int;
    let b3 = b2 + nw.len() as int;
    assert forall|i: int, j: int|
        0 <= i < j < ns.len() implies (#[trigger] ns[i]).id != (#[trigger] ns[j]).id by {
        if j < 3 {
            if i == 0 && j == 1 {
                lemma_ne_by_index(internet_id(), nginx_id(), 0);
            } else if i == 0 && j == 2 {
                lemma_ne_by_index(internet_id(), host_network_id(), 0);
            } else {
                lemma_ne_by_index(nginx_id(), host_network_id(), 0);
            }
        } else if i < 3 && j < b1 {
            assert(vhost_layer_elem_ok(f, f.vhosts.len() as int, j - 3));
            let q2 = choose|q: int|
                0 <= q < f.vhosts.len() && vhost_fresh(f, q) && vh[j - 3] == #[trigger] vhost_node(f.vhosts[q]);
            if i == 0 {
                lemma_lit_vs_prefixed(internet_id(), "vhost:"@, f.vhosts[q2].name, 0);
            } else if i == 1 {
                lemma_lit_vs_prefixed(nginx_id(), "vhost:"@, f.vhosts[q2].name, 0);
            } else {
                lemma_lit_vs_prefixed(host_network_id(), "vhost:"@, f.vhosts[q2].name, 0);
            }
        } else if i < 3 && j < b2 {
            assert(container_layer_elem_ok(f, f.containers.len() as int, j - b1));
            let q2 = choose|q: int|
                0 <= q < f.containers.len() && container_fresh(f, q) && ct[j - b1] == #[trigger] container_node(f.containers[q]);
            if i == 0 {
                lemma_lit_vs_prefixed(internet_id(), "container:"@, f.containers[q2].name, 0);
            } else if i == 1 {
                lemma_lit_vs_prefixed(nginx_id(), "container:"@, f.containers[q2].name, 0);
            } else {
                lemma_lit_vs_prefixed(host_network_id(), "container:"@, f.containers[q2].name, 0);
            }
        } else if i < 3 && j < b3 {
            assert(network_layer_elem_ok(f, f.networks.len() as int, j - b2));
            let q2 = choose|q: int|
                0 <= q < f.networks.len() && network_fresh(f, q) && nw[j - b2] == #[trigger] network_node(f.networks[q]);
            if i == 0 {
                lemma_lit_vs_prefixed(internet_id(), "network:"@, f.networks[q2].name, 0);
            } else if i == 1 {
                lemma_lit_vs_prefixed(nginx_id(), "network:"@, f.networks[q2].name, 1);
            } else {
                lemma_lit_vs_prefixed(host_network_id(), "network:"@, f.networks[q2].name, 0);
            }
        } else if i < 3 {
            assert(hostport_layer_elem_ok(ms, ms.len() as int, j - b3));
            let q2 = choose|q: int|
                0 <= q < ms.len() && mapping_fresh(ms, q) && hp[j - b3] == #[trigger] hostport_node(ms[q]);
            if i == 0 {
                lemma_lit_vs_prefixed(internet_id(), "hostport:"@, ms[q2].host_port, 0);
            } else if i == 1 {
                lemma_lit_vs_prefixed(nginx_id(), "hostport:"@, ms[q2].host_port, 0);
            } else {
                lemma_lit_vs_prefixed(host_network_id(), "hostport:"@, ms[q2].host_port, 4);
            }
        } else if i < b1 && j < b1 {
            assert(ns[i] == vh[i - 3]);
            assert(ns[j] == vh[j - 3]);
        } else if i < b1 && j < b2 {
            assert(vhost_layer_elem_ok(f, f.vhosts.len() as int, i - 3));
            let q1 = choose|q: int|
                0 <= q < f.vhosts.len() && vhost_fresh(f, q) && vh[i - 3] == #[trigger] vhost_node(f.vhosts[q]);
            assert(container_layer_elem_ok(f, f.containers.len() as int, j - b1));
            let q2 = choose|q: int|
                0 <= q < f.containers.len() && container_fresh(f, q) && ct[j - b1] == #[trigger] container_node(f.containers[q]);
            lemma_prefixed_ne(
                "vhost:"@,
                f.vhosts[q1].name,
                "container:"@,
                f.containers[q2].name,
                0,
            );
        } else if i < b1 && j < b3 {
            assert(vhost_layer_elem_ok(f, f.vhosts.len() as int, i - 3));
            let q1 = choose|q: int|
                0 <= q < f.vhosts.len() && vhost_fresh(f, q) && vh[i - 3] == #[trigger] vhost_node(f.vhosts[q]);
            assert(network_layer_elem_ok(f, f.networks.len() as int, j - b2));
            let q2 = choose|q: int|
                0 <= q < f.networks.len() && network_fresh(f, q) && nw[j - b2] == #[trigger] network_node(f.networks[q]);
            lemma_prefixed_ne("vhost:"@, f.vhosts[q1].name, "network:"@, f.networks[q2].name, 0);
        } else if i < b1 {
            assert(vhost_layer_elem_ok(f, f.vhosts.len() as int, i - 3));
            let q1 = choose|q: int|
                0 <= q < f.vhosts.len() && vhost_fresh(f, q) && vh[i - 3] == #[trigger] vhost_node(f.vhosts[q]);
            assert(hostport_layer_elem_ok(ms, ms.len() as int, j - b3));
            let q2 = choose|q: int|
                0 <= q < ms.len() && mapping_fresh(ms, q) && hp[j - b3] == #[trigger] hostport_node(ms[q]);
            lemma_prefixed_ne("vhost:"@, f.vhosts[q1].name, "hostport:"@, ms[q2].host_port, 0);
        } else if i < b2 && j < b2 {
            assert(ns[i] == ct[i - b1]);
            assert(ns[j] == ct[j - b1]);
        } else if i < b2 && j < b3 {
            assert(container_layer_elem_ok(f, f.containers.len() as int, i - b1));
            let q1 = choose|q: int|
                0 <= q < f.containers.len() && container_fresh(f, q) && ct[i - b1] == #[trigger] container_node(f.containers[q]);
            assert(network_layer_elem_ok(f, f.networks.len() as int, j - b2));
            let q2 = choose|q: int|
                0 <= q < f.networks.len() && network_fresh(f, q) && nw[j - b2] == #[trigger] network_node(f.networks[q]);
            lemma_prefixed_ne(
                "container:"@,
                f.containers[q1].name,
                "network:"@,
                f.networks[q2].name,
                0,
            );
        } else if i < b2 {
            assert(container_layer_elem_ok(f, f.containers.len() as int, i - b1));
            let q1 = choose|q: int|
                0 <= q < f.containers.len() && container_fresh(f, q) && ct[i - b1] == #[trigger] container_node(f.containers[q]);
            assert(hostport_layer_elem_ok(ms, ms.len() as int, j - b3));
            let q2 = choose|q: int|
                0 <= q < ms.len() && mapping_fresh(ms, q) && hp[j - b3] == #[trigger] hostport_node(ms[q]);
            lemma_prefixed_ne(
                "container:"@,
                f.containers[q1].name,
                "hostport:"@,
                ms[q2].host_port,
                0,
            );
        } else if i < b3 && j < b3 {
            assert(ns[i] == nw[i - b2]);
            assert(ns[j] == nw[j - b2]);
        } else if i < b3 {
            assert(network_layer_elem_ok(f, f.networks.len() as int, i - b2));
            let q1 = choose|q: int|
                0 <= q < f.networks.len() && network_fresh(f, q) && nw[i - b2] == #[trigger] network_node(f.networks[q]);
            assert(hostport_layer_elem_ok(ms, ms.len() as int, j - b3));
            let q2 = choose|q: int|
                0 <= q < ms.len() && mapping_fresh(ms, q) && hp[j - b3] == #[trigger] hostport_node(ms[q]);
            lemma_prefixed_ne("network:"@, f.networks[q1].name, "hostport:"@, ms[q2].host_port, 0);
        } else {
            assert(ns[i] == hp[i - b3]);
            assert(ns[j] == hp[j - b3]);
        }
    }
    assert(spec_assemble(f).nodes == ns);
}

// ==================== SUMMARY COUNTS ====================

/// How many nodes of `ns` have kind `t`.
pub open spec fn count_nodes_of_type(ns: Seq<InfraGraphNodeV>, t: InfraGraphNodeType) -> int
    decreases ns.len(),
{
    if ns.len() == 0 {
        0
    } else {
        (if ns[0].node_type == t {
            1int
        } else {
            0int
        }) + count_nodes_of_type(ns.drop_first(), t)
    }
}

proof fn lemma_count_type_concat(
    a: Seq<InfraGraphNodeV>,
    b: Seq<InfraGraphNodeV>,
    t: InfraGraphNodeType,
)
    ensures
        count_nodes_of_type(a + b, t) == count_nodes_of_type(a, t) + count_nodes_of_type(b, t),
    decreases a.len(),
{
    if a.len() == 0 {
        assert(a + b =~= b);
    } else {
        assert((a + b).drop_first() =~= a.drop_first() + b);
        assert((a + b)[0] == a[0]);
        lemma_count_type_concat(a.drop_first(), b, t);
    }
}

proof fn lemma_count_type_uniform(
    ns: Seq<InfraGraphNodeV>,
    t: InfraGraphNodeType,
    t2: InfraGraphNodeType,
)
    requires
        forall|i: int| 0 <= i < ns.len() ==> (#[trigger] ns[i]).node_type == t,
    ensures
        count_nodes_of_type(ns, t2) == if t == t2 {
            ns.len() as int
        } else {
            0
        },
    decreases ns.len(),
{
    if ns.len() > 0 {
        assert forall|i: int| 0 <= i < ns.drop_first().len() implies (#[trigger] ns.drop_first()[i]).node_type
            == t by {
            assert(ns.drop_first()[i] == ns[i + 1]);
        }
        lemma_count_type_uniform(ns.drop_first(), t, t2);
    }
}

proof fn lemma_base_count(f: InfraFactsV, t: InfraGraphNodeType)
    requires
        t != InfraGraphNodeType::Internet,
        t != InfraGraphNodeType::Nginx,
        t != InfraGraphNodeType::HostNetwork,
    ensures
        count_nodes_of_type(base_nodes(f), t) == 0,
{
    let b = base_nodes(f);
    let s2 = seq![crate::graph::nginx_node(f), crate::graph::host_network_node(f)];
    let s1 = seq![crate::graph::host_network_node(f)];
    let s0 = Seq::<InfraGraphNodeV>::empty();
    assert(count_nodes_of_type(s0, t) == 0);
    assert(s1.drop_first() =~= s0);
    assert(count_nodes_of_type(s1, t) == 0);
    assert(s2.drop_first() =~= s1);
    assert(count_nodes_of_type(s2, t) == 0);
    assert(b.drop_first() =~= s2);
    assert(count_nodes_of_type(b, t) == 0);
}

proof fn lemma_layer_counts(f: InfraFactsV, t: InfraGraphNodeType)
    requires
        facts_wf(f),
    ensures
        count_nodes_of_type(all_nodes(f), t) == count_nodes_of_type(base_nodes(f), t) + (if t
            == InfraGraphNodeType::Vhost {
            vhost_nodes(f).len() as int
        } else {
            0
        }) + (if t == InfraGraphNodeType::Container {
            container_nodes(f).len() as int
        } else {
            0
        }) + (if t == InfraGraphNodeType::DockerNetwork {
            network_nodes(f).len() as int
        } else {
            0
        }) + (if t == InfraGraphNodeType::HostPort {
            hostport_nodes(f).len() as int
        } else {
            0
        }),
{
    let b = base_nodes(f);
    let vh = vhost_nodes(f);
    let ct = container_nodes(f);
    let nw = network_nodes(f);
    let hp = hostport_nodes(f);
    let ms = all_mappings(f);
    lemma_vhost_layer(f, f.vhosts.len() as int);
    lemma_container_layer(f, f.containers.len() as int);
    lemma_network_layer(f, f.networks.len() as int);
    lemma_hostport_layer(ms, ms.len() as int);
    lemma_count_type_concat(b, vh, t);
    lemma_count_type_concat(b + vh, ct, t);
    lemma_count_type_concat(b + vh + ct, nw, t);
    lemma_count_type_concat(b + vh + ct + nw, hp, t);
    assert forall|i: int| 0 <= i < vh.len() implies (#[trigger] vh[i]).node_type
        == InfraGraphNodeType::Vhost by {
        assert(vhost_layer_elem_ok(f, f.vhosts.len() as int, i));
        let q = choose|q: int|
            0 <= q < f.vhosts.len() && vhost_fresh(f, q) && vh[i] == #[trigger] vhost_node(f.vhosts[q]);
    }
    assert forall|i: int| 0 <= i < ct.len() implies (#[trigger] ct[i]).node_type
        == InfraGraphNodeType::Container by {
        assert(container_layer_elem_ok(f, f.containers.len() as int, i));
        let q = choose|q: int|
            0 <= q < f.containers.len() && container_fresh(f, q) && ct[i] == #[trigger] container_node(f.containers[q]);
    }
    assert forall|i: int| 0 <= i < nw.len() implies (#[trigger] nw[i]).node_type
        == InfraGraphNodeType::DockerNetwork by {
        assert(network_layer_elem_ok(f, f.networks.len() as int, i));
        let q = choose|q: int|
            0 <= q < f.networks.len() && network_fresh(f, q) && nw[i] == #[trigger] network_node(f.networks[q]);
    }
    assert forall|i: int| 0 <= i < hp.len() implies (#[trigger] hp[i]).node_type
        == InfraGraphNodeType::HostPort by {
        assert(hostport_layer_elem_ok(ms, ms.len() as int, i));
        let q = choose|q: int|
            0 <= q < ms.len() && mapping_fresh(ms, q) && hp[i] == #[trigger] hostport_node(ms[q]);
    }
    lemma_count_type_uniform(vh, InfraGraphNodeType::Vhost, t);
    lemma_count_type_uniform(ct, InfraGraphNodeType::Container, t);
    lemma_count_type_uniform(nw, InfraGraphNodeType::DockerNetwork, t);
    lemma_count_type_uniform(hp, InfraGraphNodeType::HostPort, t);
}

proof fn lemma_vhost_layer_len(f: InfraFactsV, n: int)
    requires
        0 <= n <= f.vhosts.len(),
        forall|i: int| 0 <= i < n ==> vhost_fresh(f, i),
    ensures
        vhost_nodes_upto(f, n).len() == n,
    decreases n,
{
    if n > 0 {
        lemma_vhost_layer_len(f, n - 1);
    }
}

proof fn lemma_container_layer_len(f: InfraFactsV, n: int)
    requires
        0 <= n <= f.containers.len(),
        forall|i: int| 0 <= i < n ==> container_fresh(f, i),
    ensures
        container_nodes_upto(f, n).len() == n,
    decreases n,
{
    if n > 0 {
        lemma_container_layer_len(f, n - 1);
    }
}

proof fn lemma_network_layer_len(f: InfraFactsV, n: int)
    requires
        0 <= n <= f.networks.len(),
        forall|i: int| 0 <= i < n ==> network_fresh(f, i),
    ensures
        network_nodes_upto(f, n).len() == n,
    decreases n,
{
    if n > 0 {
        lemma_network_layer_len(f, n - 1);
    }
}

/// Law: the summary's totals are recomputed from the just-built sets — when
/// each layer's natural keys are pairwise distinct (so that no record is
/// folded into an earlier node), each total equals the number of emitted
/// nodes of that kind.
pub proof fn lemma_summary_counts_nodes(f: InfraFactsV)
    requires
        facts_wf(f),
        forall|i: int| 0 <= i < f.vhosts.len() ==> vhost_fresh(f, i),
        forall|i: int| 0 <= i < f.containers.len() ==> container_fresh(f, i),
        forall|i: int| 0 <= i < f.networks.len() ==> network_fresh(f, i),
    ensures
        spec_assemble(f).summary.total_vhosts == count_nodes_of_type(
            spec_assemble(f).nodes,
            InfraGraphNodeType::Vhost,
        ),
        spec_assemble(f).summary.total_containers == count_nodes_of_type(
            spec_assemble(f).nodes,
            InfraGraphNodeType::Container,
        ),
        spec_assemble(f).summary.total_networks == count_nodes_of_type(
            spec_assemble(f).nodes,
            InfraGraphNodeType::DockerNetwork,
        ),
{
    lemma_layer_counts(f, InfraGraphNodeType::Vhost);
    lemma_layer_counts(f, InfraGraphNodeType::Container);
    lemma_layer_counts(f, InfraGraphNodeType::DockerNetwork);
    lemma_base_count(f, InfraGraphNodeType::Vhost);
    lemma_base_count(f, InfraGraphNodeType::Container);
    lemma_base_count(f, InfraGraphNodeType::DockerNetwork);
    lemma_vhost_layer_len(f, f.vhosts.len() as int);
    lemma_container_layer_len(f, f.containers.len() as int);
    lemma_network_layer_len(f, f.networks.len() as int);
}

// ==================== PROXY EDGES, EXACTLY ====================

/// Some edge of `es` equals `e`.
pub open spec fn edges_contain(es: Seq<InfraGraphEdgeV>, e: InfraGraphEdgeV) -> bool {
    exists|k: int| 0 <= k < es.len() && es[k] == e
}

/// The (container, vhost) record pair draws a `proxies_to` edge: the
/// vhost's backend was recorded, is not the `static` sentinel, and the
/// substring rule matches the container.
pub open spec fn matched_pair(f: InfraFactsV, ci: int, vi: int) -> bool {
    &&& 0 <= ci < f.containers.len()
    &&& 0 <= vi < f.vhosts.len()
    &&& f.proxy_targets[vi] is Some
    &&& f.proxy_targets[vi]->Some_0 != "static"@
    &&& spec_backend_matches(f.proxy_targets[vi]->Some_0, f.containers[ci])
}

/// `e` is the `proxies_to` edge of some matched record pair.
pub open spec fn is_matched_proxy_edge(f: InfraFactsV, e: InfraGraphEdgeV) -> bool {
    exists|ci: int, vi: int|
        matched_pair(f, ci, vi) && e == #[trigger] proxy_edge(
            f.vhosts[vi],
            f.containers[ci],
            f.proxy_targets[vi]->Some_0,
        )
}

proof fn lemma_edges_contain_left(a: Seq<InfraGraphEdgeV>, b: Seq<InfraGraphEdgeV>, e: InfraGraphEdgeV)
    requires
        edges_contain(a, e),
    ensures
        edges_contain(a + b, e),
{
    let k = choose|k: int| 0 <= k < a.len() && a[k] == e;
    assert((a + b)[k] == e);
}

proof fn lemma_edges_contain_right(
    a: Seq<InfraGraphEdgeV>,
    b: Seq<InfraGraphEdgeV>,
    e: InfraGraphEdgeV,
)
    requires
        edges_contain(b, e),
    ensures
        edges_contain(a + b, e),
{
    let k = choose|k: int| 0 <= k < b.len() && b[k] == e;
    assert((a + b)[a.len() + k] == e);
}

proof fn lemma_proxy_pair_char(f: InfraFactsV, ci: int, vi: int)
    requires
        facts_wf(f),
        0 <= ci < f.containers.len(),
        0 <= vi < f.vhosts.len(),
    ensures
        forall|k: int|
            0 <= k < proxy_pair_edges(f, ci, vi).len() ==> is_matched_proxy_edge(
                f,
                #[trigger] proxy_pair_edges(f, ci, vi)[k],
            ),
{
    assert forall|k: int|
        0 <= k < proxy_pair_edges(f, ci, vi).len() implies is_matched_proxy_edge(
        f,
        #[trigger] proxy_pair_edges(f, ci, vi)[k],
    ) by {
        assert(matched_pair(f, ci, vi) && proxy_pair_edges(f, ci, vi)[k] == proxy_edge(
            f.vhosts[vi],
            f.containers[ci],
            f.proxy_targets[vi]->Some_0,
        ));
    }
}

proof fn lemma_proxy_container_char(f: InfraFactsV, ci: int, vn: int)
    requires
        facts_wf(f),
        0 <= ci < f.containers.len(),
        0 <= vn <= f.vhosts.len(),
    ensures
        forall|k: int|
            0 <= k < proxy_edges_for_container_upto(f, ci, vn).len() ==> is_matched_proxy_edge(
                f,
                #[trigger] proxy_edges_for_container_upto(f, ci, vn)[k],
            ),
    decreases vn,
{
    if vn > 0 {
        lemma_proxy_container_char(f, ci, vn - 1);
        lemma_proxy_pair_char(f, ci, vn - 1);
        let a = proxy_edges_for_container_upto(f, ci, vn - 1);
        let b = proxy_pair_edges(f, ci, vn - 1);
        assert forall|k: int|
            0 <= k < proxy_edges_for_container_upto(f, ci, vn).len() implies is_matched_proxy_edge(
            f,
            #[trigger] proxy_edges_for_container_upto(f, ci, vn)[k],
        ) by {
            if k < a.len() {
                assert(proxy_edges_for_container_upto(f, ci, vn)[k] == a[k]);
            } else {
                assert(proxy_edges_for_container_upto(f, ci, vn)[k] == b[k - a.len()]);
            }
        }
    }
}

proof fn lemma_proxy_char(f: InfraFactsV, cn: int)
    requires
        facts_wf(f),
        0 <= cn <= f.containers.len(),
    ensures
        forall|k: int|
            0 <= k < proxy_edges_upto(f, cn).len() ==> is_matched_proxy_edge(
                f,
                #[trigger] proxy_edges_upto(f, cn)[k],
            ),
    decreases cn,
{
    if cn > 0 {
        lemma_proxy_char(f, cn - 1);
        lemma_proxy_container_char(f, cn - 1, f.vhosts.len() as int);
        let a = proxy_edges_upto(f, cn - 1);
        let b = proxy_edges_for_container_upto(f, cn - 1, f.vhosts.len() as int);
        assert forall|k: int|
            0 <= k < proxy_edges_upto(f, cn).len() implies is_matched_proxy_edge(
            f,
            #[trigger] proxy_edges_upto(f, cn)[k],
        ) by {
            if k < a.len() {
                assert(proxy_edges_upto(f, cn)[k] == a[k]);
            } else {
                assert(proxy_edges_upto(f, cn)[k] == b[k - a.len()]);
            }
        }
    }
}

proof fn lemma_connect_edge_types(f: InfraFactsV, ni: int, cn: int)
    requires
        0 <= ni < f.networks.len(),
        0 <= cn <= f.containers.len(),
    ensures
        forall|k: int|
            0 <= k < connect_edges_upto(f, ni, cn).len() ==> (#[trigger] connect_edges_upto(
                f,
                ni,
                cn,
            )[k]).edge_type == "connected_to"@,
    decreases cn,
{
    if cn > 0 {
        lemma_connect_edge_types(f, ni, cn - 1);
        let a = connect_edges_upto(f, ni, cn - 1);
        assert forall|k: int|
            0 <= k < connect_edges_upto(f, ni, cn).len() implies (#[trigger] connect_edges_upto(
            f,
            ni,
            cn,
        )[k]).edge_type == "connected_to"@ by {
            if k < a.len() {
                assert(connect_edges_upto(f, ni, cn)[k] == a[k]);
            }
        }
    }
}

proof fn lemma_network_edge_types(f: InfraFactsV, nn: int)
    requires
        facts_wf(f),
        0 <= nn <= f.networks.len(),
    ensures
        forall|k: int|
            0 <= k < network_edges_upto(f, nn).len() ==> ((#[trigger] network_edges_upto(f, nn)[k]).edge_type == "nat"@ || network_edges_upto(f, nn)[k].edge_type == "connected_to"@),
    decreases nn,
{
    if nn > 0 {
        lemma_network_edge_types(f, nn - 1);
        lemma_connect_edge_types(f, nn - 1, f.containers.len() as int);
        let a = network_edges_upto(f, nn - 1);
        let b = seq![crate::graph::nat_edge(f.networks[nn - 1])] + connect_edges_upto(
            f,
            nn - 1,
            f.containers.len() as int,
        );
        assert forall|k: int|
            0 <= k < network_edges_upto(f, nn).len() implies ((#[trigger] network_edges_upto(
            f,
            nn,
        )[k]).edge_type == "nat"@ || network_edges_upto(f, nn)[k].edge_type == "connected_to"@) by {
            if k < a.len() {
                assert(network_edges_upto(f, nn)[k] == a[k]);
            } else {
                assert(network_edges_upto(f, nn)[k] == b[k - a.len()]);
                if k > a.len() {
                    assert(b[k - a.len()] == connect_edges_upto(
                        f,
                        nn - 1,
                        f.containers.len() as int,
                    )[k - a.len() - 1]);
                }
            }
        }
    }
}

proof fn lemma_port_edges_for_types(f: InfraFactsV, ci: int, jn: int)
    requires
        facts_wf(f),
        0 <= ci < f.containers.len(),
        0 <= jn <= f.container_ports[ci].len(),
    ensures
        forall|k: int|
            0 <= k < port_edges_for(f.containers[ci], f.container_ports[ci], jn).len() ==> ((
            #[trigger] port_edges_for(f.containers[ci], f.container_ports[ci], jn)[k]).edge_type
                == "direct_access"@ || port_edges_for(f.containers[ci], f.container_ports[ci], jn)[k].edge_type == "port_mapping"@),
    decreases jn,
{
    if jn > 0 {
        lemma_port_edges_for_types(f, ci, jn - 1);
        let a = port_edges_for(f.containers[ci], f.container_ports[ci], jn - 1);
        assert forall|k: int|
            0 <= k < port_edges_for(f.containers[ci], f.container_ports[ci], jn).len() implies ((
        #[trigger] port_edges_for(f.containers[ci], f.container_ports[ci], jn)[k]).edge_type
            == "direct_access"@ || port_edges_for(f.containers[ci], f.container_ports[ci], jn)[
        k].edge_type == "port_mapping"@) by {
            if k < a.len() {
                assert(port_edges_for(f.containers[ci], f.container_ports[ci], jn)[k] == a[k]);
            }
        }
    }
}

proof fn lemma_port_edge_types(f: InfraFactsV, cn: int)
    requires
        facts_wf(f),
        0 <= cn <= f.containers.len(),
    ensures
        forall|k: int|
            0 <= k < port_edges_upto(f, cn).len() ==> ((#[trigger] port_edges_upto(f, cn)[k]).edge_type == "direct_access"@ || port_edges_upto(f, cn)[k].edge_type
                == "port_mapping"@),
    decreases cn,
{
    if cn > 0 {
        lemma_port_edge_types(f, cn - 1);
        lemma_port_edges_for_types(f, cn - 1, f.container_ports[cn - 1].len() as int);
        let a = port_edges_upto(f, cn - 1);
        let b = port_edges_for(
            f.containers[cn - 1],
            f.container_ports[cn - 1],
            f.container_ports[cn - 1].len() as int,
        );
        assert forall|k: int|
            0 <= k < port_edges_upto(f, cn).len() implies ((#[trigger] port_edges_upto(f, cn)[
        k]).edge_type == "direct_access"@ || port_edges_upto(f, cn)[k].edge_type
            == "port_mapping"@) by {
            if k < a.len() {
                assert(port_edges_upto(f, cn)[k] == a[k]);
            } else {
                assert(port_edges_upto(f, cn)[k] == b[k - a.len()]);
            }
        }
    }
}

proof fn lemma_proxy_edge_emitted_c(f: InfraFactsV, ci: int, vi: int, vn: int)
    requires
        facts_wf(f),
        matched_pair(f, ci, vi),
        vi < vn <= f.vhosts.len(),
    ensures
        edges_contain(
            proxy_edges_for_container_upto(f, ci, vn),
            proxy_edge(f.vhosts[vi], f.containers[ci], f.proxy_targets[vi]->Some_0),
        ),
    decreases vn,
{
    let e = proxy_edge(f.vhosts[vi], f.containers[ci], f.proxy_targets[vi]->Some_0);
    let b = proxy_pair_edges(f, ci, vn - 1);
    if vi == vn - 1 {
        assert(b[0] == e);
        lemma_edges_contain_right(proxy_edges_for_container_upto(f, ci, vn - 1), b, e);
    } else {
        lemma_proxy_edge_emitted_c(f, ci, vi, vn - 1);
        lemma_edges_contain_left(proxy_edges_for_container_upto(f, ci, vn - 1), b, e);
    }
}

proof fn lemma_proxy_edge_emitted(f: InfraFactsV, ci: int, vi: int, cn: int)
    requires
        facts_wf(f),
        matched_pair(f, ci, vi),
        ci < cn <= f.containers.len(),
    ensures
        edges_contain(
            proxy_edges_upto(f, cn),
            proxy_edge(f.vhosts[vi], f.containers[ci], f.proxy_targets[vi]->Some_0),
        ),
    decreases cn,
{
    let e = proxy_edge(f.vhosts[vi], f.containers[ci], f.proxy_targets[vi]->Some_0);
    let b = proxy_edges_for_container_upto(f, cn - 1, f.vhosts.len() as int);
    if ci == cn - 1 {
        lemma_proxy_edge_emitted_c(f, ci, vi, f.vhosts.len() as int);
        lemma_edges_contain_right(proxy_edges_upto(f, cn - 1), b, e);
    } else {
        lemma_proxy_edge_emitted(f, ci, vi, cn - 1);
        lemma_edges_contain_left(proxy_edges_upto(f, cn - 1), b, e);
    }
}

/// Law: the `proxies_to` edges of a generated graph are exactly those of
/// correlation rule one — an edge of that kind exists for a record pair iff
/// the vhost's recorded backend differs from the `static` sentinel and
/// mentions the container's name or short identifier; in particular a
/// vhost with a `static` or unmatched backend draws no such edge.
pub proof fn lemma_proxies_to_exact(f: InfraFactsV)
    requires
        facts_wf(f),
    ensures
        forall|k: int|
            0 <= k < spec_assemble(f).edges.len() && (#[trigger] spec_assemble(f).edges[k]).edge_type == "proxies_to"@ ==> is_matched_proxy_edge(f, spec_assemble(f).edges[k]),
        forall|ci: int, vi: int|
            #[trigger] matched_pair(f, ci, vi) ==> edges_contain(
                spec_assemble(f).edges,
                proxy_edge(f.vhosts[vi], f.containers[ci], f.proxy_targets[vi]->Some_0),
            ),
{
    reveal_strlit("proxies_to");
    reveal_strlit("routes_to");
    reveal_strlit("outbound");
    reveal_strlit("serves");
    reveal_strlit("nat");
    reveal_strlit("connected_to");
    reveal_strlit("direct_access");
    reveal_strlit("port_mapping");
    lemma_proxy_char(f, f.containers.len() as int);
    lemma_network_edge_types(f, f.networks.len() as int);
    lemma_port_edge_types(f, f.containers.len() as int);
    let e1 = base_edges();
    let e2 = serve_edges(f);
    let e3 = proxy_edges_upto(f, f.containers.len() as int);
    let e4 = network_edges_upto(f, f.networks.len() as int);
    let e5 = port_edges_upto(f, f.containers.len() as int);
    assert forall|k: int|
        0 <= k < all_edges(f).len() && (#[trigger] all_edges(f)[k]).edge_type == "proxies_to"@
        implies is_matched_proxy_edge(f, all_edges(f)[k]) by {
        let a2 = e1 + e2;
        let a3 = a2 + e3;
        let a4 = a3 + e4;
        if k < a4.len() {
            assert(all_edges(f)[k] == a4[k]);
            if k < a3.len() {
                assert(a4[k] == a3[k]);
                if k < a2.len() {
                    assert(a3[k] == a2[k]);
                    if k < e1.len() {
                        assert(a2[k] == e1[k]);
                        lemma_ne_by_index("proxies_to"@, "routes_to"@, 0);
                        lemma_ne_by_index("proxies_to"@, "outbound"@, 0);
                    } else {
                        assert(a2[k] == e2[k - e1.len()]);
                        lemma_ne_by_index("proxies_to"@, "serves"@, 0);
                    }
                } else {
                    assert(a3[k] == e3[k - a2.len()]);
                }
            } else {
                assert(a4[k] == e4[k - a3.len()]);
                lemma_ne_by_index("proxies_to"@, "nat"@, 0);
                lemma_ne_by_index("proxies_to"@, "connected_to"@, 0);
            }
        } else {
            assert(all_edges(f)[k] == e5[k - a4.len()]);
            lemma_ne_by_index("proxies_to"@, "direct_access"@, 0);
            lemma_ne_by_index("proxies_to"@, "port_mapping"@, 1);
        }
    }
    assert forall|ci: int, vi: int| #[trigger] matched_pair(f, ci, vi) implies edges_contain(
        all_edges(f),
        proxy_edge(f.vhosts[vi], f.containers[ci], f.proxy_targets[vi]->Some_0),
    ) by {
        let e = proxy_edge(f.vhosts[vi], f.containers[ci], f.proxy_targets[vi]->Some_0);
        lemma_proxy_edge_emitted(f, ci, vi, f.containers.len() as int);
        lemma_edges_contain_right(e1 + e2, e3, e);
        lemma_edges_contain_left((e1 + e2) + e3, e4, e);
        lemma_edges_contain_left(((e1 + e2) + e3) + e4, e5, e);
    }
    assert(spec_assemble(f).edges == all_edges(f));
}

/// Law: assembly is deterministic — two passes over identical record sets
/// yield set-equal nodes and edges and the same summary.
pub proof fn lemma_assembly_deterministic(f1: InfraFactsV, f2: InfraFactsV)
    requires
        f1 == f2,
    ensures
        spec_assemble(f1).nodes.to_set() == spec_assemble(f2).nodes.to_set(),
        spec_assemble(f1).edges.to_set() == spec_assemble(f2).edges.to_set(),
        spec_assemble(f1).summary == spec_assemble(f2).summary,
{
}

} // verus!
