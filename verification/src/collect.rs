//! Collectors: drive the remote command channel, hand each raw output to a
//! fact extractor, and assemble the collected facts into the graph.
//!
//! The channel is an opaque collaborator, so nothing is known about any
//! command's output; each collector states what holds of its result whatever
//! came back.  A failed top-level listing (containers, networks) aborts the
//! pass; every other failure degrades to a default value.

use vstd::prelude::*;
use vstd::string::*;

use crate::extract::{
    extract_backend, parse_containers, parse_network_line, parse_network_members,
    parse_port_mappings, parse_vhost, spec_extract_backend, spec_parse_containers,
    spec_parse_members, spec_parse_network_line, spec_parse_ports, spec_parse_vhost,
};
use crate::graph::{assemble_graph, facts_wf, spec_assemble, InfraFacts, InfraFactsV};
use crate::laws::{edges_closed, lemma_edges_reference_nodes, unique_node_ids};
use crate::text::{str_eq, str_lines, trim_str};
use crate::types::{
    CommandExecutor, DockerContainer, DockerNetwork, DockerNetworkV, InfrastructureGraph,
    NginxVhost, NginxVhostV, PortMapping,
};

verus! {

/// A vhost record that some (name, configuration text, enabled listing)
/// triple parses to.
pub open spec fn is_parsed_vhost(v: NginxVhostV) -> bool {
    exists|nm: Seq<char>, ct: Seq<char>, en: Seq<Seq<char>>| v == spec_parse_vhost(nm, ct, en)
}

/// A network record with its listing fields overridden by what the inspect
/// queries reported.
pub open spec fn network_with_inspect(
    base: DockerNetworkV,
    members: Seq<Seq<char>>,
    subnet: Option<Seq<char>>,
) -> DockerNetworkV {
    DockerNetworkV { containers: members, subnet: subnet, ..base }
}

/// A network record that some listing line parses to, completed by some
/// inspect outputs.
pub open spec fn is_collected_network(n: DockerNetworkV) -> bool {
    exists|l: Seq<char>, mo: Seq<char>, so: Option<Seq<char>>|
        spec_parse_network_line(l) is Some && n == network_with_inspect(
            spec_parse_network_line(l)->Some_0,
            spec_parse_members(mo),
            so,
        )
}

/// Discovers the virtual hosts: lists the available and enabled
/// configuration sets, reads each available entry's configuration
/// (best-effort), and parses its directives.  Every listing failure
/// degrades to an empty listing, so this collector always succeeds; each
/// returned record has a nonempty name and is the parse of some
/// configuration.
pub fn get_vhosts_for_graph<E: CommandExecutor>(client: &E) -> (r: Result<Vec<NginxVhost>, String>)
    ensures
        r is Ok,
        r matches Ok(vs) ==> forall|i: int|
            0 <= i < vs.deep_view().len() ==> (#[trigger] vs.deep_view()[i]).name.len() > 0
                && is_parsed_vhost(vs.deep_view()[i]),
{
    let available = match client.execute_command(
        "ls -1 /etc/nginx/sites-available/ 2>/dev/null | grep -v '^default$'",
    ) {
        Ok(o) => o,
        Err(_) => String::new(),
    };
    let enabled_output = match client.execute_command("ls -1 /etc/nginx/sites-enabled/ 2>/dev/null") {
        Ok(o) => o,
        Err(_) => String::new(),
    };
    let enabled_lines = str_lines(enabled_output.as_str());
    let names = str_lines(available.as_str());
    let mut vhosts: Vec<NginxVhost> = Vec::new();
    let mut i: usize = 0;
    while i < names.len()
        invariant
            i <= names.len(),
            forall|q: int|
                0 <= q < vhosts.deep_view().len() ==> (#[trigger] vhosts.deep_view()[q]).name.len()
                    > 0 && is_parsed_vhost(vhosts.deep_view()[q]),
        decreases names.len() - i,
    {
        proof {
            assert(names.deep_view()[i as int] == names@[i as int]@);
        }
        if !names[i].as_str().is_empty() {
            let cmd = "cat /etc/nginx/sites-available/".to_owned().concat(names[i].as_str());
            let content = match client.execute_command(cmd.as_str()) {
                Ok(o) => o,
                Err(_) => String::new(),
            };
            let v = parse_vhost(names[i].as_str(), content.as_str(), &enabled_lines);
            proof {
                assert(v@.name.len() > 0);
                assert(is_parsed_vhost(v@)) by {
                    assert(v@ == spec_parse_vhost(
                        names@[i as int]@,
                        content@,
                        enabled_lines.deep_view(),
                    ));
                }
            }
            crate::text::push_tracked(&mut vhosts, v);
        }
        i = i + 1;
    }
    Ok(vhosts)
}

/// Discovers the running containers from the formatted process listing.
/// The listing is the basic inventory: its failure is fatal and surfaces as
/// the command's error message.  A success is exactly the parse of the raw
/// listing text.
pub fn get_containers_for_graph<E: CommandExecutor>(client: &E) -> (r: Result<
    Vec<DockerContainer>,
    String,
>)
    ensures
        r matches Ok(cs) ==> exists|o: Seq<char>| cs.deep_view() == spec_parse_containers(o),
{
    let out = match client.execute_command(
        "docker ps --format '{{.ID}}|{{.Names}}|{{.Image}}|{{.State}}' --no-trunc",
    ) {
        Ok(o) => o,
        Err(e) => {
            return Err(e.message);
        },
    };
    let cs = parse_containers(out.as_str());
    proof {
        assert(cs.deep_view() == spec_parse_containers(out@));
    }
    Ok(cs)
}

/// Discovers the container networks: parses the formatted listing (fatal on
/// failure), then completes each network with its member list and primary
/// subnet from two best-effort inspect queries.
pub fn get_docker_networks_for_graph<E: CommandExecutor>(client: &E) -> (r: Result<
    Vec<DockerNetwork>,
    String,
>)
    ensures
        r matches Ok(ns) ==> forall|q: int|
            0 <= q < ns.deep_view().len() ==> is_collected_network(#[trigger] ns.deep_view()[q]),
{
    let out = match client.execute_command(
        "docker network ls --format '{{.ID}}|{{.Name}}|{{.Driver}}|{{.Scope}}'",
    ) {
        Ok(o) => o,
        Err(e) => {
            return Err(e.message);
        },
    };
    let lines = str_lines(out.as_str());
    let mut networks: Vec<DockerNetwork> = Vec::new();
    let mut i: usize = 0;
    while i < lines.len()
        invariant
            i <= lines.len(),
            forall|q: int|
                0 <= q < networks.deep_view().len() ==> is_collected_network(
                    #[trigger] networks.deep_view()[q],
                ),
        decreases lines.len() - i,
    {
        proof {
            assert(lines.deep_view()[i as int] == lines@[i as int]@);
        }
        let ghost lv = lines@[i as int]@;
        match parse_network_line(lines[i].as_str()) {
            Some(base) => {
                let members_cmd = "docker network inspect ".to_owned().concat(base.id.as_str())
                    .concat(" --format '{{range .Containers}}{.Name},{end}'");
                let members_out = match client.execute_command(members_cmd.as_str()) {
                    Ok(o) => o,
                    Err(_) => String::new(),
                };
                let members = parse_network_members(members_out.as_str());
                let subnet_cmd = "docker network inspect ".to_owned().concat(base.id.as_str())
                    .concat(" --format '{{(index .IPAM.Config 0).Subnet}}'");
                let subnet_out = match client.execute_command(subnet_cmd.as_str()) {
                    Ok(o) => o,
                    Err(_) => String::new(),
                };
                let subnet = crate::extract::parse_subnet(subnet_out.as_str());
                let nw = DockerNetwork {
                    id: base.id,
                    name: base.name,
                    driver: base.driver,
                    scope: base.scope,
                    subnet,
                    gateway: None,
                    containers: members,
                };
                proof {
                    assert(is_collected_network(nw@)) by {
                        assert(spec_parse_network_line(lv) is Some);
                        assert(nw@ =~= network_with_inspect(
                            spec_parse_network_line(lv)->Some_0,
                            spec_parse_members(members_out@),
                            nw@.subnet,
                        ));
                    }
                }
                crate::text::push_tracked(&mut networks, nw);
            },
            None => {
            },
        }
        i = i + 1;
    }
    Ok(networks)
}

/// Reads the backend target of one vhost's configuration: the first
/// `proxy_pass` argument, or the `static` sentinel when the configuration
/// has none.  Fails with the command error's message when the configuration
/// cannot be read; a success is the backend of some configuration text.
pub fn extract_proxy_target<E: CommandExecutor>(client: &E, vhost_name: &str) -> (r: Result<
    String,
    String,
>)
    ensures
        r matches Ok(b) ==> exists|ct: Seq<char>| b@ == spec_extract_backend(ct),
{
    let cmd = "cat /etc/nginx/sites-available/".to_owned().concat(vhost_name);
    let content = match client.execute_command(cmd.as_str()) {
        Ok(o) => o,
        Err(e) => {
            return Err(e.message);
        },
    };
    let b = extract_backend(content.as_str());
    proof {
        assert(b@ == spec_extract_backend(content@));
    }
    Ok(b)
}

/// Lists one container's published ports; a failed query yields zero
/// mappings, never an error.  The result is the parse of some port-listing
/// text.
pub fn get_container_ports<E: CommandExecutor>(client: &E, container_name: &str) -> (r: Vec<
    PortMapping,
>)
    ensures
        exists|o: Seq<char>| r.deep_view() == spec_parse_ports(o),
{
    let cmd = "docker port ".to_owned().concat(container_name);
    let output = match client.execute_command(cmd.as_str()) {
        Ok(o) => o,
        Err(_) => String::new(),
    };
    let r = parse_port_mappings(output.as_str());
    proof {
        assert(r.deep_view() == spec_parse_ports(output@));
    }
    r
}

/// Runs one full collection pass: probes the reverse proxy and the host
/// interface, discovers vhosts, containers, networks and port mappings, and
/// assembles the graph.  A failed container or network listing aborts the
/// pass with that error; every returned graph is the assembly of a
/// well-formed fact set, no edge of it dangles, and its node identifiers
/// are unique.
pub fn get_infrastructure_graph<E: CommandExecutor>(client: &E) -> (r: Result<
    InfrastructureGraph,
    String,
>)
    ensures
        r matches Ok(g) ==> exists|fv: InfraFactsV| facts_wf(fv) && g@ == spec_assemble(fv),
        r matches Ok(g) ==> edges_closed(g@),
        r matches Ok(g) ==> unique_node_ids(g@.nodes),
{
    let status_out = match client.execute_command(
        "systemctl is-active nginx 2>/dev/null || echo 'inactive'",
    ) {
        Ok(o) => o,
        Err(_) => "inactive".to_owned(),
    };
    let status_trim = trim_str(status_out.as_str());
    let nginx_running = str_eq(status_trim.as_str(), "active");
    let version_out = match client.execute_command("nginx -v 2>&1 | cut -d'/' -f2") {
        Ok(o) => o,
        Err(_) => String::new(),
    };
    let nginx_version = trim_str(version_out.as_str());
    let interface_out = match client.execute_command(
        "ip route | grep default | awk '{print $5}' | head -1",
    ) {
        Ok(o) => o,
        Err(_) => "eth0".to_owned(),
    };
    let host_interface = trim_str(interface_out.as_str());

    let vhosts = match get_vhosts_for_graph(client) {
        Ok(v) => v,
        Err(e) => {
            return Err(e);
        },
    };
    let mut proxy_targets: Vec<Option<String>> = Vec::new();
    let mut i: usize = 0;
    while i < vhosts.len()
        invariant
            i <= vhosts.len(),
            proxy_targets.len() == i,
        decreases vhosts.len() - i,
    {
        let t = match extract_proxy_target(client, vhosts[i].name.as_str()) {
            Ok(b) => Some(b),
            Err(_) => None,
        };
        proxy_targets.push(t);
        i = i + 1;
    }

    let containers = match get_containers_for_graph(client) {
        Ok(c) => c,
        Err(e) => {
            return Err(e);
        },
    };
    let networks = match get_docker_networks_for_graph(client) {
        Ok(n) => n,
        Err(e) => {
            return Err(e);
        },
    };
    let mut container_ports: Vec<Vec<PortMapping>> = Vec::new();
    let mut ci: usize = 0;
    while ci < containers.len()
        invariant
            ci <= containers.len(),
            container_ports.len() == ci,
        decreases containers.len() - ci,
    {
        let ports = get_container_ports(client, containers[ci].name.as_str());
        container_ports.push(ports);
        ci = ci + 1;
    }

    let facts = InfraFacts {
        nginx_running,
        nginx_version,
        host_interface,
        vhosts,
        proxy_targets,
        containers,
        networks,
        container_ports,
    };
    proof {
        assert(facts@.proxy_targets.len() == facts@.vhosts.len());
        assert(facts@.container_ports.len() == facts@.containers.len());
    }
    let g = assemble_graph(&facts);
    proof {
        assert(facts_wf(facts@) && g@ == spec_assemble(facts@));
        lemma_edges_reference_nodes(facts@);
    }
    Ok(g)
}

} // verus!
