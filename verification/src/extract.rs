//! Fact extractors: pure text-to-record transforms over the output of the
//! host's diagnostic commands.
//!
//! Each executable extractor is specified against a spec function that
//! defines, character for character, which record a given raw output yields;
//! the collectors in [`crate::collect`] feed them whatever the command
//! channel returned.

use vstd::prelude::*;
use vstd::string::*;

use crate::text::{
    contains_seq, contains_str, find_char, first_token, idx_of, is_prefix, push_tracked,
    spec_first_token, spec_lines, spec_split, spec_split2, spec_trim, split_str, split_str2,
    starts_with_str, str_eq, str_lines, strip_trail, strip_trail_str, trim_str,
};
use crate::types::{DockerContainer, DockerContainerV, DockerNetwork, DockerNetworkV, NginxVhost,
    NginxVhostV, PortMapping, PortMappingV};

verus! {

// ==================== DIRECTIVE SCANNING ====================

/// The argument of a single-line directive: everything after the first space
/// of the trimmed line, trimmed again, with trailing statement terminators
/// removed.
pub open spec fn directive_arg(tl: Seq<char>) -> Seq<char> {
    strip_trail(spec_trim(tl.skip(idx_of(tl, ' ') as int)), ';')
}

/// Scans lines for the first one whose trimmed text starts with `kw` and
/// contains a space, and yields that line's directive argument.
pub open spec fn find_directive(ls: Seq<Seq<char>>, kw: Seq<char>) -> Option<Seq<char>>
    decreases ls.len(),
{
    if ls.len() == 0 {
        None
    } else {
        let tl = spec_trim(ls[0]);
        if is_prefix(kw, tl) && idx_of(tl, ' ') < tl.len() {
            Some(directive_arg(tl))
        } else {
            find_directive(ls.drop_first(), kw)
        }
    }
}

/// Finds the first directive line starting with `kw` in `content` and
/// returns its argument.
fn scan_directive(content: &str, kw: &str) -> (r: Option<String>)
    ensures
        match r {
            Some(a) => find_directive(spec_lines(content@), kw@) == Some(a@),
            None => find_directive(spec_lines(content@), kw@) is None,
        },
{
    let lines = str_lines(content);
    let ghost lv = spec_lines(content@);
    let mut i: usize = 0;
    proof {
        assert(lv.skip(0) =~= lv);
    }
    while i < lines.len()
        invariant
            i <= lines.len(),
            lines.deep_view() == lv,
            lv == spec_lines(content@),
            find_directive(lv.skip(i as int), kw@) == find_directive(lv, kw@),
        decreases lines.len() - i,
    {
        proof {
            assert(lv.skip(i as int)[0] == lv[i as int]);
            assert(lv.skip(i as int).drop_first() =~= lv.skip(i as int + 1));
            assert(lines.deep_view()[i as int] == lines@[i as int]@);
        }
        let tl = trim_str(lines[i].as_str());
        if starts_with_str(tl.as_str(), kw) {
            match find_char(tl.as_str(), ' ') {
                Some(p) => {
                    let tln = tl.as_str().unicode_len();
                    let rest = tl.as_str().substring_char(p, tln);
                    let rest_trim = trim_str(rest);
                    let arg = strip_trail_str(rest_trim.as_str(), ';');
                    proof {
                        assert(rest@ =~= tl@.skip(p as int));
                        assert(arg@ == directive_arg(tl@));
                        let ls = lv.skip(i as int);
                        assert(spec_trim(ls[0]) == tl@);
                        assert(find_directive(ls, kw@) == Some(directive_arg(spec_trim(ls[0]))));
                    }
                    return Some(arg);
                },
                None => {
                },
            }
        }
        i = i + 1;
    }
    proof {
        assert(lv.skip(lines.len() as int) =~= Seq::<Seq<char>>::empty());
    }
    None
}

// ==================== VIRTUAL-HOST DIRECTIVES ====================

/// The `server_name` a configuration text declares: the first
/// whitespace-delimited token of the first `server_name` directive, an empty
/// name when the directive has a blank argument, nothing when no such
/// directive line exists.
pub open spec fn spec_extract_server_name(c: Seq<char>) -> Option<Seq<char>> {
    match find_directive(spec_lines(c), "server_name"@) {
        None => None,
        Some(arg) => Some(
            match spec_first_token(arg) {
                Some(t) => t,
                None => Seq::empty(),
            },
        ),
    }
}

/// First `server_name` directive value of a configuration text.
pub fn extract_server_name(content: &str) -> (r: Option<String>)
    ensures
        match r {
            Some(s) => spec_extract_server_name(content@) == Some(s@),
            None => spec_extract_server_name(content@) is None,
        },
{
    match scan_directive(content, "server_name") {
        None => None,
        Some(arg) => match first_token(arg.as_str()) {
            Some(t) => Some(t),
            None => Some(String::new()),
        },
    }
}

/// The `listen` port a configuration text declares: the first token of the
/// first `listen` directive, `80` when the directive has a blank argument,
/// nothing when no such directive line exists.
pub open spec fn spec_extract_listen_port(c: Seq<char>) -> Option<Seq<char>> {
    match find_directive(spec_lines(c), "listen"@) {
        None => None,
        Some(arg) => Some(
            match spec_first_token(arg) {
                Some(t) => t,
                None => "80"@,
            },
        ),
    }
}

/// First `listen` directive value of a configuration text.
pub fn extract_listen_port(content: &str) -> (r: Option<String>)
    ensures
        match r {
            Some(s) => spec_extract_listen_port(content@) == Some(s@),
            None => spec_extract_listen_port(content@) is None,
        },
{
    match scan_directive(content, "listen") {
        None => None,
        Some(arg) => match first_token(arg.as_str()) {
            Some(t) => Some(t),
            None => Some("80".to_owned()),
        },
    }
}

/// The document root a configuration text declares: the whole argument of
/// the first `root` directive.
pub open spec fn spec_extract_root_path(c: Seq<char>) -> Option<Seq<char>> {
    find_directive(spec_lines(c), "root"@)
}

/// First `root` directive value of a configuration text.
pub fn extract_root_path(content: &str) -> (r: Option<String>)
    ensures
        match r {
            Some(s) => spec_extract_root_path(content@) == Some(s@),
            None => spec_extract_root_path(content@) is None,
        },
{
    scan_directive(content, "root")
}

/// The backend target a configuration text proxies to: the whole argument of
/// the first `proxy_pass` directive, or the sentinel `static` when the vhost
/// serves files directly.
pub open spec fn spec_extract_backend(c: Seq<char>) -> Seq<char> {
    match find_directive(spec_lines(c), "proxy_pass"@) {
        None => "static"@,
        Some(arg) => arg,
    }
}

/// Backend target of a vhost configuration text.
pub fn extract_backend(content: &str) -> (r: String)
    ensures
        r@ == spec_extract_backend(content@),
{
    match scan_directive(content, "proxy_pass") {
        None => "static".to_owned(),
        Some(arg) => arg,
    }
}

// ==================== VHOST RECORD ====================

/// The virtual-host record a configuration text yields: directive values
/// with their documented defaults, SSL detected by the literal presence of a
/// certificate directive, enabled iff the name is one of the enabled-listing
/// lines.
pub open spec fn spec_parse_vhost(
    name: Seq<char>,
    c: Seq<char>,
    enabled: Seq<Seq<char>>,
) -> NginxVhostV {
    NginxVhostV {
        name: name,
        enabled: enabled.contains(name),
        server_name: match spec_extract_server_name(c) {
            Some(s) => s,
            None => name,
        },
        listen_port: match spec_extract_listen_port(c) {
            Some(s) => s,
            None => "80"@,
        },
        ssl_enabled: contains_seq(c, "ssl_certificate"@),
        root_path: match spec_extract_root_path(c) {
            Some(s) => s,
            None => Seq::empty(),
        },
    }
}

/// Builds the vhost record for one available configuration entry.
pub fn parse_vhost(name: &str, content: &str, enabled_lines: &Vec<String>) -> (v: NginxVhost)
    ensures
        v@ == spec_parse_vhost(name@, content@, enabled_lines.deep_view()),
{
    let ghost el = enabled_lines.deep_view();
    let mut enabled = false;
    let mut j: usize = 0;
    while j < enabled_lines.len()
        invariant
            j <= enabled_lines.len(),
            el == enabled_lines.deep_view(),
            enabled == exists|k: int| 0 <= k < j && el[k] == name@,
        decreases enabled_lines.len() - j,
    {
        proof {
            assert(el[j as int] == enabled_lines@[j as int]@);
        }
        if str_eq(enabled_lines[j].as_str(), name) {
            enabled = true;
        }
        j = j + 1;
    }
    proof {
        assert(enabled == el.contains(name@));
    }
    let server_name = match extract_server_name(content) {
        Some(s) => s,
        None => name.to_owned(),
    };
    let listen_port = match extract_listen_port(content) {
        Some(s) => s,
        None => "80".to_owned(),
    };
    let root_path = match extract_root_path(content) {
        Some(s) => s,
        None => String::new(),
    };
    let ssl_enabled = contains_str(content, "ssl_certificate");
    let v = NginxVhost {
        name: name.to_owned(),
        enabled,
        server_name,
        listen_port,
        ssl_enabled,
        root_path,
    };
    proof {
        assert(v@ =~= spec_parse_vhost(name@, content@, el));
    }
    v
}

// ==================== CONTAINER LISTING ====================

/// The container record one pipe-delimited listing line yields when it has
/// at least the four expected fields.
pub open spec fn spec_container_of(parts: Seq<Seq<char>>) -> DockerContainerV {
    DockerContainerV {
        id: parts[0],
        name: parts[1],
        image: parts[2],
        status: "running"@,
        state: parts[3],
        memory_usage: 0,
        memory_limit: 0,
        ports: Seq::empty(),
    }
}

/// The container records of a listing, malformed lines silently skipped.
pub open spec fn containers_rec(ls: Seq<Seq<char>>) -> Seq<DockerContainerV>
    decreases ls.len(),
{
    if ls.len() == 0 {
        Seq::empty()
    } else {
        (if spec_split(ls[0], '|').len() >= 4 {
            seq![spec_container_of(spec_split(ls[0], '|'))]
        } else {
            Seq::empty()
        }) + containers_rec(ls.drop_first())
    }
}

pub open spec fn spec_parse_containers(out: Seq<char>) -> Seq<DockerContainerV> {
    containers_rec(spec_lines(out))
}

/// Parses the formatted process listing (`id|name|image|state`, untruncated
/// ids) into container records; lines with fewer than four fields are
/// skipped.
pub fn parse_containers(output: &str) -> (r: Vec<DockerContainer>)
    ensures
        r.deep_view() == spec_parse_containers(output@),
{
    let lines = str_lines(output);
    let ghost lv = spec_lines(output@);
    let mut out: Vec<DockerContainer> = Vec::new();
    let mut i: usize = 0;
    proof {
        assert(lv.skip(0) =~= lv);
        assert(out.deep_view() =~= Seq::<DockerContainerV>::empty());
        assert(out.deep_view() + containers_rec(lv) =~= containers_rec(lv));
    }
    while i < lines.len()
        invariant
            i <= lines.len(),
            lines.deep_view() == lv,
            spec_parse_containers(output@) == out.deep_view() + containers_rec(lv.skip(i as int)),
        decreases lines.len() - i,
    {
        proof {
            assert(lv.skip(i as int)[0] == lv[i as int]);
            assert(lv.skip(i as int).drop_first() =~= lv.skip(i as int + 1));
            assert(lines.deep_view()[i as int] == lines@[i as int]@);
        }
        let parts = split_str(lines[i].as_str(), '|');
        let ghost pv = spec_split(lv[i as int], '|');
        if parts.len() >= 4 {
            proof {
                assert(parts.deep_view()[0] == parts@[0]@);
                assert(parts.deep_view()[1] == parts@[1]@);
                assert(parts.deep_view()[2] == parts@[2]@);
                assert(parts.deep_view()[3] == parts@[3]@);
            }
            let c = DockerContainer {
                id: parts[0].clone(),
                name: parts[1].clone(),
                image: parts[2].clone(),
                status: "running".to_owned(),
                state: parts[3].clone(),
                memory_usage: 0,
                memory_limit: 0,
                ports: Vec::new(),
            };
            let ghost dv0 = out.deep_view();
            proof {
                assert(c.ports.deep_view() =~= Seq::<PortMappingV>::empty());
                assert(c@ =~= spec_container_of(pv));
            }
            push_tracked(&mut out, c);
            proof {
                assert(out.deep_view() + containers_rec(lv.skip(i as int + 1)) =~= dv0 + (seq![
                    spec_container_of(pv),
                ] + containers_rec(lv.skip(i as int + 1))));
            }
        } else {
            proof {
                assert(Seq::<DockerContainerV>::empty() + containers_rec(lv.skip(i as int + 1))
                    =~= containers_rec(lv.skip(i as int + 1)));
            }
        }
        i = i + 1;
    }
    proof {
        assert(lv.skip(lines.len() as int) =~= Seq::<Seq<char>>::empty());
        assert(out.deep_view() + containers_rec(lv.skip(lines.len() as int)) =~= out.deep_view());
    }
    out
}

// ==================== NETWORK LISTING ====================

/// The network record one pipe-delimited listing line yields: at least four
/// fields, and the addressless pseudo-networks `null` and `host` skipped.
/// Members and subnet start empty; the collector fills them from the
/// runtime's inspect queries.
pub open spec fn spec_parse_network_line(l: Seq<char>) -> Option<DockerNetworkV> {
    let parts = spec_split(l, '|');
    if parts.len() >= 4 && parts[1] != "null"@ && parts[1] != "host"@ {
        Some(
            DockerNetworkV {
                id: parts[0],
                name: parts[1],
                driver: parts[2],
                scope: parts[3],
                subnet: None,
                gateway: None,
                containers: Seq::empty(),
            },
        )
    } else {
        None
    }
}

/// Parses one line of the formatted network listing
/// (`id|name|driver|scope`).
pub fn parse_network_line(line: &str) -> (r: Option<DockerNetwork>)
    ensures
        match r {
            Some(n) => spec_parse_network_line(line@) == Some(n@),
            None => spec_parse_network_line(line@) is None,
        },
{
    let parts = split_str(line, '|');
    if parts.len() >= 4 {
        proof {
            assert(parts.deep_view()[0] == parts@[0]@);
            assert(parts.deep_view()[1] == parts@[1]@);
            assert(parts.deep_view()[2] == parts@[2]@);
            assert(parts.deep_view()[3] == parts@[3]@);
        }
        if str_eq(parts[1].as_str(), "null") || str_eq(parts[1].as_str(), "host") {
            return None;
        }
        let n = DockerNetwork {
            id: parts[0].clone(),
            name: parts[1].clone(),
            driver: parts[2].clone(),
            scope: parts[3].clone(),
            subnet: None,
            gateway: None,
            containers: Vec::new(),
        };
        proof {
            assert(n.containers.deep_view() =~= Seq::<Seq<char>>::empty());
            assert(n@ =~= spec_parse_network_line(line@)->Some_0);
        }
        Some(n)
    } else {
        None
    }
}

/// The nonempty pieces of a sequence of pieces, in order.
pub open spec fn nonempty_pieces(ps: Seq<Seq<char>>) -> Seq<Seq<char>>
    decreases ps.len(),
{
    if ps.len() == 0 {
        Seq::empty()
    } else {
        (if ps[0].len() > 0 {
            seq![ps[0]]
        } else {
            Seq::empty()
        }) + nonempty_pieces(ps.drop_first())
    }
}

/// The member names a network inspect query reports: the comma-separated
/// pieces, trailing commas removed, empty pieces dropped.
pub open spec fn spec_parse_members(out: Seq<char>) -> Seq<Seq<char>> {
    nonempty_pieces(spec_split(strip_trail(out, ','), ','))
}

/// Parses the comma-joined member listing of one network.
pub fn parse_network_members(output: &str) -> (r: Vec<String>)
    ensures
        r.deep_view() == spec_parse_members(output@),
{
    let stripped = strip_trail_str(output, ',');
    let parts = split_str(stripped.as_str(), ',');
    let ghost pv = spec_split(strip_trail(output@, ','), ',');
    let mut out: Vec<String> = Vec::new();
    let mut i: usize = 0;
    proof {
        assert(pv.skip(0) =~= pv);
        assert(out.deep_view() =~= Seq::<Seq<char>>::empty());
        assert(out.deep_view() + nonempty_pieces(pv) =~= nonempty_pieces(pv));
    }
    while i < parts.len()
        invariant
            i <= parts.len(),
            parts.deep_view() == pv,
            spec_parse_members(output@) == out.deep_view() + nonempty_pieces(pv.skip(i as int)),
        decreases parts.len() - i,
    {
        proof {
            assert(pv.skip(i as int)[0] == pv[i as int]);
            assert(pv.skip(i as int).drop_first() =~= pv.skip(i as int + 1));
            assert(parts.deep_view()[i as int] == parts@[i as int]@);
        }
        if !parts[i].as_str().is_empty() {
            let ghost dv0 = out.deep_view();
            push_tracked(&mut out, parts[i].clone());
            proof {
                assert(out.deep_view() + nonempty_pieces(pv.skip(i as int + 1)) =~= dv0 + (seq![
                    pv[i as int],
                ] + nonempty_pieces(pv.skip(i as int + 1))));
            }
        } else {
            proof {
                assert(Seq::<Seq<char>>::empty() + nonempty_pieces(pv.skip(i as int + 1))
                    =~= nonempty_pieces(pv.skip(i as int + 1)));
            }
        }
        i = i + 1;
    }
    proof {
        assert(pv.skip(parts.len() as int) =~= Seq::<Seq<char>>::empty());
        assert(out.deep_view() + nonempty_pieces(pv.skip(parts.len() as int)) =~= out.deep_view());
    }
    out
}

/// The primary subnet an inspect query reports: the trimmed output, absent
/// when blank.
pub fn parse_subnet(output: &str) -> (r: Option<String>)
    ensures
        match r {
            Some(s) => spec_trim(output@).len() > 0 && s@ == spec_trim(output@),
            None => spec_trim(output@).len() == 0,
        },
{
    let t = trim_str(output);
    if t.as_str().is_empty() {
        None
    } else {
        Some(t)
    }
}

// ==================== PORT MAPPINGS ====================

/// The port mapping one `containerPort/protocol -> hostBinding` line yields:
/// protocol defaults to `tcp`, the host port is what follows the last colon
/// of the binding, and a line without exactly one `->` separator or with an
/// empty host port yields nothing.
pub open spec fn spec_parse_port_line(l: Seq<char>) -> Option<PortMappingV> {
    let parts = spec_split2(l, '-', '>');
    if parts.len() == 2 {
        let left = spec_trim(parts[0]);
        let right = spec_trim(parts[1]);
        let lp = spec_split(left, '/');
        let rp = spec_split(right, ':');
        let hp = rp[rp.len() - 1];
        if hp.len() > 0 {
            Some(
                PortMappingV {
                    host_ip: "0.0.0.0"@,
                    host_port: hp,
                    container_port: lp[0],
                    protocol: if lp.len() >= 2 {
                        lp[1]
                    } else {
                        "tcp"@
                    },
                },
            )
        } else {
            None
        }
    } else {
        None
    }
}

pub open spec fn ports_rec(ls: Seq<Seq<char>>) -> Seq<PortMappingV>
    decreases ls.len(),
{
    if ls.len() == 0 {
        Seq::empty()
    } else {
        (match spec_parse_port_line(ls[0]) {
            Some(p) => seq![p],
            None => Seq::empty(),
        }) + ports_rec(ls.drop_first())
    }
}

/// The port mappings of one container's port listing.
pub open spec fn spec_parse_ports(out: Seq<char>) -> Seq<PortMappingV> {
    ports_rec(spec_lines(out))
}

/// Parses the output of a per-container port listing; lines that fail to
/// yield a nonempty host port are skipped.
pub fn parse_port_mappings(output: &str) -> (r: Vec<PortMapping>)
    ensures
        r.deep_view() == spec_parse_ports(output@),
{
    let lines = str_lines(output);
    let ghost lv = spec_lines(output@);
    let mut out: Vec<PortMapping> = Vec::new();
    let mut i: usize = 0;
    proof {
        assert(lv.skip(0) =~= lv);
        assert(out.deep_view() =~= Seq::<PortMappingV>::empty());
        assert(out.deep_view() + ports_rec(lv) =~= ports_rec(lv));
    }
    while i < lines.len()
        invariant
            i <= lines.len(),
            lines.deep_view() == lv,
            spec_parse_ports(output@) == out.deep_view() + ports_rec(lv.skip(i as int)),
        decreases lines.len() - i,
    {
        proof {
            assert(lv.skip(i as int)[0] == lv[i as int]);
            assert(lv.skip(i as int).drop_first() =~= lv.skip(i as int + 1));
            assert(lines.deep_view()[i as int] == lines@[i as int]@);
        }
        let parts = split_str2(lines[i].as_str(), '-', '>');
        let ghost sp = spec_parse_port_line(lv[i as int]);
        if parts.len() == 2 {
            proof {
                assert(parts.deep_view()[0] == parts@[0]@);
                assert(parts.deep_view()[1] == parts@[1]@);
            }
            let left = trim_str(parts[0].as_str());
            let right = trim_str(parts[1].as_str());
            let lp = split_str(left.as_str(), '/');
            let rp = split_str(right.as_str(), ':');
            proof {
                assert(lp.deep_view()[0] == lp@[0]@);
                if lp.len() >= 2 {
                    assert(lp.deep_view()[1] == lp@[1]@);
                }
                assert(rp.deep_view()[rp.len() - 1] == rp@[rp.len() - 1]@);
            }
            let hp = rp[rp.len() - 1].clone();
            if !hp.as_str().is_empty() {
                let protocol = if lp.len() >= 2 {
                    lp[1].clone()
                } else {
                    "tcp".to_owned()
                };
                let pm = PortMapping {
                    host_ip: "0.0.0.0".to_owned(),
                    host_port: hp,
                    container_port: lp[0].clone(),
                    protocol,
                };
                let ghost dv0 = out.deep_view();
                proof {
                    assert(pm@ =~= sp->Some_0);
                }
                push_tracked(&mut out, pm);
                proof {
                    assert(out.deep_view() + ports_rec(lv.skip(i as int + 1)) =~= dv0 + (seq![
                        sp->Some_0,
                    ] + ports_rec(lv.skip(i as int + 1))));
                }
            } else {
                proof {
                    assert(sp is None);
                    assert(Seq::<PortMappingV>::empty() + ports_rec(lv.skip(i as int + 1))
                        =~= ports_rec(lv.skip(i as int + 1)));
                }
            }
        } else {
            proof {
                assert(sp is None);
                assert(Seq::<PortMappingV>::empty() + ports_rec(lv.skip(i as int + 1))
                    =~= ports_rec(lv.skip(i as int + 1)));
            }
        }
        i = i + 1;
    }
    proof {
        assert(lv.skip(lines.len() as int) =~= Seq::<Seq<char>>::empty());
        assert(out.deep_view() + ports_rec(lv.skip(lines.len() as int)) =~= out.deep_view());
    }
    out
}

} // verus!
