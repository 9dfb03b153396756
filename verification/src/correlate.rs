//! Correlation rules: pure string-matching predicates that relate records
//! across layers.  Substring and prefix matching is deliberately tolerant of
//! scheme and port decorations in configuration text; it can over- and
//! under-match, which is a documented property of the design, not a defect.

use vstd::prelude::*;
use vstd::string::*;

use crate::text::{contains_seq, contains_str, is_prefix, starts_with_str, str_eq};
use crate::types::{DockerContainer, DockerContainerV, DockerNetwork};

verus! {

/// The display short form of a container identifier: its first twelve
/// characters, or all of a shorter identifier.
pub open spec fn spec_short_id(id: Seq<char>) -> Seq<char> {
    id.take(
        if id.len() < 12 {
            id.len() as int
        } else {
            12
        },
    )
}

/// Short form of a container identifier.
pub fn short_id(id: &str) -> (r: String)
    ensures
        r@ == spec_short_id(id@),
{
    let n = id.unicode_len();
    let end = if n < 12 {
        n
    } else {
        12
    };
    let sub = id.substring_char(0, end);
    sub.to_owned()
}

/// Correlation rule for `proxies_to`: the backend text mentions the
/// container's name or its short identifier.
pub open spec fn spec_backend_matches(backend: Seq<char>, c: DockerContainerV) -> bool {
    contains_seq(backend, c.name) || contains_seq(backend, spec_short_id(c.id))
}

/// Whether a vhost backend target references a container.
pub fn backend_matches(backend: &str, container: &DockerContainer) -> (r: bool)
    ensures
        r == spec_backend_matches(backend@, container@),
{
    if contains_str(backend, container.name.as_str()) {
        return true;
    }
    let sid = short_id(container.id.as_str());
    contains_str(backend, sid.as_str())
}

/// Correlation rule for `connected_to`: the network's member list holds the
/// container's exact name, or a member starts with its short identifier.
pub open spec fn spec_member_matches(members: Seq<Seq<char>>, c: DockerContainerV) -> bool {
    members.contains(c.name) || exists|j: int|
        0 <= j < members.len() && is_prefix(spec_short_id(c.id), #[trigger] members[j])
}

/// Whether a network's reported members include a container.
pub fn member_matches(network: &DockerNetwork, container: &DockerContainer) -> (r: bool)
    ensures
        r == spec_member_matches(network@.containers, container@),
{
    let ghost mv = network.containers.deep_view();
    let sid = short_id(container.id.as_str());
    let mut found = false;
    let mut j: usize = 0;
    while j < network.containers.len()
        invariant
            j <= network.containers.len(),
            mv == network.containers.deep_view(),
            sid@ == spec_short_id(container@.id),
            found == exists|k: int|
                0 <= k < j && (mv[k] == container@.name || is_prefix(sid@, #[trigger] mv[k])),
        decreases network.containers.len() - j,
    {
        proof {
            assert(mv[j as int] == network.containers@[j as int]@);
        }
        let member = &network.containers[j];
        if str_eq(member.as_str(), container.name.as_str()) || starts_with_str(
            member.as_str(),
            sid.as_str(),
        ) {
            found = true;
        }
        j = j + 1;
    }
    proof {
        if found {
            let k = choose|k: int|
                0 <= k < j && (mv[k] == container@.name || is_prefix(sid@, #[trigger] mv[k]));
            if mv[k] == container@.name {
                assert(mv.contains(container@.name));
            }
        } else {
            if mv.contains(container@.name) {
                let k = choose|k: int| 0 <= k < mv.len() && mv[k] == container@.name;
                assert(mv[k] == container@.name || is_prefix(sid@, mv[k]));
            }
        }
    }
    found
}

} // verus!
