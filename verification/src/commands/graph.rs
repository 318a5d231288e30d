//! What the memory graph view is sent besides the rows themselves.

use vstd::prelude::*;

use crate::text::chars_eq;
use crate::text::chars_of;

verus! {

/// Clips shown in the graph when the shell does not say, and the bounds.
pub const DEFAULT_GRAPH_LIMIT: i64 = 100;

pub const MIN_GRAPH_LIMIT: i64 = 1;

pub const MAX_GRAPH_LIMIT: i64 = 200;

/// The requested number of nodes, held between 1 and 200.
pub fn graph_limit(limit: Option<i64>) -> (r: i64)
    ensures
        ({
            let l = match limit {
                Some(l) => l,
                None => DEFAULT_GRAPH_LIMIT,
            };
            r == if l < MIN_GRAPH_LIMIT {
                MIN_GRAPH_LIMIT
            } else if l > MAX_GRAPH_LIMIT {
                MAX_GRAPH_LIMIT
            } else {
                l
            }
        }),
{
    let l = match limit {
        Some(l) => l,
        None => DEFAULT_GRAPH_LIMIT,
    };
    if l < MIN_GRAPH_LIMIT {
        MIN_GRAPH_LIMIT
    } else if l > MAX_GRAPH_LIMIT {
        MAX_GRAPH_LIMIT
    } else {
        l
    }
}

/// `id` is an end of some link.
pub open spec fn is_linked(id: Seq<char>, links: Seq<(Seq<char>, Seq<char>)>) -> bool {
    exists|k: int| 0 <= k < links.len() && (links[k].0 == id || links[k].1 == id)
}

/// How many of the nodes no link touches.
pub open spec fn spec_unconnected(ids: Seq<Seq<char>>, links: Seq<(Seq<char>, Seq<char>)>) -> nat
    decreases ids.len(),
{
    if ids.len() == 0 {
        0
    } else {
        spec_unconnected(ids.drop_last(), links) + if is_linked(ids.last(), links) {
            0nat
        } else {
            1nat
        }
    }
}

pub open spec fn link_views(links: Seq<(String, String)>) -> Seq<(Seq<char>, Seq<char>)> {
    links.map_values(|l: (String, String)| (l.0@, l.1@))
}

fn linked(id: &Vec<char>, links: &Vec<(String, String)>) -> (r: bool)
    ensures
        r == is_linked(id@, link_views(links@)),
{
    let ghost lv = link_views(links@);
    let mut k: usize = 0;
    while k < links.len()
        invariant
            k <= links.len(),
            lv == link_views(links@),
            forall|j: int| 0 <= j < k ==> !(lv[j].0 == id@ || lv[j].1 == id@),
        decreases links.len() - k,
    {
        let a = chars_of(links[k].0.as_str());
        let b = chars_of(links[k].1.as_str());
        if chars_eq(&a, id) || chars_eq(&b, id) {
            assert(lv[k as int].0 == id@ || lv[k as int].1 == id@);
            return true;
        }
        k += 1;
    }
    false
}

/// The nodes that no link touches.
pub fn unconnected_count(node_ids: &Vec<String>, links: &Vec<(String, String)>) -> (r: usize)
    ensures
        r == spec_unconnected(node_ids@.map_values(|s: String| s@), link_views(links@)),
{
    let ghost ids = node_ids@.map_values(|s: String| s@);
    let mut n: usize = 0;
    let mut i: usize = 0;
    while i < node_ids.len()
        invariant
            i <= node_ids.len(),
            ids == node_ids@.map_values(|s: String| s@),
            n == spec_unconnected(ids.take(i as int), link_views(links@)),
            n <= i,
        decreases node_ids.len() - i,
    {
        assert(ids.take(i + 1).drop_last() =~= ids.take(i as int));
        let id = chars_of(node_ids[i].as_str());
        if !linked(&id, links) {
            n += 1;
        }
        i += 1;
    }
    assert(ids.take(i as int) =~= ids);
    n
}

/// `building` while there are no edges yet and clips wait for embedding,
/// `edge_free` when there are none and none wait, `ready` once edges exist.
pub fn graph_state(has_links: bool, pending_count: i64) -> (r: &'static str)
    ensures
        r@ == if !has_links && pending_count > 0 {
            "building"@
        } else if !has_links {
            "edge_free"@
        } else {
            "ready"@
        },
{
    if !has_links && pending_count > 0 {
        "building"
    } else if !has_links {
        "edge_free"
    } else {
        "ready"
    }
}

} // verus!
