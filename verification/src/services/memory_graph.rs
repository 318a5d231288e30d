//! The limits on the memory graph's edges, and how an edge names its ends.

use vstd::prelude::*;

use crate::order::lt;
use crate::order::seq_lt;
use crate::text::chars_of;
use crate::text::string_of;

verus! {

/// Edges one clip may have.
pub const MAX_EDGES_PER_CLIP: i64 = 15;

/// Edges one clip may have to clips of one session.
pub const MAX_EDGES_PER_SESSION: i64 = 5;

/// Both clips have room for another edge.
pub fn clips_have_room(total_a: i64, total_b: i64) -> (r: bool)
    ensures
        r == (total_a < MAX_EDGES_PER_CLIP && total_b < MAX_EDGES_PER_CLIP),
{
    total_a < MAX_EDGES_PER_CLIP && total_b < MAX_EDGES_PER_CLIP
}

/// The first clip has room for another edge into the second one's session.
pub fn session_has_room(same_session: i64) -> (r: bool)
    ensures
        r == (same_session < MAX_EDGES_PER_SESSION),
{
    same_session < MAX_EDGES_PER_SESSION
}

/// An edge's ends in a fixed order: the smaller id first.
pub open spec fn spec_edge_ends(a: Seq<char>, b: Seq<char>) -> (Seq<char>, Seq<char>) {
    if seq_lt(a, b) {
        (a, b)
    } else {
        (b, a)
    }
}

pub fn edge_ends(clip_id: &str, other_id: &str) -> (r: (String, String))
    ensures
        (r.0@, r.1@) == spec_edge_ends(clip_id@, other_id@),
{
    let a = chars_of(clip_id);
    let b = chars_of(other_id);
    if lt(&a, &b) {
        (string_of(&a), string_of(&b))
    } else {
        (string_of(&b), string_of(&a))
    }
}

/// An edge is named the same whichever of its clips found it, smaller id first.
pub proof fn lemma_edge_ends_symmetric(a: Seq<char>, b: Seq<char>)
    ensures
        spec_edge_ends(a, b) == spec_edge_ends(b, a),
        !seq_lt(spec_edge_ends(a, b).1, spec_edge_ends(a, b).0),
{
    crate::order::lemma_lt_total(a, b);
    crate::order::lemma_lt_irreflexive(a);
    if seq_lt(a, b) {
        crate::order::lemma_lt_asymmetric(a, b);
    }
}

} // verus!
