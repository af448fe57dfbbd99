//! Statistics of the regional spatial index.
//!
//! The index is a flat R*-tree: every indexed object is a leaf entry under a
//! single level, so its structure statistics follow from its entry count.
//! Queries filter the players they find by wanted and unwanted lists.

use crate::types::PlayerId;
use vstd::prelude::*;

verus! {

/// Statistics for analyzing R-tree performance.
#[derive(Debug, Clone, Copy, PartialEq, Eq, Structural)]
pub struct SpatialIndexStats {
    pub total_insertions: usize,
    pub total_queries: usize,
    pub total_removals: usize,
    pub total_clears: usize,
    pub total_rebuilds: usize,
    pub last_query_result_count: usize,
    pub current_depth: u8,
    pub leaf_nodes: usize,
    pub internal_nodes: usize,
}

impl Default for SpatialIndexStats {
    /// All counters zero.
    fn default() -> (s: Self)
        ensures
            s == (SpatialIndexStats {
                total_insertions: 0,
                total_queries: 0,
                total_removals: 0,
                total_clears: 0,
                total_rebuilds: 0,
                last_query_result_count: 0,
                current_depth: 0,
                leaf_nodes: 0,
                internal_nodes: 0,
            }),
    {
        SpatialIndexStats {
            total_insertions: 0,
            total_queries: 0,
            total_removals: 0,
            total_clears: 0,
            total_rebuilds: 0,
            last_query_result_count: 0,
            current_depth: 0,
            leaf_nodes: 0,
            internal_nodes: 0,
        }
    }
}

/// Detailed node statistics (approximated for R-tree).
#[derive(Debug, Clone, Copy, PartialEq, Eq, Structural)]
pub struct NodeStats {
    pub total_objects: usize,
    pub max_depth: u8,
    pub leaf_nodes: usize,
    pub internal_nodes: usize,
}

impl Default for NodeStats {
    /// All counts zero.
    fn default() -> (s: Self)
        ensures
            s == (NodeStats { total_objects: 0, max_depth: 0, leaf_nodes: 0, internal_nodes: 0 }),
    {
        NodeStats { total_objects: 0, max_depth: 0, leaf_nodes: 0, internal_nodes: 0 }
    }
}

impl NodeStats {
    /// Structure statistics of an index holding `object_count` objects in a
    /// tree of `tree_size` entries: one leaf per entry, depth 1 for a
    /// non-empty tree, no internal nodes.
    pub fn from_counts(object_count: usize, tree_size: usize) -> (s: Self)
        ensures
            s == (NodeStats {
                total_objects: object_count,
                max_depth: if tree_size > 0 { 1 } else { 0 },
                leaf_nodes: tree_size,
                internal_nodes: 0,
            }),
    {
        NodeStats {
            total_objects: object_count,
            max_depth: if tree_size > 0 { 1 } else { 0 },
            leaf_nodes: tree_size,
            internal_nodes: 0,
        }
    }
}

impl SpatialIndexStats {
    /// The counters with the structure fields taken from `node`.
    pub fn with_structure(&self, node: &NodeStats) -> (s: Self)
        ensures
            s == (SpatialIndexStats {
                current_depth: node.max_depth,
                leaf_nodes: node.leaf_nodes,
                internal_nodes: node.internal_nodes,
                ..*self
            }),
    {
        SpatialIndexStats {
            current_depth: node.max_depth,
            leaf_nodes: node.leaf_nodes,
            internal_nodes: node.internal_nodes,
            ..*self
        }
    }
}

/// Whether a list of players names `player`.
fn lists_player(players: &Vec<PlayerId>, player: PlayerId) -> (b: bool)
    ensures
        b == players@.contains(player),
{
    let mut i: usize = 0;
    while i < players.len()
        invariant
            i <= players@.len(),
            forall|j: int| 0 <= j < i ==> players@[j] != player,
        decreases players@.len() - i,
    {
        if players[i] == player {
            return true;
        }
        i = i + 1;
    }
    false
}

/// Whether a player found by a spatial query passes the query's player
/// filters: it is on the wanted list where there is one, and not on the
/// unwanted list where there is one.
pub fn passes_player_filters(player: PlayerId, wanted: &Option<Vec<PlayerId>>, unwanted: &Option<Vec<PlayerId>>) -> (b: bool)
    ensures
        b == ((wanted matches Some(v) ==> v@.contains(player)) && (unwanted matches Some(v) ==> !v@.contains(player))),
{
    let included = match wanted {
        Some(v) => lists_player(v, player),
        None => true,
    };
    let excluded = match unwanted {
        Some(v) => lists_player(v, player),
        None => false,
    };
    included && !excluded
}

} // verus!
