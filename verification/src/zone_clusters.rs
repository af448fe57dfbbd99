//! Clusters of overlapping zones.
//!
//! Zones whose overlap passes the virtualization threshold are gathered into
//! clusters, the candidates for merging into a virtual zone. The overlap test
//! itself is geometry on floating-point positions and radii; the caller
//! tabulates it, and `overlaps[u][v]` says whether zone `v` overlaps zone `u`
//! enough to join a cluster that holds `u`.
//!
//! Zones are taken in index order. An unclustered zone starts a cluster, and
//! the cluster then grows by repeated passes over the zones: each zone not
//! yet taken that overlaps a member joins it, until a pass adds nothing.
//! Clusters of a single zone are dropped (the zone stays taken).

use vstd::prelude::*;
use vstd::set_lib::{lemma_int_range, lemma_len_subset, set_int_range};

verus! {

/// The overlap table as rows of booleans.
pub open spec fn spec_rows(table: Seq<Vec<bool>>) -> Seq<Seq<bool>> {
    table.map_values(|r: Vec<bool>| r@)
}

/// The clusters as sequences of zone indexes.
pub open spec fn spec_cluster_views(clusters: Seq<Vec<usize>>) -> Seq<Seq<usize>> {
    clusters.map_values(|c: Vec<usize>| c@)
}

/// Whether zone `v` is listed in one of the first `k` clusters.
pub open spec fn spec_in_first_clusters(cs: Seq<Seq<usize>>, k: int, v: int) -> bool {
    exists|a: int, p: int| 0 <= a < k && 0 <= p < cs[a].len() && #[trigger] cs[a][p] == v
}

/// Whether the zone at position `p` of a cluster overlaps a zone listed
/// before it.
pub open spec fn spec_joins_earlier(t: Seq<Seq<bool>>, c: Seq<usize>, p: int) -> bool {
    exists|q: int| 0 <= q < p && #[trigger] t[c[q] as int][c[p] as int]
}

/// A cluster lists zones of the table, starts with its smallest zone, and
/// every zone after the first overlaps a zone listed before it.
pub open spec fn spec_grounded(t: Seq<Seq<bool>>, c: Seq<usize>) -> bool {
    &&& c.len() >= 1
    &&& forall|p: int| 0 <= p < c.len() ==> #[trigger] c[p] < t.len()
    &&& forall|p: int| 0 < p < c.len() ==> c[0] < #[trigger] c[p]
    &&& forall|p: int| 0 < p < c.len() ==> #[trigger] spec_joins_earlier(t, c, p)
}

/// Cluster `k` is complete: a zone after its start that a member overlaps is
/// in this cluster or in an earlier one.
pub open spec fn spec_closed(t: Seq<Seq<bool>>, cs: Seq<Seq<usize>>, k: int) -> bool {
    forall|p: int, v: int|
        0 <= p < cs[k].len() && cs[k][0] < v < t.len() && #[trigger] t[cs[k][p] as int][v] ==> cs[k].contains(
            v as usize,
        ) || spec_in_first_clusters(cs, k, v)
}

/// A zone `s` left out of every cluster overlaps no later zone except zones
/// of clusters that started before it.
pub open spec fn spec_settled_alone(t: Seq<Seq<bool>>, cs: Seq<Seq<usize>>, s: int) -> bool {
    forall|v: int|
        s < v < t.len() && #[trigger] t[s][v] ==> exists|a: int, p: int|
            0 <= a < cs.len() && 0 <= p < cs[a].len() && cs[a][0] < s && #[trigger] cs[a][p] == v
}

/// No zone is listed twice, in one cluster or across two.
pub open spec fn spec_disjoint(cs: Seq<Seq<usize>>) -> bool {
    forall|a: int, p: int, b: int, q: int|
        0 <= a < cs.len() && 0 <= p < cs[a].len() && 0 <= b < cs.len() && 0 <= q < cs[b].len() && #[trigger] cs[a][p]
            == #[trigger] cs[b][q] ==> a == b && p == q
}

/// The clusters of overlapping zones of table `t`: each has at least two
/// zones, is grounded and complete, clusters come in order of their first
/// zone, no zone is listed twice, and every zone left out is settled alone.
/// Together these fix the zones of each cluster: it is the set of zones
/// reachable from its first zone by overlaps among the zones not taken by an
/// earlier cluster.
pub open spec fn spec_overlap_clusters(t: Seq<Seq<bool>>, cs: Seq<Seq<usize>>) -> bool {
    &&& forall|k: int| 0 <= k < cs.len() ==> (#[trigger] cs[k]).len() >= 2 && spec_grounded(t, cs[k])
    &&& forall|k: int| 0 <= k < cs.len() ==> #[trigger] spec_closed(t, cs, k)
    &&& forall|a: int, b: int| 0 <= a < b < cs.len() ==> (#[trigger] cs[a])[0] < (#[trigger] cs[b])[0]
    &&& spec_disjoint(cs)
    &&& forall|s: int|
        0 <= s < t.len() && !spec_in_first_clusters(cs, cs.len() as int, s) ==> #[trigger] spec_settled_alone(t, cs, s)
}

/// A list of distinct indexes below `n` that misses the index `j < n` is
/// shorter than `n`.
proof fn lemma_fresh_index_fits(c: Seq<usize>, n: int, j: int)
    requires
        c.no_duplicates(),
        forall|p: int| 0 <= p < c.len() ==> #[trigger] c[p] < n,
        0 <= j < n,
        !c.contains(j as usize),
    ensures
        c.len() < n,
{
    let ci = c.map_values(|x: usize| x as int);
    assert(ci.no_duplicates()) by {
        assert forall|a: int, b: int| 0 <= a < ci.len() && 0 <= b < ci.len() && a != b implies ci[a] != ci[b] by {
            assert(c[a] != c[b]);
        }
    }
    ci.unique_seq_to_set();
    let s = ci.to_set().insert(j);
    lemma_int_range(0, n);
    assert(s.subset_of(set_int_range(0, n))) by {
        assert forall|x: int| s.contains(x) implies set_int_range(0, n).contains(x) by {
            if x != j {
                let p = choose|p: int| 0 <= p < ci.len() && ci[p] == x;
                assert(c[p] < n);
            }
        }
    }
    lemma_len_subset(s, set_int_range(0, n));
    lemma_len_subset(ci.to_set(), s);
    assert(!ci.to_set().contains(j)) by {
        if ci.to_set().contains(j) {
            let p = choose|p: int| 0 <= p < ci.len() && ci[p] == j;
            assert(c[p] == j as usize);
            assert(c.contains(j as usize));
        }
    }
}

/// Appending a later zone that a member overlaps keeps a cluster grounded.
proof fn lemma_push_grounded(t: Seq<Seq<bool>>, before: Seq<usize>, j: usize, q: int)
    requires
        spec_grounded(t, before),
        j < t.len(),
        before[0] < j,
        0 <= q < before.len(),
        t[before[q] as int][j as int],
    ensures
        spec_grounded(t, before.push(j)),
{
    let c = before.push(j);
    assert forall|p: int| 0 <= p < c.len() implies #[trigger] c[p] < t.len() by {
        if p < before.len() {
            assert(c[p] == before[p]);
        }
    }
    assert forall|p: int| 0 < p < c.len() implies c[0] < #[trigger] c[p] by {
        if p < before.len() {
            assert(c[p] == before[p]);
        }
    }
    assert forall|p: int| 0 < p < c.len() implies #[trigger] spec_joins_earlier(t, c, p) by {
        if p < before.len() {
            assert(c[p] == before[p]);
            assert(spec_joins_earlier(t, before, p));
            let r = choose|r: int| 0 <= r < p && #[trigger] t[before[r] as int][before[p] as int];
            assert(c[r] == before[r]);
            assert(t[c[r] as int][c[p] as int]);
        } else {
            assert(c[q] == before[q]);
            assert(c[p] == j);
            assert(t[c[q] as int][c[p] as int]);
        }
    }
}

/// Whether zone `v` is in one of the clusters, or the growing cluster `c`.
spec fn spec_taken(cs: Seq<Seq<usize>>, c: Seq<usize>, i: int, v: int) -> bool {
    v < i || spec_in_first_clusters(cs, cs.len() as int, v) || c.contains(v as usize)
}

/// Gathers the zones of an overlap table into clusters; see the module
/// documentation. The result lists the zones of each cluster of two or more,
/// as [`spec_overlap_clusters`] describes them.
pub fn find_overlapping_clusters(overlaps: &Vec<Vec<bool>>) -> (clusters: Vec<Vec<usize>>)
    requires
        forall|u: int| 0 <= u < overlaps@.len() ==> (#[trigger] overlaps@[u])@.len() == overlaps@.len(),
    ensures
        spec_overlap_clusters(spec_rows(overlaps@), spec_cluster_views(clusters@)),
{
    let ghost t = spec_rows(overlaps@);
    let n = overlaps.len();
    let mut visited: Vec<bool> = Vec::new();
    let mut k: usize = 0;
    while k < n
        invariant
            k <= n,
            visited@.len() == k,
            forall|v: int| 0 <= v < k ==> !visited@[v],
        decreases n - k,
    {
        visited.push(false);
        k = k + 1;
    }
    let mut clusters: Vec<Vec<usize>> = Vec::new();
    let mut i: usize = 0;
    proof {
        assert(spec_cluster_views(clusters@) =~= Seq::<Seq<usize>>::empty());
    }
    while i < n
        invariant
            n == overlaps@.len(),
            t == spec_rows(overlaps@),
            forall|u: int| 0 <= u < n ==> (#[trigger] overlaps@[u])@.len() == n,
            i <= n,
            visited@.len() == n,
            ({
                let cs = spec_cluster_views(clusters@);
                &&& forall|v: int| 0 <= v < n ==> (visited@[v] <==> (v < i || spec_in_first_clusters(cs, cs.len() as int, v)))
                &&& forall|a: int| 0 <= a < cs.len() ==> (#[trigger] cs[a])[0] < i
                &&& forall|a: int| 0 <= a < cs.len() ==> (#[trigger] cs[a]).len() >= 2 && spec_grounded(t, cs[a])
                &&& forall|a: int| 0 <= a < cs.len() ==> #[trigger] spec_closed(t, cs, a)
                &&& forall|a: int, b: int| 0 <= a < b < cs.len() ==> (#[trigger] cs[a])[0] < (#[trigger] cs[b])[0]
                &&& spec_disjoint(cs)
                &&& forall|s: int|
                    0 <= s < i && !spec_in_first_clusters(cs, cs.len() as int, s) ==> #[trigger] spec_settled_alone(t, cs, s)
            }),
        decreases n - i,
    {
        let ghost cs = spec_cluster_views(clusters@);
        if visited[i] {
            i = i + 1;
            proof {
                assert forall|s: int|
                    0 <= s < i && !spec_in_first_clusters(cs, cs.len() as int, s) implies #[trigger] spec_settled_alone(t, cs, s) by {
                    if s == i - 1 {
                        assert(visited@[s]);
                    }
                }
            }
        } else {
            let mut cluster: Vec<usize> = Vec::new();
            cluster.push(i);
            visited.set(i, true);
            let mut changed = true;
            proof {
                assert(!spec_in_first_clusters(cs, cs.len() as int, i as int));
                assert(cluster@ =~= seq![i]);
                assert forall|v: int| 0 <= v < n implies (visited@[v] <==> spec_taken(cs, cluster@, i as int, v)) by {
                    if v != i {
                        assert(!cluster@.contains(v as usize));
                    } else {
                        assert(cluster@[0] == v as usize);
                    }
                }
            }
            while changed
                invariant
                    n == overlaps@.len(),
                    t == spec_rows(overlaps@),
                    forall|u: int| 0 <= u < n ==> (#[trigger] overlaps@[u])@.len() == n,
                    i < n,
                    visited@.len() == n,
                    cs == spec_cluster_views(clusters@),
                    cluster@.len() <= n,
                    cluster@[0] == i,
                    spec_grounded(t, cluster@),
                    cluster@.no_duplicates(),
                    forall|p: int| 0 <= p < cluster@.len() ==> !spec_in_first_clusters(cs, cs.len() as int, #[trigger] cluster@[p] as int),
                    forall|v: int| 0 <= v < n ==> (visited@[v] <==> spec_taken(cs, cluster@, i as int, v)),
                    !changed ==> forall|p: int, v: int|
                        0 <= p < cluster@.len() && 0 <= v < n && !visited@[v] ==> !#[trigger] t[cluster@[p] as int][v],
                decreases (if changed { n + 1 - cluster@.len() } else { 0 }),
            {
                changed = false;
                let ghost start_len = cluster@.len();
                let mut j: usize = 0;
                while j < n
                    invariant
                        n == overlaps@.len(),
                        t == spec_rows(overlaps@),
                        forall|u: int| 0 <= u < n ==> (#[trigger] overlaps@[u])@.len() == n,
                        i < n,
                        j <= n,
                        visited@.len() == n,
                        cs == spec_cluster_views(clusters@),
                        cluster@.len() <= n,
                        cluster@.len() >= start_len,
                        changed ==> cluster@.len() > start_len,
                        cluster@[0] == i,
                        spec_grounded(t, cluster@),
                        cluster@.no_duplicates(),
                        forall|p: int| 0 <= p < cluster@.len() ==> !spec_in_first_clusters(cs, cs.len() as int, #[trigger] cluster@[p] as int),
                        forall|v: int| 0 <= v < n ==> (visited@[v] <==> spec_taken(cs, cluster@, i as int, v)),
                        !changed ==> forall|p: int, v: int|
                            0 <= p < cluster@.len() && 0 <= v < j && !visited@[v] ==> !#[trigger] t[cluster@[p] as int][v],
                    decreases n - j,
                {
                    if !visited[j] {
                        let mut q: usize = 0;
                        let mut hit = false;
                        while q < cluster.len() && !hit
                            invariant
                                n == overlaps@.len(),
                                t == spec_rows(overlaps@),
                                forall|u: int| 0 <= u < n ==> (#[trigger] overlaps@[u])@.len() == n,
                                j < n,
                                q <= cluster@.len(),
                                spec_grounded(t, cluster@),
                                hit ==> q < cluster@.len() && t[cluster@[q as int] as int][j as int],
                                !hit ==> forall|r: int| 0 <= r < q ==> !#[trigger] t[cluster@[r] as int][j as int],
                            decreases cluster@.len() - q, (if hit { 0int } else { 1int }),
                        {
                            let row = cluster[q];
                            if overlaps[row][j] {
                                hit = true;
                            } else {
                                q = q + 1;
                            }
                        }
                        if hit {
                            let ghost before = cluster@;
                            proof {
                                assert(!spec_taken(cs, before, i as int, j as int));
                                lemma_fresh_index_fits(before, n as int, j as int);
                            }
                            cluster.push(j);
                            visited.set(j, true);
                            changed = true;
                            proof {
                                let c = cluster@;
                                assert(c =~= before.push(j));
                                assert(c[0] == i);
                                assert(j as int != i as int);
                                lemma_push_grounded(t, before, j, q as int);
                                assert(c.no_duplicates()) by {
                                    assert forall|a: int, b: int| 0 <= a < b < c.len() implies c[a] != c[b] by {
                                        if b == c.len() - 1 {
                                            assert(before[a] == c[a]);
                                            assert(before.contains(before[a]));
                                        }
                                    }
                                }
                                assert forall|p: int| 0 <= p < c.len() implies !spec_in_first_clusters(cs, cs.len() as int, #[trigger] c[p] as int) by {
                                    if p < c.len() - 1 {
                                        assert(before[p] == c[p]);
                                    }
                                }
                                assert forall|v: int| 0 <= v < n implies (visited@[v] <==> spec_taken(cs, c, i as int, v)) by {
                                    if v != j {
                                        assert(c.contains(v as usize) <==> before.contains(v as usize)) by {
                                            if c.contains(v as usize) {
                                                let p = choose|p: int| 0 <= p < c.len() && c[p] == v as usize;
                                                assert(before[p] == v as usize);
                                            }
                                            if before.contains(v as usize) {
                                                let p = choose|p: int| 0 <= p < before.len() && before[p] == v as usize;
                                                assert(c[p] == v as usize);
                                            }
                                        }
                                    } else {
                                        assert(c[c.len() - 1] == j);
                                    }
                                }
                            }
                        } else {
                            proof {
                                assert forall|p: int| 0 <= p < cluster@.len() implies !#[trigger] t[cluster@[p] as int][j as int] by {
                                }
                            }
                        }
                    }
                    j = j + 1;
                }
            }
            let ghost c = cluster@;
            proof {
                assert(forall|p: int, v: int|
                    0 <= p < c.len() && 0 <= v < n && #[trigger] t[c[p] as int][v] ==> spec_taken(cs, c, i as int, v));
            }
            if cluster.len() >= 2 {
                clusters.push(cluster);
                proof {
                    let cs2 = spec_cluster_views(clusters@);
                    assert(cs2 =~= cs.push(c));
                    assert forall|a: int, v: int| 0 <= a <= cs.len() implies
                        (spec_in_first_clusters(cs2, a, v) <==> (spec_in_first_clusters(cs, a, v) || (a > cs.len() && c.contains(v as usize)))) by {
                        if spec_in_first_clusters(cs2, a, v) {
                            let (b, p) = choose|b: int, p: int| 0 <= b < a && 0 <= p < cs2[b].len() && #[trigger] cs2[b][p] == v;
                            assert(cs2[b] == cs[b]);
                        }
                        if spec_in_first_clusters(cs, a, v) {
                            let (b, p) = choose|b: int, p: int| 0 <= b < a && 0 <= p < cs[b].len() && #[trigger] cs[b][p] == v;
                            assert(cs2[b] == cs[b]);
                            assert(cs2[b][p] == v);
                        }
                    }
                    assert forall|v: int| 0 <= v < n implies (#[trigger] spec_in_first_clusters(cs2, cs2.len() as int, v) <==> (spec_in_first_clusters(cs, cs.len() as int, v) || c.contains(v as usize))) by {
                        if spec_in_first_clusters(cs2, cs2.len() as int, v) {
                            let (b, p) = choose|b: int, p: int| 0 <= b < cs2.len() && 0 <= p < cs2[b].len() && #[trigger] cs2[b][p] == v;
                            if b < cs.len() {
                                assert(cs2[b] == cs[b]);
                            } else {
                                assert(cs2[b] == c);
                            }
                        }
                        if spec_in_first_clusters(cs, cs.len() as int, v) {
                            let (b, p) = choose|b: int, p: int| 0 <= b < cs.len() && 0 <= p < cs[b].len() && #[trigger] cs[b][p] == v;
                            assert(cs2[b] == cs[b]);
                            assert(cs2[b][p] == v);
                        }
                        if c.contains(v as usize) {
                            let p = choose|p: int| 0 <= p < c.len() && c[p] == v as usize;
                            assert(cs2[cs.len() as int] == c);
                            assert(cs2[cs.len() as int][p] == v);
                        }
                    }
                    assert forall|a: int| 0 <= a < cs2.len() implies #[trigger] spec_closed(t, cs2, a) by {
                        if a < cs.len() {
                            assert(cs2[a] == cs[a]);
                            assert(spec_closed(t, cs, a));
                            assert forall|p: int, v: int|
                                0 <= p < cs2[a].len() && cs2[a][0] < v < t.len() && #[trigger] t[cs2[a][p] as int][v] implies
                                cs2[a].contains(v as usize) || spec_in_first_clusters(cs2, a, v) by {
                                assert(cs[a].contains(v as usize) || spec_in_first_clusters(cs, a, v));
                            }
                        } else {
                            assert(cs2[a] == c);
                            assert forall|p: int, v: int|
                                0 <= p < cs2[a].len() && cs2[a][0] < v < t.len() && #[trigger] t[cs2[a][p] as int][v] implies
                                cs2[a].contains(v as usize) || spec_in_first_clusters(cs2, a, v) by {
                                assert(spec_taken(cs, c, i as int, v));
                            }
                        }
                    }
                    assert forall|a: int| 0 <= a < cs2.len() implies (#[trigger] cs2[a]).len() >= 2 && spec_grounded(t, cs2[a]) && cs2[a][0] < i + 1 by {
                        if a < cs.len() {
                            assert(cs2[a] == cs[a]);
                        }
                    }
                    assert forall|a: int, b: int| 0 <= a < b < cs2.len() implies (#[trigger] cs2[a])[0] < (#[trigger] cs2[b])[0] by {
                        assert(cs2[a] == cs[a]);
                        if b < cs.len() {
                            assert(cs2[b] == cs[b]);
                        }
                    }
                    assert(spec_disjoint(cs2)) by {
                        assert forall|a: int, p: int, b: int, q: int|
                            0 <= a < cs2.len() && 0 <= p < cs2[a].len() && 0 <= b < cs2.len() && 0 <= q < cs2[b].len()
                                && #[trigger] cs2[a][p] == #[trigger] cs2[b][q] implies a == b && p == q by {
                            if a < cs.len() && b < cs.len() {
                                assert(cs2[a] == cs[a] && cs2[b] == cs[b]);
                            } else if a < cs.len() {
                                assert(cs2[a] == cs[a] && cs2[b] == c);
                                assert(spec_in_first_clusters(cs, cs.len() as int, c[q] as int));
                            } else if b < cs.len() {
                                assert(cs2[b] == cs[b] && cs2[a] == c);
                                assert(spec_in_first_clusters(cs, cs.len() as int, c[p] as int));
                            } else {
                                assert(cs2[a] == c && cs2[b] == c);
                            }
                        }
                    }
                    assert forall|s: int|
                        0 <= s < i + 1 && !spec_in_first_clusters(cs2, cs2.len() as int, s) implies #[trigger] spec_settled_alone(t, cs2, s) by {
                        assert(s != i);
                        assert(!spec_in_first_clusters(cs, cs.len() as int, s));
                        assert(spec_settled_alone(t, cs, s));
                        assert forall|v: int| s < v < t.len() && #[trigger] t[s][v] implies exists|a: int, p: int|
                            0 <= a < cs2.len() && 0 <= p < cs2[a].len() && cs2[a][0] < s && #[trigger] cs2[a][p] == v by {
                            let (a, p) = choose|a: int, p: int|
                                0 <= a < cs.len() && 0 <= p < cs[a].len() && cs[a][0] < s && #[trigger] cs[a][p] == v;
                            assert(cs2[a] == cs[a]);
                            assert(cs2[a][p] == v);
                        }
                    }
                }
            } else {
                proof {
                    assert(c.len() == 1);
                    assert forall|v: int| 0 <= v < n implies (visited@[v] <==> (v < i + 1 || spec_in_first_clusters(cs, cs.len() as int, v))) by {
                        if c.contains(v as usize) {
                            let p = choose|p: int| 0 <= p < c.len() && c[p] == v as usize;
                        }
                    }
                    assert(spec_settled_alone(t, cs, i as int)) by {
                        assert forall|v: int| i < v < t.len() && #[trigger] t[i as int][v] implies exists|a: int, p: int|
                            0 <= a < cs.len() && 0 <= p < cs[a].len() && cs[a][0] < i && #[trigger] cs[a][p] == v by {
                            assert(t[c[0] as int][v]);
                            assert(spec_taken(cs, c, i as int, v));
                            if c.contains(v as usize) {
                                let p = choose|p: int| 0 <= p < c.len() && c[p] == v as usize;
                            }
                            let (a, p) = choose|a: int, p: int| 0 <= a < cs.len() && 0 <= p < cs[a].len() && #[trigger] cs[a][p] == v;
                            assert(cs[a][0] < i);
                        }
                    }
                }
            }
            i = i + 1;
        }
    }
    clusters
}

/// Two cluster lists that agree, cluster by cluster, on the zones of their
/// first `k` clusters take the same zones with those clusters.
proof fn lemma_same_taken(a: Seq<Seq<usize>>, b: Seq<Seq<usize>>, k: int)
    requires
        0 <= k <= a.len(),
        k <= b.len(),
        forall|j: int| 0 <= j < k ==> (#[trigger] a[j]).to_set() == b[j].to_set(),
    ensures
        forall|v: int| #[trigger] spec_in_first_clusters(a, k, v) == spec_in_first_clusters(b, k, v),
{
    assert forall|v: int| #[trigger] spec_in_first_clusters(a, k, v) == spec_in_first_clusters(b, k, v) by {
        if spec_in_first_clusters(a, k, v) {
            let (j, p) = choose|j: int, p: int| 0 <= j < k && 0 <= p < a[j].len() && #[trigger] a[j][p] == v;
            assert(a[j].to_set().contains(a[j][p]));
            assert(b[j].to_set().contains(v as usize));
            let q = choose|q: int| 0 <= q < b[j].len() && b[j][q] == v as usize;
            assert(b[j][q] == v);
        }
        if spec_in_first_clusters(b, k, v) {
            let (j, p) = choose|j: int, p: int| 0 <= j < k && 0 <= p < b[j].len() && #[trigger] b[j][p] == v;
            assert(b[j].to_set().contains(b[j][p]));
            assert(a[j].to_set().contains(v as usize));
            let q = choose|q: int| 0 <= q < a[j].len() && a[j][q] == v as usize;
            assert(a[j][q] == v);
        }
    }
}

/// A zone of a cluster is at least the cluster's first zone, which is at
/// least the first zone of every earlier cluster.
proof fn lemma_zone_after_start(t: Seq<Seq<bool>>, cs: Seq<Seq<usize>>, j: int, k: int, p: int)
    requires
        spec_overlap_clusters(t, cs),
        0 <= k <= j < cs.len(),
        0 <= p < cs[j].len(),
    ensures
        cs[k][0] <= cs[j][p],
{
    assert(spec_grounded(t, cs[j]));
    if p > 0 {
        assert(cs[j][0] < cs[j][p]);
    }
    if k < j {
        assert(cs[k][0] < cs[j][0]);
    }
}

/// Where two cluster lists of one table take the same zones with their first
/// `k` clusters, the second list has a cluster at position `k` too if the
/// first has, and it starts no later.
proof fn lemma_start_not_after(t: Seq<Seq<bool>>, a: Seq<Seq<usize>>, b: Seq<Seq<usize>>, k: int)
    requires
        spec_overlap_clusters(t, a),
        spec_overlap_clusters(t, b),
        0 <= k < a.len(),
        k <= b.len(),
        forall|v: int| #[trigger] spec_in_first_clusters(a, k, v) == spec_in_first_clusters(b, k, v),
    ensures
        k < b.len(),
        b[k][0] <= a[k][0],
{
    let s = a[k][0] as int;
    if k == b.len() || b[k][0] > s {
        assert(a[k].len() >= 2 && spec_grounded(t, a[k]));
        let v = a[k][1] as int;
        assert(spec_joins_earlier(t, a[k], 1));
        assert(t[s][v]);
        assert(s < v < t.len());
        // The first zone of `a[k]` is in no cluster of `b`.
        assert(!spec_in_first_clusters(b, b.len() as int, s)) by {
            if spec_in_first_clusters(b, b.len() as int, s) {
                let (j, p) = choose|j: int, p: int| 0 <= j < b.len() && 0 <= p < b[j].len() && #[trigger] b[j][p] == s;
                if j < k {
                    assert(spec_in_first_clusters(b, k, s));
                    assert(spec_in_first_clusters(a, k, s));
                    let (j2, p2) = choose|j2: int, p2: int| 0 <= j2 < k && 0 <= p2 < a[j2].len() && #[trigger] a[j2][p2] == s;
                    assert(a[j2][p2] == a[k][0]);
                } else {
                    lemma_zone_after_start(t, b, j, k, p);
                }
            }
        }
        assert(spec_settled_alone(t, b, s));
        let (j, p) = choose|j: int, p: int| 0 <= j < b.len() && 0 <= p < b[j].len() && b[j][0] < s && #[trigger] b[j][p] == v;
        if j >= k {
            lemma_zone_after_start(t, b, j, k, 0);
        }
        assert(spec_in_first_clusters(b, k, v));
        assert(spec_in_first_clusters(a, k, v));
        let (j2, p2) = choose|j2: int, p2: int| 0 <= j2 < k && 0 <= p2 < a[j2].len() && #[trigger] a[j2][p2] == v;
        assert(a[j2][p2] == a[k][1]);
    }
}

/// Every zone of cluster `k` of one list is in cluster `k` of the other,
/// where the two clusters start at the same zone and the earlier clusters
/// take the same zones.
proof fn lemma_cluster_within(t: Seq<Seq<bool>>, a: Seq<Seq<usize>>, b: Seq<Seq<usize>>, k: int, p: int)
    requires
        spec_overlap_clusters(t, a),
        spec_overlap_clusters(t, b),
        0 <= k < a.len(),
        k < b.len(),
        a[k][0] == b[k][0],
        forall|v: int| #[trigger] spec_in_first_clusters(a, k, v) == spec_in_first_clusters(b, k, v),
        0 <= p < a[k].len(),
    ensures
        b[k].contains(a[k][p]),
    decreases p,
{
    if p == 0 {
        assert(b[k][0] == a[k][0]);
    } else {
        assert(spec_grounded(t, a[k]));
        assert(spec_joins_earlier(t, a[k], p));
        let q = choose|q: int| 0 <= q < p && #[trigger] t[a[k][q] as int][a[k][p] as int];
        lemma_cluster_within(t, a, b, k, q);
        let r = choose|r: int| 0 <= r < b[k].len() && b[k][r] == a[k][q];
        let v = a[k][p] as int;
        assert(a[k][0] < a[k][p]);
        assert(spec_closed(t, b, k));
        assert(t[b[k][r] as int][v]);
        assert(b[k].contains(v as usize) || spec_in_first_clusters(b, k, v));
        if spec_in_first_clusters(b, k, v) {
            assert(spec_in_first_clusters(a, k, v));
            let (j2, p2) = choose|j2: int, p2: int| 0 <= j2 < k && 0 <= p2 < a[j2].len() && #[trigger] a[j2][p2] == v;
            assert(a[j2][p2] == a[k][p]);
        }
    }
}

/// The first `k` clusters of two cluster lists of one table agree.
proof fn lemma_prefix_determined(t: Seq<Seq<bool>>, a: Seq<Seq<usize>>, b: Seq<Seq<usize>>, k: int)
    requires
        spec_overlap_clusters(t, a),
        spec_overlap_clusters(t, b),
        0 <= k <= a.len(),
        k <= b.len(),
    ensures
        forall|j: int| 0 <= j < k ==> (#[trigger] a[j])[0] == b[j][0] && a[j].to_set() == b[j].to_set(),
    decreases k,
{
    if k > 0 {
        let i = k - 1;
        lemma_prefix_determined(t, a, b, i);
        lemma_same_taken(a, b, i);
        lemma_start_not_after(t, a, b, i);
        lemma_start_not_after(t, b, a, i);
        assert forall|p: int| 0 <= p < a[i].len() implies b[i].contains(#[trigger] a[i][p]) by {
            lemma_cluster_within(t, a, b, i, p);
        }
        assert forall|p: int| 0 <= p < b[i].len() implies a[i].contains(#[trigger] b[i][p]) by {
            lemma_cluster_within(t, b, a, i, p);
        }
        assert(a[i].to_set() =~= b[i].to_set());
    }
}

/// The clusters of a table are fixed by it: any two cluster lists that meet
/// [`spec_overlap_clusters`] for the same table have the same number of
/// clusters, and the clusters at each position start with the same zone and
/// hold the same zones. (Only the order of the later zones within a cluster
/// is left to the growth order.)
pub proof fn law_clusters_are_determined(t: Seq<Seq<bool>>, a: Seq<Seq<usize>>, b: Seq<Seq<usize>>)
    requires
        spec_overlap_clusters(t, a),
        spec_overlap_clusters(t, b),
    ensures
        a.len() == b.len(),
        forall|k: int| 0 <= k < a.len() ==> (#[trigger] a[k])[0] == b[k][0] && a[k].to_set() == b[k].to_set(),
{
    let m = if a.len() <= b.len() { a.len() as int } else { b.len() as int };
    lemma_prefix_determined(t, a, b, m);
    lemma_same_taken(a, b, m);
    if a.len() > m {
        lemma_start_not_after(t, a, b, m);
    }
    if b.len() > m {
        lemma_start_not_after(t, b, a, m);
    }
}

} // verus!
