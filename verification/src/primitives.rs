//! Mesh index utilities.

use vstd::prelude::*;
use std::collections::HashSet;

verus! {

broadcast use vstd::std_specs::hash::group_hash_axioms;

/// An edge with its smaller vertex index first.
pub open spec fn canonical_edge(i: u32, j: u32) -> (u32, u32) {
    if i < j {
        (i, j)
    } else {
        (j, i)
    }
}

/// The `k`-th edge of a triangle list: edges `(a, b)`, `(b, c)`, `(c, a)` of each
/// complete triangle in turn, canonically ordered.
pub open spec fn triangle_edge(indices: Seq<u32>, k: int) -> (u32, u32) {
    let t = k / 3;
    let a = indices[3 * t];
    let b = indices[3 * t + 1];
    let c = indices[3 * t + 2];
    if k % 3 == 0 {
        canonical_edge(a, b)
    } else if k % 3 == 1 {
        canonical_edge(b, c)
    } else {
        canonical_edge(c, a)
    }
}

/// All edges of the complete triangles of an index list, in order, repeats kept.
/// A trailing partial triangle contributes nothing.
pub open spec fn triangle_edges(indices: Seq<u32>) -> Seq<(u32, u32)> {
    Seq::new(3 * (indices.len() / 3), |k: int| triangle_edge(indices, k))
}

/// The edges of a sequence at their first occurrence, in order.
pub open spec fn first_occurrences(edges: Seq<(u32, u32)>) -> Seq<(u32, u32)>
    decreases edges.len(),
{
    if edges.len() == 0 {
        Seq::empty()
    } else {
        let prev = first_occurrences(edges.drop_last());
        if edges.drop_last().contains(edges.last()) {
            prev
        } else {
            prev.push(edges.last())
        }
    }
}

/// A list of edges as line-list indices: both endpoints of each edge in turn.
pub open spec fn line_list(edges: Seq<(u32, u32)>) -> Seq<u32> {
    Seq::new(2 * edges.len(), |k: int| if k % 2 == 0 { edges[k / 2].0 } else { edges[k / 2].1 })
}

/// The wireframe of a triangle list: each distinct edge once, at its first occurrence.
pub open spec fn wireframe_of(indices: Seq<u32>) -> Seq<u32> {
    line_list(first_occurrences(triangle_edges(indices)))
}

/// The set key of an edge.
pub open spec fn edge_key(e: (u32, u32)) -> u64 {
    ((e.0 as u64) << 32u64) | (e.1 as u64)
}

proof fn lemma_edge_key_injective(e: (u32, u32), f: (u32, u32))
    ensures
        edge_key(e) == edge_key(f) ==> e == f,
{
    let (a, b, c, d) = (e.0, e.1, f.0, f.1);
    assert((((a as u64) << 32u64) | (b as u64)) == (((c as u64) << 32u64) | (d as u64)) ==> a == c
        && b == d) by (bit_vector);
}

proof fn lemma_line_list_push(edges: Seq<(u32, u32)>, e: (u32, u32))
    ensures
        line_list(edges.push(e)) =~= line_list(edges).push(e.0).push(e.1),
{
    let l = line_list(edges.push(e));
    let r = line_list(edges).push(e.0).push(e.1);
    assert forall|k: int| 0 <= k < l.len() implies l[k] == r[k] by {
        if k < 2 * edges.len() {
            assert(edges.push(e)[k / 2] == edges[k / 2]);
        }
    }
}

/// The seen-edge set and output agree with the edges processed so far.
spec fn edge_state(seen: Set<u64>, out: Seq<u32>, done: Seq<(u32, u32)>) -> bool {
    &&& forall|e: (u32, u32)| #[trigger] done.contains(e) <==> seen.contains(edge_key(e))
    &&& forall|k: u64| #[trigger] seen.contains(k) ==> exists|e: (u32, u32)|
        done.contains(e) && edge_key(e) == k
    &&& out == line_list(first_occurrences(done))
}

fn record_edge(
    seen: &mut HashSet<u64>,
    out: &mut Vec<u32>,
    i: u32,
    j: u32,
    Ghost(done): Ghost<Seq<(u32, u32)>>,
)
    requires
        edge_state(old(seen)@, old(out)@, done),
    ensures
        edge_state(final(seen)@, final(out)@, done.push(canonical_edge(i, j))),
{
    let (a, b) = if i < j {
        (i, j)
    } else {
        (j, i)
    };
    let ghost e = canonical_edge(i, j);
    let key: u64 = ((a as u64) << 32u64) | (b as u64);
    assert(key == edge_key(e));
    let ghost done2 = done.push(e);
    assert(done2.drop_last() =~= done);
    if seen.insert(key) {
        out.push(a);
        out.push(b);
        proof {
            assert(!done.contains(e));
            lemma_line_list_push(first_occurrences(done), e);
        }
    } else {
        proof {
            let w = choose|w: (u32, u32)| done.contains(w) && edge_key(w) == key;
            lemma_edge_key_injective(w, e);
        }
    }
    proof {
        assert forall|f: (u32, u32)| #[trigger] done2.contains(f) <==> seen@.contains(edge_key(f)) by {
            lemma_edge_key_injective(f, e);
            if done2.contains(f) && f != e {
                let x = choose|x: int| 0 <= x < done2.len() && done2[x] == f;
                assert(done.contains(f)) by {
                    assert(done[x] == f);
                }
            }
            if done.contains(f) {
                let x = choose|x: int| 0 <= x < done.len() && done[x] == f;
                assert(done2[x] == f);
            }
            assert(done2[done.len() as int] == e);
        }
        assert forall|k: u64| #[trigger] seen@.contains(k) implies exists|f: (u32, u32)|
            done2.contains(f) && edge_key(f) == k by {
            if k == key {
                assert(done2[done.len() as int] == e);
                assert(done2.contains(e));
            } else {
                let f = choose|f: (u32, u32)| done.contains(f) && edge_key(f) == k;
                let x = choose|x: int| 0 <= x < done.len() && done[x] == f;
                assert(done2[x] == f);
                assert(done2.contains(f));
            }
        }
    }
}

/// Extract unique edges from a triangle index list for wireframe rendering.
///
/// Returns line-list indices that reuse the same vertex buffer. Shared edges
/// between adjacent triangles are kept once, in canonical (smaller index
/// first) order, at the place of their first occurrence.
pub fn triangles_to_wireframe_indices(indices: &[u32]) -> (lines: Vec<u32>)
    ensures
        lines@ == wireframe_of(indices@),
{
    let mut seen: HashSet<u64> = HashSet::new();
    let mut lines: Vec<u32> = Vec::new();
    let len = indices.len();
    let triangles = len / 3;
    let ghost all = triangle_edges(indices@);
    let mut t: usize = 0;
    proof {
        assert(all.take(0) =~= Seq::<(u32, u32)>::empty());
        assert(line_list(Seq::<(u32, u32)>::empty()) =~= Seq::<u32>::empty());
    }
    while t < triangles
        invariant
            len == indices@.len(),
            triangles == len / 3,
            3 * triangles <= len,
            t <= triangles,
            all == triangle_edges(indices@),
            edge_state(seen@, lines@, all.take(3 * t as int)),
        decreases triangles - t,
    {
        let a = indices[3 * t];
        let b = indices[3 * t + 1];
        let c = indices[3 * t + 2];
        let ghost base = 3 * t as int;
        assert(all[base] == canonical_edge(a, b));
        assert(all[base + 1] == canonical_edge(b, c));
        assert(all[base + 2] == canonical_edge(c, a));
        record_edge(&mut seen, &mut lines, a, b, Ghost(all.take(base)));
        assert(all.take(base).push(all[base]) =~= all.take(base + 1));
        record_edge(&mut seen, &mut lines, b, c, Ghost(all.take(base + 1)));
        assert(all.take(base + 1).push(all[base + 1]) =~= all.take(base + 2));
        record_edge(&mut seen, &mut lines, c, a, Ghost(all.take(base + 2)));
        assert(all.take(base + 2).push(all[base + 2]) =~= all.take(base + 3));
        t = t + 1;
    }
    assert(all.take(3 * triangles as int) =~= all);
    lines
}

/// The `p`-th line of a line list, as an edge.
pub open spec fn line_at(lines: Seq<u32>, p: int) -> (u32, u32) {
    (lines[2 * p], lines[2 * p + 1])
}

proof fn lemma_first_occurrences(edges: Seq<(u32, u32)>)
    ensures
        first_occurrences(edges).no_duplicates(),
        forall|e: (u32, u32)| #[trigger]
            first_occurrences(edges).contains(e) <==> edges.contains(e),
    decreases edges.len(),
{
    if edges.len() > 0 {
        let init = edges.drop_last();
        lemma_first_occurrences(init);
        assert forall|e: (u32, u32)| #[trigger] edges.contains(e) <==> (init.contains(e) || e
            == edges.last()) by {
            if edges.contains(e) {
                let x = choose|x: int| 0 <= x < edges.len() && edges[x] == e;
                if x < init.len() {
                    assert(init[x] == e);
                }
            }
            if init.contains(e) {
                let x = choose|x: int| 0 <= x < init.len() && init[x] == e;
                assert(edges[x] == e);
            }
            assert(edges[edges.len() - 1] == edges.last());
        }
        let prev = first_occurrences(init);
        if !init.contains(edges.last()) {
            let fo = prev.push(edges.last());
            assert forall|e: (u32, u32)| #[trigger] fo.contains(e) <==> (prev.contains(e) || e
                == edges.last()) by {
                if fo.contains(e) {
                    let x = choose|x: int| 0 <= x < fo.len() && fo[x] == e;
                    if x < prev.len() {
                        assert(prev[x] == e);
                    }
                }
                if prev.contains(e) {
                    let x = choose|x: int| 0 <= x < prev.len() && prev[x] == e;
                    assert(fo[x] == e);
                }
                assert(fo[fo.len() - 1] == edges.last());
            }
            assert forall|i: int, j: int| 0 <= i < fo.len() && 0 <= j < fo.len() && i != j implies fo[i]
                != fo[j] by {
                if i < prev.len() && j < prev.len() {
                } else if i < prev.len() {
                    assert(prev.contains(fo[i]));
                } else {
                    assert(prev.contains(fo[j]));
                }
            }
        }
    }
}

proof fn lemma_line_at(edges: Seq<(u32, u32)>, p: int)
    requires
        0 <= p < edges.len(),
    ensures
        line_at(line_list(edges), p) == edges[p],
{
    let l = line_list(edges);
    assert((2 * p) / 2 == p);
    assert((2 * p + 1) / 2 == p);
    assert(l[2 * p] == edges[p].0);
    assert(l[2 * p + 1] == edges[p].1);
}

/// The wireframe is a line list: an even number of indices, each line written
/// smaller vertex index first.
pub proof fn law_wireframe_lines_canonical(indices: Seq<u32>)
    ensures
        wireframe_of(indices).len() % 2 == 0,
        forall|p: int|
            0 <= p < wireframe_of(indices).len() / 2 ==> #[trigger] line_at(wireframe_of(indices), p).0
                <= line_at(wireframe_of(indices), p).1,
{
    let edges = first_occurrences(triangle_edges(indices));
    assert forall|p: int| 0 <= p < wireframe_of(indices).len() / 2 implies #[trigger] line_at(
        wireframe_of(indices),
        p,
    ).0 <= line_at(wireframe_of(indices), p).1 by {
        lemma_line_at(edges, p);
        lemma_first_occurrences(triangle_edges(indices));
        assert(edges.contains(edges[p]));
        let k = choose|k: int|
            0 <= k < triangle_edges(indices).len() && triangle_edges(indices)[k] == edges[p];
        assert(triangle_edges(indices)[k] == triangle_edge(indices, k));
    }
}

/// No edge appears twice in the wireframe.
pub proof fn law_wireframe_edges_distinct(indices: Seq<u32>)
    ensures
        forall|p: int, q: int|
            0 <= p < q < wireframe_of(indices).len() / 2 ==> #[trigger] line_at(wireframe_of(indices), p)
                != #[trigger] line_at(wireframe_of(indices), q),
{
    let edges = first_occurrences(triangle_edges(indices));
    lemma_first_occurrences(triangle_edges(indices));
    assert forall|p: int, q: int| 0 <= p < q < wireframe_of(indices).len() / 2 implies #[trigger] line_at(
        wireframe_of(indices),
        p,
    ) != #[trigger] line_at(wireframe_of(indices), q) by {
        lemma_line_at(edges, p);
        lemma_line_at(edges, q);
    }
}

/// Every edge of every complete triangle is drawn, and nothing else is.
pub proof fn law_wireframe_edges_are_triangle_edges(indices: Seq<u32>)
    ensures
        forall|k: int|
            #![trigger triangle_edge(indices, k)]
            0 <= k < 3 * (indices.len() / 3) ==> exists|p: int|
                0 <= p < wireframe_of(indices).len() / 2 && #[trigger] line_at(wireframe_of(indices), p)
                    == triangle_edge(indices, k),
        forall|p: int|
            0 <= p < wireframe_of(indices).len() / 2 ==> exists|k: int|
                0 <= k < 3 * (indices.len() / 3) && #[trigger] line_at(wireframe_of(indices), p)
                    == triangle_edge(indices, k),
{
    let all = triangle_edges(indices);
    let edges = first_occurrences(all);
    lemma_first_occurrences(all);
    assert forall|k: int|
        #![trigger triangle_edge(indices, k)]
        0 <= k < 3 * (indices.len() / 3) implies exists|p: int|
        0 <= p < wireframe_of(indices).len() / 2 && #[trigger] line_at(wireframe_of(indices), p)
            == triangle_edge(indices, k) by {
        assert(all[k] == triangle_edge(indices, k));
        assert(all.contains(all[k]));
        assert(edges.contains(all[k]));
        let p = choose|p: int| 0 <= p < edges.len() && edges[p] == all[k];
        lemma_line_at(edges, p);
        assert(wireframe_of(indices).len() / 2 == edges.len());
    }
    assert forall|p: int| 0 <= p < wireframe_of(indices).len() / 2 implies exists|k: int|
        0 <= k < 3 * (indices.len() / 3) && #[trigger] line_at(wireframe_of(indices), p)
            == triangle_edge(indices, k) by {
        lemma_line_at(edges, p);
        assert(edges.contains(edges[p]));
        let k = choose|k: int| 0 <= k < all.len() && all[k] == edges[p];
        assert(all[k] == triangle_edge(indices, k));
    }
}

} // verus!
