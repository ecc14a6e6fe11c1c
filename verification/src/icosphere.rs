//! Triangle topology of the icosphere that solid spheres are drawn with.
//!
//! The icosphere starts from the twenty faces of an icosahedron over its
//! twelve vertices. Each subdivision splits every triangle `(a, b, c)` into
//! four through the midpoints of its edges; the midpoint of an edge shared
//! by two triangles is one vertex, created the first time the edge is met.
//! Only the indices are decided here: the positions of the midpoints are
//! computed by the caller from the list of split edges, in order.

use vstd::prelude::*;
use std::collections::HashMap;

verus! {

broadcast use vstd::std_specs::hash::group_hash_axioms;

/// Vertices of the icosahedron the icosphere starts from.
pub const ICOSAHEDRON_VERTICES: u32 = 12;

/// The twenty faces of the icosahedron, three vertex indices each.
pub open spec fn icosahedron_faces() -> Seq<u32> {
    seq![
        0, 11, 5, 0, 5, 1, 0, 1, 7, 0, 7, 10, 0, 10, 11, 1, 5, 9, 5, 11, 4, 11, 10, 2, 10, 7, 6, 7,
        1, 8, 3, 9, 4, 3, 4, 2, 3, 2, 6, 3, 6, 8, 3, 8, 9, 4, 9, 5, 2, 4, 11, 6, 2, 10, 8, 6, 7, 9,
        8, 1,
    ]
}

/// The faces of the icosahedron.
pub fn icosahedron_indices() -> (indices: Vec<u32>)
    ensures
        indices@ == icosahedron_faces(),
        indices@.len() == 60,
        forall|k: int| 0 <= k < indices@.len() ==> indices@[k] < ICOSAHEDRON_VERTICES,
{
    let indices: Vec<u32> = vec![
        0, 11, 5, 0, 5, 1, 0, 1, 7, 0, 7, 10, 0, 10, 11, 1, 5, 9, 5, 11, 4, 11, 10, 2, 10, 7, 6, 7,
        1, 8, 3, 9, 4, 3, 4, 2, 3, 2, 6, 3, 6, 8, 3, 8, 9, 4, 9, 5, 2, 4, 11, 6, 2, 10, 8, 6, 7, 9,
        8, 1,
    ];
    assert(indices@ =~= icosahedron_faces());
    indices
}

/// An edge with its smaller endpoint first.
pub open spec fn ordered_edge(a: u32, b: u32) -> (u32, u32) {
    if a < b {
        (a, b)
    } else {
        (b, a)
    }
}

/// Edge slot `s` of a triangle list: triangle `s / 3`, and its edges in the
/// order `(a, b)`, `(b, c)`, `(c, a)`.
pub open spec fn edge_slot(indices: Seq<u32>, s: int) -> (u32, u32) {
    let t = s / 3;
    let c = s % 3;
    ordered_edge(indices[3 * t + c], indices[3 * t + (c + 1) % 3])
}

/// The edges split by the first `s` edge slots, each once, in the order in
/// which they are first met.
pub open spec fn split_edges(indices: Seq<u32>, s: nat) -> Seq<(u32, u32)>
    decreases s,
{
    if s == 0 {
        Seq::empty()
    } else {
        let before = split_edges(indices, (s - 1) as nat);
        let e = edge_slot(indices, s - 1);
        if before.contains(e) {
            before
        } else {
            before.push(e)
        }
    }
}

/// Index of the midpoint vertex of edge `e`, numbered after the `base`
/// vertices of the previous level in the order of `edges`.
pub open spec fn midpoint_index(edges: Seq<(u32, u32)>, base: int, e: (u32, u32)) -> int {
    base + edges.index_of(e)
}

/// The twelve indices that replace triangle `(a, b, c)`, with `m1`, `m2`,
/// `m3` the midpoints of `(a, b)`, `(b, c)`, `(c, a)`.
pub open spec fn split_triangle(a: u32, b: u32, c: u32, m1: u32, m2: u32, m3: u32) -> Seq<u32> {
    seq![a, m1, m3, m1, b, m2, m3, m2, c, m1, m2, m3]
}

/// Key of an ordered edge in the midpoint table.
pub open spec fn edge_key(e: (u32, u32)) -> int {
    e.0 * 0x1_0000_0000 + e.1
}

proof fn lemma_edge_key_injective(e: (u32, u32), f: (u32, u32))
    requires
        edge_key(e) == edge_key(f),
    ensures
        e == f,
{
    vstd::arithmetic::div_mod::lemma_fundamental_div_mod_converse(
        edge_key(e),
        0x1_0000_0000,
        e.0 as int,
        e.1 as int,
    );
    vstd::arithmetic::div_mod::lemma_fundamental_div_mod_converse(
        edge_key(f),
        0x1_0000_0000,
        f.0 as int,
        f.1 as int,
    );
}

/// The midpoint table maps the key of every split edge to its midpoint
/// vertex, and holds nothing else.
spec fn table_matches(table: Map<u64, u32>, edges: Seq<(u32, u32)>, base: int) -> bool {
    &&& forall|i: int|
        0 <= i < edges.len() ==> #[trigger] table.contains_key(edge_key(edges[i]) as u64)
            && table[edge_key(edges[i]) as u64] == base + i
    &&& forall|k: u64|
        #[trigger] table.contains_key(k) ==> exists|i: int|
            0 <= i < edges.len() && edge_key(edges[i]) == k
}

/// The midpoint of edge `(a, b)`: the vertex already made for it, or a new
/// vertex appended after the existing ones.
fn midpoint(
    table: &mut HashMap<u64, u32>,
    edges: &mut Vec<(u32, u32)>,
    base: u32,
    a: u32,
    b: u32,
) -> (m: u32)
    requires
        table_matches(old(table)@, old(edges)@, base as int),
        old(edges)@.no_duplicates(),
        base + old(edges)@.len() < u32::MAX,
    ensures
        final(edges)@ == (if old(edges)@.contains(ordered_edge(a, b)) {
            old(edges)@
        } else {
            old(edges)@.push(ordered_edge(a, b))
        }),
        final(edges)@.no_duplicates(),
        table_matches(final(table)@, final(edges)@, base as int),
        m == midpoint_index(final(edges)@, base as int, ordered_edge(a, b)),
        m < base + final(edges)@.len(),
{
    let e: (u32, u32) = if a < b {
        (a, b)
    } else {
        (b, a)
    };
    assert(e == ordered_edge(a, b));
    assert(e.0 as int * 0x1_0000_0000 + e.1 as int <= u64::MAX) by (nonlinear_arith)
        requires
            e.0 <= u32::MAX,
            e.1 <= u32::MAX,
    ;
    let key: u64 = e.0 as u64 * 0x1_0000_0000 + e.1 as u64;
    assert(key == edge_key(e));
    match table.get(&key) {
        Some(found) => {
            let m: u32 = *found;
            proof {
                let i = choose|i: int| 0 <= i < edges@.len() && edge_key(edges@[i]) == key;
                lemma_edge_key_injective(edges@[i], e);
                assert(edges@.contains(e));
                assert(edges@[edges@.index_of(e)] == e);
            }
            m
        },
        None => {
            proof {
                if edges@.contains(e) {
                    let i = choose|i: int| 0 <= i < edges@.len() && edges@[i] == e;
                    assert(table@.contains_key(edge_key(edges@[i]) as u64));
                }
            }
            let ghost before = edges@;
            let m: u32 = base + edges.len() as u32;
            edges.push(e);
            table.insert(key, m);
            proof {
                assert(edges@[before.len() as int] == e);
                assert forall|i: int| 0 <= i < edges@.len() implies #[trigger] table@.contains_key(
                    edge_key(edges@[i]) as u64,
                ) && table@[edge_key(edges@[i]) as u64] == base + i by {
                    if i < before.len() {
                        assert(edges@[i] == before[i]);
                        if edge_key(before[i]) == key {
                            lemma_edge_key_injective(before[i], e);
                        }
                    }
                }
                assert forall|k: u64| #[trigger] table@.contains_key(k) implies exists|i: int|
                    0 <= i < edges@.len() && edge_key(edges@[i]) == k by {
                    if k != key {
                        let i = choose|i: int| 0 <= i < before.len() && edge_key(before[i]) == k;
                        assert(edges@[i] == before[i]);
                    } else {
                        assert(edge_key(edges@[before.len() as int]) == k);
                    }
                }
                assert(edges@.no_duplicates()) by {
                    assert forall|i: int, j: int|
                        0 <= i < edges@.len() && 0 <= j < edges@.len() && i != j implies edges@[i]
                        != edges@[j] by {
                        if i < before.len() && j < before.len() {
                        } else if i < before.len() {
                            assert(edges@[i] == before[i]);
                        } else {
                            assert(edges@[j] == before[j]);
                        }
                    }
                }
                assert(edges@[edges@.index_of(e)] == e);
            }
            m
        },
    }
}

/// Corner `c` of triangle `t`.
pub open spec fn corner(indices: Seq<u32>, t: int, c: int) -> u32 {
    indices[3 * t + c]
}

/// Midpoint vertex of the edge between corners `c` and `c + 1` of triangle
/// `t`.
pub open spec fn triangle_midpoint(
    indices: Seq<u32>,
    edges: Seq<(u32, u32)>,
    base: int,
    t: int,
    c: int,
) -> u32 {
    midpoint_index(
        edges,
        base,
        ordered_edge(corner(indices, t, c), corner(indices, t, (c + 1) % 3)),
    ) as u32
}

/// The twelve indices that replace triangle `t`.
pub open spec fn subdivided_triangle(
    indices: Seq<u32>,
    edges: Seq<(u32, u32)>,
    base: int,
    t: int,
) -> Seq<u32> {
    split_triangle(
        corner(indices, t, 0),
        corner(indices, t, 1),
        corner(indices, t, 2),
        triangle_midpoint(indices, edges, base, t, 0),
        triangle_midpoint(indices, edges, base, t, 1),
        triangle_midpoint(indices, edges, base, t, 2),
    )
}

/// The three edges of triangle `t` are among `edges`.
spec fn triangle_edges_split(indices: Seq<u32>, edges: Seq<(u32, u32)>, t: int) -> bool {
    &&& edges.contains(ordered_edge(corner(indices, t, 0), corner(indices, t, 1)))
    &&& edges.contains(ordered_edge(corner(indices, t, 1), corner(indices, t, 2)))
    &&& edges.contains(ordered_edge(corner(indices, t, 2), corner(indices, t, 0)))
}

proof fn lemma_edge_slots_of_triangle(indices: Seq<u32>, t: int)
    requires
        0 <= t,
    ensures
        edge_slot(indices, 3 * t) == ordered_edge(corner(indices, t, 0), corner(indices, t, 1)),
        edge_slot(indices, 3 * t + 1) == ordered_edge(corner(indices, t, 1), corner(indices, t, 2)),
        edge_slot(indices, 3 * t + 2) == ordered_edge(corner(indices, t, 2), corner(indices, t, 0)),
{
    vstd::arithmetic::div_mod::lemma_fundamental_div_mod_converse(3 * t, 3, t, 0);
    vstd::arithmetic::div_mod::lemma_fundamental_div_mod_converse(3 * t + 1, 3, t, 1);
    vstd::arithmetic::div_mod::lemma_fundamental_div_mod_converse(3 * t + 2, 3, t, 2);
}

proof fn lemma_index_of_stable<T>(s: Seq<T>, longer: Seq<T>, x: T)
    requires
        longer.no_duplicates(),
        s.contains(x),
        s.len() <= longer.len(),
        longer.take(s.len() as int) == s,
    ensures
        longer.index_of(x) == s.index_of(x),
        0 <= s.index_of(x) < s.len(),
{
    let i = s.index_of(x);
    assert(s[i] == x);
    assert(longer[i] == longer.take(s.len() as int)[i]);
    assert(longer.contains(x));
    let j = longer.index_of(x);
    assert(longer[j] == x);
}

proof fn lemma_earlier_triangles_kept(
    indices: Seq<u32>,
    e0: Seq<(u32, u32)>,
    e3: Seq<(u32, u32)>,
    out0: Seq<u32>,
    out: Seq<u32>,
    base: int,
    t: int,
)
    requires
        0 <= t,
        e0.len() <= e3.len(),
        e3.no_duplicates(),
        e3.take(e0.len() as int) == e0,
        out0.len() == 12 * t,
        out.len() >= 12 * t,
        out.take(12 * t) == out0,
        forall|q: int| 0 <= q < t ==> #[trigger] triangle_edges_split(indices, e0, q),
        forall|q: int|
            0 <= q < t ==> out0.subrange(12 * q, 12 * q + 12) == #[trigger] subdivided_triangle(
                indices,
                e0,
                base,
                q,
            ),
    ensures
        forall|q: int| 0 <= q < t ==> #[trigger] triangle_edges_split(indices, e3, q),
        forall|q: int|
            0 <= q < t ==> out.subrange(12 * q, 12 * q + 12) == #[trigger] subdivided_triangle(
                indices,
                e3,
                base,
                q,
            ),
{
    assert forall|q: int|
        #![trigger triangle_edges_split(indices, e3, q)]
        #![trigger subdivided_triangle(indices, e3, base, q)]
        0 <= q < t implies triangle_edges_split(indices, e3, q) && out.subrange(12 * q, 12 * q + 12)
        == subdivided_triangle(indices, e3, base, q) by {
        assert(triangle_edges_split(indices, e0, q));
        let x0 = ordered_edge(corner(indices, q, 0), corner(indices, q, 1));
        let x1 = ordered_edge(corner(indices, q, 1), corner(indices, q, 2));
        let x2 = ordered_edge(corner(indices, q, 2), corner(indices, q, 0));
        lemma_index_of_stable(e0, e3, x0);
        lemma_index_of_stable(e0, e3, x1);
        lemma_index_of_stable(e0, e3, x2);
        assert(e3[e0.index_of(x0)] == e0[e0.index_of(x0)]);
        assert(e3[e0.index_of(x1)] == e0[e0.index_of(x1)]);
        assert(e3[e0.index_of(x2)] == e0[e0.index_of(x2)]);
        assert(out.subrange(12 * q, 12 * q + 12) =~= out0.subrange(12 * q, 12 * q + 12));
        assert(subdivided_triangle(indices, e3, base, q) =~= subdivided_triangle(
            indices,
            e0,
            base,
            q,
        ));
    }
}

/// The triangle list that replaces `indices`: each triangle's twelve indices
/// in turn, with midpoints numbered from `base` in the order of `edges`.
pub open spec fn subdivision(indices: Seq<u32>, edges: Seq<(u32, u32)>, base: int) -> Seq<u32> {
    Seq::new(
        (4 * indices.len()) as nat,
        |k: int| subdivided_triangle(indices, edges, base, k / 12)[k % 12],
    )
}

proof fn lemma_triangles_make_subdivision(
    out: Seq<u32>,
    indices: Seq<u32>,
    edges: Seq<(u32, u32)>,
    base: int,
)
    requires
        indices.len() % 3 == 0,
        out.len() == 4 * indices.len(),
        forall|t: int|
            0 <= t < indices.len() / 3 ==> out.subrange(12 * t, 12 * t + 12)
                == #[trigger] subdivided_triangle(indices, edges, base, t),
    ensures
        out == subdivision(indices, edges, base),
{
    assert forall|k: int| 0 <= k < out.len() implies out[k] == subdivision(indices, edges, base)[k] by {
        let t = k / 12;
        let c = k % 12;
        vstd::arithmetic::div_mod::lemma_fundamental_div_mod(k, 12);
        assert(0 <= t < indices.len() / 3);
        assert(out.subrange(12 * t, 12 * t + 12) == subdivided_triangle(indices, edges, base, t));
        assert(out.subrange(12 * t, 12 * t + 12)[c] == out[k]);
    }
    assert(out =~= subdivision(indices, edges, base));
}

/// One subdivision of a triangle list over `base` vertices: every triangle
/// is replaced by the four of its split, and the split edges are returned in
/// the order their midpoint vertices `base, base + 1, …` are numbered.
#[verifier::rlimit(40)]
#[verifier::spinoff_prover]
pub fn subdivide_icosphere(indices: &[u32], base: u32) -> (split: (Vec<u32>, Vec<(u32, u32)>))
    requires
        indices@.len() % 3 == 0,
        base + indices@.len() < u32::MAX,
        forall|k: int| 0 <= k < indices@.len() ==> indices@[k] < base,
    ensures
        split.1@ == split_edges(indices@, indices@.len() as nat),
        split.1@.no_duplicates(),
        split.1@.len() <= indices@.len(),
        split.0@.len() == 4 * indices@.len(),
        forall|t: int|
            0 <= t < indices@.len() / 3 ==> split.0@.subrange(12 * t, 12 * t + 12)
                == #[trigger] subdivided_triangle(indices@, split.1@, base as int, t),
        forall|k: int| 0 <= k < split.0@.len() ==> split.0@[k] < base + split.1@.len(),
        split.0@ == subdivision(indices@, split.1@, base as int),
{
    let triangles: usize = indices.len() / 3;
    let mut table: HashMap<u64, u32> = HashMap::new();
    let mut edges: Vec<(u32, u32)> = Vec::new();
    let mut out: Vec<u32> = Vec::new();
    let mut t: usize = 0;
    proof {
        assert(split_edges(indices@, 0) =~= Seq::<(u32, u32)>::empty());
    }
    while t < triangles
        invariant
            triangles == indices@.len() / 3,
            indices@.len() % 3 == 0,
            base + indices@.len() < u32::MAX,
            forall|k: int| 0 <= k < indices@.len() ==> indices@[k] < base,
            t <= triangles,
            edges@ == split_edges(indices@, (3 * t) as nat),
            edges@.len() <= 3 * t,
            edges@.no_duplicates(),
            table_matches(table@, edges@, base as int),
            out@.len() == 12 * t,
            forall|q: int| 0 <= q < t ==> #[trigger] triangle_edges_split(indices@, edges@, q),
            forall|q: int|
                0 <= q < t ==> out@.subrange(12 * q, 12 * q + 12) == #[trigger] subdivided_triangle(
                    indices@,
                    edges@,
                    base as int,
                    q,
                ),
            forall|k: int| 0 <= k < out@.len() ==> out@[k] < base + edges@.len(),
        decreases triangles - t,
    {
        proof {
            lemma_edge_slots_of_triangle(indices@, t as int);
        }
        let a: u32 = indices[3 * t];
        let b: u32 = indices[3 * t + 1];
        let c: u32 = indices[3 * t + 2];
        let ghost e0 = edges@;
        let ghost out0 = out@;
        let m1: u32 = midpoint(&mut table, &mut edges, base, a, b);
        let ghost e1 = edges@;
        let m2: u32 = midpoint(&mut table, &mut edges, base, b, c);
        let ghost e2 = edges@;
        let m3: u32 = midpoint(&mut table, &mut edges, base, c, a);
        let ghost e3 = edges@;
        proof {
            assert(e1 == split_edges(indices@, (3 * t + 1) as nat));
            assert(e2 == split_edges(indices@, (3 * t + 2) as nat));
            assert(e3 == split_edges(indices@, (3 * t + 3) as nat));
            assert(e1.take(e0.len() as int) =~= e0);
            assert(e2.take(e1.len() as int) =~= e1);
            assert(e3.take(e2.len() as int) =~= e2);
            assert(e3.take(e1.len() as int) =~= e1);
            assert(e3.take(e0.len() as int) =~= e0);
            assert(e1.contains(ordered_edge(a, b))) by {
                if !e0.contains(ordered_edge(a, b)) {
                    assert(e1[e0.len() as int] == ordered_edge(a, b));
                }
            }
            assert(e2.contains(ordered_edge(b, c))) by {
                if !e1.contains(ordered_edge(b, c)) {
                    assert(e2[e1.len() as int] == ordered_edge(b, c));
                }
            }
            assert(e3.contains(ordered_edge(c, a))) by {
                if !e2.contains(ordered_edge(c, a)) {
                    assert(e3[e2.len() as int] == ordered_edge(c, a));
                }
            }
            lemma_index_of_stable(e1, e3, ordered_edge(a, b));
            lemma_index_of_stable(e2, e3, ordered_edge(b, c));
            assert(e3.take(e3.len() as int) =~= e3);
            lemma_index_of_stable(e3, e3, ordered_edge(c, a));
        }
        out.push(a);
        out.push(m1);
        out.push(m3);
        out.push(m1);
        out.push(b);
        out.push(m2);
        out.push(m3);
        out.push(m2);
        out.push(c);
        out.push(m1);
        out.push(m2);
        out.push(m3);
        proof {
            assert(out@.take(12 * t as int) =~= out0);
            assert(out@.subrange(12 * t as int, 12 * t as int + 12) =~= subdivided_triangle(
                indices@,
                e3,
                base as int,
                t as int,
            ));
            lemma_earlier_triangles_kept(indices@, e0, e3, out0, out@, base as int, t as int);
            assert(triangle_edges_split(indices@, e3, t as int)) by {
                assert(e3[e3.index_of(ordered_edge(a, b))] == ordered_edge(a, b));
                assert(e3[e3.index_of(ordered_edge(b, c))] == ordered_edge(b, c));
                assert(e3[e3.index_of(ordered_edge(c, a))] == ordered_edge(c, a));
            }
        }
        t = t + 1;
    }
    proof {
        assert(3 * triangles == indices@.len());
        lemma_triangles_make_subdivision(out@, indices@, edges@, base as int);
    }
    (out, edges)
}

/// The icosphere after `l` subdivisions of the icosahedron: its triangle
/// list and vertex count; `None` when some level would number its vertices
/// past `u32` (its triangle list is as long as the vertices it may add).
pub open spec fn icosphere_level(l: nat) -> Option<(Seq<u32>, int)>
    decreases l,
{
    if l == 0 {
        Some((icosahedron_faces(), ICOSAHEDRON_VERTICES as int))
    } else {
        match icosphere_level((l - 1) as nat) {
            Some((indices, vertices)) => if indices.len() >= u32::MAX - vertices {
                None
            } else {
                let edges = split_edges(indices, indices.len());
                Some((subdivision(indices, edges, vertices), vertices + edges.len()))
            },
            None => None,
        }
    }
}

/// The edges that level `l + 1` splits: those of the triangle list of level
/// `l`, in the order they are first met.
pub open spec fn level_edges(l: nat) -> Seq<(u32, u32)> {
    match icosphere_level(l) {
        Some((indices, _)) => split_edges(indices, indices.len()),
        None => Seq::empty(),
    }
}

proof fn lemma_level_none_stays(l: nat, m: nat)
    requires
        l <= m,
        icosphere_level(l) is None,
    ensures
        icosphere_level(m) is None,
    decreases m - l,
{
    if l < m {
        lemma_level_none_stays(l, (m - 1) as nat);
    }
}

/// The icosphere after `subdivisions` subdivisions of the icosahedron: its
/// triangle list, its vertex count, and for each level the edges whose
/// midpoints that level appended, in order. `None` when a level would
/// number its vertices past `u32`.
pub fn icosphere_topology(subdivisions: usize) -> (topology: Option<
    (Vec<u32>, u32, Vec<Vec<(u32, u32)>>),
>)
    ensures
        topology is None <==> icosphere_level(subdivisions as nat) is None,
        topology matches Some((indices, vertex_count, levels)) ==> {
            &&& icosphere_level(subdivisions as nat) == Some((indices@, vertex_count as int))
            &&& levels@.len() == subdivisions
            &&& forall|l: int| 0 <= l < subdivisions ==> (#[trigger] levels@[l])@ == level_edges(l as nat)
            &&& indices@.len() % 3 == 0
            &&& indices@.len() > 0
            &&& forall|k: int| 0 <= k < indices@.len() ==> indices@[k] < vertex_count
            &&& vertex_count == ICOSAHEDRON_VERTICES + total_split_edges(levels@)
        },
{
    let mut indices: Vec<u32> = icosahedron_indices();
    let mut vertex_count: u32 = ICOSAHEDRON_VERTICES;
    let mut levels: Vec<Vec<(u32, u32)>> = Vec::new();
    let mut level: usize = 0;
    while level < subdivisions
        invariant
            level <= subdivisions,
            levels@.len() == level,
            icosphere_level(level as nat) == Some((indices@, vertex_count as int)),
            forall|l: int| 0 <= l < level ==> (#[trigger] levels@[l])@ == level_edges(l as nat),
            indices@.len() % 3 == 0,
            indices@.len() > 0,
            forall|k: int| 0 <= k < indices@.len() ==> indices@[k] < vertex_count,
            vertex_count == ICOSAHEDRON_VERTICES + total_split_edges(levels@),
        decreases subdivisions - level,
    {
        if indices.len() >= (u32::MAX - vertex_count) as usize {
            proof {
                assert(icosphere_level(level as nat + 1) is None);
                lemma_level_none_stays(level as nat + 1, subdivisions as nat);
            }
            return None;
        }
        let (next, edges) = subdivide_icosphere(indices.as_slice(), vertex_count);
        let ghost before = levels@;
        proof {
            assert(level_edges(level as nat) == edges@);
        }
        vertex_count = vertex_count + edges.len() as u32;
        levels.push(edges);
        proof {
            assert(levels@.drop_last() =~= before);
            assert forall|l: int| 0 <= l < level + 1 implies (#[trigger] levels@[l])@ == level_edges(
                l as nat,
            ) by {
                if l < level {
                    assert(levels@[l] == before[l]);
                }
            }
            assert(next@.len() == 4 * indices@.len());
        }
        indices = next;
        level = level + 1;
    }
    Some((indices, vertex_count, levels))
}

/// Vertices appended by all levels.
pub open spec fn total_split_edges(levels: Seq<Vec<(u32, u32)>>) -> int
    decreases levels.len(),
{
    if levels.len() == 0 {
        0
    } else {
        total_split_edges(levels.drop_last()) + levels.last()@.len()
    }
}

} // verus!
