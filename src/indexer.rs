use vstd::prelude::*;
use std::collections::HashMap;
use crate::vertex::{
    Vertex,
    spec_head_key,
    spec_tail_key,
    lemma_head_key_injective,
    lemma_tail_key_injective,
};

verus! {

broadcast use vstd::std_specs::hash::group_hash_axioms;

/// The distinct values of `s`, each once, in the order of their first occurrence.
pub open spec fn distinct_in_order(s: Seq<Vertex>) -> Seq<Vertex>
    decreases s.len(),
{
    if s.len() == 0 {
        Seq::empty()
    } else {
        let d = distinct_in_order(s.drop_last());
        if d.contains(s.last()) {
            d
        } else {
            d.push(s.last())
        }
    }
}

/// No value stands twice in `s`.
pub open spec fn all_distinct(s: Seq<Vertex>) -> bool {
    forall|i: int, j: int| 0 <= i < s.len() && 0 <= j < s.len() && i != j ==> s[i] != s[j]
}

/// `indices` and `vertices` are what indexing `corners` yields: the vertices are
/// the distinct corners in order of first occurrence, and each index picks the
/// vertex equal to its corner.
pub open spec fn is_indexing(corners: Seq<Vertex>, indices: Seq<u32>, vertices: Seq<Vertex>) -> bool {
    &&& vertices == distinct_in_order(corners)
    &&& indices.len() == corners.len()
    &&& forall|i: int|
        0 <= i < indices.len() ==> (#[trigger] indices[i]) < vertices.len() && vertices[indices[i] as int]
            == corners[i]
}

/// The distinct values of a sequence hold each value of it once, and no other.
pub proof fn lemma_distinct_in_order(s: Seq<Vertex>)
    ensures
        all_distinct(distinct_in_order(s)),
        distinct_in_order(s).len() <= s.len(),
        forall|x: Vertex| distinct_in_order(s).contains(x) <==> s.contains(x),
    decreases s.len(),
{
    if s.len() > 0 {
        let p = s.drop_last();
        lemma_distinct_in_order(p);
        assert forall|x: Vertex| s.contains(x) <==> (p.contains(x) || x == s.last()) by {
            if s.contains(x) {
                let i = choose|i: int| 0 <= i < s.len() && s[i] == x;
                if i < s.len() - 1 {
                    assert(p[i] == x);
                }
            }
            if p.contains(x) {
                let i = choose|i: int| 0 <= i < p.len() && p[i] == x;
                assert(s[i] == x);
            }
            if x == s.last() {
                assert(s[s.len() - 1] == x);
            }
        }
        let d = distinct_in_order(p);
        if !d.contains(s.last()) {
            let e = d.push(s.last());
            assert forall|x: Vertex| e.contains(x) <==> (d.contains(x) || x == s.last()) by {
                if e.contains(x) {
                    let i = choose|i: int| 0 <= i < e.len() && e[i] == x;
                    if i < d.len() {
                        assert(d[i] == x);
                    }
                }
                if d.contains(x) {
                    let i = choose|i: int| 0 <= i < d.len() && d[i] == x;
                    assert(e[i] == x);
                }
                if x == s.last() {
                    assert(e[e.len() - 1] == x);
                }
            }
            assert forall|i: int, j: int|
                0 <= i < e.len() && 0 <= j < e.len() && i != j implies e[i] != e[j] by {
                if i < d.len() && j < d.len() {
                    assert(e[i] == d[i] && e[j] == d[j]);
                } else if i < d.len() {
                    assert(d.contains(e[i]));
                } else {
                    assert(d.contains(e[j]));
                }
            }
        }
    }
}

/// Indexing is deterministic: a corner stream has exactly one indexing, so two
/// runs on the same corners yield the same indices and the same vertices.
pub proof fn lemma_indexing_deterministic(
    corners: Seq<Vertex>,
    indices1: Seq<u32>,
    vertices1: Seq<Vertex>,
    indices2: Seq<u32>,
    vertices2: Seq<Vertex>,
)
    requires
        is_indexing(corners, indices1, vertices1),
        is_indexing(corners, indices2, vertices2),
    ensures
        indices1 == indices2,
        vertices1 == vertices2,
{
    lemma_distinct_in_order(corners);
    assert forall|i: int| 0 <= i < indices1.len() implies indices1[i] == indices2[i] by {
        assert(vertices1[indices1[i] as int] == vertices1[indices2[i] as int]);
    }
    assert(indices1 =~= indices2);
}

/// Position `p` of `s` holds the `k`-th distinct value, occurs there for the
/// first time, and the distinct values before `p` are the first `k` of them.
pub open spec fn first_seen_at(s: Seq<Vertex>, k: int, p: int) -> bool {
    &&& 0 <= p < s.len()
    &&& s[p] == distinct_in_order(s)[k]
    &&& !s.take(p).contains(s[p])
    &&& distinct_in_order(s.take(p)) == distinct_in_order(s).take(k)
}

/// Some position of `s` is where the `k`-th distinct value is first seen.
pub open spec fn first_seen_somewhere(s: Seq<Vertex>, k: int) -> bool {
    exists|p: int| first_seen_at(s, k, p)
}

/// Each vertex of the distinct values stands for the first corner that equals
/// no earlier one: the vertex at position `k` is the corner at some position
/// `p` whose value does not occur before `p`, and the distinct values of the
/// corners before `p` are exactly the first `k` vertices.
pub proof fn lemma_first_occurrence_order(s: Seq<Vertex>)
    ensures
        forall|k: int|
            0 <= k < distinct_in_order(s).len() ==> #[trigger] first_seen_somewhere(s, k),
    decreases s.len(),
{
    if s.len() > 0 {
        let q = s.drop_last();
        lemma_first_occurrence_order(q);
        lemma_distinct_in_order(q);
        let d = distinct_in_order(q);
        let e = distinct_in_order(s);
        assert forall|k: int| 0 <= k < e.len() implies #[trigger] first_seen_somewhere(s, k) by {
            if k < d.len() {
                assert(first_seen_somewhere(q, k));
                let p = choose|p: int| first_seen_at(q, k, p);
                assert(s.take(p) =~= q.take(p));
                assert(e.take(k) =~= d.take(k));
                assert(first_seen_at(s, k, p));
            } else {
                let p = s.len() - 1;
                assert(s.take(p) =~= q);
                assert(e.take(k) =~= d);
                assert(first_seen_at(s, k, p));
            }
        }
    }
}

/// Collapses equal corners into one vertex each and rebuilds the corner stream
/// as indices into the unique vertices.
///
/// Returns `(indices, vertices)`: one index per corner, and the distinct corners
/// in order of first occurrence. Lookups go through two hash maps keyed by
/// packed bit patterns, so each corner costs expected constant time.
pub fn index_corners(corners: &Vec<Vertex>) -> (r: (Vec<u32>, Vec<Vertex>))
    requires
        corners@.len() <= u32::MAX,
    ensures
        is_indexing(corners@, r.0@, r.1@),
        r.0@.len() == corners@.len(),
        forall|i: int| 0 <= i < r.0@.len() ==> (#[trigger] r.0@[i]) < r.1@.len(),
        forall|i: int| 0 <= i < r.0@.len() ==> r.1@[#[trigger] r.0@[i] as int] == corners@[i],
        all_distinct(r.1@),
        r.1@.len() <= corners@.len(),
{
    // head key of the first four components -> group number
    let mut heads: HashMap<u128, u64> = HashMap::new();
    // tail key of group number and last component -> vertex index
    let mut tails: HashMap<u128, u32> = HashMap::new();
    let mut groups: u64 = 0;
    let ghost mut group_keys: Seq<u128> = Seq::empty();
    let mut indices: Vec<u32> = Vec::new();
    let mut vertices: Vec<Vertex> = Vec::new();
    let mut k: usize = 0;
    while k < corners.len()
        invariant
            k <= corners@.len() <= u32::MAX,
            vertices@ == distinct_in_order(corners@.take(k as int)),
            vertices@.len() <= k,
            indices@.len() == k,
            forall|i: int|
                0 <= i < k ==> (#[trigger] indices@[i]) < vertices@.len() && vertices@[indices@[i] as int]
                    == corners@[i],
            groups == group_keys.len(),
            groups <= vertices@.len(),
            forall|g: int|
                0 <= g < group_keys.len() ==> heads@.contains_key(#[trigger] group_keys[g])
                    && heads@[group_keys[g]] == g,
            forall|key: u128|
                #[trigger] heads@.contains_key(key) ==> heads@[key] < group_keys.len()
                    && group_keys[heads@[key] as int] == key,
            forall|j: int|
                0 <= j < vertices@.len() ==> heads@.contains_key(spec_head_key(#[trigger] vertices@[j])),
            forall|j: int|
                0 <= j < vertices@.len() ==> tails@.contains_key(
                    spec_tail_key(heads@[spec_head_key(#[trigger] vertices@[j])], vertices@[j]),
                ) && tails@[spec_tail_key(heads@[spec_head_key(vertices@[j])], vertices@[j])] == j,
            forall|key: u128|
                #[trigger] tails@.contains_key(key) ==> tails@[key] < vertices@.len() && key
                    == spec_tail_key(
                    heads@[spec_head_key(vertices@[tails@[key] as int])],
                    vertices@[tails@[key] as int],
                ),
        decreases corners@.len() - k,
    {
        let w = corners[k];
        proof {
            lemma_distinct_in_order(corners@.take(k as int));
            assert(corners@.take(k as int + 1).drop_last() =~= corners@.take(k as int));
            assert(corners@.take(k as int + 1).last() == w);
        }
        let hk = w.head_key();
        let found = match heads.get(&hk) {
            Some(g) => {
                let g = *g;
                let tk = w.tail_key(g);
                match tails.get(&tk) {
                    Some(j) => {
                        let j = *j;
                        proof {
                            let v = vertices@[j as int];
                            lemma_tail_key_injective(g, w, heads@[spec_head_key(v)], v);
                            lemma_head_key_injective(w, v);
                        }
                        Some(j)
                    },
                    None => {
                        let n = vertices.len() as u32;
                        proof {
                            if vertices@.contains(w) {
                                let j = choose|j: int| 0 <= j < vertices@.len() && vertices@[j] == w;
                                assert(tails@.contains_key(
                                    spec_tail_key(heads@[spec_head_key(vertices@[j])], vertices@[j]),
                                ));
                            }
                        }
                        tails.insert(tk, n);
                        None
                    },
                }
            },
            None => {
                let g = groups;
                let tk = w.tail_key(g);
                let n = vertices.len() as u32;
                proof {
                    if vertices@.contains(w) {
                        let j = choose|j: int| 0 <= j < vertices@.len() && vertices@[j] == w;
                        assert(heads@.contains_key(spec_head_key(vertices@[j])));
                    }
                    if tails@.contains_key(tk) {
                        let j = tails@[tk];
                        let v = vertices@[j as int];
                        assert(heads@.contains_key(spec_head_key(v)));
                        lemma_tail_key_injective(g, w, heads@[spec_head_key(v)], v);
                    }
                }
                heads.insert(hk, g);
                proof {
                    group_keys = group_keys.push(hk);
                }
                groups = groups + 1;
                tails.insert(tk, n);
                None
            },
        };
        match found {
            Some(j) => {
                indices.push(j);
            },
            None => {
                let n = vertices.len() as u32;
                vertices.push(w);
                indices.push(n);
            },
        }
        k = k + 1;
    }
    proof {
        assert(corners@.take(k as int) =~= corners@);
        lemma_distinct_in_order(corners@);
    }
    (indices, vertices)
}

} // verus!
