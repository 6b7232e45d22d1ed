use vstd::prelude::*;

verus! {

/// Groups an index stream into triangles of three consecutive indices, in
/// order. A trailing run of fewer than three indices forms no triangle.
pub fn triangles(indices: &Vec<u32>) -> (r: Vec<(u32, u32, u32)>)
    ensures
        r@.len() == indices@.len() / 3,
        forall|f: int|
            0 <= f < r@.len() ==> #[trigger] r@[f] == (
                indices@[3 * f],
                indices@[3 * f + 1],
                indices@[3 * f + 2],
            ),
{
    let mut r: Vec<(u32, u32, u32)> = Vec::new();
    let mut i: usize = 0;
    while 3 <= indices.len() - i
        invariant
            i <= indices@.len(),
            i == 3 * r@.len(),
            forall|f: int|
                0 <= f < r@.len() ==> #[trigger] r@[f] == (
                    indices@[3 * f],
                    indices@[3 * f + 1],
                    indices@[3 * f + 2],
                ),
        decreases indices@.len() - i,
    {
        r.push((indices[i], indices[i + 1], indices[i + 2]));
        i = i + 3;
    }
    r
}

/// Splits triangles into three columns of one-based vertex references: the
/// first, second and third corner of each triangle, each plus one.
pub fn face_columns(tris: &Vec<(u32, u32, u32)>) -> (r: (Vec<u64>, Vec<u64>, Vec<u64>))
    ensures
        r.0@.len() == tris@.len(),
        r.1@.len() == tris@.len(),
        r.2@.len() == tris@.len(),
        forall|f: int|
            0 <= f < tris@.len() ==> #[trigger] r.0@[f] == tris@[f].0 + 1 && r.1@[f] == tris@[f].1
                + 1 && r.2@[f] == tris@[f].2 + 1,
{
    let mut a: Vec<u64> = Vec::new();
    let mut b: Vec<u64> = Vec::new();
    let mut c: Vec<u64> = Vec::new();
    let mut f: usize = 0;
    while f < tris.len()
        invariant
            f <= tris@.len(),
            a@.len() == f,
            b@.len() == f,
            c@.len() == f,
            forall|g: int|
                0 <= g < f ==> #[trigger] a@[g] == tris@[g].0 + 1 && b@[g] == tris@[g].1 + 1
                    && c@[g] == tris@[g].2 + 1,
        decreases tris@.len() - f,
    {
        let t = tris[f];
        a.push(t.0 as u64 + 1);
        b.push(t.1 as u64 + 1);
        c.push(t.2 as u64 + 1);
        f = f + 1;
    }
    (a, b, c)
}

} // verus!
