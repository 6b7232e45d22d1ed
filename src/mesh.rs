use vstd::prelude::*;
use crate::vertex::Vertex;
use crate::indexer::{index_corners, is_indexing, all_distinct};

verus! {

/// One triangulated mesh with a single index stream, its floating-point
/// attributes given as raw bit patterns.
///
/// Corner `i` takes its position from `positions[3 * indices[i] ..][..3]` and
/// its texture coordinate from `texcoords[2 * indices[i] ..][..2]`.
pub struct MeshBits {
    pub indices: Vec<u32>,
    pub positions: Vec<u32>,
    pub texcoords: Vec<u32>,
}

/// Why a set of meshes cannot be indexed.
#[derive(Clone, Copy, Debug, PartialEq, Eq, Structural)]
pub enum MeshError {
    /// A corner refers past the end of its mesh's positions or texture coordinates.
    IndexOutOfRange,
    /// The meshes hold more corners than a `u32` index can count.
    TooManyCorners,
}

/// Attribute index `a` has a whole position and a whole texture coordinate.
pub open spec fn attribute_in_range(positions: Seq<u32>, texcoords: Seq<u32>, a: int) -> bool {
    3 * a + 2 < positions.len() && 2 * a + 1 < texcoords.len()
}

/// Every corner of `m` refers to a whole position and a whole texture coordinate.
pub open spec fn mesh_in_range(m: MeshBits) -> bool {
    forall|i: int|
        0 <= i < m.indices@.len() ==> attribute_in_range(
            m.positions@,
            m.texcoords@,
            #[trigger] m.indices@[i] as int,
        )
}

/// The vertex that attribute index `a` names.
pub open spec fn spec_attribute(positions: Seq<u32>, texcoords: Seq<u32>, a: int) -> Vertex {
    Vertex {
        pos: (positions[3 * a], positions[3 * a + 1], positions[3 * a + 2]),
        texcoord: (texcoords[2 * a], texcoords[2 * a + 1]),
    }
}

/// The corners of `m`, in the order of its index stream.
pub open spec fn spec_mesh_corners(m: MeshBits) -> Seq<Vertex> {
    Seq::new(
        m.indices@.len(),
        |i: int| spec_attribute(m.positions@, m.texcoords@, m.indices@[i] as int),
    )
}

/// Every mesh of `ms` is in range.
pub open spec fn meshes_in_range(ms: Seq<MeshBits>) -> bool {
    forall|j: int| 0 <= j < ms.len() ==> mesh_in_range(#[trigger] ms[j])
}

/// The corners of all meshes of `ms`, one mesh after the other.
pub open spec fn spec_all_corners(ms: Seq<MeshBits>) -> Seq<Vertex>
    decreases ms.len(),
{
    if ms.len() == 0 {
        Seq::empty()
    } else {
        spec_all_corners(ms.drop_last()) + spec_mesh_corners(ms.last())
    }
}

/// Reads the corners of one mesh out of its attribute arrays.
///
/// Returns `None` exactly when some corner refers past the end of the
/// positions or of the texture coordinates.
pub fn mesh_corners(mesh: &MeshBits) -> (r: Option<Vec<Vertex>>)
    ensures
        r is Some <==> mesh_in_range(*mesh),
        r matches Some(c) ==> c@ == spec_mesh_corners(*mesh),
{
    let mut corners: Vec<Vertex> = Vec::new();
    let mut i: usize = 0;
    while i < mesh.indices.len()
        invariant
            i <= mesh.indices@.len(),
            forall|k: int|
                0 <= k < i ==> attribute_in_range(
                    mesh.positions@,
                    mesh.texcoords@,
                    #[trigger] mesh.indices@[k] as int,
                ),
            corners@ =~= spec_mesh_corners(*mesh).take(i as int),
        decreases mesh.indices@.len() - i,
    {
        let a = mesh.indices[i] as u64;
        if 3 * a + 2 >= mesh.positions.len() as u64 || 2 * a + 1 >= mesh.texcoords.len() as u64 {
            return None;
        }
        let p = (3 * a) as usize;
        let t = (2 * a) as usize;
        let v = Vertex {
            pos: (mesh.positions[p], mesh.positions[p + 1], mesh.positions[p + 2]),
            texcoord: (mesh.texcoords[t], mesh.texcoords[t + 1]),
        };
        corners.push(v);
        i = i + 1;
    }
    Some(corners)
}

/// Indexes the corners of all meshes together, one mesh after the other, so a
/// vertex shared by two meshes is stored once.
///
/// Fails with `IndexOutOfRange` when some corner refers past the end of its
/// mesh's attributes, else with `TooManyCorners` when there are more corners
/// than `u32::MAX`; otherwise returns the indexing of all corners.
pub fn index_meshes(meshes: &Vec<MeshBits>) -> (r: Result<(Vec<u32>, Vec<Vertex>), MeshError>)
    ensures
        r == Err::<(Vec<u32>, Vec<Vertex>), MeshError>(MeshError::IndexOutOfRange) <==> !meshes_in_range(
            meshes@,
        ),
        r == Err::<(Vec<u32>, Vec<Vertex>), MeshError>(MeshError::TooManyCorners) <==> (
        meshes_in_range(meshes@) && spec_all_corners(meshes@).len() > u32::MAX),
        r matches Ok((indices, vertices)) ==> is_indexing(
            spec_all_corners(meshes@),
            indices@,
            vertices@,
        ) && all_distinct(vertices@),
{
    let mut corners: Vec<Vertex> = Vec::new();
    let mut j: usize = 0;
    while j < meshes.len()
        invariant
            j <= meshes@.len(),
            forall|k: int| 0 <= k < j ==> mesh_in_range(#[trigger] meshes@[k]),
            corners@ == spec_all_corners(meshes@.take(j as int)),
        decreases meshes@.len() - j,
    {
        proof {
            assert(meshes@.take(j as int + 1).drop_last() =~= meshes@.take(j as int));
        }
        match mesh_corners(&meshes[j]) {
            Some(mut c) => {
                corners.append(&mut c);
            },
            None => {
                return Err(MeshError::IndexOutOfRange);
            },
        }
        j = j + 1;
    }
    proof {
        assert(meshes@.take(j as int) =~= meshes@);
    }
    if corners.len() > u32::MAX as usize {
        return Err(MeshError::TooManyCorners);
    }
    Ok(index_corners(&corners))
}

} // verus!
