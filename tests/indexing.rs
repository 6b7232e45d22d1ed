use mesh_indexer::indexer::index_corners;
use mesh_indexer::vertex::Vertex;

fn corner(p: (f32, f32, f32), t: (f32, f32)) -> Vertex {
    Vertex {
        pos: (p.0.to_bits(), p.1.to_bits(), p.2.to_bits()),
        texcoord: (t.0.to_bits(), t.1.to_bits()),
    }
}

#[test]
fn identical_corners_collapse_to_one_vertex() {
    let c = corner((1.0, 2.0, 3.0), (0.5, 0.25));
    let (indices, vertices) = index_corners(&vec![c, c, c]);
    assert_eq!(vertices, vec![c]);
    assert_eq!(indices, vec![0, 0, 0]);
}

#[test]
fn distinct_corners_keep_input_order() {
    let a = corner((0.0, 0.0, 0.0), (0.0, 0.0));
    let b = corner((1.0, 0.0, 0.0), (1.0, 0.0));
    let c = corner((0.0, 1.0, 0.0), (0.0, 1.0));
    let (indices, vertices) = index_corners(&vec![a, b, c]);
    assert_eq!(vertices, vec![a, b, c]);
    assert_eq!(indices, vec![0, 1, 2]);
}

#[test]
fn cube_corners_count_position_texcoord_pairs() {
    let mut corners = Vec::new();
    for k in 0..24u32 {
        let p = k % 8;
        let pos = ((p & 1) as f32, ((p >> 1) & 1) as f32, ((p >> 2) & 1) as f32);
        corners.push(corner(pos, (k as f32 / 24.0, 1.0 - k as f32 / 24.0)));
    }
    let (indices, vertices) = index_corners(&corners);
    assert_eq!(vertices.len(), 24);
    assert_eq!(indices, (0..24u32).collect::<Vec<u32>>());
    assert_eq!(vertices, corners);
}

#[test]
fn cube_with_shared_texcoords_per_position() {
    let mut corners = Vec::new();
    for k in 0..24u32 {
        let p = k % 8;
        let pos = ((p & 1) as f32, ((p >> 1) & 1) as f32, ((p >> 2) & 1) as f32);
        corners.push(corner(pos, (pos.0, pos.1)));
    }
    let (indices, vertices) = index_corners(&corners);
    assert_eq!(vertices.len(), 8);
    assert_eq!(vertices, corners[0..8].to_vec());
    for k in 0..24usize {
        assert_eq!(indices[k], (k % 8) as u32);
    }
}

#[test]
fn empty_input_gives_empty_outputs() {
    let (indices, vertices) = index_corners(&Vec::new());
    assert!(indices.is_empty());
    assert!(vertices.is_empty());
}

#[test]
fn signed_zero_texcoords_are_distinct() {
    let a = corner((1.0, 1.0, 1.0), (0.0, 0.5));
    let b = corner((1.0, 1.0, 1.0), (-0.0, 0.5));
    let (indices, vertices) = index_corners(&vec![a, b]);
    assert_eq!(vertices, vec![a, b]);
    assert_eq!(indices, vec![0, 1]);
}

#[test]
fn nan_matches_only_same_payload() {
    let quiet = f32::from_bits(0x7fc0_0000);
    let other = f32::from_bits(0x7fc0_0001);
    let a = corner((quiet, 0.0, 0.0), (0.0, 0.0));
    let b = corner((quiet, 0.0, 0.0), (0.0, 0.0));
    let c = corner((other, 0.0, 0.0), (0.0, 0.0));
    let (indices, vertices) = index_corners(&vec![a, b, c]);
    assert_eq!(vertices, vec![a, c]);
    assert_eq!(indices, vec![0, 0, 1]);
}

#[test]
fn last_component_alone_tells_vertices_apart() {
    let a = corner((1.0, 2.0, 3.0), (4.0, 5.0));
    let b = corner((1.0, 2.0, 3.0), (4.0, 6.0));
    let (indices, vertices) = index_corners(&vec![a, b, a, b, b]);
    assert_eq!(vertices, vec![a, b]);
    assert_eq!(indices, vec![0, 1, 0, 1, 1]);
}

#[test]
fn repeated_runs_give_identical_output() {
    let a = corner((1.0, 0.0, 0.0), (0.0, 0.0));
    let b = corner((0.0, 1.0, 0.0), (0.0, 0.0));
    let c = corner((0.0, 0.0, 1.0), (1.0, 1.0));
    let input = vec![a, b, c, c, b, a, b, c, a];
    let first = index_corners(&input);
    let second = index_corners(&input);
    assert_eq!(first, second);
}

#[test]
fn indices_are_valid_and_round_trip() {
    let a = corner((1.0, 0.0, 0.0), (0.0, 0.0));
    let b = corner((0.0, 1.0, 0.0), (0.0, 0.0));
    let c = corner((0.0, 0.0, 1.0), (1.0, 1.0));
    let input = vec![c, a, c, b, b, a];
    let (indices, vertices) = index_corners(&input);
    assert_eq!(indices.len(), input.len());
    assert!(vertices.len() <= input.len());
    for (i, &ix) in indices.iter().enumerate() {
        assert!((ix as usize) < vertices.len());
        assert_eq!(vertices[ix as usize], input[i]);
    }
    for i in 0..vertices.len() {
        for j in 0..vertices.len() {
            if i != j {
                assert_ne!(vertices[i], vertices[j]);
            }
        }
    }
    assert_eq!(vertices, vec![c, a, b]);
    assert_eq!(indices, vec![0, 1, 0, 2, 2, 1]);
}
