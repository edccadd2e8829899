use rmesh::scalar::{F_COLINEAR, F_DET_EPS, F_FLIP, F_MAX, F_NEG_ONE, F_ONE, F_THREE,
    F_THRESHOLD_BASE, F_TWO, F_ZERO};
use rmesh::simplify::{simplify_mesh, Simplifier, MAX_PASSES, REBUILD_INTERVAL};
use rmesh::vec3::Point3;

fn bits(x: f64) -> u64 {
    x.to_bits()
}

fn as_float(b: u64) -> f64 {
    f64::from_bits(b)
}

fn point(x: f64, y: f64, z: f64) -> Point3 {
    Point3 { x: bits(x), y: bits(y), z: bits(z) }
}

fn cube() -> (Vec<Point3>, Vec<(usize, usize, usize)>) {
    let vertices = vec![
        point(0.0, 0.0, 0.0),
        point(1.0, 0.0, 0.0),
        point(1.0, 1.0, 0.0),
        point(0.0, 1.0, 0.0),
        point(0.0, 0.0, 1.0),
        point(1.0, 0.0, 1.0),
        point(1.0, 1.0, 1.0),
        point(0.0, 1.0, 1.0),
    ];
    let faces = vec![
        (0, 1, 2),
        (0, 2, 3),
        (4, 5, 6),
        (4, 6, 7),
        (0, 1, 5),
        (0, 5, 4),
        (1, 2, 6),
        (1, 6, 5),
        (2, 3, 7),
        (2, 7, 6),
        (3, 0, 4),
        (3, 4, 7),
    ];
    (vertices, faces)
}

#[test]
fn test_simplify_mesh() {
    let (vertices, faces) = cube();
    let target_face_count = 6;
    let aggressiveness = bits(7.0);

    let (simplified_vertices, simplified_faces) =
        simplify_mesh(&vertices, &faces, target_face_count, aggressiveness);

    assert!(simplified_vertices.len() <= vertices.len());
    assert!(simplified_faces.len() <= target_face_count);
}

#[test]
fn test_simplify_noop_when_target_at_face_count() {
    let (vertices, faces) = cube();
    for aggressiveness in [bits(1.0), bits(7.0), bits(20.0)] {
        let (sv, sf) = simplify_mesh(&vertices, &faces, 12, aggressiveness);
        assert_eq!(sv, vertices);
        assert_eq!(sf, faces);
        let (sv2, sf2) = simplify_mesh(&vertices, &faces, 100, aggressiveness);
        assert_eq!(sv2, vertices);
        assert_eq!(sf2, faces);
    }
}

#[test]
fn test_simplify_target_zero_returns_empty() {
    let (vertices, faces) = cube();
    let (sv, sf) = simplify_mesh(&vertices, &faces, 0, bits(7.0));
    assert!(sv.is_empty());
    assert!(sf.is_empty());
}

#[test]
fn test_simplify_target_zero_without_faces_is_noop() {
    // the degenerate no-op checks run first: with no faces at all, a zero
    // target still returns the input unchanged
    let vertices = vec![point(0.0, 0.0, 0.0), point(1.0, 0.0, 0.0)];
    let faces: Vec<(usize, usize, usize)> = vec![];
    let (sv, sf) = simplify_mesh(&vertices, &faces, 0, bits(7.0));
    assert_eq!(sv.len(), 2);
    assert!(sf.is_empty());
}

#[test]
fn test_simplified_cube_is_dense_and_finite() {
    let (vertices, faces) = cube();
    let (sv, sf) = simplify_mesh(&vertices, &faces, 6, bits(7.0));
    assert!(sf.len() <= 6);
    assert!(sf.len() <= faces.len());
    assert!(sv.len() <= 8);
    // every index in range
    for f in &sf {
        assert!(f.0 < sv.len() && f.1 < sv.len() && f.2 < sv.len());
    }
    // no orphan vertices survive compaction
    for j in 0..sv.len() {
        assert!(sf.iter().any(|f| f.0 == j || f.1 == j || f.2 == j));
    }
    // no NaN or infinite coordinate
    for v in &sv {
        assert!(as_float(v.x).is_finite());
        assert!(as_float(v.y).is_finite());
        assert!(as_float(v.z).is_finite());
    }
}

#[test]
fn test_engine_reports_reaching_the_target() {
    let (vertices, faces) = cube();
    let mut s = Simplifier::new(&vertices, &faces);
    let reached = s.simplify(6, bits(7.0));
    assert!(reached);
    let (sv, sf) = s.get_result();
    assert!(sf.len() <= 6);
    assert!(sv.len() <= 8);
}

#[test]
fn test_flip_guard_rejects_inverting_move() {
    // one well-formed triangle and a spare vertex; moving the triangle's
    // first corner to the mirror image of itself across the opposite edge
    // would invert the triangle's normal, and the guard must reject it
    let vertices = vec![
        point(0.0, 0.0, 0.0),
        point(1.0, 0.0, 0.0),
        point(0.0, 1.0, 0.0),
        point(5.0, 5.0, 5.0),
    ];
    let faces = vec![(0, 1, 2)];
    let mut s = Simplifier::new(&vertices, &faces);
    // first rebuild: reference table, borders, quadrics and normals
    s.update_mesh(0);

    // collapsing toward the spare vertex 3 leaves triangle (0,1,2) as a
    // surviving neighbor of vertex 0
    let mut flags = vec![false; 4];
    // the mirror image of corner 0 across the edge between 1 and 2 flips
    // the winding: rejected
    assert!(s.flipped(&point(1.0, 1.0, 0.0), 0, 3, &mut flags));
    // keeping the corner where it is preserves the normal: accepted
    let mut flags2 = vec![false; 4];
    assert!(!s.flipped(&point(0.0, 0.0, 0.0), 0, 3, &mut flags2));
}

#[test]
fn test_thin_sliver_never_degenerates_neighbors() {
    // a thin spike: a sliver triangle sharing an edge with well-formed
    // geometry; after simplification with a tight target every surviving
    // face still has three distinct corners in range
    let vertices = vec![
        point(0.0, 0.0, 0.0),
        point(2.0, 0.0, 0.0),
        point(1.0, 2.0, 0.0),
        point(1.0, 0.001, 0.0),
    ];
    let faces = vec![(0, 1, 3), (0, 3, 2), (3, 1, 2)];
    let (sv, sf) = simplify_mesh(&vertices, &faces, 1, bits(7.0));
    assert!(sf.len() <= faces.len());
    for f in &sf {
        assert!(f.0 < sv.len() && f.1 < sv.len() && f.2 < sv.len());
    }
}

#[test]
fn test_policy_constants_are_exact() {
    // the empirically-tuned guard thresholds and the fixed pass policy are
    // reproduced exactly
    assert_eq!(F_ZERO, 0.0f64.to_bits());
    assert_eq!(F_ONE, 1.0f64.to_bits());
    assert_eq!(F_NEG_ONE, (-1.0f64).to_bits());
    assert_eq!(F_TWO, 2.0f64.to_bits());
    assert_eq!(F_THREE, 3.0f64.to_bits());
    assert_eq!(F_MAX, f64::MAX.to_bits());
    assert_eq!(F_DET_EPS, 1e-15f64.to_bits());
    assert_eq!(F_THRESHOLD_BASE, 1e-9f64.to_bits());
    assert_eq!(F_COLINEAR, 0.999f64.to_bits());
    assert_eq!(F_FLIP, 0.2f64.to_bits());
    assert_eq!(MAX_PASSES, 100);
    assert_eq!(REBUILD_INTERVAL, 5);
}
