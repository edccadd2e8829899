use rmesh::mesh::{MeshError, Trimesh};
use rmesh::creation::create_box;
use rmesh::vec3::Point3;

fn bits(x: f64) -> u64 {
    x.to_bits()
}

fn as_float(b: u64) -> f64 {
    f64::from_bits(b)
}

fn point(x: f64, y: f64, z: f64) -> Point3 {
    Point3 { x: bits(x), y: bits(y), z: bits(z) }
}

fn flat(coords: &[f64]) -> Vec<u64> {
    let mut r = Vec::new();
    for c in coords {
        r.push(bits(*c));
    }
    r
}

fn unit_box() -> Trimesh {
    create_box(&[bits(1.0), bits(1.0), bits(1.0)])
}

#[test]
fn creation_test_mesh_normals() {
    let mut m = Trimesh::from_slice(
        &flat(&[0.0, 0.0, 0.0, 1.0, 0.0, 0.0, 0.0, 1.0, 0.0]),
        &vec![0, 1, 2],
    )
    .unwrap();
    let normals = m.face_normals();
    assert_eq!(normals.len(), 1);
    assert!((as_float(normals[0].x) - 0.0).abs() < 1e-6);
    assert!((as_float(normals[0].y) - 0.0).abs() < 1e-6);
    assert!((as_float(normals[0].z) - 1.0).abs() < 1e-6);
}

#[test]
fn mesh_test_mesh_box() {
    let box_mesh = unit_box();
    assert_eq!(box_mesh.vertices.len(), 8);
    assert_eq!(box_mesh.faces.len(), 12);

    let bounds = box_mesh.bounds().unwrap();
    assert_eq!(bounds.0, point(-0.5, -0.5, -0.5));
    assert_eq!(bounds.1, point(0.5, 0.5, 0.5));
}

#[test]
fn mesh_test_mesh_adj() {
    let mut box_mesh = unit_box();
    let adj = box_mesh.face_adjacency();
    let ang = box_mesh.face_adjacency_angles();
    assert_eq!(adj.len(), 18);
    assert_eq!(ang.len(), 18);

    // angles for a box should always be 0 or 90 degrees
    for a in ang.iter() {
        let v = as_float(*a);
        assert!((v - 0.0).abs() < 1e-10 || (v - std::f64::consts::PI / 2.0).abs() < 1e-10);
    }
}

#[test]
fn test_from_slice_rejects_ragged_buffers() {
    assert_eq!(
        Trimesh::from_slice(&flat(&[0.0, 0.0]), &vec![]).unwrap_err(),
        MeshError::NonTripleBuffer
    );
    assert_eq!(
        Trimesh::from_slice(&flat(&[0.0, 0.0, 0.0]), &vec![0, 1]).unwrap_err(),
        MeshError::NonTripleBuffer
    );
}

#[test]
fn test_bounds_no_vertices() {
    let m = Trimesh::new(vec![], vec![], None, None).unwrap();
    assert_eq!(m.bounds().unwrap_err(), MeshError::NoVertices);
}

#[test]
fn test_bounds_degenerate() {
    // a single vertex duplicated five times with identical coordinates
    let p = point(1.5, -2.0, 0.25);
    let m = Trimesh::new(vec![p, p, p, p, p], vec![], None, None).unwrap();
    assert_eq!(m.bounds().unwrap_err(), MeshError::DegenerateBounds);
}

#[test]
fn test_face_normals_repeat_identical() {
    let mut m = unit_box();
    let first = m.face_normals();
    let second = m.face_normals();
    assert_eq!(first.len(), second.len());
    for i in 0..first.len() {
        // bit-identical, not merely approximately equal
        assert_eq!(first[i], second[i]);
    }
}

#[test]
fn test_simplified_mesh_has_fresh_cache() {
    let mut m = unit_box();
    // populate the source mesh's cache first
    let _ = m.face_normals();
    let _ = m.edges();
    assert!(m._cache.face_normals.is_some());
    let s = m.simplify(6, bits(7.0));
    assert!(s._cache.face_normals.is_none());
    assert!(s._cache.edges.is_none());
    assert!(s._cache.faces_cross.is_none());
    assert!(s._cache.face_adjacency.is_none());
}

#[test]
fn test_area_of_right_triangle() {
    let mut m = Trimesh::from_slice(
        &flat(&[0.0, 0.0, 0.0, 1.0, 0.0, 0.0, 0.0, 1.0, 0.0]),
        &vec![0, 1, 2],
    )
    .unwrap();
    let areas = m.faces_area();
    assert_eq!(areas.len(), 1);
    assert_eq!(areas[0], bits(0.5));
    assert_eq!(m.area(), bits(0.5));
}

#[test]
fn test_box_area() {
    let mut m = unit_box();
    // six unit faces, two triangles each
    assert!((as_float(m.area()) - 6.0).abs() < 1e-12);
}

#[test]
fn test_uv_empty() {
    let m = unit_box();
    assert!(m.uv().is_none());
}

#[test]
fn mesh_test_mesh_normals() {
    let mut m = Trimesh::from_slice(
        &flat(&[0.0, 0.0, 0.0, 1.0, 0.0, 0.0, 0.0, 1.0, 0.0]),
        &vec![0, 1, 2],
    )
    .unwrap();
    let normals = m.face_normals();
    assert_eq!(normals.len(), 1);
    assert!((as_float(normals[0].x) - 0.0).abs() < 1e-6);
    assert!((as_float(normals[0].y) - 0.0).abs() < 1e-6);
    assert!((as_float(normals[0].z) - 1.0).abs() < 1e-6);
}

#[test]
fn creation_test_mesh_box() {
    let box_mesh = unit_box();
    assert_eq!(box_mesh.vertices.len(), 8);
    assert_eq!(box_mesh.faces.len(), 12);

    let bounds = box_mesh.bounds().unwrap();
    assert_eq!(bounds.0, point(-0.5, -0.5, -0.5));
    assert_eq!(bounds.1, point(0.5, 0.5, 0.5));
}

#[test]
fn test_bounds_componentwise_extremes() {
    // the extremes come from different vertices in each component, so the
    // fold must really compare rather than keep either argument
    let m = Trimesh::new(
        vec![point(1.0, 2.0, 3.0), point(0.0, 5.0, 6.0), point(4.0, -1.0, 7.0)],
        vec![],
        None,
        None,
    )
    .unwrap();
    let (lower, upper) = m.bounds().unwrap();
    assert_eq!(lower, point(0.0, -1.0, 3.0));
    assert_eq!(upper, point(4.0, 5.0, 7.0));
}

#[test]
fn test_face_adjacency_drops_nonmanifold_extras() {
    // three faces share the undirected edge between vertices 0 and 1: only
    // the first two pair; the third occurrence is silently dropped
    let mut m = Trimesh::new(
        vec![
            point(0.0, 0.0, 0.0),
            point(1.0, 0.0, 0.0),
            point(0.0, 1.0, 0.0),
            point(0.0, 0.0, 1.0),
            point(0.0, -1.0, 0.0),
        ],
        vec![(0, 1, 2), (0, 1, 3), (0, 1, 4)],
        None,
        None,
    )
    .unwrap();
    let adj = m.face_adjacency();
    assert_eq!(adj, vec![(0, 1)]);
}
