use rmesh::creation::{create_box, triangulate_fan};
use rmesh::geometry::Geometry;
use rmesh::path::{rectangle, Curve};
use rmesh::scene::{Scene, SceneNode, SceneNodeKind};
use rmesh::vec3::Point3;

fn bits(x: f64) -> u64 {
    x.to_bits()
}

fn point(x: f64, y: f64, z: f64) -> Point3 {
    Point3 { x: bits(x), y: bits(y), z: bits(z) }
}

#[test]
fn test_scene_basic() {
    let mut scene = Scene::new();

    let mesh = create_box(&[bits(1.0), bits(1.0), bits(1.0)]);
    let geom_index = scene.add_geometry(Geometry::Mesh(Box::new(mesh)));

    let root_node = SceneNode {
        name: "root".to_string(),
        children: Vec::new(),
        transform: None,
        index: vec![geom_index],
        kind: SceneNodeKind::GEOMETRY,
    };

    let root_index = scene.graph.add_node(root_node);
    scene.graph.root = root_index;

    assert_eq!(scene.geometry.len(), 1);
    assert_eq!(scene.graph.nodes.len(), 1);
    assert_eq!(scene.graph.root, 0);
    assert_eq!(scene.graph.nodes[0].name, "root");
    assert_eq!(scene.graph.nodes[0].index.len(), 1);
}

#[test]
fn test_rectangle() {
    let path = rectangle(bits(10.0), bits(5.0));
    assert_eq!(path.vertices.len(), 4);
    assert_eq!(path.entities.len(), 1);

    assert_eq!(path.vertices[0], point(-5.0, -2.5, 0.0));
    assert_eq!(path.vertices[1], point(5.0, -2.5, 0.0));
    assert_eq!(path.vertices[2], point(5.0, 2.5, 0.0));
    assert_eq!(path.vertices[3], point(-5.0, 2.5, 0.0));

    if let Curve::Line { points } = &path.entities[0] {
        assert_eq!(*points, vec![0, 1, 2, 3, 0]);
    } else {
        panic!("Expected Line curve");
    }

    assert_eq!(path.entities.len(), 1);
}

#[test]
fn test_triangulate_fan() {
    let exterior = vec![2usize, 5, 7, 9, 11];
    let triangles = triangulate_fan(&exterior);
    assert_eq!(triangles, vec![(2, 5, 7), (2, 7, 9), (2, 9, 11)]);

    assert!(triangulate_fan(&[1usize]).is_empty());
    assert!(triangulate_fan(&[1usize, 2]).is_empty());
}
