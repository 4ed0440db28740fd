use cirious_crdf::{add_mesh, flip_normals, get_mesh_count, new, remove_mesh, Mesh, Vector3};

fn v3(x: f32, y: f32, z: f32) -> Vector3 {
    Vector3::new(x.to_bits(), y.to_bits(), z.to_bits())
}

#[test]
fn test_add_and_remove_mesh() {
    let mut scene = new();
    let mesh = Mesh::default();
    add_mesh(&mut scene, mesh);
    assert_eq!(get_mesh_count(&scene), 1);
    remove_mesh(&mut scene, 0);
    assert_eq!(get_mesh_count(&scene), 0);
}

#[test]
fn test_flip_normals() {
    let mut scene = new();
    let mut mesh = Mesh::default();
    mesh.normals.push(v3(1.0, 0.0, 0.0));
    add_mesh(&mut scene, mesh);

    flip_normals(&mut scene);

    let n = scene.meshes[0].normals[0];
    assert_eq!(
        (f32::from_bits(n.x), f32::from_bits(n.y), f32::from_bits(n.z)),
        (-1.0, 0.0, 0.0)
    );
}
