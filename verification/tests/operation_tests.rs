use cirious_crdf::obj_export::obj_faces_text;
use cirious_crdf::smoothing::{attach_vertex_normals, smooth_normals_by_keys};
use cirious_crdf::{
    add_material, add_mesh, assign_material, clear_materials, flip_faces, flip_normals, get_face_count,
    get_vertex_count, merge, new, remove_material, split, triangulate_face, unweld, validate, CrdError,
    Face, GridKey, Material, Mesh, Scene, Vector2, Vector3,
};
use cirious_crdf::{decimate, optimize_by_keys, subdivide, weld_by_keys};

fn v3(x: f32, y: f32, z: f32) -> Vector3 {
    Vector3::new(x.to_bits(), y.to_bits(), z.to_bits())
}

fn face(v: &[u32], n: &[u32], t: &[u32], m: Option<u32>) -> Face {
    Face { vertex_indices: v.to_vec(), normal_indices: n.to_vec(), uv_indices: t.to_vec(), material_index: m }
}

fn material(name: &str) -> Material {
    let mut m = Material::default();
    m.name = name.to_string();
    m
}

/// A square made of two triangles, with one normal per corner and UVs.
fn square(name: &str) -> Mesh {
    let mut m = Mesh::default();
    m.name = name.to_string();
    m.vertices = vec![v3(0.0, 0.0, 0.0), v3(1.0, 0.0, 0.0), v3(1.0, 1.0, 0.0), v3(0.0, 1.0, 0.0)];
    m.normals = vec![v3(0.0, 0.0, 1.0)];
    m.uvs = vec![Vector2 { u: 0, v: 0 }, Vector2 { u: 1, v: 1 }];
    m.faces = vec![face(&[0, 1, 2], &[0, 0, 0], &[0, 1, 0], Some(0)), face(&[0, 2, 3], &[0, 0, 0], &[], None)];
    m
}

fn invalid_message(scene: &Scene) -> String {
    match validate(scene) {
        Err(CrdError::InvalidIndex(m)) => m,
        _ => panic!("expected an invalid index"),
    }
}

#[test]
fn validate_accepts_valid_scene() {
    let mut scene = new();
    add_material(&mut scene, material("red"));
    add_mesh(&mut scene, square("sq"));
    assert!(validate(&scene).is_ok());
}

#[test]
fn validate_reports_each_kind_of_index() {
    let mut scene = new();
    add_material(&mut scene, material("red"));
    let mut m = square("sq");
    m.faces[1].vertex_indices[2] = 7;
    add_mesh(&mut scene, m);
    assert_eq!(invalid_message(&scene), "Invalid vertex index: 7");

    scene.meshes[0] = square("sq");
    scene.meshes[0].faces[0].normal_indices[1] = 3;
    assert_eq!(invalid_message(&scene), "Invalid normal index: 3");

    scene.meshes[0] = square("sq");
    scene.meshes[0].faces[0].uv_indices[0] = 2;
    assert_eq!(invalid_message(&scene), "Invalid uv index: 2");

    scene.meshes[0] = square("sq");
    scene.meshes[0].faces[1].material_index = Some(1);
    assert_eq!(invalid_message(&scene), "Invalid material index: 1");
}

#[test]
fn remove_material_relabels_faces() {
    let mut scene = new();
    add_material(&mut scene, material("a"));
    add_material(&mut scene, material("b"));
    add_material(&mut scene, material("c"));
    let mut m = square("sq");
    m.faces[0].material_index = Some(1);
    m.faces[1].material_index = Some(2);
    add_mesh(&mut scene, m);
    remove_material(&mut scene, 1);
    assert_eq!(scene.materials.len(), 2);
    assert_eq!(scene.materials[1].name, "c");
    assert_eq!(scene.meshes[0].faces[0].material_index, None);
    assert_eq!(scene.meshes[0].faces[1].material_index, Some(1));
    assert!(validate(&scene).is_ok());
    remove_material(&mut scene, 5);
    assert_eq!(scene.materials.len(), 2);
}

#[test]
fn removing_added_material_restores_scene() {
    let mut scene = new();
    add_material(&mut scene, material("a"));
    add_mesh(&mut scene, square("sq"));
    let before = scene.clone();
    add_material(&mut scene, material("b"));
    remove_material(&mut scene, 1);
    assert_eq!(scene, before);
}

#[test]
fn assign_and_clear_materials_keep_valid() {
    let mut scene = new();
    add_material(&mut scene, material("a"));
    add_material(&mut scene, material("b"));
    add_mesh(&mut scene, square("sq"));
    assign_material(&mut scene, 0, 1);
    assert!(scene.meshes[0].faces.iter().all(|f| f.material_index == Some(1)));
    assert!(validate(&scene).is_ok());
    assign_material(&mut scene, 0, 9);
    assert!(scene.meshes[0].faces.iter().all(|f| f.material_index == Some(1)));
    clear_materials(&mut scene);
    assert!(scene.materials.is_empty());
    assert!(scene.meshes[0].faces.iter().all(|f| f.material_index.is_none()));
    assert!(validate(&scene).is_ok());
}

#[test]
fn flipping_twice_restores_scene() {
    let mut scene = new();
    add_mesh(&mut scene, square("sq"));
    let before = scene.clone();
    flip_faces(&mut scene);
    assert_eq!(scene.meshes[0].faces[0].vertex_indices, vec![2, 1, 0]);
    assert_eq!(scene.meshes[0].faces[0].uv_indices, vec![0, 1, 0]);
    flip_faces(&mut scene);
    assert_eq!(scene, before);
    flip_normals(&mut scene);
    assert_eq!(f32::from_bits(scene.meshes[0].normals[0].z), -1.0);
    flip_normals(&mut scene);
    assert_eq!(scene, before);
}

#[test]
fn triangulation_makes_fan_triangles() {
    let f = face(&[0, 1, 2, 3, 4], &[5, 6, 7, 8, 9], &[1, 2], Some(3));
    let ts = triangulate_face(&f);
    assert_eq!(ts.len(), 3);
    assert_eq!(ts[0].vertex_indices, vec![0, 1, 2]);
    assert_eq!(ts[1].vertex_indices, vec![0, 2, 3]);
    assert_eq!(ts[2].vertex_indices, vec![0, 3, 4]);
    assert_eq!(ts[2].normal_indices, vec![5, 8, 9]);
    assert_eq!(ts[0].uv_indices, Vec::<u32>::new());
    assert!(ts.iter().all(|t| t.material_index == Some(3)));
    let small = face(&[0, 1], &[], &[], None);
    assert!(triangulate_face(&small).is_empty());
}

#[test]
fn merge_shifts_indices_and_keeps_faces() {
    let mut scene = new();
    add_material(&mut scene, material("a"));
    add_mesh(&mut scene, square("one"));
    add_mesh(&mut scene, square("two"));
    let faces = get_face_count(&scene);
    let vertices = get_vertex_count(&scene);
    merge(&mut scene, "all");
    assert_eq!(scene.meshes.len(), 1);
    assert_eq!(scene.meshes[0].name, "all");
    assert_eq!(get_face_count(&scene), faces);
    assert_eq!(get_vertex_count(&scene), vertices);
    assert_eq!(scene.meshes[0].faces[2].vertex_indices, vec![4, 5, 6]);
    assert_eq!(scene.meshes[0].faces[2].normal_indices, vec![1, 1, 1]);
    assert_eq!(scene.meshes[0].faces[2].uv_indices, vec![2, 3, 2]);
    assert!(validate(&scene).is_ok());
}

#[test]
fn merge_leaves_single_mesh_alone() {
    let mut scene = new();
    add_mesh(&mut scene, square("one"));
    let before = scene.clone();
    merge(&mut scene, "all");
    assert_eq!(scene, before);
}

#[test]
fn unweld_copies_each_corner() {
    let mut scene = new();
    add_material(&mut scene, material("a"));
    add_mesh(&mut scene, square("sq"));
    let before = scene.clone();
    unweld(&mut scene);
    let m = &scene.meshes[0];
    assert_eq!(m.vertices.len(), 6);
    assert_eq!(m.normals.len(), 6);
    assert_eq!(m.uvs.len(), 3);
    assert_eq!(m.faces[1].vertex_indices, vec![3, 4, 5]);
    for (j, f) in m.faces.iter().enumerate() {
        let old = &before.meshes[0].faces[j];
        for i in 0..f.vertex_indices.len() {
            assert_eq!(
                m.vertices[f.vertex_indices[i] as usize],
                before.meshes[0].vertices[old.vertex_indices[i] as usize]
            );
        }
        assert_eq!(f.material_index, old.material_index);
    }
    assert!(validate(&scene).is_ok());
}

#[test]
fn split_separates_disconnected_parts() {
    let mut m = Mesh::default();
    m.name = "pair".to_string();
    m.vertices = vec![
        v3(0.0, 0.0, 0.0),
        v3(1.0, 0.0, 0.0),
        v3(0.0, 1.0, 0.0),
        v3(5.0, 0.0, 0.0),
        v3(6.0, 0.0, 0.0),
        v3(5.0, 1.0, 0.0),
        v3(1.0, 1.0, 0.0),
    ];
    m.faces = vec![
        face(&[3, 4, 5], &[], &[], None),
        face(&[0, 1, 2], &[], &[], Some(0)),
        face(&[1, 6, 2], &[], &[], None),
    ];
    let mut scene = new();
    add_material(&mut scene, material("a"));
    add_mesh(&mut scene, m.clone());
    split(&mut scene);
    assert_eq!(scene.meshes.len(), 2);
    assert_eq!(scene.meshes[0].name, "pair_part0");
    assert_eq!(scene.meshes[1].name, "pair_part1");
    let p0 = &scene.meshes[0];
    assert_eq!(p0.faces.len(), 1);
    assert_eq!(p0.vertices, vec![m.vertices[3], m.vertices[4], m.vertices[5]]);
    assert_eq!(p0.faces[0].vertex_indices, vec![0, 1, 2]);
    let p1 = &scene.meshes[1];
    assert_eq!(p1.faces.len(), 2);
    assert_eq!(p1.vertices, vec![m.vertices[0], m.vertices[1], m.vertices[2], m.vertices[6]]);
    assert_eq!(p1.faces[0].vertex_indices, vec![0, 1, 2]);
    assert_eq!(p1.faces[0].material_index, Some(0));
    assert_eq!(p1.faces[1].vertex_indices, vec![1, 3, 2]);
    assert_eq!(get_face_count(&scene), 3);
    assert!(validate(&scene).is_ok());
}

#[test]
fn split_keeps_connected_mesh() {
    let mut scene = new();
    add_mesh(&mut scene, square("sq"));
    add_mesh(&mut scene, Mesh::default());
    let before = scene.clone();
    split(&mut scene);
    assert_eq!(scene, before);
}

#[test]
fn weld_merges_vertices_of_one_cell() {
    let mut m = Mesh::default();
    m.vertices = vec![v3(0.0, 0.0, 0.0), v3(1.0, 0.0, 0.0), v3(0.001, 0.0, 0.0), v3(0.0, 1.0, 0.0)];
    m.faces = vec![face(&[0, 1, 3], &[], &[], None), face(&[2, 1, 3], &[], &[], None)];
    let mut scene = new();
    add_mesh(&mut scene, m);
    let keys = vec![vec![
        GridKey { x: 0, y: 0, z: 0 },
        GridKey { x: 10, y: 0, z: 0 },
        GridKey { x: 0, y: 0, z: 0 },
        GridKey { x: 0, y: 10, z: 0 },
    ]];
    weld_by_keys(&mut scene, &keys);
    let w = &scene.meshes[0];
    assert_eq!(w.vertices.len(), 3);
    assert_eq!(w.faces[0].vertex_indices, vec![0, 1, 2]);
    assert_eq!(w.faces[1].vertex_indices, vec![0, 1, 2]);
    assert!(validate(&scene).is_ok());
}

#[test]
fn optimize_keeps_one_element_per_key() {
    let mut m = Mesh::default();
    m.vertices = vec![v3(0.0, 0.0, 0.0), v3(1.0, 0.0, 0.0), v3(0.0, 0.0, 0.0), v3(9.0, 9.0, 9.0)];
    m.normals = vec![v3(0.0, 0.0, 1.0), v3(0.0, 0.0, 1.0)];
    m.faces = vec![face(&[0, 1, 2], &[0, 1, 1], &[], None)];
    let mut scene = new();
    add_mesh(&mut scene, m);
    let k = |x: i32| GridKey { x, y: 0, z: 0 };
    let vk = vec![vec![k(0), k(1), k(0), k(9)]];
    let nk = vec![vec![k(5), k(5)]];
    let tk = vec![vec![]];
    optimize_by_keys(&mut scene, &vk, &nk, &tk);
    let o = &scene.meshes[0];
    assert_eq!(o.vertices.len(), 2);
    assert_eq!(o.normals.len(), 1);
    assert_eq!(o.faces[0].vertex_indices, vec![0, 1, 0]);
    assert_eq!(o.faces[0].normal_indices, vec![0, 0, 0]);
    assert!(validate(&scene).is_ok());
}

#[test]
fn smoothing_points_corners_at_merged_normals() {
    let mut m = Mesh::default();
    m.vertices = vec![v3(0.0, 0.0, 0.0), v3(1.0, 0.0, 0.0), v3(0.0, 1.0, 0.0)];
    m.faces = vec![face(&[0, 1, 2], &[], &[], None)];
    let mut scene = new();
    add_mesh(&mut scene, m);
    let up = v3(0.0, 0.0, 1.0);
    let side = v3(1.0, 0.0, 0.0);
    let normals = vec![vec![up, up, side]];
    let k = |x: i32| GridKey { x, y: 0, z: 0 };
    let keys = vec![vec![k(1), k(1), k(2)]];
    smooth_normals_by_keys(&mut scene, &normals, &keys);
    let s = &scene.meshes[0];
    assert_eq!(s.normals, vec![up, side]);
    assert_eq!(s.faces[0].normal_indices, vec![0, 0, 1]);
}

#[test]
fn smoothing_appends_for_missing_positions() {
    let mut m = Mesh::default();
    m.vertices = vec![v3(0.0, 0.0, 0.0), v3(1.0, 0.0, 0.0), v3(0.0, 1.0, 0.0)];
    m.faces = vec![face(&[2, 1, 0], &[], &[], None)];
    let mut scene = new();
    add_mesh(&mut scene, m);
    let n = |x: f32| v3(x, 0.0, 0.0);
    let k = |x: i32| GridKey { x, y: 0, z: 0 };
    smooth_normals_by_keys(&mut scene, &vec![vec![n(1.0), n(2.0), n(3.0)]], &vec![vec![k(1), k(2), k(3)]]);
    let s = &scene.meshes[0];
    assert_eq!(s.normals.len(), 3);
    assert_eq!(s.faces[0].normal_indices, vec![2, 1]);
}

#[test]
fn vertex_normals_follow_vertices() {
    let mut scene = new();
    add_material(&mut scene, material("a"));
    add_mesh(&mut scene, square("sq"));
    let ns = vec![v3(0.0, 0.0, 1.0); 4];
    attach_vertex_normals(&mut scene, vec![ns.clone()]);
    assert_eq!(scene.meshes[0].normals, ns);
    assert_eq!(scene.meshes[0].faces[1].normal_indices, vec![0, 2, 3]);
    assert!(validate(&scene).is_ok());
}

#[test]
fn obj_faces_text_writes_corners_and_materials() {
    let mut m = Mesh::default();
    m.faces = vec![
        face(&[0, 1, 2], &[0, 1], &[4, 5, 6], Some(1)),
        face(&[2, 3, 0], &[], &[], Some(1)),
        face(&[0, 1, 3], &[2, 2, 2], &[], None),
        face(&[1, 2, 3], &[], &[], Some(7)),
        face(&[1, 2, 3], &[], &[], Some(0)),
    ];
    let materials = vec![material("red"), material("blue")];
    let text = obj_faces_text(&m, &materials);
    assert_eq!(
        text,
        "usemtl blue\nf 1/5/1 2/6/2 3/7/\nf 3// 4// 1//\nf 1//3 2//3 4//3\nf 2// 3// 4//\nusemtl red\nf 2// 3// 4//\n"
    );
}

#[test]
fn smoothing_with_a_normal_per_corner_sets_every_corner() {
    let mut scene = new();
    add_mesh(&mut scene, square("sq"));
    let up = v3(0.0, 0.0, 1.0);
    let tilted = v3(0.0, 1.0, 1.0);
    let normals = vec![vec![up, up, tilted, up]];
    let k = |x: i32| GridKey { x, y: 0, z: 0 };
    let keys = vec![vec![k(0), k(0), k(7), k(0)]];
    let mut scene2 = scene.clone();
    add_material(&mut scene2, material("a"));
    smooth_normals_by_keys(&mut scene2, &normals, &keys);
    let s = &scene2.meshes[0];
    assert_eq!(s.normals, vec![up, tilted]);
    assert_eq!(s.faces[0].normal_indices, vec![0, 0, 1]);
    assert_eq!(s.faces[1].normal_indices, vec![0, 1, 0]);
    assert!(validate(&scene2).is_ok());
}

#[test]
fn subdivide_and_decimate_leave_scene_unchanged() {
    let mut scene = new();
    add_mesh(&mut scene, square("sq"));
    let before = scene.clone();
    subdivide(&mut scene, 2);
    decimate(&mut scene, 1);
    assert_eq!(scene, before);
}

#[test]
fn split_lists_faces_of_a_part_breadth_first() {
    let mut m = Mesh::default();
    m.name = "m".to_string();
    m.vertices = (0..23).map(|i| v3(i as f32, 0.0, 0.0)).collect();
    m.faces = vec![
        face(&[0, 1, 2], &[], &[], None),
        face(&[5, 6, 7], &[], &[], None),
        face(&[2, 5, 8], &[], &[], None),
        face(&[1, 9, 10], &[], &[], None),
        face(&[20, 21, 22], &[], &[], None),
    ];
    let mut scene = new();
    add_mesh(&mut scene, m.clone());
    split(&mut scene);
    assert_eq!(scene.meshes.len(), 2);
    let p0 = &scene.meshes[0];
    let corners: Vec<Vec<u32>> = p0.faces.iter().map(|f| f.vertex_indices.clone()).collect();
    assert_eq!(corners, vec![vec![0, 1, 2], vec![2, 3, 4], vec![1, 5, 6], vec![3, 7, 8]]);
    let order: Vec<Vector3> = [0, 1, 2, 5, 8, 9, 10, 6, 7].iter().map(|&i| m.vertices[i]).collect();
    assert_eq!(p0.vertices, order);
    assert_eq!(scene.meshes[1].vertices, vec![m.vertices[20], m.vertices[21], m.vertices[22]]);
}
