use cirious_crdf::config::Config;
use cirious_crdf::models::{BITS_0_2, BITS_0_8, BITS_1_0, BITS_64_0};
use cirious_crdf::parser::{scalar_fields, Parser};
use cirious_crdf::{
    add_material, add_mesh, get_face_count, get_faces_by_material, get_faces_by_vertex, get_file_type,
    get_material_by_face, get_material_count, get_material_names, get_mesh_by_face, get_mesh_by_name,
    get_mesh_count, get_mesh_names, get_meshes_by_material, get_scene_info, get_scene_size,
    get_texture_count, get_texture_names, get_textures, get_triangle_count, get_vertex_count, new,
    remove_mesh, update_mesh, Face, FileType, Material, Mesh, ParserError, Scene, Vector3,
};

fn v3(x: f32, y: f32, z: f32) -> Vector3 {
    Vector3::new(x.to_bits(), y.to_bits(), z.to_bits())
}

fn face(v: &[u32], m: Option<u32>) -> Face {
    Face { vertex_indices: v.to_vec(), normal_indices: vec![], uv_indices: vec![], material_index: m }
}

fn mesh(name: &str, n_vertices: usize, faces: Vec<Face>) -> Mesh {
    let mut m = Mesh::default();
    m.name = name.to_string();
    m.vertices = vec![v3(0.0, 0.0, 0.0); n_vertices];
    m.faces = faces;
    m
}

fn textured(name: &str, texture: Option<&str>) -> Material {
    let mut m = Material::default();
    m.name = name.to_string();
    m.diffuse_texture = texture.map(|t| t.to_string());
    m
}

fn sample() -> Scene {
    let mut scene = new();
    add_material(&mut scene, textured("wood", Some("wood.png")));
    add_material(&mut scene, textured("plain", None));
    add_material(&mut scene, textured("stone", Some("stone.png")));
    add_mesh(&mut scene, mesh("a", 4, vec![face(&[0, 1, 2], Some(0)), face(&[0, 1, 2, 3], Some(2))]));
    add_mesh(&mut scene, mesh("b", 5, vec![face(&[0, 1, 2, 3, 4], None), face(&[3, 4], Some(0))]));
    add_mesh(&mut scene, mesh("c", 0, vec![]));
    scene
}

fn parse_text(config: &Config, content: &str) -> Result<Scene, ParserError> {
    let scale = f32::from_bits(config.vertex_scale);
    let values: Vec<Option<u32>> = scalar_fields(content)
        .iter()
        .map(|f| f.text.parse::<f32>().ok().map(|v| if f.vertex { (v * scale).to_bits() } else { v.to_bits() }))
        .collect();
    Parser::new(config).parse(content, &values)
}

fn parse_error(content: &str) -> String {
    match parse_text(&Config::default(), content) {
        Err(ParserError::InvalidData(m)) => m,
        _ => panic!("expected a parse error"),
    }
}

#[test]
fn counts_agree_with_scene_size() {
    let scene = sample();
    assert_eq!(get_mesh_count(&scene), 3);
    assert_eq!(get_material_count(&scene), 3);
    assert_eq!(get_vertex_count(&scene), 9);
    assert_eq!(get_face_count(&scene), 4);
    assert_eq!(get_triangle_count(&scene), 1 + 2 + 3);
    assert_eq!(get_scene_size(&scene), (9, 4, 6));
}

#[test]
fn scene_info_lists_counts() {
    let scene = sample();
    assert_eq!(
        get_scene_info(&scene),
        "Scene Information:\n  Meshes: 3\n  Materials: 3\n  Vertices: 9\n  Faces: 4\n  Triangles: 6"
    );
}

#[test]
fn textures_and_names() {
    let scene = sample();
    assert_eq!(get_textures(&scene), vec!["wood.png".to_string(), "stone.png".to_string()]);
    assert_eq!(get_texture_names(&scene), get_textures(&scene));
    assert_eq!(get_texture_count(&scene), get_textures(&scene).len());
    assert_eq!(get_mesh_names(&scene), vec!["a", "b", "c"]);
    assert_eq!(get_material_names(&scene), vec!["wood", "plain", "stone"]);
}

#[test]
fn lookups_by_material_vertex_and_face() {
    let scene = sample();
    let using_wood = get_meshes_by_material(&scene, 0);
    assert_eq!(using_wood.len(), 2);
    assert_eq!(using_wood[1].name, "b");
    assert_eq!(get_meshes_by_material(&scene, 1).len(), 0);
    assert_eq!(get_faces_by_material(&scene.meshes[0], 2).len(), 1);
    assert_eq!(get_faces_by_vertex(&scene.meshes[0], 3).len(), 1);
    assert_eq!(get_faces_by_vertex(&scene.meshes[1], 3).len(), 2);
    assert_eq!(get_mesh_by_face(&scene, 0).unwrap().name, "a");
    assert_eq!(get_mesh_by_face(&scene, 1).unwrap().name, "a");
    assert_eq!(get_mesh_by_face(&scene, 2).unwrap().name, "b");
    assert!(get_mesh_by_face(&scene, 4).is_none());
    assert_eq!(get_material_by_face(&scene, &scene.meshes[0], 1).unwrap().name, "stone");
    assert!(get_material_by_face(&scene, &scene.meshes[1], 0).is_none());
    assert!(get_material_by_face(&scene, &scene.meshes[1], 9).is_none());
    assert_eq!(get_mesh_by_name(&scene, "b").unwrap().vertices.len(), 5);
    assert!(get_mesh_by_name(&scene, "z").is_none());
}

#[test]
fn update_and_remove_out_of_range_change_nothing() {
    let mut scene = sample();
    let before = scene.clone();
    remove_mesh(&mut scene, 3);
    update_mesh(&mut scene, 7, Mesh::default());
    assert_eq!(scene, before);
    update_mesh(&mut scene, 2, mesh("d", 1, vec![]));
    assert_eq!(scene.meshes[2].name, "d");
}

#[test]
fn default_material_and_config() {
    let m = Material::default();
    assert_eq!(m.name, "default");
    assert_eq!(f32::from_bits(BITS_0_2), 0.2);
    assert_eq!(f32::from_bits(BITS_0_8), 0.8);
    assert_eq!(f32::from_bits(BITS_1_0), 1.0);
    assert_eq!(f32::from_bits(BITS_64_0), 64.0);
    assert_eq!(m.ambient_color, [BITS_0_2; 3]);
    assert_eq!(m.diffuse_color, [BITS_0_8; 3]);
    assert_eq!(m.specular_color, [BITS_1_0; 3]);
    assert_eq!(m.shininess, BITS_64_0);
    let c = Config::default();
    assert_eq!(f32::from_bits(c.vertex_scale), 1.0);
    assert!(!c.triangulate);
}

#[test]
fn file_types_from_names() {
    assert_eq!(get_file_type("model.obj"), Some(FileType::Obj));
    assert_eq!(get_file_type("dir/Model.OBJ"), Some(FileType::Obj));
    assert_eq!(get_file_type("x.Scene"), Some(FileType::CRDF));
    assert_eq!(get_file_type("x.crdf"), Some(FileType::CRDF));
    assert_eq!(get_file_type("x.CIRIOUS"), Some(FileType::CRDF));
    assert_eq!(get_file_type("data.json"), Some(FileType::Json));
    assert_eq!(get_file_type("notes.txt"), Some(FileType::Unknown));
    assert_eq!(get_file_type("README"), None);
    assert_eq!(get_file_type(".hidden"), None);
}

#[test]
fn parse_faults_name_their_line() {
    assert_eq!(parse_error("v 1 2 3"), "Vertex found outside of an object definition at line 1");
    assert_eq!(parse_error("o a\nv 1 2"), "Invalid vertex data at line 2");
    assert_eq!(parse_error("o a\nv 1 x 2"), "Invalid vertex data at line 2");
    assert_eq!(parse_error("\nvn 0 0 1"), "Normal found outside of an object definition at line 2");
    assert_eq!(parse_error("o a\nvn 0 1"), "Invalid normal data at line 2");
    assert_eq!(parse_error("vt 0 1"), "UV found outside of an object definition at line 1");
    assert_eq!(parse_error("o a\n\n\nvt 0"), "Invalid UV data at line 4");
    assert_eq!(parse_error("f 1 2 3"), "Face found outside of an object definition at line 1");
    assert_eq!(parse_error("o a\nf 1 x 3"), "Invalid face vertex index at line 2");
    assert_eq!(parse_error("mtllib"), "Missing mtllib name at line 1");
    assert_eq!(parse_error("o a\nusemtl"), "Missing usemtl name at line 2");
}

#[test]
fn parse_reads_corners_materials_and_models() {
    let content = "# comment\nmtllib a.mtl\nusemtl default\no box\nv 1 2 3\nvt 0.5 0.5\nvn 0 0 1\nf 1/1/1 2//3 3/4\nusemtl missing\nf 0 2 3\nm other.obj\nm\n";
    let scene = parse_text(&Config::default(), content).unwrap();
    assert_eq!(scene.materials.len(), 1);
    assert_eq!(scene.external_models, vec!["other.obj".to_string()]);
    let m = &scene.meshes[0];
    assert_eq!(m.vertices, vec![v3(1.0, 2.0, 3.0)]);
    assert_eq!(m.faces[0].vertex_indices, vec![0, 1, 2]);
    assert_eq!(m.faces[0].uv_indices, vec![0, 3]);
    assert_eq!(m.faces[0].normal_indices, vec![0, 2]);
    assert_eq!(m.faces[0].material_index, Some(0));
    assert_eq!(m.faces[1].vertex_indices, vec![0, 1, 2]);
    assert_eq!(m.faces[1].material_index, None);
}

#[test]
fn parse_scales_vertices_and_triangulates() {
    let mut config = Config::default();
    config.vertex_scale = 2.0f32.to_bits();
    config.triangulate = true;
    let content = "o q\nv 1 0 0\nvn 1 0 0\nf 1 2 3 4 5\nf 1 2\n";
    let scene = parse_text(&config, content).unwrap();
    let m = &scene.meshes[0];
    assert_eq!(m.vertices, vec![v3(2.0, 0.0, 0.0)]);
    assert_eq!(m.normals, vec![v3(1.0, 0.0, 0.0)]);
    assert_eq!(m.faces.len(), 4);
    assert!(m.faces.iter().all(|f| f.vertex_indices.len() <= 3));
    assert_eq!(m.faces[2].vertex_indices, vec![0, 3, 4]);
    assert_eq!(m.faces[3].vertex_indices, vec![0, 1]);
}

#[test]
fn parse_unnamed_object_and_empty_text() {
    let scene = parse_text(&Config::default(), "o\nv 0 0 0\n").unwrap();
    assert_eq!(scene.meshes[0].name, "unnamed");
    let empty = parse_text(&Config::default(), "").unwrap();
    assert_eq!(empty, new());
}
