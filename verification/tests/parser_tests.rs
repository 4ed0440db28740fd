use cirious_crdf::config::Config;
use cirious_crdf::parser::{scalar_fields, Parser};
use cirious_crdf::{ParserError, Scene};

/// Parses OBJ text, reading the numbers of the text as `f32` values.
fn parse_text(config: &Config, content: &str) -> Result<Scene, ParserError> {
    let scale = f32::from_bits(config.vertex_scale);
    let values: Vec<Option<u32>> = scalar_fields(content)
        .iter()
        .map(|f| {
            f.text.parse::<f32>().ok().map(|v| if f.vertex { (v * scale).to_bits() } else { v.to_bits() })
        })
        .collect();
    Parser::new(config).parse(content, &values)
}

#[test]
fn test_parse_simple_obj() {
    let config = Config::default();
    let content = "
o MyObject
v 1.0 1.0 0.0
v 1.0 0.0 0.0
v 0.0 1.0 0.0
f 1 2 3
";
    let scene = parse_text(&config, content).unwrap();
    assert_eq!(scene.meshes.len(), 1);
    let mesh = &scene.meshes[0];
    assert_eq!(mesh.name, "MyObject");
    assert_eq!(mesh.vertices.len(), 3);
    assert_eq!(mesh.faces.len(), 1);
    assert_eq!(mesh.faces[0].vertex_indices, vec![0, 1, 2]);
}

#[test]
fn test_parse_parent_tag() {
    let config = Config::default();
    let content = "
o Parent
v 0 0 0
o Child
p Parent
v 1 1 1
";
    let scene = parse_text(&config, content).unwrap();
    assert_eq!(scene.meshes.len(), 2);
    assert_eq!(scene.meshes[1].name, "Child");
    assert_eq!(scene.meshes[1].parent, Some("Parent".to_string()));
}

#[test]
fn test_parse_invalid_data() {
    let config = Config::default();
    let content = "v 1.0 1.0"; // Missing z coordinate
    let result = parse_text(&config, content);
    assert!(matches!(result, Err(ParserError::InvalidData(_))));
}
