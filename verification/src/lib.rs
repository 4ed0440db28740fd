//! Verified scene logic for 3D model data: the scene model, an OBJ text
//! parser, and the operations that edit, query, check and restructure the
//! meshes of a scene.
//!
//! Real-valued quantities (coordinates, colours, weights) are held as the
//! bit patterns of `f32` values; arithmetic on them is left to the caller.
pub mod access;
pub mod config;
pub mod editing;
pub mod laws;
pub mod error;
pub mod file_type;
pub mod mesh_ops;
pub mod parts;
pub mod models;
pub mod obj_export;
pub mod parser;
pub mod queries;
pub mod result_laws;
pub mod smoothing;
pub mod split;
pub mod text;
pub mod validation;
pub mod welding;

pub use crate::access::{
    get_material, get_material_by_name, get_material_by_name_mut, get_material_mut,
    get_materials, get_materials_mut, get_mesh, get_mesh_by_name, get_mesh_by_name_mut,
    get_mesh_mut, get_meshes, get_meshes_mut,
};
pub use crate::config::Config;
pub use crate::editing::{
    add_material, add_mesh, assign_material, clear_materials, clone, new, remove_material,
    remove_mesh, update_material, update_mesh,
};
pub use crate::error::{CrdError, ParserError};
pub use crate::file_type::{file_type_of_lowercase, get_file_type, FileType};
pub use crate::mesh_ops::{decimate, flip_faces, flip_normals, merge, subdivide, unweld};
pub use crate::obj_export::obj_faces_text;
pub use crate::parts::split;
pub use crate::models::{
    Animation, AnimationChannel, AnimationProperty, Face, Keyframe, Material, Mesh, Node, Scene,
    Skin, Vector2, Vector3,
};
pub use crate::parser::{scalar_fields, triangulate_face, Parser, ScalarField};
pub use crate::queries::{
    get_face_count, get_faces_by_material, get_faces_by_vertex, get_material_by_face,
    get_material_count, get_material_names, get_mesh_by_face, get_mesh_count, get_mesh_names,
    get_meshes_by_material, get_scene_info, get_scene_size, get_texture_count,
    get_texture_names, get_textures, get_triangle_count, get_vertex_count,
};
pub use crate::smoothing::{attach_vertex_normals, smooth_normals_by_keys};
pub use crate::validation::validate;
pub use crate::welding::{optimize_by_keys, weld_by_keys, GridKey};
