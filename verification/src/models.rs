//! The data model of a 3D scene: vectors, faces, meshes, materials, skins,
//! animations and nodes.
//!
//! Every real-valued quantity is held as the IEEE-754 single-precision bit
//! pattern of the value (`u32`). The scene logic of this crate never does
//! arithmetic on these values: it copies them, compares them bit for bit and,
//! for a flip, toggles the sign bit. Conversions to and from `f32` are left to
//! the caller.
use vstd::prelude::*;

verus! {

/// A 3-dimensional vector; each component is the bit pattern of an `f32`.
#[derive(Debug, Clone, Copy, PartialEq, Eq, Structural)]
pub struct Vector3 {
    /// The bits of the x component.
    pub x: u32,
    /// The bits of the y component.
    pub y: u32,
    /// The bits of the z component.
    pub z: u32,
}

/// The sign bit of an IEEE-754 single-precision value.
pub const SIGN_BIT: u32 = 0x8000_0000u32;

/// The bits of `-v`: the same magnitude with the sign bit toggled.
pub open spec fn negated_bits(v: u32) -> u32 {
    v ^ SIGN_BIT
}

impl Vector3 {
    /// Creates a new `Vector3` from the bit patterns of its components.
    pub fn new(x: u32, y: u32, z: u32) -> (r: Self)
        ensures
            r == (Vector3 { x, y, z }),
    {
        Vector3 { x, y, z }
    }

    /// The vector with every component negated.
    pub open spec fn spec_negated(self) -> Vector3 {
        Vector3 { x: negated_bits(self.x), y: negated_bits(self.y), z: negated_bits(self.z) }
    }

    /// Returns the vector with every component negated (each sign bit toggled).
    pub fn negated(self) -> (r: Self)
        ensures
            r == self.spec_negated(),
    {
        Vector3 { x: self.x ^ SIGN_BIT, y: self.y ^ SIGN_BIT, z: self.z ^ SIGN_BIT }
    }
}

impl Default for Vector3 {
    fn default() -> (r: Self)
        ensures
            r == (Vector3 { x: 0, y: 0, z: 0 }),
    {
        Vector3 { x: 0, y: 0, z: 0 }
    }
}

/// A 2-dimensional vector used for texture coordinates; each component is the
/// bit pattern of an `f32`.
#[derive(Debug, Clone, Copy, PartialEq, Eq, Structural)]
pub struct Vector2 {
    /// The bits of the u component.
    pub u: u32,
    /// The bits of the v component.
    pub v: u32,
}

impl Default for Vector2 {
    fn default() -> (r: Self)
        ensures
            r == (Vector2 { u: 0, v: 0 }),
    {
        Vector2 { u: 0, v: 0 }
    }
}

/// Copies a vector of plain values element by element.
pub fn copy_vec<T: Copy>(v: &Vec<T>) -> (r: Vec<T>)
    ensures
        r@ == v@,
{
    let mut r: Vec<T> = Vec::new();
    let n = v.len();
    for i in 0..n
        invariant
            n == v@.len(),
            r@ == v@.subrange(0, i as int),
    {
        r.push(v[i]);
        assert(r@ =~= v@.subrange(0, i + 1));
    }
    assert(r@ =~= v@);
    r
}

/// Copies an optional string.
pub fn copy_opt_string(s: &Option<String>) -> (r: Option<String>)
    ensures
        opt_view(r) == opt_view(*s),
{
    match s {
        Some(t) => Some(t.clone()),
        None => None,
    }
}

/// The view of an optional string.
pub open spec fn opt_view(s: Option<String>) -> Option<Seq<char>> {
    match s {
        Some(t) => Some(t@),
        None => None,
    }
}

/// Values that can be copied into an equal value.
pub trait Replicate: View + Sized {
    /// Returns a copy of `self` with the same view.
    fn replicate(&self) -> (r: Self)
        ensures
            r@ == self@,
    ;
}

impl Replicate for String {
    fn replicate(&self) -> (r: Self) {
        self.clone()
    }
}

/// Copies a list of values element by element.
pub fn replicate_all<T: Replicate>(v: &Vec<T>) -> (r: Vec<T>)
    ensures
        r@.map_values(|x: T| x@) == v@.map_values(|x: T| x@),
{
    let mut r: Vec<T> = Vec::new();
    let n = v.len();
    for i in 0..n
        invariant
            n == v@.len(),
            r@.len() == i,
            forall|j: int| 0 <= j < i ==> #[trigger] r@[j]@ == v@[j]@,
    {
        let x = v[i].replicate();
        r.push(x);
    }
    assert(r@.map_values(|x: T| x@) =~= v@.map_values(|x: T| x@));
    r
}

/// A single face of a mesh: indices into the vertex, normal and UV lists of
/// its mesh, and the index of the material applied to it.
#[derive(Debug, PartialEq)]
pub struct Face {
    /// The indices of the vertices that make up this face.
    pub vertex_indices: Vec<u32>,
    /// The indices of the normals associated with each vertex in this face.
    pub normal_indices: Vec<u32>,
    /// The indices of the UV coordinates associated with each vertex in this face.
    pub uv_indices: Vec<u32>,
    /// The index of the material applied to this face.
    pub material_index: Option<u32>,
}

/// The mathematical value of a [`Face`].
pub ghost struct FaceView {
    pub vertex_indices: Seq<u32>,
    pub normal_indices: Seq<u32>,
    pub uv_indices: Seq<u32>,
    pub material_index: Option<u32>,
}

impl View for Face {
    type V = FaceView;

    open spec fn view(&self) -> FaceView {
        FaceView {
            vertex_indices: self.vertex_indices@,
            normal_indices: self.normal_indices@,
            uv_indices: self.uv_indices@,
            material_index: self.material_index,
        }
    }
}

impl Face {
    /// A face with no indices and the given material.
    pub fn with_material(material_index: Option<u32>) -> (r: Face)
        ensures
            r@ == (FaceView {
                vertex_indices: Seq::empty(),
                normal_indices: Seq::empty(),
                uv_indices: Seq::empty(),
                material_index,
            }),
    {
        Face {
            vertex_indices: Vec::new(),
            normal_indices: Vec::new(),
            uv_indices: Vec::new(),
            material_index,
        }
    }
}

impl Default for Face {
    fn default() -> (r: Self)
        ensures
            r@ == (FaceView {
                vertex_indices: Seq::empty(),
                normal_indices: Seq::empty(),
                uv_indices: Seq::empty(),
                material_index: None,
            }),
    {
        Face::with_material(None)
    }
}

impl Replicate for Face {
    fn replicate(&self) -> (r: Self) {
        Face {
            vertex_indices: copy_vec(&self.vertex_indices),
            normal_indices: copy_vec(&self.normal_indices),
            uv_indices: copy_vec(&self.uv_indices),
            material_index: self.material_index,
        }
    }
}

/// The views of a sequence of faces.
pub open spec fn faces_view(faces: Seq<Face>) -> Seq<FaceView> {
    faces.map_values(|f: Face| f@)
}

/// A mesh: the geometric data of one 3D object.
#[derive(Debug, PartialEq)]
pub struct Mesh {
    /// The name of the mesh.
    pub name: String,
    /// The name of the parent mesh, if any.
    pub parent: Option<String>,
    /// The vertices of the mesh.
    pub vertices: Vec<Vector3>,
    /// The normals of the mesh.
    pub normals: Vec<Vector3>,
    /// The UV coordinates of the mesh.
    pub uvs: Vec<Vector2>,
    /// The tangents of the mesh.
    pub tangents: Vec<Vector3>,
    /// The joint indices affecting each vertex (4 joints per vertex).
    pub joints: Vec<[u32; 4]>,
    /// The bits of the weights of each joint affecting each vertex.
    pub weights: Vec<[u32; 4]>,
    /// The faces of the mesh.
    pub faces: Vec<Face>,
}

/// The mathematical value of a [`Mesh`].
pub ghost struct MeshView {
    pub name: Seq<char>,
    pub parent: Option<Seq<char>>,
    pub vertices: Seq<Vector3>,
    pub normals: Seq<Vector3>,
    pub uvs: Seq<Vector2>,
    pub tangents: Seq<Vector3>,
    pub joints: Seq<[u32; 4]>,
    pub weights: Seq<[u32; 4]>,
    pub faces: Seq<FaceView>,
}

impl View for Mesh {
    type V = MeshView;

    open spec fn view(&self) -> MeshView {
        MeshView {
            name: self.name@,
            parent: opt_view(self.parent),
            vertices: self.vertices@,
            normals: self.normals@,
            uvs: self.uvs@,
            tangents: self.tangents@,
            joints: self.joints@,
            weights: self.weights@,
            faces: faces_view(self.faces@),
        }
    }
}

/// An empty mesh with the given name.
pub open spec fn empty_mesh_view(name: Seq<char>) -> MeshView {
    MeshView {
        name,
        parent: None,
        vertices: Seq::empty(),
        normals: Seq::empty(),
        uvs: Seq::empty(),
        tangents: Seq::empty(),
        joints: Seq::empty(),
        weights: Seq::empty(),
        faces: Seq::empty(),
    }
}

impl Mesh {
    /// An empty mesh with the given name.
    pub fn named(name: String) -> (r: Mesh)
        ensures
            r@ == empty_mesh_view(name@),
    {
        let r = Mesh {
            name,
            parent: None,
            vertices: Vec::new(),
            normals: Vec::new(),
            uvs: Vec::new(),
            tangents: Vec::new(),
            joints: Vec::new(),
            weights: Vec::new(),
            faces: Vec::new(),
        };
        assert(faces_view(r.faces@) =~= Seq::<FaceView>::empty());
        r
    }
}

impl Default for Mesh {
    fn default() -> (r: Self)
        ensures
            r@ == empty_mesh_view(Seq::empty()),
    {
        Mesh::named(String::new())
    }
}

impl Replicate for Mesh {
    fn replicate(&self) -> (r: Self) {
        Mesh {
            name: self.name.clone(),
            parent: copy_opt_string(&self.parent),
            vertices: copy_vec(&self.vertices),
            normals: copy_vec(&self.normals),
            uvs: copy_vec(&self.uvs),
            tangents: copy_vec(&self.tangents),
            joints: copy_vec(&self.joints),
            weights: copy_vec(&self.weights),
            faces: replicate_all(&self.faces),
        }
    }
}

/// A skeletal skin, mapping joints to inverse bind matrices.
#[derive(Debug, PartialEq)]
pub struct Skin {
    /// The name of the skin.
    pub name: String,
    /// The indices of the joints in the scene's node list.
    pub joint_indices: Vec<usize>,
    /// The bits of the inverse bind matrix of each joint.
    pub inverse_bind_matrices: Vec<[[u32; 4]; 4]>,
}

/// The mathematical value of a [`Skin`].
pub ghost struct SkinView {
    pub name: Seq<char>,
    pub joint_indices: Seq<usize>,
    pub inverse_bind_matrices: Seq<[[u32; 4]; 4]>,
}

impl View for Skin {
    type V = SkinView;

    open spec fn view(&self) -> SkinView {
        SkinView {
            name: self.name@,
            joint_indices: self.joint_indices@,
            inverse_bind_matrices: self.inverse_bind_matrices@,
        }
    }
}

impl Replicate for Skin {
    fn replicate(&self) -> (r: Self) {
        Skin {
            name: self.name.clone(),
            joint_indices: copy_vec(&self.joint_indices),
            inverse_bind_matrices: copy_vec(&self.inverse_bind_matrices),
        }
    }
}

/// The property that an animation channel animates.
#[derive(Debug, Clone, Copy, PartialEq, Eq, Structural)]
pub enum AnimationProperty {
    /// Translation (a 3-vector).
    Translation,
    /// Rotation (a quaternion `[x, y, z, w]`).
    Rotation,
    /// Scale (a 3-vector).
    Scale,
}

/// A single animation keyframe.
#[derive(Debug, PartialEq)]
pub struct Keyframe {
    /// The bits of the time in seconds.
    pub time: u32,
    /// The bits of the value at this time (its length depends on the property).
    pub value: Vec<u32>,
}

/// The mathematical value of a [`Keyframe`].
pub ghost struct KeyframeView {
    pub time: u32,
    pub value: Seq<u32>,
}

impl View for Keyframe {
    type V = KeyframeView;

    open spec fn view(&self) -> KeyframeView {
        KeyframeView { time: self.time, value: self.value@ }
    }
}

impl Replicate for Keyframe {
    fn replicate(&self) -> (r: Self) {
        Keyframe { time: self.time, value: copy_vec(&self.value) }
    }
}

/// An animation channel that targets one node of the scene.
#[derive(Debug, PartialEq)]
pub struct AnimationChannel {
    /// The index of the target node in the scene.
    pub target_node_index: usize,
    /// The property being animated.
    pub property: AnimationProperty,
    /// The keyframes.
    pub keyframes: Vec<Keyframe>,
}

/// The mathematical value of an [`AnimationChannel`].
pub ghost struct AnimationChannelView {
    pub target_node_index: usize,
    pub property: AnimationProperty,
    pub keyframes: Seq<KeyframeView>,
}

impl View for AnimationChannel {
    type V = AnimationChannelView;

    open spec fn view(&self) -> AnimationChannelView {
        AnimationChannelView {
            target_node_index: self.target_node_index,
            property: self.property,
            keyframes: self.keyframes@.map_values(|k: Keyframe| k@),
        }
    }
}

impl Replicate for AnimationChannel {
    fn replicate(&self) -> (r: Self) {
        AnimationChannel {
            target_node_index: self.target_node_index,
            property: self.property,
            keyframes: replicate_all(&self.keyframes),
        }
    }
}

/// A full animation.
#[derive(Debug, PartialEq)]
pub struct Animation {
    /// The name of the animation.
    pub name: String,
    /// The channels of this animation.
    pub channels: Vec<AnimationChannel>,
}

/// The mathematical value of an [`Animation`].
pub ghost struct AnimationView {
    pub name: Seq<char>,
    pub channels: Seq<AnimationChannelView>,
}

impl View for Animation {
    type V = AnimationView;

    open spec fn view(&self) -> AnimationView {
        AnimationView {
            name: self.name@,
            channels: self.channels@.map_values(|c: AnimationChannel| c@),
        }
    }
}

impl Replicate for Animation {
    fn replicate(&self) -> (r: Self) {
        Animation { name: self.name.clone(), channels: replicate_all(&self.channels) }
    }
}

/// A material with colours, shininess and texture information.
#[derive(Debug, PartialEq)]
pub struct Material {
    /// The name of the material.
    pub name: String,
    /// The bits of the ambient colour.
    pub ambient_color: [u32; 3],
    /// The bits of the diffuse colour.
    pub diffuse_color: [u32; 3],
    /// The bits of the specular colour.
    pub specular_color: [u32; 3],
    /// The bits of the shininess.
    pub shininess: u32,
    /// The bits of the metallic factor (0.0 to 1.0).
    pub metallic_factor: u32,
    /// The bits of the roughness factor (0.0 to 1.0).
    pub roughness_factor: u32,
    /// The diffuse texture, if any.
    pub diffuse_texture: Option<String>,
    /// The metallic-roughness texture, if any.
    pub metallic_roughness_texture: Option<String>,
    /// The normal texture, if any.
    pub normal_texture: Option<String>,
    /// The specular texture, if any.
    pub specular_texture: Option<String>,
}

/// The mathematical value of a [`Material`].
pub ghost struct MaterialView {
    pub name: Seq<char>,
    pub ambient_color: [u32; 3],
    pub diffuse_color: [u32; 3],
    pub specular_color: [u32; 3],
    pub shininess: u32,
    pub metallic_factor: u32,
    pub roughness_factor: u32,
    pub diffuse_texture: Option<Seq<char>>,
    pub metallic_roughness_texture: Option<Seq<char>>,
    pub normal_texture: Option<Seq<char>>,
    pub specular_texture: Option<Seq<char>>,
}

impl View for Material {
    type V = MaterialView;

    open spec fn view(&self) -> MaterialView {
        MaterialView {
            name: self.name@,
            ambient_color: self.ambient_color,
            diffuse_color: self.diffuse_color,
            specular_color: self.specular_color,
            shininess: self.shininess,
            metallic_factor: self.metallic_factor,
            roughness_factor: self.roughness_factor,
            diffuse_texture: opt_view(self.diffuse_texture),
            metallic_roughness_texture: opt_view(self.metallic_roughness_texture),
            normal_texture: opt_view(self.normal_texture),
            specular_texture: opt_view(self.specular_texture),
        }
    }
}

/// The bits of `0.2f32`.
pub const BITS_0_2: u32 = 0x3E4C_CCCDu32;

/// The bits of `0.8f32`.
pub const BITS_0_8: u32 = 0x3F4C_CCCDu32;

/// The bits of `1.0f32`.
pub const BITS_1_0: u32 = 0x3F80_0000u32;

/// The bits of `64.0f32`.
pub const BITS_64_0: u32 = 0x4280_0000u32;

/// The default material: named "default", ambient 0.2, diffuse 0.8,
/// specular 1.0, shininess 64, metallic and roughness 1, no textures.
pub open spec fn default_material_view() -> MaterialView {
    MaterialView {
        name: seq!['d', 'e', 'f', 'a', 'u', 'l', 't'],
        ambient_color: [BITS_0_2, BITS_0_2, BITS_0_2],
        diffuse_color: [BITS_0_8, BITS_0_8, BITS_0_8],
        specular_color: [BITS_1_0, BITS_1_0, BITS_1_0],
        shininess: BITS_64_0,
        metallic_factor: BITS_1_0,
        roughness_factor: BITS_1_0,
        diffuse_texture: None,
        metallic_roughness_texture: None,
        normal_texture: None,
        specular_texture: None,
    }
}

impl Default for Material {
    fn default() -> (r: Self)
        ensures
            r@ == default_material_view(),
    {
        let name = "default";
        proof {
            reveal_strlit("default");
        }
        let r = Material {
            name: name.to_owned(),
            ambient_color: [BITS_0_2, BITS_0_2, BITS_0_2],
            diffuse_color: [BITS_0_8, BITS_0_8, BITS_0_8],
            specular_color: [BITS_1_0, BITS_1_0, BITS_1_0],
            shininess: BITS_64_0,
            metallic_factor: BITS_1_0,
            roughness_factor: BITS_1_0,
            diffuse_texture: None,
            metallic_roughness_texture: None,
            normal_texture: None,
            specular_texture: None,
        };
        assert(r@.name =~= default_material_view().name);
        r
    }
}

impl Replicate for Material {
    fn replicate(&self) -> (r: Self) {
        Material {
            name: self.name.clone(),
            ambient_color: self.ambient_color,
            diffuse_color: self.diffuse_color,
            specular_color: self.specular_color,
            shininess: self.shininess,
            metallic_factor: self.metallic_factor,
            roughness_factor: self.roughness_factor,
            diffuse_texture: copy_opt_string(&self.diffuse_texture),
            metallic_roughness_texture: copy_opt_string(&self.metallic_roughness_texture),
            normal_texture: copy_opt_string(&self.normal_texture),
            specular_texture: copy_opt_string(&self.specular_texture),
        }
    }
}

/// A node of the scene hierarchy.
#[derive(Debug, PartialEq)]
pub struct Node {
    /// The name of the node.
    pub name: String,
    /// The bits of the translation.
    pub translation: [u32; 3],
    /// The bits of the rotation (a quaternion).
    pub rotation: [u32; 4],
    /// The bits of the scale.
    pub scale: [u32; 3],
    /// Indices of the child nodes.
    pub children: Vec<usize>,
    /// Index of the mesh attached to this node.
    pub mesh_index: Option<usize>,
    /// Index of the skin attached to this node.
    pub skin_index: Option<usize>,
}

/// The mathematical value of a [`Node`].
pub ghost struct NodeView {
    pub name: Seq<char>,
    pub translation: [u32; 3],
    pub rotation: [u32; 4],
    pub scale: [u32; 3],
    pub children: Seq<usize>,
    pub mesh_index: Option<usize>,
    pub skin_index: Option<usize>,
}

impl View for Node {
    type V = NodeView;

    open spec fn view(&self) -> NodeView {
        NodeView {
            name: self.name@,
            translation: self.translation,
            rotation: self.rotation,
            scale: self.scale,
            children: self.children@,
            mesh_index: self.mesh_index,
            skin_index: self.skin_index,
        }
    }
}

impl Replicate for Node {
    fn replicate(&self) -> (r: Self) {
        Node {
            name: self.name.clone(),
            translation: self.translation,
            rotation: self.rotation,
            scale: self.scale,
            children: copy_vec(&self.children),
            mesh_index: self.mesh_index,
            skin_index: self.skin_index,
        }
    }
}

/// A full scene: meshes, materials, skins, animations, nodes and references
/// to external model files.
#[derive(Debug, PartialEq)]
pub struct Scene {
    /// The meshes of the scene.
    pub meshes: Vec<Mesh>,
    /// The materials of the scene.
    pub materials: Vec<Material>,
    /// The skins (skeletons) of the scene.
    pub skins: Vec<Skin>,
    /// The animations of the scene.
    pub animations: Vec<Animation>,
    /// The node hierarchy of the scene.
    pub nodes: Vec<Node>,
    /// External model files to be loaded into the scene.
    pub external_models: Vec<String>,
}

/// The mathematical value of a [`Scene`].
pub ghost struct SceneView {
    pub meshes: Seq<MeshView>,
    pub materials: Seq<MaterialView>,
    pub skins: Seq<SkinView>,
    pub animations: Seq<AnimationView>,
    pub nodes: Seq<NodeView>,
    pub external_models: Seq<Seq<char>>,
}

/// The views of a sequence of meshes.
pub open spec fn meshes_view(meshes: Seq<Mesh>) -> Seq<MeshView> {
    meshes.map_values(|m: Mesh| m@)
}

/// The views of a sequence of materials.
pub open spec fn materials_view(materials: Seq<Material>) -> Seq<MaterialView> {
    materials.map_values(|m: Material| m@)
}

/// The views of a sequence of strings.
pub open spec fn strings_view(strings: Seq<String>) -> Seq<Seq<char>> {
    strings.map_values(|s: String| s@)
}

impl View for Scene {
    type V = SceneView;

    open spec fn view(&self) -> SceneView {
        SceneView {
            meshes: meshes_view(self.meshes@),
            materials: materials_view(self.materials@),
            skins: self.skins@.map_values(|s: Skin| s@),
            animations: self.animations@.map_values(|a: Animation| a@),
            nodes: self.nodes@.map_values(|n: Node| n@),
            external_models: strings_view(self.external_models@),
        }
    }
}

/// The empty scene.
pub open spec fn empty_scene_view() -> SceneView {
    SceneView {
        meshes: Seq::empty(),
        materials: Seq::empty(),
        skins: Seq::empty(),
        animations: Seq::empty(),
        nodes: Seq::empty(),
        external_models: Seq::empty(),
    }
}

impl Default for Skin {
    fn default() -> (r: Self)
        ensures
            r@ == (SkinView { name: Seq::empty(), joint_indices: Seq::empty(), inverse_bind_matrices: Seq::empty() }),
    {
        let r = Skin { name: String::new(), joint_indices: Vec::new(), inverse_bind_matrices: Vec::new() };
        assert(r@.joint_indices =~= Seq::<usize>::empty());
        assert(r@.inverse_bind_matrices =~= Seq::<[[u32; 4]; 4]>::empty());
        r
    }
}

impl Default for Animation {
    fn default() -> (r: Self)
        ensures
            r@ == (AnimationView { name: Seq::empty(), channels: Seq::empty() }),
    {
        let r = Animation { name: String::new(), channels: Vec::new() };
        assert(r@.channels =~= Seq::<AnimationChannelView>::empty());
        r
    }
}

impl Default for Node {
    fn default() -> (r: Self)
        ensures
            r@ == (NodeView {
                name: Seq::empty(),
                translation: [0, 0, 0],
                rotation: [0, 0, 0, 0],
                scale: [0, 0, 0],
                children: Seq::empty(),
                mesh_index: None,
                skin_index: None,
            }),
    {
        let r = Node {
            name: String::new(),
            translation: [0, 0, 0],
            rotation: [0, 0, 0, 0],
            scale: [0, 0, 0],
            children: Vec::new(),
            mesh_index: None,
            skin_index: None,
        };
        assert(r@.children =~= Seq::<usize>::empty());
        r
    }
}

impl Default for Scene {
    fn default() -> (r: Self)
        ensures
            r@ == empty_scene_view(),
    {
        let r = Scene {
            meshes: Vec::new(),
            materials: Vec::new(),
            skins: Vec::new(),
            animations: Vec::new(),
            nodes: Vec::new(),
            external_models: Vec::new(),
        };
        assert(r@.meshes =~= Seq::<MeshView>::empty());
        assert(r@.materials =~= Seq::<MaterialView>::empty());
        assert(r@.skins =~= Seq::<SkinView>::empty());
        assert(r@.animations =~= Seq::<AnimationView>::empty());
        assert(r@.nodes =~= Seq::<NodeView>::empty());
        assert(r@.external_models =~= Seq::<Seq<char>>::empty());
        r
    }
}

impl Replicate for Scene {
    fn replicate(&self) -> (r: Self) {
        Scene {
            meshes: replicate_all(&self.meshes),
            materials: replicate_all(&self.materials),
            skins: replicate_all(&self.skins),
            animations: replicate_all(&self.animations),
            nodes: replicate_all(&self.nodes),
            external_models: replicate_all(&self.external_models),
        }
    }
}

impl Clone for Face {
    fn clone(&self) -> (r: Self)
        ensures
            r@ == self@,
    {
        self.replicate()
    }
}

impl Clone for Mesh {
    fn clone(&self) -> (r: Self)
        ensures
            r@ == self@,
    {
        self.replicate()
    }
}

impl Clone for Skin {
    fn clone(&self) -> (r: Self)
        ensures
            r@ == self@,
    {
        self.replicate()
    }
}

impl Clone for Keyframe {
    fn clone(&self) -> (r: Self)
        ensures
            r@ == self@,
    {
        self.replicate()
    }
}

impl Clone for AnimationChannel {
    fn clone(&self) -> (r: Self)
        ensures
            r@ == self@,
    {
        self.replicate()
    }
}

impl Clone for Animation {
    fn clone(&self) -> (r: Self)
        ensures
            r@ == self@,
    {
        self.replicate()
    }
}

impl Clone for Material {
    fn clone(&self) -> (r: Self)
        ensures
            r@ == self@,
    {
        self.replicate()
    }
}

impl Clone for Node {
    fn clone(&self) -> (r: Self)
        ensures
            r@ == self@,
    {
        self.replicate()
    }
}

impl Clone for Scene {
    fn clone(&self) -> (r: Self)
        ensures
            r@ == self@,
    {
        self.replicate()
    }
}

} // verus!
