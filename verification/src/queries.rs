//! Questions about a scene: counts, names, textures, and the meshes and faces
//! that use a material or a vertex.
use vstd::prelude::*;

use crate::mesh_ops::vertex_total;
use crate::models::{Face, FaceView, Material, MaterialView, Mesh, MeshView, Scene};
use crate::text::{decimal, push_decimal, push_str};

verus! {

// ---------------------------------------------------------------------------
// Counts
// ---------------------------------------------------------------------------
/// The number of faces of the meshes `ms`.
pub open spec fn face_total(ms: Seq<MeshView>) -> nat
    decreases ms.len(),
{
    if ms.len() == 0 {
        0
    } else {
        face_total(ms.drop_last()) + ms.last().faces.len()
    }
}

/// The number of triangles of a face: `n - 2` for a face of `n >= 3`
/// vertices, none otherwise.
pub open spec fn face_triangles(f: FaceView) -> nat {
    if f.vertex_indices.len() >= 3 {
        (f.vertex_indices.len() - 2) as nat
    } else {
        0
    }
}

/// The number of triangles of the faces `fs`.
pub open spec fn faces_triangles(fs: Seq<FaceView>) -> nat
    decreases fs.len(),
{
    if fs.len() == 0 {
        0
    } else {
        faces_triangles(fs.drop_last()) + face_triangles(fs.last())
    }
}

/// The number of triangles of the meshes `ms`.
pub open spec fn triangle_total(ms: Seq<MeshView>) -> nat
    decreases ms.len(),
{
    if ms.len() == 0 {
        0
    } else {
        triangle_total(ms.drop_last()) + faces_triangles(ms.last().faces)
    }
}

/// A prefix has no more faces than the whole.
pub proof fn lemma_face_total_prefix(ms: Seq<MeshView>, k: int)
    requires
        0 <= k <= ms.len(),
    ensures
        face_total(ms.take(k)) <= face_total(ms),
    decreases ms.len() - k,
{
    if k < ms.len() {
        assert(ms.take(k + 1).drop_last() =~= ms.take(k));
        lemma_face_total_prefix(ms, k + 1);
    } else {
        assert(ms.take(k) =~= ms);
    }
}

/// A prefix has no more vertices than the whole.
pub proof fn lemma_vertex_total_prefix(ms: Seq<MeshView>, k: int)
    requires
        0 <= k <= ms.len(),
    ensures
        vertex_total(ms.take(k)) <= vertex_total(ms),
    decreases ms.len() - k,
{
    if k < ms.len() {
        assert(ms.take(k + 1).drop_last() =~= ms.take(k));
        lemma_vertex_total_prefix(ms, k + 1);
    } else {
        assert(ms.take(k) =~= ms);
    }
}

/// A prefix has no more triangles than the whole.
pub proof fn lemma_triangle_total_prefix(ms: Seq<MeshView>, k: int)
    requires
        0 <= k <= ms.len(),
    ensures
        triangle_total(ms.take(k)) <= triangle_total(ms),
    decreases ms.len() - k,
{
    if k < ms.len() {
        assert(ms.take(k + 1).drop_last() =~= ms.take(k));
        lemma_triangle_total_prefix(ms, k + 1);
    } else {
        assert(ms.take(k) =~= ms);
    }
}

/// A prefix of faces has no more triangles than the whole.
pub proof fn lemma_faces_triangles_prefix(fs: Seq<FaceView>, k: int)
    requires
        0 <= k <= fs.len(),
    ensures
        faces_triangles(fs.take(k)) <= faces_triangles(fs),
    decreases fs.len() - k,
{
    if k < fs.len() {
        assert(fs.take(k + 1).drop_last() =~= fs.take(k));
        lemma_faces_triangles_prefix(fs, k + 1);
    } else {
        assert(fs.take(k) =~= fs);
    }
}

/// The number of triangles of a mesh.
fn mesh_triangles(m: &Mesh, bound: usize) -> (r: usize)
    requires
        faces_triangles(m@.faces) <= bound,
    ensures
        r == faces_triangles(m@.faces),
{
    let ghost fs = m@.faces;
    let mut t: usize = 0;
    let n = m.faces.len();
    for j in 0..n
        invariant
            n == m.faces@.len(),
            fs == m@.faces,
            faces_triangles(fs) <= bound,
            t == faces_triangles(fs.take(j as int)),
    {
        assert(fs.take(j + 1).drop_last() =~= fs.take(j as int));
        assert(fs[j as int] == m.faces@[j as int]@);
        proof {
            lemma_faces_triangles_prefix(fs, j + 1);
        }
        let c = m.faces[j].vertex_indices.len();
        if c >= 3 {
            t = t + (c - 2);
        }
    }
    assert(fs.take(n as int) =~= fs);
    t
}

/// The number of vertices, faces and triangles of the scene.
pub fn get_scene_size(scene: &Scene) -> (r: (usize, usize, usize))
    requires
        vertex_total(scene@.meshes) <= usize::MAX,
        face_total(scene@.meshes) <= usize::MAX,
        triangle_total(scene@.meshes) <= usize::MAX,
    ensures
        r.0 == vertex_total(scene@.meshes),
        r.1 == face_total(scene@.meshes),
        r.2 == triangle_total(scene@.meshes),
{
    let ghost ms = scene@.meshes;
    let mut vertices: usize = 0;
    let mut faces: usize = 0;
    let mut triangles: usize = 0;
    let n = scene.meshes.len();
    for k in 0..n
        invariant
            n == scene.meshes@.len(),
            ms == scene@.meshes,
            vertex_total(ms) <= usize::MAX,
            face_total(ms) <= usize::MAX,
            triangle_total(ms) <= usize::MAX,
            vertices == vertex_total(ms.take(k as int)),
            faces == face_total(ms.take(k as int)),
            triangles == triangle_total(ms.take(k as int)),
    {
        assert(ms.take(k + 1).drop_last() =~= ms.take(k as int));
        assert(ms[k as int] == scene.meshes@[k as int]@);
        proof {
            lemma_vertex_total_prefix(ms, k + 1);
            lemma_face_total_prefix(ms, k + 1);
            lemma_triangle_total_prefix(ms, k + 1);
        }
        let m = &scene.meshes[k];
        vertices = vertices + m.vertices.len();
        faces = faces + m.faces.len();
        let t = mesh_triangles(m, usize::MAX - triangles);
        triangles = triangles + t;
    }
    assert(ms.take(n as int) =~= ms);
    (vertices, faces, triangles)
}

/// The number of faces of the scene.
pub fn get_face_count(scene: &Scene) -> (r: usize)
    requires
        face_total(scene@.meshes) <= usize::MAX,
    ensures
        r == face_total(scene@.meshes),
{
    let ghost ms = scene@.meshes;
    let mut faces: usize = 0;
    let n = scene.meshes.len();
    for k in 0..n
        invariant
            n == scene.meshes@.len(),
            ms == scene@.meshes,
            face_total(ms) <= usize::MAX,
            faces == face_total(ms.take(k as int)),
    {
        assert(ms.take(k + 1).drop_last() =~= ms.take(k as int));
        assert(ms[k as int] == scene.meshes@[k as int]@);
        proof {
            lemma_face_total_prefix(ms, k + 1);
        }
        faces = faces + scene.meshes[k].faces.len();
    }
    assert(ms.take(n as int) =~= ms);
    faces
}

/// The number of vertices of the scene.
pub fn get_vertex_count(scene: &Scene) -> (r: usize)
    requires
        vertex_total(scene@.meshes) <= usize::MAX,
    ensures
        r == vertex_total(scene@.meshes),
{
    let ghost ms = scene@.meshes;
    let mut vertices: usize = 0;
    let n = scene.meshes.len();
    for k in 0..n
        invariant
            n == scene.meshes@.len(),
            ms == scene@.meshes,
            vertex_total(ms) <= usize::MAX,
            vertices == vertex_total(ms.take(k as int)),
    {
        assert(ms.take(k + 1).drop_last() =~= ms.take(k as int));
        assert(ms[k as int] == scene.meshes@[k as int]@);
        proof {
            lemma_vertex_total_prefix(ms, k + 1);
        }
        vertices = vertices + scene.meshes[k].vertices.len();
    }
    assert(ms.take(n as int) =~= ms);
    vertices
}

/// The number of triangles of the scene: `n - 2` for each face of `n >= 3`
/// vertices.
pub fn get_triangle_count(scene: &Scene) -> (r: usize)
    requires
        triangle_total(scene@.meshes) <= usize::MAX,
    ensures
        r == triangle_total(scene@.meshes),
{
    let ghost ms = scene@.meshes;
    let mut triangles: usize = 0;
    let n = scene.meshes.len();
    for k in 0..n
        invariant
            n == scene.meshes@.len(),
            ms == scene@.meshes,
            triangle_total(ms) <= usize::MAX,
            triangles == triangle_total(ms.take(k as int)),
    {
        assert(ms.take(k + 1).drop_last() =~= ms.take(k as int));
        assert(ms[k as int] == scene.meshes@[k as int]@);
        proof {
            lemma_triangle_total_prefix(ms, k + 1);
        }
        let t = mesh_triangles(&scene.meshes[k], usize::MAX - triangles);
        triangles = triangles + t;
    }
    assert(ms.take(n as int) =~= ms);
    triangles
}

/// The number of materials of the scene.
pub fn get_material_count(scene: &Scene) -> (r: usize)
    ensures
        r == scene@.materials.len(),
{
    scene.materials.len()
}

/// The number of meshes of the scene.
pub fn get_mesh_count(scene: &Scene) -> (r: usize)
    ensures
        r == scene@.meshes.len(),
{
    scene.meshes.len()
}

// ---------------------------------------------------------------------------
// Names and textures
// ---------------------------------------------------------------------------
/// The diffuse textures of the materials `ms` that have one, in order.
pub open spec fn diffuse_textures(ms: Seq<MaterialView>) -> Seq<Seq<char>>
    decreases ms.len(),
{
    if ms.len() == 0 {
        Seq::empty()
    } else {
        match ms.last().diffuse_texture {
            Some(t) => diffuse_textures(ms.drop_last()).push(t),
            None => diffuse_textures(ms.drop_last()),
        }
    }
}

/// The views of a list of strings.
pub open spec fn names_view(v: Seq<String>) -> Seq<Seq<char>> {
    v.map_values(|s: String| s@)
}

/// The diffuse textures of the materials that have one, in order.
pub fn get_textures(scene: &Scene) -> (r: Vec<String>)
    ensures
        names_view(r@) == diffuse_textures(scene@.materials),
{
    let ghost ms = scene@.materials;
    let mut r: Vec<String> = Vec::new();
    let n = scene.materials.len();
    for k in 0..n
        invariant
            n == scene.materials@.len(),
            ms == scene@.materials,
            names_view(r@) == diffuse_textures(ms.take(k as int)),
    {
        assert(ms.take(k + 1).drop_last() =~= ms.take(k as int));
        assert(ms[k as int] == scene.materials@[k as int]@);
        let ghost before = names_view(r@);
        match &scene.materials[k].diffuse_texture {
            Some(t) => {
                r.push(t.clone());
                assert(names_view(r@) =~= before.push(t@));
            },
            None => {},
        }
    }
    assert(ms.take(n as int) =~= ms);
    r
}

/// The diffuse textures of the materials that have one, in order.
pub fn get_texture_names(scene: &Scene) -> (r: Vec<String>)
    ensures
        names_view(r@) == diffuse_textures(scene@.materials),
{
    get_textures(scene)
}

/// The number of materials that have a diffuse texture.
pub fn get_texture_count(scene: &Scene) -> (r: usize)
    ensures
        r == diffuse_textures(scene@.materials).len(),
{
    let ghost ms = scene@.materials;
    let mut c: usize = 0;
    let n = scene.materials.len();
    for k in 0..n
        invariant
            n == scene.materials@.len(),
            ms == scene@.materials,
            c == diffuse_textures(ms.take(k as int)).len(),
            c <= k,
    {
        assert(ms.take(k + 1).drop_last() =~= ms.take(k as int));
        assert(ms[k as int] == scene.materials@[k as int]@);
        if scene.materials[k].diffuse_texture.is_some() {
            c = c + 1;
        }
    }
    assert(ms.take(n as int) =~= ms);
    c
}

/// The names of the meshes, in order.
pub fn get_mesh_names(scene: &Scene) -> (r: Vec<String>)
    ensures
        names_view(r@) == scene@.meshes.map_values(|m: MeshView| m.name),
{
    let mut r: Vec<String> = Vec::new();
    let n = scene.meshes.len();
    for k in 0..n
        invariant
            n == scene.meshes@.len(),
            r@.len() == k,
            forall|j: int| 0 <= j < k ==> #[trigger] r@[j]@ == scene.meshes@[j].name@,
    {
        r.push(scene.meshes[k].name.clone());
    }
    assert(names_view(r@) =~= scene@.meshes.map_values(|m: MeshView| m.name));
    r
}

/// The names of the materials, in order.
pub fn get_material_names(scene: &Scene) -> (r: Vec<String>)
    ensures
        names_view(r@) == scene@.materials.map_values(|m: MaterialView| m.name),
{
    let mut r: Vec<String> = Vec::new();
    let n = scene.materials.len();
    for k in 0..n
        invariant
            n == scene.materials@.len(),
            r@.len() == k,
            forall|j: int| 0 <= j < k ==> #[trigger] r@[j]@ == scene.materials@[j].name@,
    {
        r.push(scene.materials[k].name.clone());
    }
    assert(names_view(r@) =~= scene@.materials.map_values(|m: MaterialView| m.name));
    r
}

// ---------------------------------------------------------------------------
// Meshes and faces by material, vertex or position
// ---------------------------------------------------------------------------
/// Whether some face of mesh `m` uses the material `x`.
pub open spec fn mesh_uses_material(m: Mesh, x: u32) -> bool {
    exists|j: int| 0 <= j < m.faces@.len() && (#[trigger] m.faces@[j]).material_index == Some(x)
}

/// The meshes of `ms` that use the material `x`, in order.
pub open spec fn meshes_using(ms: Seq<Mesh>, x: u32) -> Seq<Mesh>
    decreases ms.len(),
{
    if ms.len() == 0 {
        Seq::empty()
    } else if mesh_uses_material(ms.last(), x) {
        meshes_using(ms.drop_last(), x).push(ms.last())
    } else {
        meshes_using(ms.drop_last(), x)
    }
}

/// The faces of `fs` that use the material `x`, in order.
pub open spec fn faces_using(fs: Seq<Face>, x: u32) -> Seq<Face>
    decreases fs.len(),
{
    if fs.len() == 0 {
        Seq::empty()
    } else if fs.last().material_index == Some(x) {
        faces_using(fs.drop_last(), x).push(fs.last())
    } else {
        faces_using(fs.drop_last(), x)
    }
}

/// The faces of `fs` that have the vertex `x`, in order.
pub open spec fn faces_with_vertex(fs: Seq<Face>, x: u32) -> Seq<Face>
    decreases fs.len(),
{
    if fs.len() == 0 {
        Seq::empty()
    } else if fs.last().vertex_indices@.contains(x) {
        faces_with_vertex(fs.drop_last(), x).push(fs.last())
    } else {
        faces_with_vertex(fs.drop_last(), x)
    }
}

/// The values behind a list of references.
pub open spec fn derefs<T>(v: Seq<&T>) -> Seq<T> {
    v.map_values(|r: &T| *r)
}

/// Whether some face of `m` uses the material `x`.
fn uses_material(m: &Mesh, x: u32) -> (r: bool)
    ensures
        r == mesh_uses_material(*m, x),
{
    let n = m.faces.len();
    for j in 0..n
        invariant
            n == m.faces@.len(),
            forall|k: int| 0 <= k < j ==> (#[trigger] m.faces@[k]).material_index != Some(x),
    {
        if m.faces[j].material_index == Some(x) {
            return true;
        }
    }
    false
}

/// Whether `v` holds `x`.
fn holds(v: &Vec<u32>, x: u32) -> (r: bool)
    ensures
        r == v@.contains(x),
{
    let n = v.len();
    for i in 0..n
        invariant
            n == v@.len(),
            forall|k: int| 0 <= k < i ==> v@[k] != x,
    {
        if v[i] == x {
            assert(v@[i as int] == x);
            return true;
        }
    }
    false
}

/// The meshes that have a face using the material at `material_index`
/// (compared as a `u32`), in order.
pub fn get_meshes_by_material(scene: &Scene, material_index: usize) -> (r: Vec<&Mesh>)
    ensures
        derefs(r@) == meshes_using(scene.meshes@, material_index as u32),
{
    let x = material_index as u32;
    let mut r: Vec<&Mesh> = Vec::new();
    let n = scene.meshes.len();
    for k in 0..n
        invariant
            n == scene.meshes@.len(),
            x == material_index as u32,
            derefs(r@) == meshes_using(scene.meshes@.take(k as int), x),
    {
        assert(scene.meshes@.take(k + 1).drop_last() =~= scene.meshes@.take(k as int));
        let ghost before = derefs(r@);
        if uses_material(&scene.meshes[k], x) {
            r.push(&scene.meshes[k]);
            assert(derefs(r@) =~= before.push(scene.meshes@[k as int]));
        }
    }
    assert(scene.meshes@.take(n as int) =~= scene.meshes@);
    r
}

/// The faces of `mesh` that use the material at `material_index` (compared
/// as a `u32`), in order.
pub fn get_faces_by_material(mesh: &Mesh, material_index: usize) -> (r: Vec<&Face>)
    ensures
        derefs(r@) == faces_using(mesh.faces@, material_index as u32),
{
    let x = material_index as u32;
    let mut r: Vec<&Face> = Vec::new();
    let n = mesh.faces.len();
    for k in 0..n
        invariant
            n == mesh.faces@.len(),
            x == material_index as u32,
            derefs(r@) == faces_using(mesh.faces@.take(k as int), x),
    {
        assert(mesh.faces@.take(k + 1).drop_last() =~= mesh.faces@.take(k as int));
        let ghost before = derefs(r@);
        if mesh.faces[k].material_index == Some(x) {
            r.push(&mesh.faces[k]);
            assert(derefs(r@) =~= before.push(mesh.faces@[k as int]));
        }
    }
    assert(mesh.faces@.take(n as int) =~= mesh.faces@);
    r
}

/// The faces of `mesh` that have the vertex `vertex_index` (compared as a
/// `u32`), in order.
pub fn get_faces_by_vertex(mesh: &Mesh, vertex_index: usize) -> (r: Vec<&Face>)
    ensures
        derefs(r@) == faces_with_vertex(mesh.faces@, vertex_index as u32),
{
    let x = vertex_index as u32;
    let mut r: Vec<&Face> = Vec::new();
    let n = mesh.faces.len();
    for k in 0..n
        invariant
            n == mesh.faces@.len(),
            x == vertex_index as u32,
            derefs(r@) == faces_with_vertex(mesh.faces@.take(k as int), x),
    {
        assert(mesh.faces@.take(k + 1).drop_last() =~= mesh.faces@.take(k as int));
        let ghost before = derefs(r@);
        if holds(&mesh.faces[k].vertex_indices, x) {
            r.push(&mesh.faces[k]);
            assert(derefs(r@) =~= before.push(mesh.faces@[k as int]));
        }
    }
    assert(mesh.faces@.take(n as int) =~= mesh.faces@);
    r
}

/// The position of the mesh that holds face `i` when the faces of all
/// meshes are counted one after the other.
pub open spec fn mesh_of_face(ms: Seq<MeshView>, i: nat) -> Option<int>
    decreases ms.len(),
{
    if ms.len() == 0 {
        None
    } else {
        match mesh_of_face(ms.drop_last(), i) {
            Some(k) => Some(k),
            None => if i < face_total(ms) {
                Some(ms.len() - 1)
            } else {
                None
            },
        }
    }
}

/// `mesh_of_face` on a prefix that already holds the face.
proof fn lemma_mesh_of_face_prefix(ms: Seq<MeshView>, j: int, i: nat)
    requires
        0 <= j <= ms.len(),
        mesh_of_face(ms.take(j), i) is Some,
    ensures
        mesh_of_face(ms, i) == mesh_of_face(ms.take(j), i),
    decreases ms.len() - j,
{
    if j < ms.len() {
        assert(ms.take(j + 1).drop_last() =~= ms.take(j));
        lemma_mesh_of_face_prefix(ms, j + 1, i);
    } else {
        assert(ms.take(j) =~= ms);
    }
}

/// `mesh_of_face` is `None` exactly when the face lies beyond all faces.
proof fn lemma_mesh_of_face_none(ms: Seq<MeshView>, i: nat)
    ensures
        mesh_of_face(ms, i) is None <==> i >= face_total(ms),
        mesh_of_face(ms, i) matches Some(k) ==> 0 <= k < ms.len(),
    decreases ms.len(),
{
    if ms.len() > 0 {
        lemma_mesh_of_face_none(ms.drop_last(), i);
    }
}

/// The mesh that holds face `face_index` when the faces of all meshes are
/// counted one after the other, if there is one.
pub fn get_mesh_by_face(scene: &Scene, face_index: usize) -> (r: Option<&Mesh>)
    ensures
        match mesh_of_face(scene@.meshes, face_index as nat) {
            Some(k) => r == Some(&scene.meshes@[k]),
            None => r is None,
        },
{
    let ghost ms = scene@.meshes;
    let mut count: usize = 0;
    let n = scene.meshes.len();
    for k in 0..n
        invariant
            n == scene.meshes@.len(),
            ms == scene@.meshes,
            count == face_total(ms.take(k as int)),
            count <= face_index,
            mesh_of_face(ms.take(k as int), face_index as nat) is None,
    {
        assert(ms.take(k + 1).drop_last() =~= ms.take(k as int));
        assert(ms[k as int] == scene.meshes@[k as int]@);
        let len = scene.meshes[k].faces.len();
        if face_index - count < len {
            assert(mesh_of_face(ms.take(k + 1), face_index as nat) == Some(k as int));
            proof {
                lemma_mesh_of_face_prefix(ms, k + 1, face_index as nat);
            }
            return Some(&scene.meshes[k]);
        }
        count = count + len;
    }
    assert(ms.take(n as int) =~= ms);
    None
}

/// The material of face `face_index` of `mesh`, looked up in the scene, if
/// the face exists and has a material that exists.
pub fn get_material_by_face<'a>(scene: &'a Scene, mesh: &Mesh, face_index: usize) -> (r: Option<
    &'a Material,
>)
    ensures
        r == if face_index < mesh.faces@.len() {
            match mesh.faces@[face_index as int].material_index {
                Some(x) => if x < scene.materials@.len() {
                    Some(&scene.materials@[x as int])
                } else {
                    None
                },
                None => None,
            }
        } else {
            None
        },
{
    if face_index < mesh.faces.len() {
        match mesh.faces[face_index].material_index {
            Some(x) => if (x as usize) < scene.materials.len() {
                Some(&scene.materials[x as usize])
            } else {
                None
            },
            None => None,
        }
    } else {
        None
    }
}

// ---------------------------------------------------------------------------
// A summary
// ---------------------------------------------------------------------------
/// The summary text of a scene with the given counts.
pub open spec fn info_text(meshes: nat, materials: nat, vertices: nat, faces: nat, triangles: nat) -> Seq<
    char,
> {
    "Scene Information:\n  Meshes: "@ + decimal(meshes) + "\n  Materials: "@ + decimal(materials)
        + "\n  Vertices: "@ + decimal(vertices) + "\n  Faces: "@ + decimal(faces) + "\n  Triangles: "@
        + decimal(triangles)
}

/// A summary of the scene: the numbers of meshes, materials, vertices, faces
/// and triangles.
pub fn get_scene_info(scene: &Scene) -> (r: String)
    requires
        vertex_total(scene@.meshes) <= usize::MAX,
        face_total(scene@.meshes) <= usize::MAX,
        triangle_total(scene@.meshes) <= usize::MAX,
    ensures
        r@ == info_text(
            scene@.meshes.len(),
            scene@.materials.len(),
            vertex_total(scene@.meshes),
            face_total(scene@.meshes),
            triangle_total(scene@.meshes),
        ),
{
    let (vertices, faces, triangles) = get_scene_size(scene);
    let mut s = String::new();
    push_str(&mut s, "Scene Information:\n  Meshes: ");
    push_decimal(&mut s, scene.meshes.len() as u64);
    push_str(&mut s, "\n  Materials: ");
    push_decimal(&mut s, scene.materials.len() as u64);
    push_str(&mut s, "\n  Vertices: ");
    push_decimal(&mut s, vertices as u64);
    push_str(&mut s, "\n  Faces: ");
    push_decimal(&mut s, faces as u64);
    push_str(&mut s, "\n  Triangles: ");
    push_decimal(&mut s, triangles as u64);
    s
}

} // verus!
