//! Checking that every index of a scene refers to something.
use vstd::prelude::*;

use crate::error::CrdError;
use crate::models::{Face, FaceView, Mesh, MeshView, Scene, SceneView};
use crate::text::{decimal, push_decimal, push_str};

verus! {

/// The kinds of indices a face holds.
#[derive(Debug, Clone, Copy, PartialEq, Eq, Structural)]
pub enum IndexKind {
    Vertex,
    Normal,
    Uv,
    Material,
}

/// The first element of `s` that is not below `bound`.
pub open spec fn first_at_least(s: Seq<u32>, bound: nat) -> Option<u32>
    decreases s.len(),
{
    if s.len() == 0 {
        None
    } else {
        match first_at_least(s.drop_last(), bound) {
            Some(x) => Some(x),
            None => if s.last() >= bound {
                Some(s.last())
            } else {
                None
            },
        }
    }
}

/// The first index of face `f` of mesh `m` that refers to nothing, in the
/// order vertices, normals, UVs, material; `n_materials` is the number of
/// materials of the scene.
pub open spec fn face_fault(f: FaceView, m: MeshView, n_materials: nat) -> Option<(IndexKind, u32)> {
    match first_at_least(f.vertex_indices, m.vertices.len()) {
        Some(x) => Some((IndexKind::Vertex, x)),
        None => match first_at_least(f.normal_indices, m.normals.len()) {
            Some(x) => Some((IndexKind::Normal, x)),
            None => match first_at_least(f.uv_indices, m.uvs.len()) {
                Some(x) => Some((IndexKind::Uv, x)),
                None => match f.material_index {
                    Some(x) => if x >= n_materials {
                        Some((IndexKind::Material, x))
                    } else {
                        None
                    },
                    None => None,
                },
            },
        },
    }
}

/// The first fault among the faces `faces` of mesh `m`.
pub open spec fn faces_fault(faces: Seq<FaceView>, m: MeshView, n_materials: nat) -> Option<
    (IndexKind, u32),
>
    decreases faces.len(),
{
    if faces.len() == 0 {
        None
    } else {
        match faces_fault(faces.drop_last(), m, n_materials) {
            Some(e) => Some(e),
            None => face_fault(faces.last(), m, n_materials),
        }
    }
}

/// The first fault among the meshes `meshes`.
pub open spec fn meshes_fault(meshes: Seq<MeshView>, n_materials: nat) -> Option<(IndexKind, u32)>
    decreases meshes.len(),
{
    if meshes.len() == 0 {
        None
    } else {
        match meshes_fault(meshes.drop_last(), n_materials) {
            Some(e) => Some(e),
            None => faces_fault(meshes.last().faces, meshes.last(), n_materials),
        }
    }
}

/// The first index of the scene that refers to nothing, with its kind.
pub open spec fn scene_fault(s: SceneView) -> Option<(IndexKind, u32)> {
    meshes_fault(s.meshes, s.materials.len())
}

/// Every index of face `f` of mesh `m` refers to an element.
pub open spec fn face_valid(f: FaceView, m: MeshView, n_materials: nat) -> bool {
    &&& forall|i: int| 0 <= i < f.vertex_indices.len() ==> #[trigger] f.vertex_indices[i] < m.vertices.len()
    &&& forall|i: int| 0 <= i < f.normal_indices.len() ==> #[trigger] f.normal_indices[i] < m.normals.len()
    &&& forall|i: int| 0 <= i < f.uv_indices.len() ==> #[trigger] f.uv_indices[i] < m.uvs.len()
    &&& f.material_index matches Some(x) ==> x < n_materials
}

/// Every index of every face of mesh `m` refers to an element.
pub open spec fn mesh_valid(m: MeshView, n_materials: nat) -> bool {
    forall|j: int| 0 <= j < m.faces.len() ==> face_valid(#[trigger] m.faces[j], m, n_materials)
}

/// Every index of the scene refers to an element.
pub open spec fn scene_valid(s: SceneView) -> bool {
    forall|k: int| 0 <= k < s.meshes.len() ==> mesh_valid(#[trigger] s.meshes[k], s.materials.len())
}

/// The message that reports a fault.
pub open spec fn index_message(kind: IndexKind, x: u32) -> Seq<char> {
    match kind {
        IndexKind::Vertex => "Invalid vertex index: "@ + decimal(x as nat),
        IndexKind::Normal => "Invalid normal index: "@ + decimal(x as nat),
        IndexKind::Uv => "Invalid uv index: "@ + decimal(x as nat),
        IndexKind::Material => "Invalid material index: "@ + decimal(x as nat),
    }
}

proof fn lemma_first_at_least(s: Seq<u32>, bound: nat)
    ensures
        first_at_least(s, bound) is None <==> forall|i: int| 0 <= i < s.len() ==> #[trigger] s[i]
            < bound,
    decreases s.len(),
{
    if s.len() > 0 {
        lemma_first_at_least(s.drop_last(), bound);
        if first_at_least(s, bound) is None {
            assert forall|i: int| 0 <= i < s.len() implies #[trigger] s[i] < bound by {
                if i < s.len() - 1 {
                    assert(s[i] == s.drop_last()[i]);
                }
            }
        } else if forall|i: int| 0 <= i < s.len() ==> #[trigger] s[i] < bound {
            assert forall|i: int| 0 <= i < s.drop_last().len() implies #[trigger] s.drop_last()[i]
                < bound by {
                assert(s.drop_last()[i] == s[i]);
            }
            assert(s[s.len() - 1] < bound);
        }
    }
}

proof fn lemma_face_fault(f: FaceView, m: MeshView, n: nat)
    ensures
        face_fault(f, m, n) is None <==> face_valid(f, m, n),
{
    lemma_first_at_least(f.vertex_indices, m.vertices.len());
    lemma_first_at_least(f.normal_indices, m.normals.len());
    lemma_first_at_least(f.uv_indices, m.uvs.len());
}

proof fn lemma_faces_fault(faces: Seq<FaceView>, m: MeshView, n: nat)
    ensures
        faces_fault(faces, m, n) is None <==> forall|j: int|
            0 <= j < faces.len() ==> face_valid(#[trigger] faces[j], m, n),
    decreases faces.len(),
{
    if faces.len() > 0 {
        lemma_faces_fault(faces.drop_last(), m, n);
        lemma_face_fault(faces.last(), m, n);
        if faces_fault(faces, m, n) is None {
            assert forall|j: int| 0 <= j < faces.len() implies face_valid(#[trigger] faces[j], m, n) by {
                if j < faces.len() - 1 {
                    assert(faces[j] == faces.drop_last()[j]);
                }
            }
        } else if forall|j: int| 0 <= j < faces.len() ==> face_valid(#[trigger] faces[j], m, n) {
            assert forall|j: int| 0 <= j < faces.drop_last().len() implies face_valid(
                #[trigger] faces.drop_last()[j],
                m,
                n,
            ) by {
                assert(faces.drop_last()[j] == faces[j]);
            }
            assert(face_valid(faces[faces.len() - 1], m, n));
        }
    }
}

proof fn lemma_meshes_fault(meshes: Seq<MeshView>, n: nat)
    ensures
        meshes_fault(meshes, n) is None <==> forall|k: int|
            0 <= k < meshes.len() ==> mesh_valid(#[trigger] meshes[k], n),
    decreases meshes.len(),
{
    if meshes.len() > 0 {
        lemma_meshes_fault(meshes.drop_last(), n);
        lemma_faces_fault(meshes.last().faces, meshes.last(), n);
        if meshes_fault(meshes, n) is None {
            assert forall|k: int| 0 <= k < meshes.len() implies mesh_valid(#[trigger] meshes[k], n) by {
                if k < meshes.len() - 1 {
                    assert(meshes[k] == meshes.drop_last()[k]);
                }
            }
        } else if forall|k: int| 0 <= k < meshes.len() ==> mesh_valid(#[trigger] meshes[k], n) {
            assert forall|k: int| 0 <= k < meshes.drop_last().len() implies mesh_valid(
                #[trigger] meshes.drop_last()[k],
                n,
            ) by {
                assert(meshes.drop_last()[k] == meshes[k]);
            }
            assert(mesh_valid(meshes[meshes.len() - 1], n));
        }
    }
}

/// A scene has no fault exactly when every index refers to an element.
pub proof fn lemma_scene_fault_iff_invalid(s: SceneView)
    ensures
        scene_fault(s) is None <==> scene_valid(s),
{
    lemma_meshes_fault(s.meshes, s.materials.len());
}

/// The first element of `v` that is not below `bound`.
fn find_at_least(v: &Vec<u32>, bound: usize) -> (r: Option<u32>)
    ensures
        r == first_at_least(v@, bound as nat),
{
    let n = v.len();
    for i in 0..n
        invariant
            n == v@.len(),
            first_at_least(v@.take(i as int), bound as nat) is None,
    {
        assert(v@.take(i + 1).drop_last() =~= v@.take(i as int));
        if v[i] as usize >= bound {
            proof {
                lemma_first_at_least_prefix(v@, i + 1, bound as nat);
            }
            return Some(v[i]);
        }
    }
    assert(v@.take(n as int) =~= v@);
    None
}

proof fn lemma_first_at_least_prefix(s: Seq<u32>, j: int, bound: nat)
    requires
        0 <= j <= s.len(),
        first_at_least(s.take(j), bound) is Some,
    ensures
        first_at_least(s, bound) == first_at_least(s.take(j), bound),
    decreases s.len() - j,
{
    if j < s.len() {
        assert(s.take(j + 1).drop_last() =~= s.take(j));
        lemma_first_at_least_prefix(s, j + 1, bound);
    } else {
        assert(s.take(j) =~= s);
    }
}

/// The first fault of a face.
fn check_face(f: &Face, m: &Mesh, n_materials: usize) -> (r: Option<(IndexKind, u32)>)
    ensures
        r == face_fault(f@, m@, n_materials as nat),
{
    if let Some(x) = find_at_least(&f.vertex_indices, m.vertices.len()) {
        return Some((IndexKind::Vertex, x));
    }
    if let Some(x) = find_at_least(&f.normal_indices, m.normals.len()) {
        return Some((IndexKind::Normal, x));
    }
    if let Some(x) = find_at_least(&f.uv_indices, m.uvs.len()) {
        return Some((IndexKind::Uv, x));
    }
    match f.material_index {
        Some(x) => if x as usize >= n_materials {
            Some((IndexKind::Material, x))
        } else {
            None
        },
        None => None,
    }
}

/// The first fault of a mesh.
fn check_mesh(m: &Mesh, n_materials: usize) -> (r: Option<(IndexKind, u32)>)
    ensures
        r == faces_fault(m@.faces, m@, n_materials as nat),
{
    let ghost fs = m@.faces;
    let n = m.faces.len();
    for j in 0..n
        invariant
            n == m.faces@.len(),
            fs == m@.faces,
            faces_fault(fs.take(j as int), m@, n_materials as nat) is None,
    {
        assert(fs.take(j + 1).drop_last() =~= fs.take(j as int));
        assert(fs[j as int] == m.faces@[j as int]@);
        let e = check_face(&m.faces[j], m, n_materials);
        if e.is_some() {
            proof {
                lemma_faces_fault_prefix(fs, j + 1, m@, n_materials as nat);
            }
            return e;
        }
    }
    assert(fs.take(n as int) =~= fs);
    None
}

proof fn lemma_faces_fault_prefix(fs: Seq<FaceView>, j: int, m: MeshView, n: nat)
    requires
        0 <= j <= fs.len(),
        faces_fault(fs.take(j), m, n) is Some,
    ensures
        faces_fault(fs, m, n) == faces_fault(fs.take(j), m, n),
    decreases fs.len() - j,
{
    if j < fs.len() {
        assert(fs.take(j + 1).drop_last() =~= fs.take(j));
        lemma_faces_fault_prefix(fs, j + 1, m, n);
    } else {
        assert(fs.take(j) =~= fs);
    }
}

proof fn lemma_meshes_fault_prefix(ms: Seq<MeshView>, j: int, n: nat)
    requires
        0 <= j <= ms.len(),
        meshes_fault(ms.take(j), n) is Some,
    ensures
        meshes_fault(ms, n) == meshes_fault(ms.take(j), n),
    decreases ms.len() - j,
{
    if j < ms.len() {
        assert(ms.take(j + 1).drop_last() =~= ms.take(j));
        lemma_meshes_fault_prefix(ms, j + 1, n);
    } else {
        assert(ms.take(j) =~= ms);
    }
}

/// The message of a fault.
fn fault_message(kind: IndexKind, x: u32) -> (r: String)
    ensures
        r@ == index_message(kind, x),
{
    let mut m = String::new();
    match kind {
        IndexKind::Vertex => push_str(&mut m, "Invalid vertex index: "),
        IndexKind::Normal => push_str(&mut m, "Invalid normal index: "),
        IndexKind::Uv => push_str(&mut m, "Invalid uv index: "),
        IndexKind::Material => push_str(&mut m, "Invalid material index: "),
    }
    push_decimal(&mut m, x as u64);
    m
}

/// Checks that every index of the scene refers to an element; reports the
/// first one that does not (meshes in order, faces in order, and within a
/// face vertices, then normals, then UVs, then the material).
pub fn validate(scene: &Scene) -> (r: Result<(), CrdError>)
    ensures
        r is Ok <==> scene_valid(scene@),
        match scene_fault(scene@) {
            None => r is Ok,
            Some((kind, x)) => r matches Err(CrdError::InvalidIndex(m)) && m@ == index_message(
                kind,
                x,
            ),
        },
{
    proof {
        lemma_scene_fault_iff_invalid(scene@);
    }
    let ghost ms = scene@.meshes;
    let n_materials = scene.materials.len();
    let n = scene.meshes.len();
    for k in 0..n
        invariant
            n == scene.meshes@.len(),
            ms == scene@.meshes,
            n_materials == scene@.materials.len(),
            meshes_fault(ms.take(k as int), n_materials as nat) is None,
    {
        assert(ms.take(k + 1).drop_last() =~= ms.take(k as int));
        assert(ms[k as int] == scene.meshes@[k as int]@);
        match check_mesh(&scene.meshes[k], n_materials) {
            Some((kind, x)) => {
                proof {
                    lemma_meshes_fault_prefix(ms, k + 1, n_materials as nat);
                    assert(scene_fault(scene@) is Some);
                    lemma_scene_fault_iff_invalid(scene@);
                }
                return Err(CrdError::InvalidIndex(fault_message(kind, x)));
            },
            None => {},
        }
    }
    assert(ms.take(n as int) =~= ms);
    Ok(())
}

} // verus!
