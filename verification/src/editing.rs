//! Creating scenes and editing their meshes and materials.
use vstd::prelude::*;

use crate::models::{
    empty_scene_view, faces_view, materials_view, meshes_view, FaceView, Material, MaterialView,
    Mesh, MeshView, Replicate, Scene, SceneView,
};

verus! {

/// The scene `s` with its meshes replaced by `meshes`.
pub open spec fn with_meshes(s: SceneView, meshes: Seq<MeshView>) -> SceneView {
    SceneView { meshes, ..s }
}

/// The scene `s` with its materials replaced by `materials`.
pub open spec fn with_materials(s: SceneView, materials: Seq<MaterialView>) -> SceneView {
    SceneView { materials, ..s }
}

/// The face `f` with its material replaced by `m`.
pub open spec fn face_with_material(f: FaceView, m: Option<u32>) -> FaceView {
    FaceView { material_index: m, ..f }
}

/// The mesh `m` with its faces replaced by `faces`.
pub open spec fn mesh_with_faces(m: MeshView, faces: Seq<FaceView>) -> MeshView {
    MeshView { faces, ..m }
}

/// The material index of a face after the material `removed` was taken out of
/// the material list: references to it are cleared, references to later
/// materials move down by one.
pub open spec fn material_after_removal(mi: Option<u32>, removed: u32) -> Option<u32> {
    match mi {
        Some(k) => if k == removed {
            None
        } else if k > removed {
            Some((k - 1) as u32)
        } else {
            Some(k)
        },
        None => None,
    }
}

/// The mesh `m` after the material `removed` was taken out of the scene.
pub open spec fn mesh_after_material_removal(m: MeshView, removed: u32) -> MeshView {
    mesh_with_faces(
        m,
        m.faces.map_values(
            |f: FaceView| face_with_material(f, material_after_removal(f.material_index, removed)),
        ),
    )
}

/// The mesh `m` with every face given the material `mi`.
pub open spec fn mesh_with_material(m: MeshView, mi: Option<u32>) -> MeshView {
    mesh_with_faces(m, m.faces.map_values(|f: FaceView| face_with_material(f, mi)))
}

/// The scene `s` after the material at `index` was removed and the faces
/// relabelled.
pub open spec fn scene_after_material_removal(s: SceneView, index: usize) -> SceneView {
    SceneView {
        materials: s.materials.remove(index as int),
        meshes: s.meshes.map_values(|m: MeshView| mesh_after_material_removal(m, index as u32)),
        ..s
    }
}

/// The scene `s` with no materials and no face referring to one.
pub open spec fn scene_without_materials(s: SceneView) -> SceneView {
    SceneView {
        materials: Seq::empty(),
        meshes: s.meshes.map_values(|m: MeshView| mesh_with_material(m, None)),
        ..s
    }
}

/// Creates a new, empty scene.
pub fn new() -> (r: Scene)
    ensures
        r@ == empty_scene_view(),
{
    Scene::default()
}

/// Returns a copy of the scene.
pub fn clone(scene: &Scene) -> (r: Scene)
    ensures
        r@ == scene@,
{
    scene.replicate()
}

/// Appends a mesh to the scene.
pub fn add_mesh(scene: &mut Scene, mesh: Mesh)
    ensures
        final(scene)@ == with_meshes(old(scene)@, old(scene)@.meshes.push(mesh@)),
{
    let ghost m = mesh@;
    scene.meshes.push(mesh);
    assert(meshes_view(scene.meshes@) =~= meshes_view(old(scene).meshes@).push(m));
}

/// Removes the mesh at `index`; an index out of range leaves the scene unchanged.
pub fn remove_mesh(scene: &mut Scene, index: usize)
    ensures
        final(scene)@ == if index < old(scene)@.meshes.len() {
            with_meshes(old(scene)@, old(scene)@.meshes.remove(index as int))
        } else {
            old(scene)@
        },
{
    if index < scene.meshes.len() {
        scene.meshes.remove(index);
        assert(meshes_view(scene.meshes@) =~= meshes_view(old(scene).meshes@).remove(
            index as int,
        ));
    }
}

/// Appends a material to the scene.
pub fn add_material(scene: &mut Scene, material: Material)
    ensures
        final(scene)@ == with_materials(old(scene)@, old(scene)@.materials.push(material@)),
{
    let ghost m = material@;
    scene.materials.push(material);
    assert(materials_view(scene.materials@) =~= materials_view(old(scene).materials@).push(m));
}

/// Sets the material of every face of `mesh` to `mi`.
fn set_mesh_material(mesh: &mut Mesh, mi: Option<u32>)
    ensures
        final(mesh)@ == mesh_with_material(old(mesh)@, mi),
{
    let n = mesh.faces.len();
    for j in 0..n
        invariant
            n == mesh.faces@.len(),
            n == old(mesh).faces@.len(),
            mesh.name == old(mesh).name,
            mesh.parent == old(mesh).parent,
            mesh.vertices == old(mesh).vertices,
            mesh.normals == old(mesh).normals,
            mesh.uvs == old(mesh).uvs,
            mesh.tangents == old(mesh).tangents,
            mesh.joints == old(mesh).joints,
            mesh.weights == old(mesh).weights,
            forall|k: int|
                0 <= k < j ==> #[trigger] mesh.faces@[k]@ == face_with_material(
                    old(mesh).faces@[k]@,
                    mi,
                ),
            forall|k: int| j <= k < n ==> #[trigger] mesh.faces@[k] == old(mesh).faces@[k],
    {
        mesh.faces[j].material_index = mi;
    }
    assert(faces_view(mesh.faces@) =~= old(mesh)@.faces.map_values(
        |f: FaceView| face_with_material(f, mi),
    ));
}

/// Rewrites the material indices of the faces of `mesh` after the material
/// `removed` was taken out of the scene.
fn relabel_mesh_materials(mesh: &mut Mesh, removed: u32)
    ensures
        final(mesh)@ == mesh_after_material_removal(old(mesh)@, removed),
{
    let n = mesh.faces.len();
    for j in 0..n
        invariant
            n == mesh.faces@.len(),
            n == old(mesh).faces@.len(),
            mesh.name == old(mesh).name,
            mesh.parent == old(mesh).parent,
            mesh.vertices == old(mesh).vertices,
            mesh.normals == old(mesh).normals,
            mesh.uvs == old(mesh).uvs,
            mesh.tangents == old(mesh).tangents,
            mesh.joints == old(mesh).joints,
            mesh.weights == old(mesh).weights,
            forall|k: int|
                0 <= k < j ==> #[trigger] mesh.faces@[k]@ == face_with_material(
                    old(mesh).faces@[k]@,
                    material_after_removal(old(mesh).faces@[k].material_index, removed),
                ),
            forall|k: int| j <= k < n ==> #[trigger] mesh.faces@[k] == old(mesh).faces@[k],
    {
        if let Some(k) = mesh.faces[j].material_index {
            if k == removed {
                mesh.faces[j].material_index = None;
            } else if k > removed {
                mesh.faces[j].material_index = Some(k - 1);
            }
        }
    }
    assert(faces_view(mesh.faces@) =~= old(mesh)@.faces.map_values(
        |f: FaceView| face_with_material(f, material_after_removal(f.material_index, removed)),
    ));
}

/// Removes the material at `index` and rewrites the material indices of all
/// faces: faces that used it lose their material, faces that used a later
/// material follow it down by one. An index out of range leaves the scene
/// unchanged.
pub fn remove_material(scene: &mut Scene, index: usize)
    ensures
        final(scene)@ == if index < old(scene)@.materials.len() {
            scene_after_material_removal(old(scene)@, index)
        } else {
            old(scene)@
        },
{
    if index < scene.materials.len() {
        scene.materials.remove(index);
        let removed = index as u32;
        let n = scene.meshes.len();
        for i in 0..n
            invariant
                n == scene.meshes@.len(),
                n == old(scene).meshes@.len(),
                removed == index as u32,
                scene.materials@ == old(scene).materials@.remove(index as int),
                scene.skins == old(scene).skins,
                scene.animations == old(scene).animations,
                scene.nodes == old(scene).nodes,
                scene.external_models == old(scene).external_models,
                forall|k: int|
                    0 <= k < i ==> #[trigger] scene.meshes@[k]@ == mesh_after_material_removal(
                        old(scene).meshes@[k]@,
                        removed,
                    ),
                forall|k: int| i <= k < n ==> #[trigger] scene.meshes@[k] == old(scene).meshes@[k],
        {
            relabel_mesh_materials(&mut scene.meshes[i], removed);
        }
        assert(meshes_view(scene.meshes@) =~= old(scene)@.meshes.map_values(
            |m: MeshView| mesh_after_material_removal(m, removed),
        ));
        assert(materials_view(scene.materials@) =~= old(scene)@.materials.remove(index as int));
    }
}

/// Gives every face of the mesh at `mesh_index` the material at
/// `material_index`; when either index is out of range the scene is unchanged.
pub fn assign_material(scene: &mut Scene, mesh_index: usize, material_index: usize)
    ensures
        final(scene)@ == if mesh_index < old(scene)@.meshes.len() && material_index < old(
            scene,
        )@.materials.len() {
            with_meshes(
                old(scene)@,
                old(scene)@.meshes.update(
                    mesh_index as int,
                    mesh_with_material(
                        old(scene)@.meshes[mesh_index as int],
                        Some(material_index as u32),
                    ),
                ),
            )
        } else {
            old(scene)@
        },
{
    if mesh_index < scene.meshes.len() && material_index < scene.materials.len() {
        set_mesh_material(&mut scene.meshes[mesh_index], Some(material_index as u32));
        assert(meshes_view(scene.meshes@) =~= meshes_view(old(scene).meshes@).update(
            mesh_index as int,
            mesh_with_material(
                old(scene)@.meshes[mesh_index as int],
                Some(material_index as u32),
            ),
        ));
    }
}

/// Removes all materials and clears the material of every face.
pub fn clear_materials(scene: &mut Scene)
    ensures
        final(scene)@ == scene_without_materials(old(scene)@),
{
    scene.materials.clear();
    let n = scene.meshes.len();
    for i in 0..n
        invariant
            n == scene.meshes@.len(),
            n == old(scene).meshes@.len(),
            scene.materials@.len() == 0,
            scene.skins == old(scene).skins,
            scene.animations == old(scene).animations,
            scene.nodes == old(scene).nodes,
            scene.external_models == old(scene).external_models,
            forall|k: int|
                0 <= k < i ==> #[trigger] scene.meshes@[k]@ == mesh_with_material(
                    old(scene).meshes@[k]@,
                    None,
                ),
            forall|k: int| i <= k < n ==> #[trigger] scene.meshes@[k] == old(scene).meshes@[k],
    {
        set_mesh_material(&mut scene.meshes[i], None);
    }
    assert(meshes_view(scene.meshes@) =~= old(scene)@.meshes.map_values(
        |m: MeshView| mesh_with_material(m, None),
    ));
    assert(materials_view(scene.materials@) =~= Seq::<MaterialView>::empty());
}

/// Replaces the mesh at `index`; an index out of range leaves the scene unchanged.
pub fn update_mesh(scene: &mut Scene, index: usize, mesh: Mesh)
    ensures
        final(scene)@ == if index < old(scene)@.meshes.len() {
            with_meshes(old(scene)@, old(scene)@.meshes.update(index as int, mesh@))
        } else {
            old(scene)@
        },
{
    if index < scene.meshes.len() {
        let ghost m = mesh@;
        scene.meshes.set(index, mesh);
        assert(meshes_view(scene.meshes@) =~= meshes_view(old(scene).meshes@).update(
            index as int,
            m,
        ));
    }
}

/// Replaces the material at `index`; an index out of range leaves the scene
/// unchanged.
pub fn update_material(scene: &mut Scene, index: usize, material: Material)
    ensures
        final(scene)@ == if index < old(scene)@.materials.len() {
            with_materials(old(scene)@, old(scene)@.materials.update(index as int, material@))
        } else {
            old(scene)@
        },
{
    if index < scene.materials.len() {
        let ghost m = material@;
        scene.materials.set(index, material);
        assert(materials_view(scene.materials@) =~= materials_view(old(scene).materials@).update(
            index as int,
            m,
        ));
    }
}

} // verus!
