//! Giving vertices shared smoothed normals.
//!
//! The smoothed normal of each vertex, and the grid cell it falls into, are
//! floating-point work done by the caller; this module merges the normals
//! that share a cell and points the corners of each vertex at its normal.
use vstd::prelude::*;

use crate::editing::with_meshes;
use crate::models::{faces_view, meshes_view, FaceView, Mesh, MeshView, Scene, Vector3};
use crate::welding::{find_key, key_position, lemma_key_position, GridKey};

verus! {

/// The normal indices `ns` of a face with corner vertices `vs` after each of
/// the first `c` corners on vertex `v` is given the normal `idx`: the index
/// at the corner's position is replaced when there is one, else `idx` is
/// appended.
pub open spec fn corner_normals(ns: Seq<u32>, vs: Seq<u32>, v: u32, idx: u32, c: nat) -> Seq<u32>
    decreases c,
{
    if c == 0 {
        ns
    } else {
        let prev = corner_normals(ns, vs, v, idx, (c - 1) as nat);
        let i = c - 1;
        if vs[i] == v {
            if i < prev.len() {
                prev.update(i, idx)
            } else {
                prev.push(idx)
            }
        } else {
            prev
        }
    }
}

/// The face `f` with its corners on vertex `v` given the normal `idx`.
pub open spec fn face_with_vertex_normal(f: FaceView, v: u32, idx: u32) -> FaceView {
    FaceView {
        normal_indices: corner_normals(f.normal_indices, f.vertex_indices, v, idx, f.vertex_indices.len()),
        ..f
    }
}

/// The first `n` vertices of `m` handled, with smoothed normals `normals`
/// and their keys `ks`: the keys kept, the normals kept (the first of each
/// key), and the faces pointed at them.
pub open spec fn smooth_prefix(m: MeshView, normals: Seq<Vector3>, ks: Seq<GridKey>, n: nat) -> (
    Seq<GridKey>,
    Seq<Vector3>,
    Seq<FaceView>,
)
    decreases n,
{
    if n == 0 {
        (Seq::empty(), Seq::empty(), m.faces)
    } else {
        let (seen, kept, faces) = smooth_prefix(m, normals, ks, (n - 1) as nat);
        let v = n - 1;
        let (seen2, kept2, idx) = match key_position(seen, ks[v]) {
            Some(p) => (seen, kept, p as u32),
            None => (seen.push(ks[v]), kept.push(normals[v]), seen.len() as u32),
        };
        (seen2, kept2, faces.map_values(|f: FaceView| face_with_vertex_normal(f, v as u32, idx)))
    }
}

/// The mesh `m` with the smoothed normals `normals` of its vertices merged by
/// their keys `ks`.
pub open spec fn smoothed(m: MeshView, normals: Seq<Vector3>, ks: Seq<GridKey>) -> MeshView {
    let (seen, kept, faces) = smooth_prefix(m, normals, ks, m.vertices.len());
    MeshView { normals: kept, faces, ..m }
}

/// The mesh `m` can take the smoothed normals `normals` with keys `ks`: one
/// of each per vertex, and vertices fit `u32` indices.
pub open spec fn smooth_fits(m: MeshView, normals: Seq<Vector3>, ks: Seq<GridKey>) -> bool {
    &&& normals.len() == m.vertices.len()
    &&& ks.len() == m.vertices.len()
    &&& m.vertices.len() <= u32::MAX
}

/// The kept keys never outnumber the vertices handled.
proof fn lemma_smooth_prefix_len(m: MeshView, normals: Seq<Vector3>, ks: Seq<GridKey>, n: nat)
    ensures
        smooth_prefix(m, normals, ks, n).0.len() <= n,
    decreases n,
{
    if n > 0 {
        lemma_smooth_prefix_len(m, normals, ks, (n - 1) as nat);
    }
}

/// Points the corners of face `f` on vertex `v` at normal `idx`.
fn set_vertex_normal(f: &mut crate::models::Face, v: u32, idx: u32)
    ensures
        final(f)@ == face_with_vertex_normal(old(f)@, v, idx),
{
    let ghost f0 = f@;
    let nc = f.vertex_indices.len();
    for i in 0..nc
        invariant
            nc == f0.vertex_indices.len(),
            f@ == (FaceView { normal_indices: corner_normals(f0.normal_indices, f0.vertex_indices, v, idx, i as nat), ..f0 }),
    {
        if f.vertex_indices[i] == v {
            if i < f.normal_indices.len() {
                f.normal_indices.set(i, idx);
            } else {
                f.normal_indices.push(idx);
            }
        }
    }
}

/// Smooths the normals of one mesh.
fn smooth_mesh(m: &mut Mesh, normals: &Vec<Vector3>, ks: &Vec<GridKey>)
    requires
        smooth_fits(old(m)@, normals@, ks@),
    ensures
        final(m)@ == smoothed(old(m)@, normals@, ks@),
{
    let ghost mv = m@;
    let n = m.vertices.len();
    let mut seen: Vec<GridKey> = Vec::new();
    let mut kept: Vec<Vector3> = Vec::new();
    for v in 0..n
        invariant
            n == mv.vertices.len(),
            smooth_fits(mv, normals@, ks@),
            (seen@, kept@, faces_view(m.faces@)) == smooth_prefix(mv, normals@, ks@, v as nat),
            m@ == (MeshView { faces: faces_view(m.faces@), ..mv }),
    {
        let k = ks[v];
        proof {
            lemma_key_position(seen@, k);
            lemma_smooth_prefix_len(mv, normals@, ks@, v as nat);
        }
        let idx = match find_key(&seen, k) {
            Some(p) => p as u32,
            None => {
                let p = seen.len() as u32;
                seen.push(k);
                kept.push(normals[v]);
                p
            },
        };
        let ghost faces0 = faces_view(m.faces@);
        let vv = v as u32;
        let nf = m.faces.len();
        for j in 0..nf
            invariant
                nf == m.faces@.len(),
                nf == faces0.len(),
                forall|q: int| 0 <= q < j ==> #[trigger] m.faces@[q]@ == face_with_vertex_normal(faces0[q], vv, idx),
                forall|q: int| j <= q < nf ==> #[trigger] m.faces@[q]@ == faces0[q],
                m@ == (MeshView { faces: faces_view(m.faces@), ..mv }),
        {
            set_vertex_normal(&mut m.faces[j], vv, idx);
        }
        assert(faces_view(m.faces@) =~= faces0.map_values(|f: FaceView| face_with_vertex_normal(f, vv, idx)));
    }
    m.normals = kept;
}

/// Gives the vertices of each mesh smoothed normals: `normals[k][v]` is the
/// smoothed normal of vertex `v` of mesh `k` and `keys[k][v]` its grid cell.
/// Normals that share a cell are stored once (the first), the corners on
/// each vertex point at its normal (replacing the corner's normal index, or
/// appending one when the face has none at that position), and the mesh's
/// normals are replaced by the stored ones.
pub fn smooth_normals_by_keys(scene: &mut Scene, normals: &Vec<Vec<Vector3>>, keys: &Vec<Vec<GridKey>>)
    requires
        normals@.len() == old(scene)@.meshes.len(),
        keys@.len() == old(scene)@.meshes.len(),
        forall|k: int|
            0 <= k < keys@.len() ==> smooth_fits(old(scene)@.meshes[k], #[trigger] normals@[k]@, keys@[k]@),
    ensures
        final(scene)@ == with_meshes(
            old(scene)@,
            Seq::new(old(scene)@.meshes.len(), |k: int| smoothed(old(scene)@.meshes[k], normals@[k]@, keys@[k]@)),
        ),
{
    let n = scene.meshes.len();
    for i in 0..n
        invariant
            n == scene.meshes@.len(),
            n == old(scene).meshes@.len(),
            normals@.len() == n,
            keys@.len() == n,
            forall|k: int|
                0 <= k < keys@.len() ==> smooth_fits(old(scene)@.meshes[k], #[trigger] normals@[k]@, keys@[k]@),
            scene.materials == old(scene).materials,
            scene.skins == old(scene).skins,
            scene.animations == old(scene).animations,
            scene.nodes == old(scene).nodes,
            scene.external_models == old(scene).external_models,
            forall|k: int|
                0 <= k < i ==> #[trigger] scene.meshes@[k]@ == smoothed(old(scene).meshes@[k]@, normals@[k]@, keys@[k]@),
            forall|k: int| i <= k < n ==> #[trigger] scene.meshes@[k] == old(scene).meshes@[k],
    {
        assert(old(scene)@.meshes[i as int] == scene.meshes@[i as int]@);
        assert(smooth_fits(old(scene)@.meshes[i as int], normals@[i as int]@, keys@[i as int]@));
        smooth_mesh(&mut scene.meshes[i], &normals[i], &keys[i]);
    }
    assert(meshes_view(scene.meshes@) =~= Seq::new(
        old(scene)@.meshes.len(),
        |k: int| smoothed(old(scene)@.meshes[k], normals@[k]@, keys@[k]@),
    ));
}

/// The face `f` with one normal per corner: the normal of its vertex.
pub open spec fn face_with_vertex_normals(f: FaceView) -> FaceView {
    FaceView { normal_indices: f.vertex_indices, ..f }
}

/// The mesh `m` with the per-vertex normals `ns`, each corner using the
/// normal of its vertex.
pub open spec fn with_vertex_normals(m: MeshView, ns: Seq<Vector3>) -> MeshView {
    MeshView { normals: ns, faces: m.faces.map_values(|f: FaceView| face_with_vertex_normals(f)), ..m }
}

/// Gives one mesh the per-vertex normals `ns`.
fn attach_mesh_normals(m: &mut Mesh, ns: Vec<Vector3>)
    ensures
        final(m)@ == with_vertex_normals(old(m)@, ns@),
{
    let ghost mv = m@;
    let nf = m.faces.len();
    for j in 0..nf
        invariant
            nf == m.faces@.len(),
            nf == mv.faces.len(),
            forall|q: int| 0 <= q < j ==> #[trigger] m.faces@[q]@ == face_with_vertex_normals(mv.faces[q]),
            forall|q: int| j <= q < nf ==> #[trigger] m.faces@[q]@ == mv.faces[q],
            m@ == (MeshView { faces: faces_view(m.faces@), ..mv }),
    {
        assert(m.faces@[j as int]@ == mv.faces[j as int]);
        let vs = crate::models::copy_vec(&m.faces[j].vertex_indices);
        m.faces[j].normal_indices = vs;
        assert(m.faces@[j as int]@ == face_with_vertex_normals(mv.faces[j as int]));
    }
    m.normals = ns;
    assert(faces_view(m.faces@) =~= mv.faces.map_values(|f: FaceView| face_with_vertex_normals(f)));
}

/// Replaces the normals of each mesh by per-vertex normals: `normals[k]`
/// holds the normals of mesh `k`, one per vertex, and every corner then uses
/// the normal of its vertex.
pub fn attach_vertex_normals(scene: &mut Scene, normals: Vec<Vec<Vector3>>)
    requires
        normals@.len() == old(scene)@.meshes.len(),
    ensures
        final(scene)@ == with_meshes(
            old(scene)@,
            Seq::new(old(scene)@.meshes.len(), |k: int| with_vertex_normals(old(scene)@.meshes[k], normals@[k]@)),
        ),
{
    let ghost nv = normals@;
    let n = scene.meshes.len();
    let mut normals = normals;
    let mut i: usize = n;
    while i > 0
        invariant
            i <= n,
            n == scene.meshes@.len(),
            n == old(scene).meshes@.len(),
            nv.len() == n,
            normals@ == nv.take(i as int),
            scene.materials == old(scene).materials,
            scene.skins == old(scene).skins,
            scene.animations == old(scene).animations,
            scene.nodes == old(scene).nodes,
            scene.external_models == old(scene).external_models,
            forall|k: int|
                i <= k < n ==> #[trigger] scene.meshes@[k]@ == with_vertex_normals(old(scene).meshes@[k]@, nv[k]@),
            forall|k: int| 0 <= k < i ==> #[trigger] scene.meshes@[k] == old(scene).meshes@[k],
        decreases i,
    {
        i = i - 1;
        let ns = normals.pop().unwrap();
        assert(ns@ == nv[i as int]@);
        assert(normals@ =~= nv.take(i as int));
        attach_mesh_normals(&mut scene.meshes[i], ns);
    }
    assert(meshes_view(scene.meshes@) =~= Seq::new(
        old(scene)@.meshes.len(),
        |k: int| with_vertex_normals(old(scene)@.meshes[k], nv[k]@),
    ));
}

} // verus!
