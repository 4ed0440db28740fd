//! Operations that rewrite the meshes of a scene: flipping faces and
//! normals, merging all meshes into one, and unwelding.
use vstd::prelude::*;

use crate::editing::{mesh_with_faces, with_meshes};
use crate::models::{
    empty_mesh_view, faces_view, meshes_view, Face, FaceView, Mesh, MeshView, Scene, Vector3,
};

verus! {

// ---------------------------------------------------------------------------
// Flipping
// ---------------------------------------------------------------------------
/// The face `f` with the order of its corners reversed.
pub open spec fn flipped_face(f: FaceView) -> FaceView {
    FaceView {
        vertex_indices: f.vertex_indices.reverse(),
        normal_indices: f.normal_indices.reverse(),
        uv_indices: f.uv_indices.reverse(),
        material_index: f.material_index,
    }
}

/// The mesh `m` with every face flipped.
pub open spec fn mesh_with_flipped_faces(m: MeshView) -> MeshView {
    mesh_with_faces(m, m.faces.map_values(|f: FaceView| flipped_face(f)))
}

/// The mesh `m` with every normal negated.
pub open spec fn mesh_with_flipped_normals(m: MeshView) -> MeshView {
    MeshView { normals: m.normals.map_values(|n: Vector3| n.spec_negated()), ..m }
}

/// A copy of `v` in reverse order.
fn reversed(v: &Vec<u32>) -> (r: Vec<u32>)
    ensures
        r@ == v@.reverse(),
{
    let n = v.len();
    let mut r: Vec<u32> = Vec::new();
    for i in 0..n
        invariant
            n == v@.len(),
            r@.len() == i,
            forall|k: int| 0 <= k < i ==> #[trigger] r@[k] == v@[n - 1 - k],
    {
        r.push(v[n - 1 - i]);
    }
    assert(r@ =~= v@.reverse());
    r
}

/// Flips the faces of one mesh.
fn flip_mesh_faces(m: &mut Mesh)
    ensures
        final(m)@ == mesh_with_flipped_faces(old(m)@),
{
    let n = m.faces.len();
    for j in 0..n
        invariant
            n == m.faces@.len(),
            n == old(m).faces@.len(),
            m.name == old(m).name,
            m.parent == old(m).parent,
            m.vertices == old(m).vertices,
            m.normals == old(m).normals,
            m.uvs == old(m).uvs,
            m.tangents == old(m).tangents,
            m.joints == old(m).joints,
            m.weights == old(m).weights,
            forall|k: int| 0 <= k < j ==> #[trigger] m.faces@[k]@ == flipped_face(old(m).faces@[k]@),
            forall|k: int| j <= k < n ==> #[trigger] m.faces@[k] == old(m).faces@[k],
    {
        let v = reversed(&m.faces[j].vertex_indices);
        let nn = reversed(&m.faces[j].normal_indices);
        let t = reversed(&m.faces[j].uv_indices);
        m.faces[j].vertex_indices = v;
        m.faces[j].normal_indices = nn;
        m.faces[j].uv_indices = t;
    }
    assert(faces_view(m.faces@) =~= old(m)@.faces.map_values(|f: FaceView| flipped_face(f)));
}

/// Reverses the corner order of every face of every mesh.
pub fn flip_faces(scene: &mut Scene)
    ensures
        final(scene)@ == with_meshes(
            old(scene)@,
            old(scene)@.meshes.map_values(|m: MeshView| mesh_with_flipped_faces(m)),
        ),
{
    let n = scene.meshes.len();
    for i in 0..n
        invariant
            n == scene.meshes@.len(),
            n == old(scene).meshes@.len(),
            scene.materials == old(scene).materials,
            scene.skins == old(scene).skins,
            scene.animations == old(scene).animations,
            scene.nodes == old(scene).nodes,
            scene.external_models == old(scene).external_models,
            forall|k: int|
                0 <= k < i ==> #[trigger] scene.meshes@[k]@ == mesh_with_flipped_faces(
                    old(scene).meshes@[k]@,
                ),
            forall|k: int| i <= k < n ==> #[trigger] scene.meshes@[k] == old(scene).meshes@[k],
    {
        flip_mesh_faces(&mut scene.meshes[i]);
    }
    assert(meshes_view(scene.meshes@) =~= old(scene)@.meshes.map_values(
        |m: MeshView| mesh_with_flipped_faces(m),
    ));
}

/// Negates the normals of one mesh.
fn flip_mesh_normals(m: &mut Mesh)
    ensures
        final(m)@ == mesh_with_flipped_normals(old(m)@),
{
    let n = m.normals.len();
    for j in 0..n
        invariant
            n == m.normals@.len(),
            n == old(m).normals@.len(),
            m.name == old(m).name,
            m.parent == old(m).parent,
            m.vertices == old(m).vertices,
            m.faces == old(m).faces,
            m.uvs == old(m).uvs,
            m.tangents == old(m).tangents,
            m.joints == old(m).joints,
            m.weights == old(m).weights,
            forall|k: int| 0 <= k < j ==> #[trigger] m.normals@[k] == old(m).normals@[k].spec_negated(),
            forall|k: int| j <= k < n ==> #[trigger] m.normals@[k] == old(m).normals@[k],
    {
        let v = m.normals[j].negated();
        m.normals.set(j, v);
    }
    assert(m@.normals =~= old(m)@.normals.map_values(|n: Vector3| n.spec_negated()));
}

/// Negates every normal of every mesh (toggles the sign bit of each
/// component).
pub fn flip_normals(scene: &mut Scene)
    ensures
        final(scene)@ == with_meshes(
            old(scene)@,
            old(scene)@.meshes.map_values(|m: MeshView| mesh_with_flipped_normals(m)),
        ),
{
    let n = scene.meshes.len();
    for i in 0..n
        invariant
            n == scene.meshes@.len(),
            n == old(scene).meshes@.len(),
            scene.materials == old(scene).materials,
            scene.skins == old(scene).skins,
            scene.animations == old(scene).animations,
            scene.nodes == old(scene).nodes,
            scene.external_models == old(scene).external_models,
            forall|k: int|
                0 <= k < i ==> #[trigger] scene.meshes@[k]@ == mesh_with_flipped_normals(
                    old(scene).meshes@[k]@,
                ),
            forall|k: int| i <= k < n ==> #[trigger] scene.meshes@[k] == old(scene).meshes@[k],
    {
        flip_mesh_normals(&mut scene.meshes[i]);
    }
    assert(meshes_view(scene.meshes@) =~= old(scene)@.meshes.map_values(
        |m: MeshView| mesh_with_flipped_normals(m),
    ));
}

// ---------------------------------------------------------------------------
// Merging
// ---------------------------------------------------------------------------
/// The face `f` with `dv`, `dn` and `du` added to its vertex, normal and UV
/// indices.
pub open spec fn shifted_face(f: FaceView, dv: nat, dn: nat, du: nat) -> FaceView {
    FaceView {
        vertex_indices: f.vertex_indices.map_values(|x: u32| (x + dv) as u32),
        normal_indices: f.normal_indices.map_values(|x: u32| (x + dn) as u32),
        uv_indices: f.uv_indices.map_values(|x: u32| (x + du) as u32),
        material_index: f.material_index,
    }
}

/// The single mesh named `name` that holds the vertices, normals, UVs and
/// faces of all the meshes `ms`, one after the other, with the indices of
/// each face moved past the elements of the meshes before it.
pub open spec fn merged(ms: Seq<MeshView>, name: Seq<char>) -> MeshView
    decreases ms.len(),
{
    if ms.len() == 0 {
        empty_mesh_view(name)
    } else {
        let acc = merged(ms.drop_last(), name);
        let m = ms.last();
        MeshView {
            vertices: acc.vertices + m.vertices,
            normals: acc.normals + m.normals,
            uvs: acc.uvs + m.uvs,
            faces: acc.faces + m.faces.map_values(
                |f: FaceView| shifted_face(f, acc.vertices.len(), acc.normals.len(), acc.uvs.len()),
            ),
            ..acc
        }
    }
}

/// The number of vertices of the meshes `ms`.
pub open spec fn vertex_total(ms: Seq<MeshView>) -> nat
    decreases ms.len(),
{
    if ms.len() == 0 {
        0
    } else {
        vertex_total(ms.drop_last()) + ms.last().vertices.len()
    }
}

/// The number of normals of the meshes `ms`.
pub open spec fn normal_total(ms: Seq<MeshView>) -> nat
    decreases ms.len(),
{
    if ms.len() == 0 {
        0
    } else {
        normal_total(ms.drop_last()) + ms.last().normals.len()
    }
}

/// The number of UVs of the meshes `ms`.
pub open spec fn uv_total(ms: Seq<MeshView>) -> nat
    decreases ms.len(),
{
    if ms.len() == 0 {
        0
    } else {
        uv_total(ms.drop_last()) + ms.last().uvs.len()
    }
}

/// Every index of `f`, moved by `dv`, `dn` or `du`, still fits in a `u32`.
pub open spec fn shift_fits(f: FaceView, dv: nat, dn: nat, du: nat) -> bool {
    &&& forall|i: int| 0 <= i < f.vertex_indices.len() ==> #[trigger] f.vertex_indices[i] + dv <= u32::MAX
    &&& forall|i: int| 0 <= i < f.normal_indices.len() ==> #[trigger] f.normal_indices[i] + dn <= u32::MAX
    &&& forall|i: int| 0 <= i < f.uv_indices.len() ==> #[trigger] f.uv_indices[i] + du <= u32::MAX
}

/// The meshes `ms` can be merged with `u32` indices: the element counts fit,
/// and so does every moved index.
pub open spec fn merge_fits(ms: Seq<MeshView>) -> bool {
    &&& vertex_total(ms) <= u32::MAX
    &&& normal_total(ms) <= u32::MAX
    &&& uv_total(ms) <= u32::MAX
    &&& forall|k: int, j: int|
        0 <= k < ms.len() && 0 <= j < ms[k].faces.len() ==> shift_fits(
            #[trigger] ms[k].faces[j],
            vertex_total(ms.take(k)),
            normal_total(ms.take(k)),
            uv_total(ms.take(k)),
        )
}

/// The element counts of a merge are the totals of the meshes.
pub proof fn lemma_merged_counts(ms: Seq<MeshView>, name: Seq<char>)
    ensures
        merged(ms, name).vertices.len() == vertex_total(ms),
        merged(ms, name).normals.len() == normal_total(ms),
        merged(ms, name).uvs.len() == uv_total(ms),
        merged(ms, name).name == name,
    decreases ms.len(),
{
    if ms.len() > 0 {
        lemma_merged_counts(ms.drop_last(), name);
    }
}

/// The totals of a prefix do not exceed the totals.
pub proof fn lemma_totals_prefix(ms: Seq<MeshView>, k: int)
    requires
        0 <= k <= ms.len(),
    ensures
        vertex_total(ms.take(k)) <= vertex_total(ms),
        normal_total(ms.take(k)) <= normal_total(ms),
        uv_total(ms.take(k)) <= uv_total(ms),
    decreases ms.len() - k,
{
    if k < ms.len() {
        assert(ms.take(k + 1).drop_last() =~= ms.take(k));
        lemma_totals_prefix(ms, k + 1);
    } else {
        assert(ms.take(k) =~= ms);
    }
}

/// Appends the elements of `src` to `dst`.
fn append_copies<T: Copy>(dst: &mut Vec<T>, src: &Vec<T>)
    ensures
        final(dst)@ == old(dst)@ + src@,
{
    let n = src.len();
    for i in 0..n
        invariant
            n == src@.len(),
            dst@ == old(dst)@ + src@.take(i as int),
    {
        dst.push(src[i]);
        assert(src@.take(i + 1) =~= src@.take(i as int).push(src@[i as int]));
        assert(dst@ =~= old(dst)@ + src@.take(i + 1));
    }
    assert(src@.take(n as int) =~= src@);
}

/// A copy of `v` with `d` added to every element.
fn shifted(v: &Vec<u32>, d: u32) -> (r: Vec<u32>)
    requires
        forall|i: int| 0 <= i < v@.len() ==> #[trigger] v@[i] + d <= u32::MAX,
    ensures
        r@ == v@.map_values(|x: u32| (x + d) as u32),
{
    let n = v.len();
    let mut r: Vec<u32> = Vec::new();
    for i in 0..n
        invariant
            n == v@.len(),
            forall|i: int| 0 <= i < v@.len() ==> #[trigger] v@[i] + d <= u32::MAX,
            r@.len() == i,
            forall|k: int| 0 <= k < i ==> #[trigger] r@[k] == (v@[k] + d) as u32,
    {
        r.push(v[i] + d);
    }
    assert(r@ =~= v@.map_values(|x: u32| (x + d) as u32));
    r
}

/// Merges all meshes into one mesh named `new_mesh_name`. A scene with at
/// most one mesh is left unchanged.
pub fn merge(scene: &mut Scene, new_mesh_name: &str)
    requires
        merge_fits(old(scene)@.meshes),
    ensures
        final(scene)@ == if old(scene)@.meshes.len() <= 1 {
            old(scene)@
        } else {
            with_meshes(old(scene)@, seq![merged(old(scene)@.meshes, new_mesh_name@)])
        },
{
    let n = scene.meshes.len();
    if n <= 1 {
        return;
    }
    let ghost ms = old(scene)@.meshes;
    let ghost name = new_mesh_name@;
    let mut out = Mesh::named(new_mesh_name.to_owned());
    for k in 0..n
        invariant
            n == scene.meshes@.len(),
            *scene == *old(scene),
            ms == scene@.meshes,
            name == new_mesh_name@,
            merge_fits(ms),
            out@ == merged(ms.take(k as int), name),
    {
        let m = &scene.meshes[k];
        assert(ms[k as int] == m@);
        assert(ms.take(k + 1).drop_last() =~= ms.take(k as int));
        proof {
            lemma_merged_counts(ms.take(k as int), name);
            lemma_totals_prefix(ms, k + 1);
            lemma_merged_counts(ms.take(k + 1), name);
        }
        let dv = out.vertices.len() as u32;
        let dn = out.normals.len() as u32;
        let du = out.uvs.len() as u32;
        let ghost acc = out@;
        append_copies(&mut out.vertices, &m.vertices);
        append_copies(&mut out.normals, &m.normals);
        append_copies(&mut out.uvs, &m.uvs);
        let nf = m.faces.len();
        let ghost base_faces = faces_view(out.faces@);
        for j in 0..nf
            invariant
                nf == m.faces@.len(),
                m@ == ms[k as int],
                0 <= k < ms.len(),
                merge_fits(ms),
                dv == vertex_total(ms.take(k as int)),
                dn == normal_total(ms.take(k as int)),
                du == uv_total(ms.take(k as int)),
                faces_view(out.faces@) == base_faces + m@.faces.take(j as int).map_values(
                    |f: FaceView| shifted_face(f, dv as nat, dn as nat, du as nat),
                ),
                out@.name == acc.name,
                out@.parent == acc.parent,
                out@.tangents == acc.tangents,
                out@.joints == acc.joints,
                out@.weights == acc.weights,
                out@.vertices == acc.vertices + m@.vertices,
                out@.normals == acc.normals + m@.normals,
                out@.uvs == acc.uvs + m@.uvs,
        {
            let f = &m.faces[j];
            assert(m@.faces[j as int] == f@);
            assert(shift_fits(ms[k as int].faces[j as int], dv as nat, dn as nat, du as nat));
            assert(ms[k as int].faces[j as int] == f@);
            let ghost fv = ms[k as int].faces[j as int];
            assert forall|i: int| 0 <= i < f.vertex_indices@.len() implies #[trigger] f.vertex_indices@[i]
                + dv <= u32::MAX by {
                assert(fv.vertex_indices[i] + dv <= u32::MAX);
            }
            assert forall|i: int| 0 <= i < f.normal_indices@.len() implies #[trigger] f.normal_indices@[i]
                + dn <= u32::MAX by {
                assert(fv.normal_indices[i] + dn <= u32::MAX);
            }
            assert forall|i: int| 0 <= i < f.uv_indices@.len() implies #[trigger] f.uv_indices@[i]
                + du <= u32::MAX by {
                assert(fv.uv_indices[i] + du <= u32::MAX);
            }
            let g = Face {
                vertex_indices: shifted(&f.vertex_indices, dv),
                normal_indices: shifted(&f.normal_indices, dn),
                uv_indices: shifted(&f.uv_indices, du),
                material_index: f.material_index,
            };
            let ghost before = faces_view(out.faces@);
            out.faces.push(g);
            assert(m@.faces.take(j + 1) =~= m@.faces.take(j as int).push(f@));
            assert(faces_view(out.faces@) =~= before.push(g@));
            assert(faces_view(out.faces@) =~= base_faces + m@.faces.take(j + 1).map_values(
                |f: FaceView| shifted_face(f, dv as nat, dn as nat, du as nat),
            ));
        }
        assert(m@.faces.take(nf as int) =~= m@.faces);
        assert(out@ =~= merged(ms.take(k + 1), name));
    }
    assert(ms.take(n as int) =~= ms);
    let ghost mv = out@;
    let mut v: Vec<Mesh> = Vec::new();
    v.push(out);
    scene.meshes = v;
    assert(meshes_view(scene.meshes@) =~= seq![mv]);
}

// ---------------------------------------------------------------------------
// Unwelding
// ---------------------------------------------------------------------------
/// The first `c` corners of face `f` of mesh `m` unwelded into the mesh `a`:
/// each corner gets a fresh copy of its vertex (and of its normal and UV when
/// the face has one for that corner), and the new face refers to the copies.
pub open spec fn unweld_corners(a: MeshView, m: MeshView, f: FaceView, c: nat) -> (MeshView, FaceView)
    decreases c,
{
    if c == 0 {
        (
            a,
            FaceView {
                vertex_indices: Seq::empty(),
                normal_indices: Seq::empty(),
                uv_indices: Seq::empty(),
                material_index: f.material_index,
            },
        )
    } else {
        let (a1, g1) = unweld_corners(a, m, f, (c - 1) as nat);
        let i = c - 1;
        let a2 = MeshView { vertices: a1.vertices.push(m.vertices[f.vertex_indices[i] as int]), ..a1 };
        let g2 = FaceView { vertex_indices: g1.vertex_indices.push(a1.vertices.len() as u32), ..g1 };
        let (a3, g3) = if i < f.normal_indices.len() {
            (
                MeshView { normals: a2.normals.push(m.normals[f.normal_indices[i] as int]), ..a2 },
                FaceView { normal_indices: g2.normal_indices.push(a2.normals.len() as u32), ..g2 },
            )
        } else {
            (a2, g2)
        };
        if i < f.uv_indices.len() {
            (
                MeshView { uvs: a3.uvs.push(m.uvs[f.uv_indices[i] as int]), ..a3 },
                FaceView { uv_indices: g3.uv_indices.push(a3.uvs.len() as u32), ..g3 },
            )
        } else {
            (a3, g3)
        }
    }
}

/// The first `k` faces of mesh `m` unwelded.
pub open spec fn unweld_faces(m: MeshView, k: nat) -> MeshView
    decreases k,
{
    if k == 0 {
        empty_mesh_view(m.name)
    } else {
        let a = unweld_faces(m, (k - 1) as nat);
        let f = m.faces[k - 1];
        let (a2, g) = unweld_corners(a, m, f, f.vertex_indices.len());
        MeshView { faces: a2.faces.push(g), ..a2 }
    }
}

/// The mesh `m` unwelded: no vertex, normal or UV is shared between corners.
pub open spec fn unwelded(m: MeshView) -> MeshView {
    unweld_faces(m, m.faces.len())
}

/// The number of corners of the faces `fs`.
pub open spec fn corner_total(fs: Seq<FaceView>) -> nat
    decreases fs.len(),
{
    if fs.len() == 0 {
        0
    } else {
        corner_total(fs.drop_last()) + fs.last().vertex_indices.len()
    }
}

/// Every corner of face `f` refers to an element of mesh `m` (normals and UVs
/// only for the corners that have one).
pub open spec fn corners_valid(f: FaceView, m: MeshView) -> bool {
    forall|i: int|
        0 <= i < f.vertex_indices.len() ==> {
            &&& #[trigger] f.vertex_indices[i] < m.vertices.len()
            &&& i < f.normal_indices.len() ==> f.normal_indices[i] < m.normals.len()
            &&& i < f.uv_indices.len() ==> f.uv_indices[i] < m.uvs.len()
        }
}

/// The mesh `m` can be unwelded: every corner refers to an element and the
/// copies can be numbered with `u32` indices.
pub open spec fn unweld_fits(m: MeshView) -> bool {
    &&& forall|j: int| 0 <= j < m.faces.len() ==> corners_valid(#[trigger] m.faces[j], m)
    &&& corner_total(m.faces) <= u32::MAX
}

/// The corner totals of a prefix do not exceed the total.
pub proof fn lemma_corner_total_prefix(fs: Seq<FaceView>, k: int)
    requires
        0 <= k <= fs.len(),
    ensures
        corner_total(fs.take(k)) <= corner_total(fs),
    decreases fs.len() - k,
{
    if k < fs.len() {
        assert(fs.take(k + 1).drop_last() =~= fs.take(k));
        lemma_corner_total_prefix(fs, k + 1);
    } else {
        assert(fs.take(k) =~= fs);
    }
}

/// Unwelds one mesh.
fn unweld_mesh(m: &Mesh) -> (r: Mesh)
    requires
        unweld_fits(m@),
    ensures
        r@ == unwelded(m@),
{
    let ghost mv = m@;
    let mut out = Mesh::named(m.name.clone());
    let nf = m.faces.len();
    for j in 0..nf
        invariant
            nf == m.faces@.len(),
            mv == m@,
            unweld_fits(mv),
            out@ == unweld_faces(mv, j as nat),
            out@.vertices.len() == corner_total(mv.faces.take(j as int)),
            out@.normals.len() <= out@.vertices.len(),
            out@.uvs.len() <= out@.vertices.len(),
    {
        let f = &m.faces[j];
        let ghost fv = f@;
        assert(fv == mv.faces[j as int]);
        assert(corners_valid(fv, mv));
        assert(mv.faces.take(j + 1).drop_last() =~= mv.faces.take(j as int));
        proof {
            lemma_corner_total_prefix(mv.faces, j + 1);
        }
        let ghost a0 = out@;
        let mut g = Face::with_material(f.material_index);
        let nc = f.vertex_indices.len();
        for i in 0..nc
            invariant
                nc == f.vertex_indices@.len(),
                fv == f@,
                mv == m@,
                corners_valid(fv, mv),
                a0.vertices.len() + nc <= u32::MAX,
                a0.normals.len() <= a0.vertices.len(),
                a0.uvs.len() <= a0.vertices.len(),
                (out@, g@) == unweld_corners(a0, mv, fv, i as nat),
                out@.vertices.len() == a0.vertices.len() + i,
                out@.normals.len() <= out@.vertices.len(),
                out@.uvs.len() <= out@.vertices.len(),
        {
            let vi = f.vertex_indices[i];
            assert(fv.vertex_indices[i as int] < mv.vertices.len());
            let pos = out.vertices.len() as u32;
            out.vertices.push(m.vertices[vi as usize]);
            g.vertex_indices.push(pos);
            if i < f.normal_indices.len() {
                let ni = f.normal_indices[i];
                let npos = out.normals.len() as u32;
                out.normals.push(m.normals[ni as usize]);
                g.normal_indices.push(npos);
            }
            if i < f.uv_indices.len() {
                let ti = f.uv_indices[i];
                let tpos = out.uvs.len() as u32;
                out.uvs.push(m.uvs[ti as usize]);
                g.uv_indices.push(tpos);
            }
        }
        let ghost gv = g@;
        let ghost before = faces_view(out.faces@);
        out.faces.push(g);
        assert(faces_view(out.faces@) =~= before.push(gv));
    }
    out
}

/// Gives every face corner of every mesh its own copy of its vertex (and of
/// its normal and UV where it has one); the name and material of each mesh
/// and face are kept, everything else of a mesh is dropped.
pub fn unweld(scene: &mut Scene)
    requires
        forall|k: int| 0 <= k < old(scene)@.meshes.len() ==> unweld_fits(#[trigger] old(scene)@.meshes[k]),
    ensures
        final(scene)@ == with_meshes(
            old(scene)@,
            old(scene)@.meshes.map_values(|m: MeshView| unwelded(m)),
        ),
{
    let n = scene.meshes.len();
    for i in 0..n
        invariant
            n == scene.meshes@.len(),
            n == old(scene).meshes@.len(),
            forall|k: int| 0 <= k < old(scene)@.meshes.len() ==> unweld_fits(#[trigger] old(scene)@.meshes[k]),
            scene.materials == old(scene).materials,
            scene.skins == old(scene).skins,
            scene.animations == old(scene).animations,
            scene.nodes == old(scene).nodes,
            scene.external_models == old(scene).external_models,
            forall|k: int| 0 <= k < i ==> #[trigger] scene.meshes@[k]@ == unwelded(old(scene).meshes@[k]@),
            forall|k: int| i <= k < n ==> #[trigger] scene.meshes@[k] == old(scene).meshes@[k],
    {
        assert(old(scene)@.meshes[i as int] == scene.meshes@[i as int]@);
        let nm = unweld_mesh(&scene.meshes[i]);
        scene.meshes.set(i, nm);
    }
    assert(meshes_view(scene.meshes@) =~= old(scene)@.meshes.map_values(|m: MeshView| unwelded(m)));
}

// ---------------------------------------------------------------------------
// Refinement
// ---------------------------------------------------------------------------
/// Subdivision of faces is not supported: the scene is left unchanged.
pub fn subdivide(scene: &mut Scene, _levels: u32)
    ensures
        *final(scene) == *old(scene),
{
}

/// Decimation of faces is not supported: the scene is left unchanged.
pub fn decimate(scene: &mut Scene, _target_face_count: u32)
    ensures
        *final(scene) == *old(scene),
{
}

} // verus!
