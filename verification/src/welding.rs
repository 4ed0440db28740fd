//! Merging vertices, normals and UVs that fall into the same grid cell.
//!
//! Which cell an `f32` vector falls into is computed by the caller (rounding
//! is floating-point work); this module receives the cell of every element
//! as a [`GridKey`] and does the merging and re-indexing.
use vstd::prelude::*;

use crate::editing::with_meshes;
use crate::mesh_ops::{corner_total, corners_valid};
use crate::models::{
    empty_mesh_view, faces_view, meshes_view, Face, FaceView, Mesh, MeshView, Scene,
    Vector3,
};

verus! {

/// The grid cell of a vector: its components divided by a cell size and
/// rounded (the caller's choice of rounding) to integers.
#[derive(Debug, Clone, Copy, PartialEq, Eq, Structural)]
pub struct GridKey {
    pub x: i32,
    pub y: i32,
    pub z: i32,
}

/// The position of the first occurrence of `k` in `seen`.
pub open spec fn key_position(seen: Seq<GridKey>, k: GridKey) -> Option<int>
    decreases seen.len(),
{
    if seen.len() == 0 {
        None
    } else {
        match key_position(seen.drop_last(), k) {
            Some(p) => Some(p),
            None => if seen.last() == k {
                Some(seen.len() - 1)
            } else {
                None
            },
        }
    }
}

/// `key_position` finds an occurrence, and only a missing key has none.
pub proof fn lemma_key_position(seen: Seq<GridKey>, k: GridKey)
    ensures
        key_position(seen, k) matches Some(p) ==> 0 <= p < seen.len() && seen[p] == k,
        key_position(seen, k) is None <==> !seen.contains(k),
    decreases seen.len(),
{
    if seen.len() > 0 {
        lemma_key_position(seen.drop_last(), k);
        if key_position(seen, k) is None {
            assert forall|i: int| 0 <= i < seen.len() implies seen[i] != k by {
                if i < seen.len() - 1 {
                    assert(seen[i] == seen.drop_last()[i]);
                }
            }
        } else if key_position(seen.drop_last(), k) is Some {
            let p = key_position(seen.drop_last(), k)->0;
            assert(seen[p] == seen.drop_last()[p]);
        }
        if seen.drop_last().contains(k) {
            let i = choose|i: int| 0 <= i < seen.drop_last().len() && seen.drop_last()[i] == k;
            assert(seen[i] == k);
        }
    }
}

/// Finds the first occurrence of `k` in `seen`.
pub(crate) fn find_key(seen: &Vec<GridKey>, k: GridKey) -> (r: Option<usize>)
    ensures
        match r {
            Some(i) => key_position(seen@, k) == Some(i as int) && i < seen@.len(),
            None => key_position(seen@, k) is None,
        },
{
    let n = seen.len();
    for i in 0..n
        invariant
            n == seen@.len(),
            key_position(seen@.take(i as int), k) is None,
    {
        assert(seen@.take(i + 1).drop_last() =~= seen@.take(i as int));
        if seen[i] == k {
            proof {
                lemma_key_position_prefix(seen@, i + 1, k);
            }
            return Some(i);
        }
    }
    assert(seen@.take(n as int) =~= seen@);
    None
}

proof fn lemma_key_position_prefix(s: Seq<GridKey>, j: int, k: GridKey)
    requires
        0 <= j <= s.len(),
        key_position(s.take(j), k) is Some,
    ensures
        key_position(s, k) == key_position(s.take(j), k),
    decreases s.len() - j,
{
    if j < s.len() {
        assert(s.take(j + 1).drop_last() =~= s.take(j));
        lemma_key_position_prefix(s, j + 1, k);
    } else {
        assert(s.take(j) =~= s);
    }
}

// ---------------------------------------------------------------------------
// Welding
// ---------------------------------------------------------------------------
/// The first `n` vertices `vs` with keys `ks` merged by key: the keys kept,
/// the vertices kept (the first of each key), and the new position of each
/// of the `n` vertices.
pub open spec fn weld_prefix(ks: Seq<GridKey>, vs: Seq<Vector3>, n: nat) -> (
    Seq<GridKey>,
    Seq<Vector3>,
    Seq<u32>,
)
    decreases n,
{
    if n == 0 {
        (Seq::empty(), Seq::empty(), Seq::empty())
    } else {
        let (seen, kept, map) = weld_prefix(ks, vs, (n - 1) as nat);
        match key_position(seen, ks[n - 1]) {
            Some(p) => (seen, kept, map.push(p as u32)),
            None => (seen.push(ks[n - 1]), kept.push(vs[n - 1]), map.push(seen.len() as u32)),
        }
    }
}

/// The face `f` with every vertex index `x` replaced by `map[x]`.
pub open spec fn remapped_face(f: FaceView, map: Seq<u32>) -> FaceView {
    FaceView { vertex_indices: f.vertex_indices.map_values(|x: u32| map[x as int]), ..f }
}

/// The mesh `m` welded by the keys `ks` of its vertices: one vertex is kept
/// per key (the first), and faces refer to the kept vertex of their key.
pub open spec fn welded(m: MeshView, ks: Seq<GridKey>) -> MeshView {
    let (seen, kept, map) = weld_prefix(ks, m.vertices, m.vertices.len());
    MeshView {
        vertices: kept,
        faces: m.faces.map_values(|f: FaceView| remapped_face(f, map)),
        ..m
    }
}

/// The mesh `m` can be welded with the keys `ks`: one key per vertex, vertex
/// indices of faces refer to vertices, and vertices fit `u32` indices.
pub open spec fn weld_fits(m: MeshView, ks: Seq<GridKey>) -> bool {
    &&& ks.len() == m.vertices.len()
    &&& m.vertices.len() <= u32::MAX
    &&& forall|j: int, i: int|
        0 <= j < m.faces.len() && 0 <= i < m.faces[j].vertex_indices.len() ==> #[trigger] m.faces[j].vertex_indices[i]
            < m.vertices.len()
}

/// The shape of a weld: as many kept vertices as kept keys, no more than
/// the vertices seen, and every new position refers to a kept key that is
/// the key of the vertex.
pub proof fn lemma_weld_prefix(ks: Seq<GridKey>, vs: Seq<Vector3>, n: nat)
    requires
        n <= u32::MAX,
        n <= ks.len(),
        n <= vs.len(),
    ensures
        ({
            let (seen, kept, map) = weld_prefix(ks, vs, n);
            &&& seen.len() == kept.len()
            &&& seen.len() <= n
            &&& map.len() == n
            &&& forall|x: int| 0 <= x < n ==> #[trigger] map[x] < seen.len() && seen[map[x] as int] == ks[x]
            &&& forall|p: int| 0 <= p < seen.len() ==> exists|x: int|
                0 <= x < n && #[trigger] seen[p] == ks[x] && kept[p] == vs[x]
        }),
    decreases n,
{
    if n > 0 {
        lemma_weld_prefix(ks, vs, (n - 1) as nat);
        let (seen, kept, map) = weld_prefix(ks, vs, (n - 1) as nat);
        lemma_key_position(seen, ks[n - 1]);
        let (seen2, kept2, map2) = weld_prefix(ks, vs, n);
        assert forall|x: int| 0 <= x < n implies #[trigger] map2[x] < seen2.len() && seen2[map2[x] as int] == ks[x] by {
            if x < n - 1 {
                assert(map2[x] == map[x]);
            }
        }
        assert forall|p: int| 0 <= p < seen2.len() implies exists|x: int|
            0 <= x < n && #[trigger] seen2[p] == ks[x] && kept2[p] == vs[x] by {
            if p < seen.len() {
                let x = choose|x: int| 0 <= x < n - 1 && #[trigger] seen[p] == ks[x] && kept[p] == vs[x];
                assert(seen2[p] == ks[x] && kept2[p] == vs[x]);
            } else {
                assert(seen2[p] == ks[n - 1] && kept2[p] == vs[n - 1]);
            }
        }
    }
}

/// Welds one mesh.
fn weld_mesh(m: &mut Mesh, ks: &Vec<GridKey>)
    requires
        weld_fits(old(m)@, ks@),
    ensures
        final(m)@ == welded(old(m)@, ks@),
{
    let ghost mv = m@;
    let n = m.vertices.len();
    let mut seen: Vec<GridKey> = Vec::new();
    let mut kept: Vec<Vector3> = Vec::new();
    let mut map: Vec<u32> = Vec::new();
    for i in 0..n
        invariant
            n == m.vertices@.len(),
            mv == m@,
            weld_fits(mv, ks@),
            (seen@, kept@, map@) == weld_prefix(ks@, mv.vertices, i as nat),
            seen@.len() <= i,
    {
        let k = ks[i];
        proof {
            lemma_key_position(seen@, k);
        }
        match find_key(&seen, k) {
            Some(p) => {
                map.push(p as u32);
            },
            None => {
                let p = seen.len() as u32;
                seen.push(k);
                kept.push(m.vertices[i]);
                map.push(p);
            },
        }
    }
    proof {
        lemma_weld_prefix(ks@, mv.vertices, n as nat);
    }
    let nf = m.faces.len();
    for j in 0..nf
        invariant
            nf == m.faces@.len(),
            nf == mv.faces.len(),
            weld_fits(mv, ks@),
            map@.len() == n,
            n == mv.vertices.len(),
            (seen@, kept@, map@) == weld_prefix(ks@, mv.vertices, n as nat),
            m.name == old(m).name,
            m.parent == old(m).parent,
            m.vertices == old(m).vertices,
            m.normals == old(m).normals,
            m.uvs == old(m).uvs,
            m.tangents == old(m).tangents,
            m.joints == old(m).joints,
            m.weights == old(m).weights,
            forall|k: int| 0 <= k < j ==> #[trigger] m.faces@[k]@ == remapped_face(mv.faces[k], map@),
            forall|k: int| j <= k < nf ==> #[trigger] m.faces@[k]@ == mv.faces[k],
    {
        let nc = m.faces[j].vertex_indices.len();
        let ghost fv = mv.faces[j as int];
        let mut newv: Vec<u32> = Vec::new();
        for i in 0..nc
            invariant
                nc == fv.vertex_indices.len(),
                nf == m.faces@.len(),
                j < nf,
                m.faces@[j as int]@ == fv,
                fv == mv.faces[j as int],
                0 <= j < mv.faces.len(),
                weld_fits(mv, ks@),
                map@.len() == mv.vertices.len(),
                newv@.len() == i,
                forall|q: int| 0 <= q < i ==> #[trigger] newv@[q] == map@[fv.vertex_indices[q] as int],
        {
            let x = m.faces[j].vertex_indices[i];
            assert(x == mv.faces[j as int].vertex_indices[i as int]);
            newv.push(map[x as usize]);
        }
        assert(newv@ =~= fv.vertex_indices.map_values(|x: u32| map@[x as int]));
        m.faces[j].vertex_indices = newv;
    }
    m.vertices = kept;
    assert(faces_view(m.faces@) =~= mv.faces.map_values(|f: FaceView| remapped_face(f, map@)));
}

/// Merges the vertices of each mesh that share a grid key: `keys[k][i]` is
/// the key of vertex `i` of mesh `k`. The first vertex of each key is kept,
/// in order, and faces refer to it.
pub fn weld_by_keys(scene: &mut Scene, keys: &Vec<Vec<GridKey>>)
    requires
        keys@.len() == old(scene)@.meshes.len(),
        forall|k: int| 0 <= k < keys@.len() ==> weld_fits(old(scene)@.meshes[k], #[trigger] keys@[k]@),
    ensures
        final(scene)@ == with_meshes(
            old(scene)@,
            Seq::new(old(scene)@.meshes.len(), |k: int| welded(old(scene)@.meshes[k], keys@[k]@)),
        ),
{
    let n = scene.meshes.len();
    for i in 0..n
        invariant
            n == scene.meshes@.len(),
            n == old(scene).meshes@.len(),
            keys@.len() == n,
            forall|k: int| 0 <= k < keys@.len() ==> weld_fits(old(scene)@.meshes[k], #[trigger] keys@[k]@),
            scene.materials == old(scene).materials,
            scene.skins == old(scene).skins,
            scene.animations == old(scene).animations,
            scene.nodes == old(scene).nodes,
            scene.external_models == old(scene).external_models,
            forall|k: int| 0 <= k < i ==> #[trigger] scene.meshes@[k]@ == welded(old(scene).meshes@[k]@, keys@[k]@),
            forall|k: int| i <= k < n ==> #[trigger] scene.meshes@[k] == old(scene).meshes@[k],
    {
        assert(old(scene)@.meshes[i as int] == scene.meshes@[i as int]@);
        weld_mesh(&mut scene.meshes[i], &keys[i]);
    }
    assert(meshes_view(scene.meshes@) =~= Seq::new(
        old(scene)@.meshes.len(),
        |k: int| welded(old(scene)@.meshes[k], keys@[k]@),
    ));
}

// ---------------------------------------------------------------------------
// Optimizing
// ---------------------------------------------------------------------------
/// The state of an optimization pass: the mesh built so far and the keys of
/// its vertices, normals and UVs.
pub ghost struct OptState {
    pub mesh: MeshView,
    pub vertex_keys: Seq<GridKey>,
    pub normal_keys: Seq<GridKey>,
    pub uv_keys: Seq<GridKey>,
}

/// The position that key `k` gets among `seen`: its first occurrence, or
/// the next free position.
pub open spec fn slot(seen: Seq<GridKey>, k: GridKey) -> int {
    match key_position(seen, k) {
        Some(p) => p,
        None => seen.len() as int,
    }
}

/// `seen` with `k` added unless it is already there.
pub open spec fn with_key(seen: Seq<GridKey>, k: GridKey) -> Seq<GridKey> {
    if key_position(seen, k) is Some {
        seen
    } else {
        seen.push(k)
    }
}

/// The first `c` corners of face `f` of mesh `m` added to the state `st`:
/// each corner refers to the first element with the key of its vertex (and
/// of its normal and UV, where it has one), added when new. `vk`, `nk` and
/// `tk` are the keys of the vertices, normals and UVs of `m`.
pub open spec fn opt_corners(
    st: OptState,
    m: MeshView,
    vk: Seq<GridKey>,
    nk: Seq<GridKey>,
    tk: Seq<GridKey>,
    f: FaceView,
    c: nat,
) -> (OptState, FaceView)
    decreases c,
{
    if c == 0 {
        (
            st,
            FaceView {
                vertex_indices: Seq::empty(),
                normal_indices: Seq::empty(),
                uv_indices: Seq::empty(),
                material_index: f.material_index,
            },
        )
    } else {
        let (s1, g1) = opt_corners(st, m, vk, nk, tk, f, (c - 1) as nat);
        let i = c - 1;
        let x = f.vertex_indices[i] as int;
        let kv = vk[x];
        let s2 = OptState {
            mesh: MeshView {
                vertices: if key_position(s1.vertex_keys, kv) is Some {
                    s1.mesh.vertices
                } else {
                    s1.mesh.vertices.push(m.vertices[x])
                },
                ..s1.mesh
            },
            vertex_keys: with_key(s1.vertex_keys, kv),
            ..s1
        };
        let g2 = FaceView {
            vertex_indices: g1.vertex_indices.push(slot(s1.vertex_keys, kv) as u32),
            ..g1
        };
        let (s3, g3) = if i < f.normal_indices.len() {
            let y = f.normal_indices[i] as int;
            let kn = nk[y];
            (
                OptState {
                    mesh: MeshView {
                        normals: if key_position(s2.normal_keys, kn) is Some {
                            s2.mesh.normals
                        } else {
                            s2.mesh.normals.push(m.normals[y])
                        },
                        ..s2.mesh
                    },
                    normal_keys: with_key(s2.normal_keys, kn),
                    ..s2
                },
                FaceView {
                    normal_indices: g2.normal_indices.push(slot(s2.normal_keys, kn) as u32),
                    ..g2
                },
            )
        } else {
            (s2, g2)
        };
        if i < f.uv_indices.len() {
            let z = f.uv_indices[i] as int;
            let kt = tk[z];
            (
                OptState {
                    mesh: MeshView {
                        uvs: if key_position(s3.uv_keys, kt) is Some {
                            s3.mesh.uvs
                        } else {
                            s3.mesh.uvs.push(m.uvs[z])
                        },
                        ..s3.mesh
                    },
                    uv_keys: with_key(s3.uv_keys, kt),
                    ..s3
                },
                FaceView { uv_indices: g3.uv_indices.push(slot(s3.uv_keys, kt) as u32), ..g3 },
            )
        } else {
            (s3, g3)
        }
    }
}

/// The state after the first `k` faces of mesh `m`.
pub open spec fn opt_faces(
    m: MeshView,
    vk: Seq<GridKey>,
    nk: Seq<GridKey>,
    tk: Seq<GridKey>,
    k: nat,
) -> OptState
    decreases k,
{
    if k == 0 {
        OptState {
            mesh: empty_mesh_view(m.name),
            vertex_keys: Seq::empty(),
            normal_keys: Seq::empty(),
            uv_keys: Seq::empty(),
        }
    } else {
        let st = opt_faces(m, vk, nk, tk, (k - 1) as nat);
        let f = m.faces[k - 1];
        let (s2, g) = opt_corners(st, m, vk, nk, tk, f, f.vertex_indices.len());
        OptState { mesh: MeshView { faces: s2.mesh.faces.push(g), ..s2.mesh }, ..s2 }
    }
}

/// The mesh `m` optimized: it keeps only the elements its faces refer to,
/// one per key, in the order the faces first refer to them.
pub open spec fn optimized(m: MeshView, vk: Seq<GridKey>, nk: Seq<GridKey>, tk: Seq<GridKey>) -> MeshView {
    opt_faces(m, vk, nk, tk, m.faces.len()).mesh
}

/// The mesh `m` can be optimized with keys `vk`, `nk`, `tk`: one key per
/// element, every corner refers to an element, and the corners fit `u32`
/// indices.
pub open spec fn optimize_fits(m: MeshView, vk: Seq<GridKey>, nk: Seq<GridKey>, tk: Seq<GridKey>) -> bool {
    &&& vk.len() == m.vertices.len()
    &&& nk.len() == m.normals.len()
    &&& tk.len() == m.uvs.len()
    &&& forall|j: int| 0 <= j < m.faces.len() ==> corners_valid(#[trigger] m.faces[j], m)
    &&& corner_total(m.faces) <= u32::MAX
}

/// The view of a state built in executable code.
pub open spec fn opt_view(out: Mesh, vs: Vec<GridKey>, ns: Vec<GridKey>, ts: Vec<GridKey>) -> OptState {
    OptState { mesh: out@, vertex_keys: vs@, normal_keys: ns@, uv_keys: ts@ }
}

/// Adds one key to a list of keys, and tells its position.
fn enter_key(seen: &mut Vec<GridKey>, k: GridKey) -> (r: (usize, bool))
    ensures
        r.0 == slot(old(seen)@, k),
        r.1 == (key_position(old(seen)@, k) is None),
        final(seen)@ == with_key(old(seen)@, k),
{
    proof {
        lemma_key_position(seen@, k);
    }
    match find_key(seen, k) {
        Some(p) => {
            (p, false)
        },
        None => {
            let p = seen.len();
            seen.push(k);
            (p, true)
        },
    }
}

/// Optimizes one mesh.
fn optimize_mesh(m: &Mesh, vk: &Vec<GridKey>, nk: &Vec<GridKey>, tk: &Vec<GridKey>) -> (r: Mesh)
    requires
        optimize_fits(m@, vk@, nk@, tk@),
    ensures
        r@ == optimized(m@, vk@, nk@, tk@),
{
    let ghost mv = m@;
    let mut out = Mesh::named(m.name.clone());
    let mut vs: Vec<GridKey> = Vec::new();
    let mut ns: Vec<GridKey> = Vec::new();
    let mut ts: Vec<GridKey> = Vec::new();
    let nf = m.faces.len();
    for j in 0..nf
        invariant
            nf == m.faces@.len(),
            mv == m@,
            optimize_fits(mv, vk@, nk@, tk@),
            opt_view(out, vs, ns, ts) == opt_faces(mv, vk@, nk@, tk@, j as nat),
            vs@.len() == out@.vertices.len(),
            ns@.len() == out@.normals.len(),
            ts@.len() == out@.uvs.len(),
            vs@.len() <= corner_total(mv.faces.take(j as int)),
            ns@.len() <= corner_total(mv.faces.take(j as int)),
            ts@.len() <= corner_total(mv.faces.take(j as int)),
    {
        let f = &m.faces[j];
        let ghost fv = f@;
        assert(fv == mv.faces[j as int]);
        assert(corners_valid(fv, mv));
        assert(mv.faces.take(j + 1).drop_last() =~= mv.faces.take(j as int));
        proof {
            crate::mesh_ops::lemma_corner_total_prefix(mv.faces, j + 1);
        }
        let ghost s0 = opt_view(out, vs, ns, ts);
        let ghost c0 = corner_total(mv.faces.take(j as int));
        let mut g = Face::with_material(f.material_index);
        let nc = f.vertex_indices.len();
        for i in 0..nc
            invariant
                nc == f.vertex_indices@.len(),
                fv == f@,
                mv == m@,
                optimize_fits(mv, vk@, nk@, tk@),
                corners_valid(fv, mv),
                c0 + nc <= u32::MAX,
                (opt_view(out, vs, ns, ts), g@) == opt_corners(s0, mv, vk@, nk@, tk@, fv, i as nat),
                vs@.len() == out@.vertices.len(),
                ns@.len() == out@.normals.len(),
                ts@.len() == out@.uvs.len(),
                vs@.len() <= c0 + i,
                ns@.len() <= c0 + i,
                ts@.len() <= c0 + i,
        {
            let x = f.vertex_indices[i] as usize;
            assert(fv.vertex_indices[i as int] < mv.vertices.len());
            let (p, fresh) = enter_key(&mut vs, vk[x]);
            if fresh {
                out.vertices.push(m.vertices[x]);
            }
            g.vertex_indices.push(p as u32);
            if i < f.normal_indices.len() {
                let y = f.normal_indices[i] as usize;
                let (q, fresh_n) = enter_key(&mut ns, nk[y]);
                if fresh_n {
                    out.normals.push(m.normals[y]);
                }
                g.normal_indices.push(q as u32);
            }
            if i < f.uv_indices.len() {
                let z = f.uv_indices[i] as usize;
                let (t, fresh_t) = enter_key(&mut ts, tk[z]);
                if fresh_t {
                    out.uvs.push(m.uvs[z]);
                }
                g.uv_indices.push(t as u32);
            }
        }
        let ghost gv = g@;
        let ghost before = faces_view(out.faces@);
        out.faces.push(g);
        assert(faces_view(out.faces@) =~= before.push(gv));
    }
    out
}

/// Rebuilds each mesh so that it keeps only the vertices, normals and UVs
/// its faces refer to, one per grid key, in the order the faces first refer
/// to them; `vertex_keys[k][i]` is the key of vertex `i` of mesh `k`, and
/// likewise for normals and UVs. Each mesh keeps its name and the material
/// of each face; everything else of a mesh is dropped.
pub fn optimize_by_keys(
    scene: &mut Scene,
    vertex_keys: &Vec<Vec<GridKey>>,
    normal_keys: &Vec<Vec<GridKey>>,
    uv_keys: &Vec<Vec<GridKey>>,
)
    requires
        vertex_keys@.len() == old(scene)@.meshes.len(),
        normal_keys@.len() == old(scene)@.meshes.len(),
        uv_keys@.len() == old(scene)@.meshes.len(),
        forall|k: int|
            0 <= k < old(scene)@.meshes.len() ==> optimize_fits(
                #[trigger] old(scene)@.meshes[k],
                vertex_keys@[k]@,
                normal_keys@[k]@,
                uv_keys@[k]@,
            ),
    ensures
        final(scene)@ == with_meshes(
            old(scene)@,
            Seq::new(
                old(scene)@.meshes.len(),
                |k: int|
                    optimized(
                        old(scene)@.meshes[k],
                        vertex_keys@[k]@,
                        normal_keys@[k]@,
                        uv_keys@[k]@,
                    ),
            ),
        ),
{
    let n = scene.meshes.len();
    for i in 0..n
        invariant
            n == scene.meshes@.len(),
            n == old(scene).meshes@.len(),
            vertex_keys@.len() == n,
            normal_keys@.len() == n,
            uv_keys@.len() == n,
            forall|k: int|
                0 <= k < old(scene)@.meshes.len() ==> optimize_fits(
                    #[trigger] old(scene)@.meshes[k],
                    vertex_keys@[k]@,
                    normal_keys@[k]@,
                    uv_keys@[k]@,
                ),
            scene.materials == old(scene).materials,
            scene.skins == old(scene).skins,
            scene.animations == old(scene).animations,
            scene.nodes == old(scene).nodes,
            scene.external_models == old(scene).external_models,
            forall|k: int|
                0 <= k < i ==> #[trigger] scene.meshes@[k]@ == optimized(
                    old(scene).meshes@[k]@,
                    vertex_keys@[k]@,
                    normal_keys@[k]@,
                    uv_keys@[k]@,
                ),
            forall|k: int| i <= k < n ==> #[trigger] scene.meshes@[k] == old(scene).meshes@[k],
    {
        assert(old(scene)@.meshes[i as int] == scene.meshes@[i as int]@);
        let nm = optimize_mesh(&scene.meshes[i], &vertex_keys[i], &normal_keys[i], &uv_keys[i]);
        scene.meshes.set(i, nm);
    }
    assert(meshes_view(scene.meshes@) =~= Seq::new(
        old(scene)@.meshes.len(),
        |k: int|
            optimized(old(scene)@.meshes[k], vertex_keys@[k]@, normal_keys@[k]@, uv_keys@[k]@),
    ));
}

} // verus!
