//! Building one mesh per connected part of a mesh.
//!
//! A part is a list of face positions of the source mesh. Its mesh holds
//! copies of those faces; every vertex, normal and UV that they use is copied
//! once, in the order in which the corners first use it, and the corners are
//! renumbered to the copies.
use std::collections::HashMap;
use vstd::prelude::*;

use crate::editing::with_meshes;
use crate::mesh_ops::corners_valid;
use crate::models::{empty_mesh_view, faces_view, meshes_view, FaceView, Mesh, MeshView, Scene};
use crate::split::{face_groups, groups_view, is_component_split, lemma_single_part_unique, single_part};
use crate::text::{decimal, push_decimal, push_str};

verus! {

broadcast use vstd::std_specs::hash::group_hash_axioms;

/// The index map after looking up `k`: unchanged when `k` is known, else `k`
/// gets the next free index `len`.
pub open spec fn slot_map(map: Map<u32, u32>, len: nat, k: u32) -> Map<u32, u32> {
    if map.contains_key(k) {
        map
    } else {
        map.insert(k, len as u32)
    }
}

/// The copied items after looking up `k`: unchanged when `k` is known, else
/// the item `k` of `source` is appended.
pub open spec fn slot_items<T>(items: Seq<T>, map: Map<u32, u32>, source: Seq<T>, k: u32) -> Seq<T> {
    if map.contains_key(k) {
        items
    } else {
        items.push(source[k as int])
    }
}

/// The state of building a part: the mesh built so far and, for vertices,
/// normals and UVs, the map from source indices to indices in the part.
pub ghost struct PartState {
    pub mesh: MeshView,
    pub vmap: Map<u32, u32>,
    pub nmap: Map<u32, u32>,
    pub tmap: Map<u32, u32>,
}

/// The state after the vertex `k` of `m` is looked up.
pub open spec fn with_vertex(s: PartState, m: MeshView, k: u32) -> PartState {
    PartState {
        mesh: MeshView { vertices: slot_items(s.mesh.vertices, s.vmap, m.vertices, k), ..s.mesh },
        vmap: slot_map(s.vmap, s.mesh.vertices.len(), k),
        ..s
    }
}

/// The state after the normal `k` of `m` is looked up.
pub open spec fn with_normal(s: PartState, m: MeshView, k: u32) -> PartState {
    PartState {
        mesh: MeshView { normals: slot_items(s.mesh.normals, s.nmap, m.normals, k), ..s.mesh },
        nmap: slot_map(s.nmap, s.mesh.normals.len(), k),
        ..s
    }
}

/// The state after the UV `k` of `m` is looked up.
pub open spec fn with_uv(s: PartState, m: MeshView, k: u32) -> PartState {
    PartState {
        mesh: MeshView { uvs: slot_items(s.mesh.uvs, s.tmap, m.uvs, k), ..s.mesh },
        tmap: slot_map(s.tmap, s.mesh.uvs.len(), k),
        ..s
    }
}

/// The first `c` corners of face `f` of `m` taken into the part: returns the
/// new state and the copy of `f` whose first `c` corners are renumbered (a
/// normal or UV index only where the face has one for that corner).
pub open spec fn part_corners(s: PartState, m: MeshView, f: FaceView, c: nat) -> (PartState, FaceView)
    decreases c,
{
    if c == 0 {
        (s, f)
    } else {
        let (s0, g0) = part_corners(s, m, f, (c - 1) as nat);
        let i = c - 1;
        let kv = f.vertex_indices[i];
        let s1 = with_vertex(s0, m, kv);
        let g1 = FaceView { vertex_indices: g0.vertex_indices.update(i, s1.vmap[kv]), ..g0 };
        let (s2, g2) = if i < f.normal_indices.len() {
            let kn = f.normal_indices[i];
            let s2 = with_normal(s1, m, kn);
            (s2, FaceView { normal_indices: g1.normal_indices.update(i, s2.nmap[kn]), ..g1 })
        } else {
            (s1, g1)
        };
        if i < f.uv_indices.len() {
            let kt = f.uv_indices[i];
            let s3 = with_uv(s2, m, kt);
            (s3, FaceView { uv_indices: g2.uv_indices.update(i, s3.tmap[kt]), ..g2 })
        } else {
            (s2, g2)
        }
    }
}

/// The state after the faces at the first `k` positions of `group` are taken
/// into a part named `name`.
pub open spec fn part_faces(m: MeshView, group: Seq<int>, name: Seq<char>, k: nat) -> PartState
    decreases k,
{
    if k == 0 {
        PartState {
            mesh: empty_mesh_view(name),
            vmap: Map::empty(),
            nmap: Map::empty(),
            tmap: Map::empty(),
        }
    } else {
        let s = part_faces(m, group, name, (k - 1) as nat);
        let f = m.faces[group[k - 1]];
        let (s2, g) = part_corners(s, m, f, f.vertex_indices.len());
        PartState { mesh: MeshView { faces: s2.mesh.faces.push(g), ..s2.mesh }, ..s2 }
    }
}

/// The mesh named `name` made of the faces of `m` at the positions `group`.
pub open spec fn sub_mesh(m: MeshView, group: Seq<int>, name: Seq<char>) -> MeshView {
    part_faces(m, group, name, group.len()).mesh
}

/// A finite set of `u32` values that misses `k` has fewer than 2^32 members.
pub(crate) proof fn lemma_u32_set_room(s: Set<u32>, k: u32)
    requires
        s.finite(),
        !s.contains(k),
    ensures
        s.len() < 0x1_0000_0000,
{
    let f = |x: u32| x as int;
    let t = s.map(f);
    assert(vstd::relations::injective_on(f, s));
    vstd::set_lib::lemma_map_size(s, t, f);
    vstd::set_lib::lemma_int_range(0, 0x1_0000_0000);
    let r = vstd::set_lib::set_int_range(0, 0x1_0000_0000).remove(k as int);
    assert(t.subset_of(r)) by {
        assert forall|y: int| t.contains(y) implies r.contains(y) by {
            let x = choose|x: u32| s.contains(x) && f(x) == y;
            assert(x != k);
        }
    }
    vstd::set_lib::lemma_len_subset(t, r);
}

/// Looks up the source index `k`: returns its index in `items`, copying the
/// element `k` of `source` into `items` when it is not there yet.
fn slot_of<T: Copy>(map: &mut HashMap<u32, u32>, items: &mut Vec<T>, source: &Vec<T>, k: u32) -> (r: u32)
    requires
        old(items)@.len() == old(map)@.dom().len(),
        k < source@.len(),
    ensures
        final(map)@ == slot_map(old(map)@, old(items)@.len(), k),
        final(items)@ == slot_items(old(items)@, old(map)@, source@, k),
        r == final(map)@[k],
        final(items)@.len() == final(map)@.dom().len(),
{
    match map.get(&k) {
        Some(v) => *v,
        None => {
            proof {
                lemma_u32_set_room(map@.dom(), k);
            }
            let v = items.len() as u32;
            items.push(source[k as usize]);
            map.insert(k, v);
            v
        },
    }
}

/// The state made of a mesh and its three index maps.
pub open spec fn state_of(out: MeshView, vmap: Map<u32, u32>, nmap: Map<u32, u32>, tmap: Map<u32, u32>) -> PartState {
    PartState { mesh: out, vmap, nmap, tmap }
}

/// Takes the corners of face `f` into the part.
fn take_corners(
    m: &Mesh,
    f: &crate::models::Face,
    out: &mut Mesh,
    vmap: &mut HashMap<u32, u32>,
    nmap: &mut HashMap<u32, u32>,
    tmap: &mut HashMap<u32, u32>,
) -> (g: crate::models::Face)
    requires
        corners_valid(f@, m@),
        old(out)@.vertices.len() == old(vmap)@.dom().len(),
        old(out)@.normals.len() == old(nmap)@.dom().len(),
        old(out)@.uvs.len() == old(tmap)@.dom().len(),
    ensures
        (state_of(final(out)@, final(vmap)@, final(nmap)@, final(tmap)@), g@) == part_corners(
            state_of(old(out)@, old(vmap)@, old(nmap)@, old(tmap)@),
            m@,
            f@,
            f@.vertex_indices.len(),
        ),
        final(out)@.vertices.len() == final(vmap)@.dom().len(),
        final(out)@.normals.len() == final(nmap)@.dom().len(),
        final(out)@.uvs.len() == final(tmap)@.dom().len(),
        final(out)@.faces == old(out)@.faces,
{
    let ghost mv = m@;
    let ghost fv = f@;
    let ghost s0 = state_of(out@, vmap@, nmap@, tmap@);
    let mut g = f.clone();
    let nc = f.vertex_indices.len();
    for i in 0..nc
        invariant
            nc == fv.vertex_indices.len(),
            fv == f@,
            mv == m@,
            corners_valid(fv, mv),
            (state_of(out@, vmap@, nmap@, tmap@), g@) == part_corners(s0, mv, fv, i as nat),
            g@.vertex_indices.len() == fv.vertex_indices.len(),
            g@.normal_indices.len() == fv.normal_indices.len(),
            g@.uv_indices.len() == fv.uv_indices.len(),
            out@.vertices.len() == vmap@.dom().len(),
            out@.normals.len() == nmap@.dom().len(),
            out@.uvs.len() == tmap@.dom().len(),
            out@.faces == s0.mesh.faces,
    {
        let kv = f.vertex_indices[i];
        assert(fv.vertex_indices[i as int] < mv.vertices.len());
        let nv = slot_of(vmap, &mut out.vertices, &m.vertices, kv);
        g.vertex_indices.set(i, nv);
        if i < f.normal_indices.len() {
            let kn = f.normal_indices[i];
            assert(fv.normal_indices[i as int] < mv.normals.len());
            let nn = slot_of(nmap, &mut out.normals, &m.normals, kn);
            g.normal_indices.set(i, nn);
        }
        if i < f.uv_indices.len() {
            let kt = f.uv_indices[i];
            assert(fv.uv_indices[i as int] < mv.uvs.len());
            let nt = slot_of(tmap, &mut out.uvs, &m.uvs, kt);
            g.uv_indices.set(i, nt);
        }
    }
    g
}

/// Builds the mesh named `name` from the faces of `m` at the positions `group`.
pub fn build_part(m: &Mesh, group: &Vec<usize>, name: String) -> (r: Mesh)
    requires
        forall|t: int| 0 <= t < group@.len() ==> #[trigger] group@[t] < m@.faces.len(),
        forall|t: int| 0 <= t < group@.len() ==> corners_valid(m@.faces[#[trigger] group@[t] as int], m@),
    ensures
        r@ == sub_mesh(m@, group@.map_values(|x: usize| x as int), name@),
{
    let ghost mv = m@;
    let ghost gi = group@.map_values(|x: usize| x as int);
    let ghost nm = name@;
    let mut out = Mesh::named(name);
    let mut vmap: HashMap<u32, u32> = HashMap::new();
    let mut nmap: HashMap<u32, u32> = HashMap::new();
    let mut tmap: HashMap<u32, u32> = HashMap::new();
    assert(state_of(out@, vmap@, nmap@, tmap@) == part_faces(mv, gi, nm, 0));
    let n = group.len();
    for t in 0..n
        invariant
            n == group@.len(),
            mv == m@,
            gi == group@.map_values(|x: usize| x as int),
            forall|t: int| 0 <= t < group@.len() ==> #[trigger] group@[t] < m@.faces.len(),
            forall|t: int| 0 <= t < group@.len() ==> corners_valid(m@.faces[#[trigger] group@[t] as int], m@),
            state_of(out@, vmap@, nmap@, tmap@) == part_faces(mv, gi, nm, t as nat),
            out@.vertices.len() == vmap@.dom().len(),
            out@.normals.len() == nmap@.dom().len(),
            out@.uvs.len() == tmap@.dom().len(),
    {
        let x = group[t];
        let f = &m.faces[x];
        assert(mv.faces[x as int] == f@);
        assert(gi[t as int] == x as int);
        assert(corners_valid(mv.faces[group@[t as int] as int], mv));
        let g = take_corners(m, f, &mut out, &mut vmap, &mut nmap, &mut tmap);
        let ghost gv = g@;
        let ghost before = faces_view(out.faces@);
        out.faces.push(g);
        assert(faces_view(out.faces@) =~= before.push(gv));
    }
    out
}

/// The name of part `p` of a mesh named `name`.
pub open spec fn part_name(name: Seq<char>, p: int) -> Seq<char> {
    name + "_part"@ + decimal(p as nat)
}

/// The meshes that replace mesh `m` split into the parts `groups`: `m`
/// itself when it has at most one part, else one mesh per part.
pub open spec fn mesh_parts(m: MeshView, groups: Seq<Seq<int>>) -> Seq<MeshView> {
    if groups.len() <= 1 {
        seq![m]
    } else {
        part_meshes(m, groups, groups.len())
    }
}

/// The meshes that replace the first `k` meshes of `ms`, split into `parts`.
pub open spec fn split_prefix(ms: Seq<MeshView>, parts: Seq<Seq<Seq<int>>>, k: nat) -> Seq<MeshView>
    decreases k,
{
    if k == 0 {
        Seq::empty()
    } else {
        split_prefix(ms, parts, (k - 1) as nat) + mesh_parts(ms[k - 1], parts[k - 1])
    }
}

/// `parts` holds a split into connected parts of each mesh of `ms`.
pub open spec fn splits_of(ms: Seq<MeshView>, parts: Seq<Seq<Seq<int>>>) -> bool {
    &&& parts.len() == ms.len()
    &&& forall|k: int| 0 <= k < ms.len() ==> is_component_split(ms[k], #[trigger] parts[k])
}

/// Every corner of every face of `m` refers to an element of `m`.
pub open spec fn all_corners_valid(m: MeshView) -> bool {
    forall|j: int| 0 <= j < m.faces.len() ==> corners_valid(#[trigger] m.faces[j], m)
}

/// Mesh `m` can be split: it is one part, or its corners are valid.
pub open spec fn split_fits(m: MeshView) -> bool {
    single_part(m) || all_corners_valid(m)
}

/// The meshes of the first `count` parts `groups` of mesh `m`.
pub open spec fn part_meshes(m: MeshView, groups: Seq<Seq<int>>, count: nat) -> Seq<MeshView> {
    Seq::new(count, |p: int| sub_mesh(m, groups[p], part_name(m.name, p)))
}

/// Builds part number `p` of mesh `m` from the faces at the positions `group`.
fn named_part(m: &Mesh, group: &Vec<usize>, p: usize) -> (r: Mesh)
    requires
        forall|t: int| 0 <= t < group@.len() ==> #[trigger] group@[t] < m@.faces.len(),
        forall|t: int| 0 <= t < group@.len() ==> corners_valid(m@.faces[#[trigger] group@[t] as int], m@),
    ensures
        r@ == sub_mesh(m@, group@.map_values(|x: usize| x as int), part_name(m@.name, p as int)),
{
    let mut name = m.name.clone();
    push_str(&mut name, "_part");
    push_decimal(&mut name, p as u64);
    assert(name@ == part_name(m@.name, p as int));
    build_part(m, group, name)
}

/// A mesh that can be split and has more than one part has valid corners.
proof fn lemma_many_parts_valid(m: MeshView, gv: Seq<Seq<int>>)
    requires
        split_fits(m),
        is_component_split(m, gv),
        gv.len() > 1,
    ensures
        all_corners_valid(m),
{
    if single_part(m) {
        let gs = choose|gs: Seq<Seq<int>>| is_component_split(m, gs) && gs.len() <= 1;
        lemma_single_part_unique(m, gv, gs);
    }
}

/// The meshes that replace mesh `m` (at least one part).
fn split_mesh(m: &Mesh) -> (r: (Vec<Mesh>, Ghost<Seq<Seq<int>>>))
    requires
        split_fits(m@),
    ensures
        is_component_split(m@, r.1@),
        meshes_view(r.0@) == mesh_parts(m@, r.1@),
{
    let mut out: Vec<Mesh> = Vec::new();
    if m.faces.len() == 0 {
        let ghost e = Seq::<Seq<int>>::empty();
        out.push(m.clone());
        assert(meshes_view(out@) =~= seq![m@]);
        return (out, Ghost(e));
    }
    let groups = face_groups(m);
    let ghost gv = groups_view(groups@);
    let np = groups.len();
    if np <= 1 {
        out.push(m.clone());
        assert(meshes_view(out@) =~= seq![m@]);
        return (out, Ghost(gv));
    }
    proof {
        lemma_many_parts_valid(m@, gv);
    }
    for p in 0..np
        invariant
            np == groups@.len(),
            np > 1,
            gv == groups_view(groups@),
            is_component_split(m@, gv),
            all_corners_valid(m@),
            meshes_view(out@) == part_meshes(m@, gv, p as nat),
    {
        let group = &groups[p];
        assert(gv[p as int] == group@.map_values(|x: usize| x as int));
        assert forall|t: int| 0 <= t < group@.len() implies #[trigger] group@[t] < m@.faces.len() by {
            assert(gv[p as int][t] == group@[t] as int);
        }
        assert forall|t: int| 0 <= t < group@.len() implies corners_valid(
            m@.faces[#[trigger] group@[t] as int],
            m@,
        ) by {
            assert(gv[p as int][t] == group@[t] as int);
        }
        let part = named_part(m, group, p);
        let ghost before = meshes_view(out@);
        let ghost pv = part@;
        out.push(part);
        assert(meshes_view(out@) =~= before.push(pv));
        assert(part_meshes(m@, gv, (p + 1) as nat) =~= part_meshes(m@, gv, p as nat).push(pv));
    }
    assert(meshes_view(out@) =~= mesh_parts(m@, gv));
    (out, Ghost(gv))
}

/// Replaces every mesh made of more than one connected part (faces linked
/// through shared vertex indices) by one mesh per part, named after the
/// mesh with `_part` and the part's number; other meshes are kept. A mesh
/// has only one split into parts (see `law_component_split_unique`), so the
/// result is determined.
pub fn split(scene: &mut Scene)
    requires
        forall|k: int| 0 <= k < old(scene)@.meshes.len() ==> split_fits(#[trigger] old(scene)@.meshes[k]),
    ensures
        exists|parts: Seq<Seq<Seq<int>>>|
            splits_of(old(scene)@.meshes, parts) && final(scene)@ == with_meshes(
                old(scene)@,
                #[trigger] split_prefix(old(scene)@.meshes, parts, old(scene)@.meshes.len()),
            ),
{
    let ghost ms = old(scene)@.meshes;
    let ghost mut parts: Seq<Seq<Seq<int>>> = Seq::empty();
    let mut out: Vec<Mesh> = Vec::new();
    let n = scene.meshes.len();
    for k in 0..n
        invariant
            n == ms.len(),
            ms == scene@.meshes,
            *scene == *old(scene),
            forall|j: int| 0 <= j < ms.len() ==> split_fits(#[trigger] ms[j]),
            parts.len() == k,
            forall|j: int| 0 <= j < k ==> is_component_split(ms[j], #[trigger] parts[j]),
            meshes_view(out@) == split_prefix(ms, parts, k as nat),
    {
        let m = &scene.meshes[k];
        assert(ms[k as int] == m@);
        let (pieces, Ghost(gs)) = split_mesh(m);
        let ghost before = meshes_view(out@);
        let ghost pv = meshes_view(pieces@);
        let mut pieces = pieces;
        out.append(&mut pieces);
        proof {
            let p2 = parts.push(gs);
            assert(split_prefix(ms, p2, k as nat) == split_prefix(ms, parts, k as nat)) by {
                lemma_split_prefix_frame(ms, parts, p2, k as nat);
            }
            parts = p2;
            assert(meshes_view(out@) =~= before + pv);
        }
    }
    scene.meshes = out;
    assert(splits_of(ms, parts));
    assert(scene@ == with_meshes(old(scene)@, split_prefix(ms, parts, ms.len())));
}

/// The split of a prefix depends on the parts of that prefix only.
proof fn lemma_split_prefix_frame(ms: Seq<MeshView>, p1: Seq<Seq<Seq<int>>>, p2: Seq<Seq<Seq<int>>>, k: nat)
    requires
        k <= p1.len(),
        k <= p2.len(),
        forall|j: int| 0 <= j < k ==> p1[j] == p2[j],
    ensures
        split_prefix(ms, p1, k) == split_prefix(ms, p2, k),
    decreases k,
{
    if k > 0 {
        lemma_split_prefix_frame(ms, p1, p2, (k - 1) as nat);
    }
}

} // verus!
