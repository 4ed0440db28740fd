//! Properties that relate several operations of the library, or that hold of
//! every result of one.
use vstd::prelude::*;

use crate::editing::{
    mesh_after_material_removal, mesh_with_material, scene_after_material_removal,
    scene_without_materials, with_materials, with_meshes,
};
use crate::mesh_ops::{
    corner_total, corners_valid, lemma_corner_total_prefix, lemma_merged_counts, merge_fits, merged,
    mesh_with_flipped_faces, mesh_with_flipped_normals, normal_total, shifted_face, unweld_corners,
    unweld_faces, unweld_fits, unwelded, uv_total, vertex_total,
};
use crate::models::{negated_bits, FaceView, MaterialView, MeshView, SceneView, Vector3};
use crate::parser::{
    face_of, fan_triangle, keyword_of, material_position, mesh_add_face, parse_lines, parse_obj,
    parse_step, text_fields, triangulation, Keyword, ObjState,
};
use crate::text::text_lines;
use crate::parts::{
    lemma_u32_set_room, mesh_parts, part_corners, part_faces, part_meshes, part_name, slot_items, slot_map,
    split_prefix, splits_of, sub_mesh, with_normal, with_uv, with_vertex, PartState,
};
use crate::smoothing::{
    corner_normals, face_with_vertex_normal, smooth_fits, smooth_prefix, smoothed, with_vertex_normals,
};
use crate::split::{in_groups, is_component_split};
use crate::welding::{
    key_position, lemma_key_position, lemma_weld_prefix, opt_corners, opt_faces, optimize_fits,
    optimized, slot, weld_fits, weld_prefix, welded, with_key, GridKey, OptState,
};
use crate::queries::{face_total, face_triangles, faces_triangles, lemma_face_total_prefix};
use crate::validation::{face_valid, mesh_valid, scene_valid};

verus! {

/// Removing the mesh that was just added gives back the scene.
pub proof fn law_remove_added_mesh(s: SceneView, m: MeshView)
    ensures
        ({
            let added = with_meshes(s, s.meshes.push(m));
            &&& s.meshes.len() < added.meshes.len()
            &&& with_meshes(added, added.meshes.remove(s.meshes.len() as int)) == s
        }),
{
    let added = with_meshes(s, s.meshes.push(m));
    assert(added.meshes.remove(s.meshes.len() as int) =~= s.meshes);
}

/// In a valid scene, removing the material that was just added gives back
/// the scene: no face refers to it, and no face refers past it.
pub proof fn law_remove_added_material(s: SceneView, mat: MaterialView)
    requires
        scene_valid(s),
        s.materials.len() <= u32::MAX,
    ensures
        ({
            let added = with_materials(s, s.materials.push(mat));
            &&& s.materials.len() < added.materials.len()
            &&& scene_after_material_removal(added, s.materials.len() as usize) == s
        }),
{
    let added = with_materials(s, s.materials.push(mat));
    let n = s.materials.len();
    let r = scene_after_material_removal(added, n as usize);
    assert(r.materials =~= s.materials);
    assert forall|k: int| 0 <= k < s.meshes.len() implies #[trigger] r.meshes[k] == s.meshes[k] by {
        let m = s.meshes[k];
        assert(mesh_valid(m, n));
        let m2 = mesh_after_material_removal(m, n as u32);
        assert forall|j: int| 0 <= j < m.faces.len() implies #[trigger] m2.faces[j] == m.faces[j] by {
            assert(face_valid(m.faces[j], m, n));
        }
        assert(m2.faces =~= m.faces);
    }
    assert(r.meshes =~= s.meshes);
}

/// Flipping the faces twice gives back the scene.
pub proof fn law_flip_faces_twice(s: SceneView)
    ensures
        ({
            let once = with_meshes(s, s.meshes.map_values(|m: MeshView| mesh_with_flipped_faces(m)));
            with_meshes(once, once.meshes.map_values(|m: MeshView| mesh_with_flipped_faces(m))) == s
        }),
{
    let once = with_meshes(s, s.meshes.map_values(|m: MeshView| mesh_with_flipped_faces(m)));
    let twice = with_meshes(once, once.meshes.map_values(|m: MeshView| mesh_with_flipped_faces(m)));
    assert forall|k: int| 0 <= k < s.meshes.len() implies #[trigger] twice.meshes[k] == s.meshes[k] by {
        let m = s.meshes[k];
        let m2 = mesh_with_flipped_faces(mesh_with_flipped_faces(m));
        assert forall|j: int| 0 <= j < m.faces.len() implies #[trigger] m2.faces[j] == m.faces[j] by {
            let f = m.faces[j];
            assert(f.vertex_indices.reverse().reverse() =~= f.vertex_indices);
            assert(f.normal_indices.reverse().reverse() =~= f.normal_indices);
            assert(f.uv_indices.reverse().reverse() =~= f.uv_indices);
        }
        assert(m2.faces =~= m.faces);
    }
    assert(twice.meshes =~= s.meshes);
}

/// Negating the bits of a value twice gives back the value.
pub proof fn law_negate_twice(v: u32)
    ensures
        negated_bits(negated_bits(v)) == v,
{
    assert((v ^ 0x8000_0000u32) ^ 0x8000_0000u32 == v) by (bit_vector);
}

/// Flipping the normals twice gives back the scene.
pub proof fn law_flip_normals_twice(s: SceneView)
    ensures
        ({
            let once = with_meshes(s, s.meshes.map_values(|m: MeshView| mesh_with_flipped_normals(m)));
            with_meshes(once, once.meshes.map_values(|m: MeshView| mesh_with_flipped_normals(m))) == s
        }),
{
    let once = with_meshes(s, s.meshes.map_values(|m: MeshView| mesh_with_flipped_normals(m)));
    let twice = with_meshes(once, once.meshes.map_values(|m: MeshView| mesh_with_flipped_normals(m)));
    assert forall|k: int| 0 <= k < s.meshes.len() implies #[trigger] twice.meshes[k] == s.meshes[k] by {
        let m = s.meshes[k];
        let m2 = mesh_with_flipped_normals(mesh_with_flipped_normals(m));
        assert forall|j: int| 0 <= j < m.normals.len() implies #[trigger] m2.normals[j] == m.normals[j] by {
            let v = m.normals[j];
            law_negate_twice(v.x);
            law_negate_twice(v.y);
            law_negate_twice(v.z);
        }
        assert(m2.normals =~= m.normals);
    }
    assert(twice.meshes =~= s.meshes);
}

/// Removing a material keeps a valid scene valid.
pub proof fn law_remove_material_keeps_valid(s: SceneView, index: usize)
    requires
        scene_valid(s),
        index < s.materials.len(),
    ensures
        scene_valid(scene_after_material_removal(s, index)),
{
    let r = scene_after_material_removal(s, index);
    let n = s.materials.len();
    assert forall|k: int| 0 <= k < r.meshes.len() implies mesh_valid(#[trigger] r.meshes[k], r.materials.len()) by {
        let m = s.meshes[k];
        assert(mesh_valid(m, n));
        let m2 = r.meshes[k];
        assert forall|j: int| 0 <= j < m2.faces.len() implies face_valid(#[trigger] m2.faces[j], m2, r.materials.len()) by {
            assert(face_valid(m.faces[j], m, n));
        }
    }
}

/// Clearing the materials keeps a valid scene valid.
pub proof fn law_clear_materials_keeps_valid(s: SceneView)
    requires
        scene_valid(s),
    ensures
        scene_valid(scene_without_materials(s)),
{
    let r = scene_without_materials(s);
    assert forall|k: int| 0 <= k < r.meshes.len() implies mesh_valid(#[trigger] r.meshes[k], r.materials.len()) by {
        let m = s.meshes[k];
        assert(mesh_valid(m, s.materials.len()));
        let m2 = r.meshes[k];
        assert forall|j: int| 0 <= j < m2.faces.len() implies face_valid(#[trigger] m2.faces[j], m2, 0) by {
            assert(face_valid(m.faces[j], m, s.materials.len()));
        }
    }
}

/// Assigning an existing material to an existing mesh keeps a valid scene
/// valid.
pub proof fn law_assign_material_keeps_valid(s: SceneView, mesh_index: usize, material_index: usize)
    requires
        scene_valid(s),
        mesh_index < s.meshes.len(),
        material_index < s.materials.len(),
    ensures
        scene_valid(
            with_meshes(
                s,
                s.meshes.update(
                    mesh_index as int,
                    mesh_with_material(s.meshes[mesh_index as int], Some(material_index as u32)),
                ),
            ),
        ),
{
    let n = s.materials.len();
    let m = s.meshes[mesh_index as int];
    let m2 = mesh_with_material(m, Some(material_index as u32));
    assert(mesh_valid(m, n));
    assert(material_index as u32 <= material_index);
    assert forall|j: int| 0 <= j < m2.faces.len() implies face_valid(#[trigger] m2.faces[j], m2, n) by {
        assert(face_valid(m.faces[j], m, n));
    }
    let r = with_meshes(s, s.meshes.update(mesh_index as int, m2));
    assert forall|k: int| 0 <= k < r.meshes.len() implies mesh_valid(#[trigger] r.meshes[k], r.materials.len()) by {
        if k != mesh_index {
            assert(r.meshes[k] == s.meshes[k]);
        }
    }
}

/// Triangulating a face of `n >= 3` corners gives `n - 2` triangles, so the
/// triangle count is unchanged.
pub proof fn law_triangulation_keeps_triangles(f: FaceView)
    requires
        f.vertex_indices.len() >= 3,
    ensures
        triangulation(f).len() == face_triangles(f),
        faces_triangles(triangulation(f)) == face_triangles(f),
        forall|t: int| 0 <= t < triangulation(f).len() ==> (#[trigger] triangulation(f)[t]).vertex_indices.len() == 3,
{
    let ts = triangulation(f);
    assert forall|t: int| 0 <= t < ts.len() implies #[trigger] face_triangles(ts[t]) == 1 by {
        assert(ts[t] == fan_triangle(f, t + 1));
    }
    lemma_unit_triangles(ts, ts.len());
    assert(ts.take(ts.len() as int) =~= ts);
}

/// Faces of one triangle each count one triangle apiece.
proof fn lemma_unit_triangles(fs: Seq<FaceView>, k: nat)
    requires
        k <= fs.len(),
        forall|t: int| 0 <= t < fs.len() ==> #[trigger] face_triangles(fs[t]) == 1,
    ensures
        faces_triangles(fs.take(k as int)) == k,
    decreases k,
{
    if k > 0 {
        lemma_unit_triangles(fs, (k - 1) as nat);
        assert(fs.take(k as int).drop_last() =~= fs.take(k - 1));
        assert(fs.take(k as int).last() == fs[k - 1]);
    }
}

/// The smaller of two numbers.
pub open spec fn min_nat(a: nat, b: nat) -> nat {
    if a <= b {
        a
    } else {
        b
    }
}

/// What unwelding the first `c` corners of a face does: each corner gets the
/// next fresh vertex (normal, UV where the face has one), a copy of the one
/// it referred to, and the earlier elements stay.
/// What unwelding the first `c` corners of a face does to the vertices.
proof fn lemma_unweld_corner_vertices(a: MeshView, m: MeshView, f: FaceView, c: nat)
    requires
        c <= f.vertex_indices.len(),
        a.vertices.len() + c <= u32::MAX,
    ensures
        ({
            let (a2, g) = unweld_corners(a, m, f, c);
            &&& a2.name == a.name
            &&& a2.faces == a.faces
            &&& g.material_index == f.material_index
            &&& a2.vertices.len() == a.vertices.len() + c
            &&& g.vertex_indices.len() == c
            &&& forall|p: int| 0 <= p < a.vertices.len() ==> #[trigger] a2.vertices[p] == a.vertices[p]
            &&& forall|i: int|
                0 <= i < c ==> #[trigger] g.vertex_indices[i] == a.vertices.len() + i
                    && a2.vertices[a.vertices.len() + i] == m.vertices[f.vertex_indices[i] as int]
        }),
    decreases c,
{
    if c > 0 {
        lemma_unweld_corner_vertices(a, m, f, (c - 1) as nat);
        let (a1, g1) = unweld_corners(a, m, f, (c - 1) as nat);
        let (a2, g) = unweld_corners(a, m, f, c);
        assert(a2.vertices == a1.vertices.push(m.vertices[f.vertex_indices[c - 1] as int]));
        assert(g.vertex_indices == g1.vertex_indices.push(a1.vertices.len() as u32));
        assert forall|i: int| 0 <= i < c implies #[trigger] g.vertex_indices[i] == a.vertices.len() + i
            && a2.vertices[a.vertices.len() + i] == m.vertices[f.vertex_indices[i] as int] by {
            if i < c - 1 {
                assert(g.vertex_indices[i] == g1.vertex_indices[i]);
                assert(a2.vertices[a.vertices.len() + i] == a1.vertices[a.vertices.len() + i]);
            }
        }
    }
}

/// What unwelding the first `c` corners of a face does to the normals.
proof fn lemma_unweld_corner_normals(a: MeshView, m: MeshView, f: FaceView, c: nat)
    requires
        c <= f.vertex_indices.len(),
        a.normals.len() + c <= u32::MAX,
    ensures
        ({
            let (a2, g) = unweld_corners(a, m, f, c);
            let cn = min_nat(c, f.normal_indices.len());
            &&& a2.normals.len() == a.normals.len() + cn
            &&& g.normal_indices.len() == cn
            &&& forall|p: int| 0 <= p < a.normals.len() ==> #[trigger] a2.normals[p] == a.normals[p]
            &&& forall|i: int|
                0 <= i < cn ==> #[trigger] g.normal_indices[i] == a.normals.len() + i
                    && a2.normals[a.normals.len() + i] == m.normals[f.normal_indices[i] as int]
        }),
    decreases c,
{
    if c > 0 {
        lemma_unweld_corner_normals(a, m, f, (c - 1) as nat);
        let (a1, g1) = unweld_corners(a, m, f, (c - 1) as nat);
        let (a2, g) = unweld_corners(a, m, f, c);
        let cn = min_nat(c, f.normal_indices.len());
        if c - 1 < f.normal_indices.len() {
            assert(a2.normals == a1.normals.push(m.normals[f.normal_indices[c - 1] as int]));
            assert(g.normal_indices == g1.normal_indices.push(a1.normals.len() as u32));
            assert forall|i: int| 0 <= i < cn implies #[trigger] g.normal_indices[i] == a.normals.len() + i
                && a2.normals[a.normals.len() + i] == m.normals[f.normal_indices[i] as int] by {
                if i < cn - 1 {
                    assert(g.normal_indices[i] == g1.normal_indices[i]);
                    assert(a2.normals[a.normals.len() + i] == a1.normals[a.normals.len() + i]);
                }
            }
        } else {
            assert(a2.normals == a1.normals);
            assert(g.normal_indices == g1.normal_indices);
        }
    }
}

/// What unwelding the first `c` corners of a face does to the UVs.
proof fn lemma_unweld_corner_uvs(a: MeshView, m: MeshView, f: FaceView, c: nat)
    requires
        c <= f.vertex_indices.len(),
        a.uvs.len() + c <= u32::MAX,
    ensures
        ({
            let (a2, g) = unweld_corners(a, m, f, c);
            let ct = min_nat(c, f.uv_indices.len());
            &&& a2.uvs.len() == a.uvs.len() + ct
            &&& g.uv_indices.len() == ct
            &&& forall|p: int| 0 <= p < a.uvs.len() ==> #[trigger] a2.uvs[p] == a.uvs[p]
            &&& forall|i: int|
                0 <= i < ct ==> #[trigger] g.uv_indices[i] == a.uvs.len() + i
                    && a2.uvs[a.uvs.len() + i] == m.uvs[f.uv_indices[i] as int]
        }),
    decreases c,
{
    if c > 0 {
        lemma_unweld_corner_uvs(a, m, f, (c - 1) as nat);
        let (a1, g1) = unweld_corners(a, m, f, (c - 1) as nat);
        let (a2, g) = unweld_corners(a, m, f, c);
        let ct = min_nat(c, f.uv_indices.len());
        if c - 1 < f.uv_indices.len() {
            assert(a2.uvs == a1.uvs.push(m.uvs[f.uv_indices[c - 1] as int]));
            assert(g.uv_indices == g1.uv_indices.push(a1.uvs.len() as u32));
            assert forall|i: int| 0 <= i < ct implies #[trigger] g.uv_indices[i] == a.uvs.len() + i
                && a2.uvs[a.uvs.len() + i] == m.uvs[f.uv_indices[i] as int] by {
                if i < ct - 1 {
                    assert(g.uv_indices[i] == g1.uv_indices[i]);
                    assert(a2.uvs[a.uvs.len() + i] == a1.uvs[a.uvs.len() + i]);
                }
            }
        } else {
            assert(a2.uvs == a1.uvs);
            assert(g.uv_indices == g1.uv_indices);
        }
    }
}

/// What unwelding the first `k` faces of a mesh builds: one face per face,
/// every corner referring to a fresh copy of what it referred to.
proof fn lemma_unweld_faces(m: MeshView, k: nat)
    requires
        unweld_fits(m),
        k <= m.faces.len(),
    ensures
        ({
            let u = unweld_faces(m, k);
            &&& u.name == m.name
            &&& u.faces.len() == k
            &&& u.vertices.len() == corner_total(m.faces.take(k as int))
            &&& u.normals.len() <= u.vertices.len()
            &&& u.uvs.len() <= u.vertices.len()
            &&& forall|j: int| 0 <= j < k ==> (#[trigger] u.faces[j]).material_index == m.faces[j].material_index
            &&& forall|j: int| 0 <= j < k ==> (#[trigger] u.faces[j]).vertex_indices.len() == m.faces[j].vertex_indices.len()
            &&& forall|j: int|
                0 <= j < k ==> (#[trigger] u.faces[j]).normal_indices.len() == min_nat(
                    m.faces[j].vertex_indices.len(),
                    m.faces[j].normal_indices.len(),
                )
            &&& forall|j: int|
                0 <= j < k ==> (#[trigger] u.faces[j]).uv_indices.len() == min_nat(
                    m.faces[j].vertex_indices.len(),
                    m.faces[j].uv_indices.len(),
                )
            &&& forall|j: int, i: int|
                0 <= j < k && 0 <= i < m.faces[j].vertex_indices.len() ==> {
                    &&& (#[trigger] u.faces[j].vertex_indices[i]) < u.vertices.len()
                    &&& u.vertices[u.faces[j].vertex_indices[i] as int] == m.vertices[m.faces[j].vertex_indices[i] as int]
                }
            &&& forall|j: int, i: int|
                0 <= j < k && 0 <= i < u.faces[j].normal_indices.len() ==> {
                    &&& (#[trigger] u.faces[j].normal_indices[i]) < u.normals.len()
                    &&& u.normals[u.faces[j].normal_indices[i] as int] == m.normals[m.faces[j].normal_indices[i] as int]
                }
            &&& forall|j: int, i: int|
                0 <= j < k && 0 <= i < u.faces[j].uv_indices.len() ==> {
                    &&& (#[trigger] u.faces[j].uv_indices[i]) < u.uvs.len()
                    &&& u.uvs[u.faces[j].uv_indices[i] as int] == m.uvs[m.faces[j].uv_indices[i] as int]
                }
        }),
    decreases k,
{
    if k > 0 {
        lemma_unweld_faces(m, (k - 1) as nat);
        lemma_corner_total_prefix(m.faces, k as int);
        assert(m.faces.take(k as int).drop_last() =~= m.faces.take(k - 1));
        let a = unweld_faces(m, (k - 1) as nat);
        let f = m.faces[k - 1];
        lemma_unweld_corner_vertices(a, m, f, f.vertex_indices.len());
        lemma_unweld_corner_normals(a, m, f, f.vertex_indices.len());
        lemma_unweld_corner_uvs(a, m, f, f.vertex_indices.len());
        let (a2, g) = unweld_corners(a, m, f, f.vertex_indices.len());
        let u = unweld_faces(m, k);
        assert(u.faces == a2.faces.push(g));
        assert forall|j: int, i: int|
            0 <= j < k && 0 <= i < m.faces[j].vertex_indices.len() implies {
                &&& (#[trigger] u.faces[j].vertex_indices[i]) < u.vertices.len()
                &&& u.vertices[u.faces[j].vertex_indices[i] as int] == m.vertices[m.faces[j].vertex_indices[i] as int]
            } by {
            if j < k - 1 {
                assert(u.faces[j] == a.faces[j]);
                assert(a.faces[j].vertex_indices[i] < a.vertices.len());
            } else {
                assert(u.faces[j] == g);
            }
        }
        assert forall|j: int, i: int|
            0 <= j < k && 0 <= i < u.faces[j].normal_indices.len() implies {
                &&& (#[trigger] u.faces[j].normal_indices[i]) < u.normals.len()
                &&& u.normals[u.faces[j].normal_indices[i] as int] == m.normals[m.faces[j].normal_indices[i] as int]
            } by {
            if j < k - 1 {
                assert(u.faces[j] == a.faces[j]);
                assert(a.faces[j].normal_indices[i] < a.normals.len());
            } else {
                assert(u.faces[j] == g);
            }
        }
        assert forall|j: int, i: int|
            0 <= j < k && 0 <= i < u.faces[j].uv_indices.len() implies {
                &&& (#[trigger] u.faces[j].uv_indices[i]) < u.uvs.len()
                &&& u.uvs[u.faces[j].uv_indices[i] as int] == m.uvs[m.faces[j].uv_indices[i] as int]
            } by {
            if j < k - 1 {
                assert(u.faces[j] == a.faces[j]);
                assert(a.faces[j].uv_indices[i] < a.uvs.len());
            } else {
                assert(u.faces[j] == g);
            }
        }
        assert forall|j: int| 0 <= j < k implies (#[trigger] u.faces[j]).material_index == m.faces[j].material_index by {
            if j < k - 1 {
                assert(u.faces[j] == a.faces[j]);
            }
        }
    }
}

/// Unwelding keeps a valid mesh valid and keeps what every corner refers
/// to: corner `i` of face `j` has the same vertex (and normal and UV, where
/// it keeps one) as before, and the faces keep their materials.
pub proof fn law_unweld_keeps_corners(m: MeshView, n_materials: nat)
    requires
        unweld_fits(m),
        mesh_valid(m, n_materials),
    ensures
        ({
            let u = unwelded(m);
            &&& mesh_valid(u, n_materials)
            &&& u.faces.len() == m.faces.len()
            &&& u.vertices.len() == corner_total(m.faces)
            &&& forall|j: int| 0 <= j < m.faces.len() ==> (#[trigger] u.faces[j]).material_index == m.faces[j].material_index
            &&& forall|j: int, i: int|
                0 <= j < m.faces.len() && 0 <= i < m.faces[j].vertex_indices.len() ==> u.vertices[(
                #[trigger] u.faces[j].vertex_indices[i]) as int] == m.vertices[m.faces[j].vertex_indices[i] as int]
            &&& forall|j: int, i: int|
                0 <= j < m.faces.len() && 0 <= i < u.faces[j].normal_indices.len() ==> u.normals[(
                #[trigger] u.faces[j].normal_indices[i]) as int] == m.normals[m.faces[j].normal_indices[i] as int]
            &&& forall|j: int, i: int|
                0 <= j < m.faces.len() && 0 <= i < u.faces[j].uv_indices.len() ==> u.uvs[(
                #[trigger] u.faces[j].uv_indices[i]) as int] == m.uvs[m.faces[j].uv_indices[i] as int]
        }),
{
    lemma_unweld_faces(m, m.faces.len());
    assert(m.faces.take(m.faces.len() as int) =~= m.faces);
    let u = unwelded(m);
    assert forall|j: int| 0 <= j < u.faces.len() implies face_valid(#[trigger] u.faces[j], u, n_materials) by {
        assert(face_valid(m.faces[j], m, n_materials));
        assert forall|i: int| 0 <= i < u.faces[j].vertex_indices.len() implies #[trigger] u.faces[j].vertex_indices[i] < u.vertices.len() by {}
        assert forall|i: int| 0 <= i < u.faces[j].normal_indices.len() implies #[trigger] u.faces[j].normal_indices[i] < u.normals.len() by {}
        assert forall|i: int| 0 <= i < u.faces[j].uv_indices.len() implies #[trigger] u.faces[j].uv_indices[i] < u.uvs.len() by {}
    }
}

/// Unwelding keeps a valid scene valid.
pub proof fn law_unweld_keeps_valid(s: SceneView)
    requires
        scene_valid(s),
        forall|k: int| 0 <= k < s.meshes.len() ==> unweld_fits(#[trigger] s.meshes[k]),
    ensures
        scene_valid(with_meshes(s, s.meshes.map_values(|m: MeshView| unwelded(m)))),
{
    let r = with_meshes(s, s.meshes.map_values(|m: MeshView| unwelded(m)));
    assert forall|k: int| 0 <= k < r.meshes.len() implies mesh_valid(#[trigger] r.meshes[k], r.materials.len()) by {
        assert(mesh_valid(s.meshes[k], s.materials.len()));
        law_unweld_keeps_corners(s.meshes[k], s.materials.len());
    }
}

/// What merging the meshes `ms` builds: the faces of all meshes, one after
/// the other, each corner moved to the same element in the merged lists.
proof fn lemma_merged_valid(ms: Seq<MeshView>, name: Seq<char>, n_materials: nat)
    requires
        forall|k: int| 0 <= k < ms.len() ==> mesh_valid(#[trigger] ms[k], n_materials),
        vertex_total(ms) <= u32::MAX,
        normal_total(ms) <= u32::MAX,
        uv_total(ms) <= u32::MAX,
    ensures
        mesh_valid(merged(ms, name), n_materials),
        merged(ms, name).faces.len() == face_total(ms),
    decreases ms.len(),
{
    lemma_merged_counts(ms, name);
    if ms.len() > 0 {
        let ms0 = ms.drop_last();
        lemma_merged_valid(ms0, name, n_materials);
        lemma_merged_counts(ms0, name);
        let acc = merged(ms0, name);
        let m = ms.last();
        let r = merged(ms, name);
        assert(mesh_valid(m, n_materials));
        let dv = acc.vertices.len();
        let dn = acc.normals.len();
        let du = acc.uvs.len();
        assert forall|j: int| 0 <= j < r.faces.len() implies face_valid(#[trigger] r.faces[j], r, n_materials) by {
            if j < acc.faces.len() {
                assert(r.faces[j] == acc.faces[j]);
                assert(face_valid(acc.faces[j], acc, n_materials));
            } else {
                let jj = j - acc.faces.len();
                let f = m.faces[jj];
                assert(face_valid(f, m, n_materials));
                assert(r.faces[j] == shifted_face(f, dv, dn, du));
                assert forall|i: int| 0 <= i < f.vertex_indices.len() implies #[trigger] r.faces[j].vertex_indices[i] < r.vertices.len() by {
                    assert(f.vertex_indices[i] < m.vertices.len());
                }
                assert forall|i: int| 0 <= i < f.normal_indices.len() implies #[trigger] r.faces[j].normal_indices[i] < r.normals.len() by {
                    assert(f.normal_indices[i] < m.normals.len());
                }
                assert forall|i: int| 0 <= i < f.uv_indices.len() implies #[trigger] r.faces[j].uv_indices[i] < r.uvs.len() by {
                    assert(f.uv_indices[i] < m.uvs.len());
                }
            }
        }
    }
}

/// Merging keeps a valid scene valid and keeps every face.
pub proof fn law_merge_keeps_valid(s: SceneView, name: Seq<char>)
    requires
        scene_valid(s),
        merge_fits(s.meshes),
    ensures
        scene_valid(with_meshes(s, seq![merged(s.meshes, name)])),
        merged(s.meshes, name).faces.len() == face_total(s.meshes),
{
    assert forall|k: int| 0 <= k < s.meshes.len() implies mesh_valid(#[trigger] s.meshes[k], s.materials.len()) by {}
    lemma_merged_valid(s.meshes, name, s.materials.len());
    let r = with_meshes(s, seq![merged(s.meshes, name)]);
    assert(r.meshes[0] == merged(s.meshes, name));
}

/// `b` keeps every entry of `a`.
pub open spec fn map_grows(a: Map<u32, u32>, b: Map<u32, u32>) -> bool {
    forall|k: u32| a.contains_key(k) ==> #[trigger] b.contains_key(k) && b[k] == a[k]
}

/// `map` sends each known source index to the copy in `items` of that
/// element of `source`, and `items` holds one copy per known index.
pub open spec fn refers<T>(map: Map<u32, u32>, items: Seq<T>, source: Seq<T>) -> bool {
    &&& map.dom().finite()
    &&& items.len() == map.dom().len()
    &&& forall|k: u32| #[trigger] map.contains_key(k) ==> map[k] < items.len() && items[map[k] as int] == source[k as int]
}

/// The maps of a part under construction refer to copies of the elements of `m`.
pub open spec fn part_state_ok(s: PartState, m: MeshView) -> bool {
    &&& refers(s.vmap, s.mesh.vertices, m.vertices)
    &&& refers(s.nmap, s.mesh.normals, m.normals)
    &&& refers(s.tmap, s.mesh.uvs, m.uvs)
}

/// Looking up an index keeps the maps referring to copies, keeps their
/// entries, and makes the index known.
proof fn lemma_slot<T>(map: Map<u32, u32>, items: Seq<T>, source: Seq<T>, k: u32)
    requires
        refers(map, items, source),
        k < source.len(),
    ensures
        refers(slot_map(map, items.len(), k), slot_items(items, map, source, k), source),
        map_grows(map, slot_map(map, items.len(), k)),
        slot_map(map, items.len(), k).contains_key(k),
{
    if !map.contains_key(k) {
        lemma_u32_set_room(map.dom(), k);
        let map2 = map.insert(k, items.len() as u32);
        let items2 = items.push(source[k as int]);
        assert(map2.dom() =~= map.dom().insert(k));
        assert forall|k2: u32| #[trigger] map2.contains_key(k2) implies map2[k2] < items2.len()
            && items2[map2[k2] as int] == source[k2 as int] by {
            if k2 != k {
                assert(map.contains_key(k2));
            }
        }
    }
}

/// Taking the first `c` corners of face `f` into a part keeps its maps
/// referring to copies and growing; the corners taken point at the copies
/// of their elements, the rest of the face is unchanged.
proof fn lemma_part_corners(s: PartState, m: MeshView, f: FaceView, c: nat)
    requires
        part_state_ok(s, m),
        corners_valid(f, m),
        c <= f.vertex_indices.len(),
    ensures
        ({
            let (s2, g) = part_corners(s, m, f, c);
            &&& part_state_ok(s2, m)
            &&& map_grows(s.vmap, s2.vmap)
            &&& map_grows(s.nmap, s2.nmap)
            &&& map_grows(s.tmap, s2.tmap)
            &&& s2.mesh.faces == s.mesh.faces
            &&& s2.mesh.name == s.mesh.name
            &&& g.material_index == f.material_index
            &&& g.vertex_indices.len() == f.vertex_indices.len()
            &&& g.normal_indices.len() == f.normal_indices.len()
            &&& g.uv_indices.len() == f.uv_indices.len()
            &&& forall|i: int| 0 <= i < c ==> #[trigger] s2.vmap.contains_key(f.vertex_indices[i])
            &&& forall|i: int|
                0 <= i < c ==> #[trigger] g.vertex_indices[i]
                    == s2.vmap[f.vertex_indices[i]]
            &&& forall|i: int|
                0 <= i < c && i < f.normal_indices.len() ==> #[trigger] s2.nmap.contains_key(f.normal_indices[i])
            &&& forall|i: int|
                0 <= i < c && i < f.normal_indices.len() ==> #[trigger] g.normal_indices[i] == s2.nmap[f.normal_indices[i]]
            &&& forall|i: int|
                0 <= i < c && i < f.uv_indices.len() ==> #[trigger] s2.tmap.contains_key(f.uv_indices[i])
            &&& forall|i: int|
                0 <= i < c && i < f.uv_indices.len() ==> #[trigger] g.uv_indices[i] == s2.tmap[f.uv_indices[i]]
            &&& forall|i: int| c <= i < f.normal_indices.len() ==> #[trigger] g.normal_indices[i] == f.normal_indices[i]
            &&& forall|i: int| c <= i < f.uv_indices.len() ==> #[trigger] g.uv_indices[i] == f.uv_indices[i]
        }),
    decreases c,
{
    if c > 0 {
        lemma_part_corners(s, m, f, (c - 1) as nat);
        let (s0, g0) = part_corners(s, m, f, (c - 1) as nat);
        let i = c - 1;
        let kv = f.vertex_indices[i];
        assert(kv < m.vertices.len());
        lemma_slot(s0.vmap, s0.mesh.vertices, m.vertices, kv);
        let s1 = with_vertex(s0, m, kv);
        let g1 = FaceView { vertex_indices: g0.vertex_indices.update(i, s1.vmap[kv]), ..g0 };
        let (s2, g2) = if i < f.normal_indices.len() {
            let kn = f.normal_indices[i];
            let s2 = with_normal(s1, m, kn);
            (s2, FaceView { normal_indices: g1.normal_indices.update(i, s2.nmap[kn]), ..g1 })
        } else {
            (s1, g1)
        };
        if i < f.normal_indices.len() {
            let kn = f.normal_indices[i];
            assert(kn < m.normals.len());
            lemma_slot(s1.nmap, s1.mesh.normals, m.normals, kn);
        }
        let (s3, g3) = part_corners(s, m, f, c);
        if i < f.uv_indices.len() {
            let kt = f.uv_indices[i];
            assert(kt < m.uvs.len());
            lemma_slot(s2.tmap, s2.mesh.uvs, m.uvs, kt);
            assert(s3 == with_uv(s2, m, kt));
        } else {
            assert(s3 == s2);
        }
        assert(s3.vmap == s1.vmap);
        assert(s1.nmap == s0.nmap);
        assert(s3.nmap == s2.nmap);
        assert(s1.tmap == s0.tmap);
        assert(s2.tmap == s0.tmap);
        assert(map_grows(s0.nmap, s2.nmap));
        assert(map_grows(s0.tmap, s3.tmap));
        assert forall|j: int| 0 <= j < c implies part_corners(s, m, f, c).0.vmap.contains_key(f.vertex_indices[j])
            && #[trigger] part_corners(s, m, f, c).1.vertex_indices[j] == part_corners(s, m, f, c).0.vmap[f.vertex_indices[j]] by {
            if j < i {
                assert(g3.vertex_indices[j] == g0.vertex_indices[j]);
                assert(s0.vmap.contains_key(f.vertex_indices[j]));
                assert(s1.vmap.contains_key(f.vertex_indices[j]));
            }
        }
        assert forall|j: int| 0 <= j < c && j < f.normal_indices.len() implies part_corners(s, m, f, c).0.nmap.contains_key(
            f.normal_indices[j],
        ) && #[trigger] part_corners(s, m, f, c).1.normal_indices[j] == part_corners(s, m, f, c).0.nmap[f.normal_indices[j]] by {
            if j < i {
                assert(g3.normal_indices[j] == g0.normal_indices[j]);
                assert(s0.nmap.contains_key(f.normal_indices[j]));
                assert(s2.nmap.contains_key(f.normal_indices[j]));
            }
        }
        assert forall|j: int| 0 <= j < c && j < f.uv_indices.len() implies part_corners(s, m, f, c).0.tmap.contains_key(
            f.uv_indices[j],
        ) && #[trigger] part_corners(s, m, f, c).1.uv_indices[j] == part_corners(s, m, f, c).0.tmap[f.uv_indices[j]] by {
            if j < i {
                assert(g3.uv_indices[j] == g0.uv_indices[j]);
                assert(s0.tmap.contains_key(f.uv_indices[j]));
                assert(s3.tmap.contains_key(f.uv_indices[j]));
            }
        }
        assert forall|k: u32| s.vmap.contains_key(k) implies #[trigger] s3.vmap.contains_key(k) && s3.vmap[k] == s.vmap[k] by {
            assert(s0.vmap.contains_key(k));
            assert(s1.vmap.contains_key(k));
        }
        assert forall|k: u32| s.nmap.contains_key(k) implies #[trigger] s3.nmap.contains_key(k) && s3.nmap[k] == s.nmap[k] by {
            assert(s0.nmap.contains_key(k));
            assert(s2.nmap.contains_key(k));
        }
        assert forall|k: u32| s.tmap.contains_key(k) implies #[trigger] s3.tmap.contains_key(k) && s3.tmap[k] == s.tmap[k] by {
            assert(s0.tmap.contains_key(k));
            assert(s3.tmap.contains_key(k));
        }
        assert forall|j: int| c <= j < f.normal_indices.len() implies #[trigger] g3.normal_indices[j] == f.normal_indices[j] by {
            assert(g3.normal_indices[j] == g0.normal_indices[j]);
        }
        assert forall|j: int| c <= j < f.uv_indices.len() implies #[trigger] g3.uv_indices[j] == f.uv_indices[j] by {
            assert(g3.uv_indices[j] == g0.uv_indices[j]);
        }
    }
}

/// The face of `m` at position `t` of `group`.
pub open spec fn source_face(m: MeshView, group: Seq<int>, t: int) -> FaceView {
    m.faces[group[t]]
}

/// `group` lists faces of `m` whose corners refer to elements of `m`.
pub open spec fn group_fits(m: MeshView, group: Seq<int>) -> bool {
    &&& forall|t: int| 0 <= t < group.len() ==> 0 <= #[trigger] group[t] < m.faces.len()
    &&& forall|t: int| 0 <= t < group.len() ==> corners_valid(#[trigger] source_face(m, group, t), m)
}

/// What taking the first `k` faces of `group` into a part builds: one face
/// per face, each corner pointing at the copy of what it referred to.
proof fn lemma_part_faces(m: MeshView, group: Seq<int>, name: Seq<char>, k: nat)
    requires
        group_fits(m, group),
        k <= group.len(),
    ensures
        ({
            let st = part_faces(m, group, name, k);
            &&& part_state_ok(st, m)
            &&& st.mesh.name == name
            &&& st.mesh.faces.len() == k
            &&& forall|t: int| 0 <= t < k ==> (#[trigger] st.mesh.faces[t]).material_index == source_face(m, group, t).material_index
            &&& forall|t: int| 0 <= t < k ==> (#[trigger] st.mesh.faces[t]).vertex_indices.len() == source_face(m, group, t).vertex_indices.len()
            &&& forall|t: int| 0 <= t < k ==> (#[trigger] st.mesh.faces[t]).normal_indices.len() == source_face(m, group, t).normal_indices.len()
            &&& forall|t: int| 0 <= t < k ==> (#[trigger] st.mesh.faces[t]).uv_indices.len() == source_face(m, group, t).uv_indices.len()
            &&& forall|t: int, i: int|
                0 <= t < k && 0 <= i < source_face(m, group, t).vertex_indices.len()
                    ==> #[trigger] st.vmap.contains_key(source_face(m, group, t).vertex_indices[i])
            &&& forall|t: int, i: int|
                0 <= t < k && 0 <= i < source_face(m, group, t).vertex_indices.len()
                    ==> #[trigger] st.mesh.faces[t].vertex_indices[i] == st.vmap[source_face(m, group, t).vertex_indices[i]]
            &&& forall|t: int, i: int|
                0 <= t < k && 0 <= i < source_face(m, group, t).vertex_indices.len() && i < source_face(m, group, t).normal_indices.len()
                    ==> #[trigger] st.nmap.contains_key(source_face(m, group, t).normal_indices[i])
            &&& forall|t: int, i: int|
                0 <= t < k && 0 <= i < source_face(m, group, t).vertex_indices.len() && i < source_face(m, group, t).normal_indices.len()
                    ==> #[trigger] st.mesh.faces[t].normal_indices[i] == st.nmap[source_face(m, group, t).normal_indices[i]]
            &&& forall|t: int, i: int|
                0 <= t < k && 0 <= i < source_face(m, group, t).vertex_indices.len() && i < source_face(m, group, t).uv_indices.len()
                    ==> #[trigger] st.tmap.contains_key(source_face(m, group, t).uv_indices[i])
            &&& forall|t: int, i: int|
                0 <= t < k && 0 <= i < source_face(m, group, t).vertex_indices.len() && i < source_face(m, group, t).uv_indices.len()
                    ==> #[trigger] st.mesh.faces[t].uv_indices[i] == st.tmap[source_face(m, group, t).uv_indices[i]]
        }),
    decreases k,
{
    if k == 0 {
        let st = part_faces(m, group, name, 0);
        assert(st.vmap.dom() =~= Set::<u32>::empty());
        assert(st.nmap.dom() =~= Set::<u32>::empty());
        assert(st.tmap.dom() =~= Set::<u32>::empty());
    } else {
        lemma_part_faces(m, group, name, (k - 1) as nat);
        let st0 = part_faces(m, group, name, (k - 1) as nat);
        let f = source_face(m, group, k - 1);
        assert(corners_valid(f, m));
        lemma_part_corners(st0, m, f, f.vertex_indices.len());
        let (s2, g) = part_corners(st0, m, f, f.vertex_indices.len());
        let st = part_faces(m, group, name, k);
        assert(st.mesh.faces == s2.mesh.faces.push(g));
        assert(st.vmap == s2.vmap && st.nmap == s2.nmap && st.tmap == s2.tmap);
        assert forall|t: int, i: int|
            0 <= t < k && 0 <= i < source_face(m, group, t).vertex_indices.len() implies st.vmap.contains_key(
                source_face(m, group, t).vertex_indices[i],
            ) && #[trigger] st.mesh.faces[t].vertex_indices[i] == st.vmap[source_face(m, group, t).vertex_indices[i]] by {
            if t < k - 1 {
                assert(st.mesh.faces[t] == st0.mesh.faces[t]);
                assert(st0.mesh.faces[t].vertex_indices[i] == st0.vmap[source_face(m, group, t).vertex_indices[i]]);
                assert(st0.vmap.contains_key(source_face(m, group, t).vertex_indices[i]));
                assert(s2.vmap.contains_key(source_face(m, group, t).vertex_indices[i]));
            } else {
                assert(st.mesh.faces[t] == g);
                assert(s2.vmap.contains_key(f.vertex_indices[i]));
            }
        }
        assert forall|t: int, i: int|
            0 <= t < k && 0 <= i < source_face(m, group, t).vertex_indices.len() && i < source_face(m, group, t).normal_indices.len()
                implies st.nmap.contains_key(source_face(m, group, t).normal_indices[i])
                && #[trigger] st.mesh.faces[t].normal_indices[i] == st.nmap[source_face(m, group, t).normal_indices[i]] by {
            if t < k - 1 {
                assert(st.mesh.faces[t] == st0.mesh.faces[t]);
                assert(st0.mesh.faces[t].normal_indices[i] == st0.nmap[source_face(m, group, t).normal_indices[i]]);
                assert(st0.nmap.contains_key(source_face(m, group, t).normal_indices[i]));
                assert(s2.nmap.contains_key(source_face(m, group, t).normal_indices[i]));
            } else {
                assert(st.mesh.faces[t] == g);
                assert(s2.nmap.contains_key(f.normal_indices[i]));
            }
        }
        assert forall|t: int, i: int|
            0 <= t < k && 0 <= i < source_face(m, group, t).vertex_indices.len() && i < source_face(m, group, t).uv_indices.len()
                implies st.tmap.contains_key(source_face(m, group, t).uv_indices[i])
                && #[trigger] st.mesh.faces[t].uv_indices[i] == st.tmap[source_face(m, group, t).uv_indices[i]] by {
            if t < k - 1 {
                assert(st.mesh.faces[t] == st0.mesh.faces[t]);
                assert(st0.mesh.faces[t].uv_indices[i] == st0.tmap[source_face(m, group, t).uv_indices[i]]);
                assert(st0.tmap.contains_key(source_face(m, group, t).uv_indices[i]));
                assert(s2.tmap.contains_key(source_face(m, group, t).uv_indices[i]));
            } else {
                assert(st.mesh.faces[t] == g);
                assert(s2.tmap.contains_key(f.uv_indices[i]));
            }
        }
        assert forall|t: int| 0 <= t < k implies (#[trigger] st.mesh.faces[t]).material_index == source_face(m, group, t).material_index
            && st.mesh.faces[t].vertex_indices.len() == source_face(m, group, t).vertex_indices.len()
            && st.mesh.faces[t].normal_indices.len() == source_face(m, group, t).normal_indices.len()
            && st.mesh.faces[t].uv_indices.len() == source_face(m, group, t).uv_indices.len() by {
            if t < k - 1 {
                assert(st.mesh.faces[t] == st0.mesh.faces[t]);
            }
        }
    }
}

/// A part keeps what every corner of its faces refers to: corner `i` of
/// face `t` of the part has the vertex (and the normal and UV, for the
/// corners that have one) of corner `i` of the face at position `t` of the
/// group, and each face keeps its material.
pub proof fn law_part_keeps_corners(m: MeshView, group: Seq<int>, name: Seq<char>)
    requires
        group_fits(m, group),
    ensures
        ({
            let p = sub_mesh(m, group, name);
            &&& p.name == name
            &&& p.faces.len() == group.len()
            &&& forall|t: int| 0 <= t < group.len() ==> (#[trigger] p.faces[t]).material_index == source_face(m, group, t).material_index
            &&& forall|t: int| 0 <= t < group.len() ==> (#[trigger] p.faces[t]).vertex_indices.len() == source_face(m, group, t).vertex_indices.len()
            &&& forall|t: int| 0 <= t < group.len() ==> (#[trigger] p.faces[t]).normal_indices.len() == source_face(m, group, t).normal_indices.len()
            &&& forall|t: int| 0 <= t < group.len() ==> (#[trigger] p.faces[t]).uv_indices.len() == source_face(m, group, t).uv_indices.len()
            &&& forall|t: int, i: int|
                0 <= t < group.len() && 0 <= i < source_face(m, group, t).vertex_indices.len() ==> {
                    &&& (#[trigger] p.faces[t].vertex_indices[i]) < p.vertices.len()
                    &&& p.vertices[p.faces[t].vertex_indices[i] as int] == m.vertices[source_face(m, group, t).vertex_indices[i] as int]
                }
            &&& forall|t: int, i: int|
                0 <= t < group.len() && 0 <= i < source_face(m, group, t).vertex_indices.len() && i < source_face(m, group, t).normal_indices.len() ==> {
                    &&& (#[trigger] p.faces[t].normal_indices[i]) < p.normals.len()
                    &&& p.normals[p.faces[t].normal_indices[i] as int] == m.normals[source_face(m, group, t).normal_indices[i] as int]
                }
            &&& forall|t: int, i: int|
                0 <= t < group.len() && 0 <= i < source_face(m, group, t).vertex_indices.len() && i < source_face(m, group, t).uv_indices.len() ==> {
                    &&& (#[trigger] p.faces[t].uv_indices[i]) < p.uvs.len()
                    &&& p.uvs[p.faces[t].uv_indices[i] as int] == m.uvs[source_face(m, group, t).uv_indices[i] as int]
                }
        }),
{
    lemma_part_faces(m, group, name, group.len());
    let st = part_faces(m, group, name, group.len());
    let p = st.mesh;
    assert forall|t: int, i: int|
        0 <= t < group.len() && 0 <= i < source_face(m, group, t).vertex_indices.len() implies {
            &&& (#[trigger] p.faces[t].vertex_indices[i]) < p.vertices.len()
            &&& p.vertices[p.faces[t].vertex_indices[i] as int] == m.vertices[source_face(m, group, t).vertex_indices[i] as int]
        } by {
        assert(p.faces[t].vertex_indices[i] == st.vmap[source_face(m, group, t).vertex_indices[i]]);
        assert(st.vmap.contains_key(source_face(m, group, t).vertex_indices[i]));
    }
    assert forall|t: int, i: int|
        0 <= t < group.len() && 0 <= i < source_face(m, group, t).vertex_indices.len() && i < source_face(m, group, t).normal_indices.len() implies {
            &&& (#[trigger] p.faces[t].normal_indices[i]) < p.normals.len()
            &&& p.normals[p.faces[t].normal_indices[i] as int] == m.normals[source_face(m, group, t).normal_indices[i] as int]
        } by {
        assert(p.faces[t].normal_indices[i] == st.nmap[source_face(m, group, t).normal_indices[i]]);
        assert(st.nmap.contains_key(source_face(m, group, t).normal_indices[i]));
    }
    assert forall|t: int, i: int|
        0 <= t < group.len() && 0 <= i < source_face(m, group, t).vertex_indices.len() && i < source_face(m, group, t).uv_indices.len() implies {
            &&& (#[trigger] p.faces[t].uv_indices[i]) < p.uvs.len()
            &&& p.uvs[p.faces[t].uv_indices[i] as int] == m.uvs[source_face(m, group, t).uv_indices[i] as int]
        } by {
        assert(p.faces[t].uv_indices[i] == st.tmap[source_face(m, group, t).uv_indices[i]]);
        assert(st.tmap.contains_key(source_face(m, group, t).uv_indices[i]));
    }
}

/// Face `f` has no more normal or UV indices than corners.
pub open spec fn indices_within_corners(f: FaceView) -> bool {
    &&& f.normal_indices.len() <= f.vertex_indices.len()
    &&& f.uv_indices.len() <= f.vertex_indices.len()
}

/// A part of a valid mesh is valid, when no face has more normal or UV
/// indices than corners.
pub proof fn law_part_keeps_valid(m: MeshView, group: Seq<int>, name: Seq<char>, n_materials: nat)
    requires
        mesh_valid(m, n_materials),
        forall|t: int| 0 <= t < group.len() ==> 0 <= #[trigger] group[t] < m.faces.len(),
        forall|j: int| 0 <= j < m.faces.len() ==> indices_within_corners(#[trigger] m.faces[j]),
    ensures
        mesh_valid(sub_mesh(m, group, name), n_materials),
{
    assert forall|t: int| 0 <= t < group.len() implies corners_valid(#[trigger] source_face(m, group, t), m) by {
        assert(face_valid(m.faces[group[t]], m, n_materials));
    }
    law_part_keeps_corners(m, group, name);
    let p = sub_mesh(m, group, name);
    assert forall|t: int| 0 <= t < p.faces.len() implies face_valid(#[trigger] p.faces[t], p, n_materials) by {
        let f = source_face(m, group, t);
        assert(face_valid(f, m, n_materials));
        assert(indices_within_corners(m.faces[group[t]]));
        assert forall|i: int| 0 <= i < p.faces[t].vertex_indices.len() implies #[trigger] p.faces[t].vertex_indices[i] < p.vertices.len() by {}
        assert forall|i: int| 0 <= i < p.faces[t].normal_indices.len() implies #[trigger] p.faces[t].normal_indices[i] < p.normals.len() by {
            assert(0 <= i < f.vertex_indices.len() && i < f.normal_indices.len());
        }
        assert forall|i: int| 0 <= i < p.faces[t].uv_indices.len() implies #[trigger] p.faces[t].uv_indices[i] < p.uvs.len() by {
            assert(0 <= i < f.vertex_indices.len() && i < f.uv_indices.len());
        }
    }
}

/// The meshes that replace the first `k` meshes in a split are valid.
proof fn lemma_split_prefix_valid(ms: Seq<MeshView>, parts: Seq<Seq<Seq<int>>>, k: nat, n_materials: nat)
    requires
        k <= ms.len(),
        splits_of(ms, parts),
        forall|j: int| 0 <= j < ms.len() ==> mesh_valid(#[trigger] ms[j], n_materials),
        forall|j: int, q: int|
            0 <= j < ms.len() && 0 <= q < ms[j].faces.len() ==> indices_within_corners(#[trigger] ms[j].faces[q]),
    ensures
        forall|j: int| 0 <= j < split_prefix(ms, parts, k).len() ==> mesh_valid(#[trigger] split_prefix(ms, parts, k)[j], n_materials),
    decreases k,
{
    if k > 0 {
        lemma_split_prefix_valid(ms, parts, (k - 1) as nat, n_materials);
        let before = split_prefix(ms, parts, (k - 1) as nat);
        let m = ms[k - 1];
        let gs = parts[k - 1];
        assert(is_component_split(m, gs));
        let added = mesh_parts(m, gs);
        assert forall|p: int| 0 <= p < added.len() implies mesh_valid(#[trigger] added[p], n_materials) by {
            if gs.len() > 1 {
                assert(added[p] == sub_mesh(m, gs[p], part_name(m.name, p)));
                assert forall|t: int| 0 <= t < gs[p].len() implies 0 <= #[trigger] gs[p][t] < m.faces.len() by {}
                assert forall|j: int| 0 <= j < m.faces.len() implies indices_within_corners(#[trigger] m.faces[j]) by {
                    assert(indices_within_corners(ms[k - 1].faces[j]));
                }
                law_part_keeps_valid(m, gs[p], part_name(m.name, p), n_materials);
            }
        }
        let all = split_prefix(ms, parts, k);
        assert(all == before + added);
        assert forall|j: int| 0 <= j < all.len() implies mesh_valid(#[trigger] all[j], n_materials) by {
            if j < before.len() {
                assert(all[j] == before[j]);
            } else {
                assert(all[j] == added[j - before.len()]);
            }
        }
    }
}

/// Splitting keeps a valid scene valid, when no face has more normal or UV
/// indices than corners.
pub proof fn law_split_keeps_valid(s: SceneView, parts: Seq<Seq<Seq<int>>>)
    requires
        scene_valid(s),
        splits_of(s.meshes, parts),
        forall|j: int, q: int|
            0 <= j < s.meshes.len() && 0 <= q < s.meshes[j].faces.len() ==> indices_within_corners(
                #[trigger] s.meshes[j].faces[q],
            ),
    ensures
        scene_valid(with_meshes(s, split_prefix(s.meshes, parts, s.meshes.len()))),
{
    assert forall|j: int| 0 <= j < s.meshes.len() implies mesh_valid(#[trigger] s.meshes[j], s.materials.len()) by {}
    lemma_split_prefix_valid(s.meshes, parts, s.meshes.len(), s.materials.len());
}

/// The keys kept by a weld are distinct.
proof fn lemma_weld_keys_distinct(ks: Seq<GridKey>, vs: Seq<Vector3>, n: nat)
    requires
        n <= ks.len(),
        n <= vs.len(),
    ensures
        weld_prefix(ks, vs, n).0.no_duplicates(),
    decreases n,
{
    if n > 0 {
        lemma_weld_keys_distinct(ks, vs, (n - 1) as nat);
        let (seen, kept, map) = weld_prefix(ks, vs, (n - 1) as nat);
        lemma_key_position(seen, ks[n - 1]);
        let seen2 = weld_prefix(ks, vs, n).0;
        assert forall|a: int, b: int| 0 <= a < seen2.len() && 0 <= b < seen2.len() && a != b implies seen2[a] != seen2[b] by {
            if a < seen.len() && b < seen.len() {
                assert(seen2[a] == seen[a] && seen2[b] == seen[b]);
            } else if a == seen.len() {
                assert(seen2[b] == seen[b]);
                assert(seen.contains(seen[b]));
            } else {
                assert(seen2[a] == seen[a]);
                assert(seen.contains(seen[a]));
            }
        }
    }
}

/// Welding keeps one vertex per grid key and keeps the key of every corner:
/// corner `i` of face `j` refers to a kept vertex that is a vertex of the
/// same key as the one it referred to; faces keep everything else.
pub proof fn law_weld_keeps_cells(m: MeshView, ks: Seq<GridKey>)
    requires
        weld_fits(m, ks),
    ensures
        ({
            let w = welded(m, ks);
            let kept_keys = weld_prefix(ks, m.vertices, m.vertices.len()).0;
            &&& kept_keys.no_duplicates()
            &&& w.vertices.len() == kept_keys.len()
            &&& forall|p: int| 0 <= p < w.vertices.len() ==> exists|x: int|
                0 <= x < m.vertices.len() && ks[x] == kept_keys[p] && #[trigger] w.vertices[p] == m.vertices[x]
            &&& w.faces.len() == m.faces.len()
            &&& forall|j: int| 0 <= j < m.faces.len() ==> {
                &&& (#[trigger] w.faces[j]).normal_indices == m.faces[j].normal_indices
                &&& w.faces[j].uv_indices == m.faces[j].uv_indices
                &&& w.faces[j].material_index == m.faces[j].material_index
                &&& w.faces[j].vertex_indices.len() == m.faces[j].vertex_indices.len()
            }
            &&& forall|j: int, i: int|
                0 <= j < m.faces.len() && 0 <= i < m.faces[j].vertex_indices.len() ==> {
                    &&& (#[trigger] w.faces[j].vertex_indices[i]) < w.vertices.len()
                    &&& kept_keys[w.faces[j].vertex_indices[i] as int] == ks[m.faces[j].vertex_indices[i] as int]
                }
        }),
{
    let n = m.vertices.len();
    lemma_weld_prefix(ks, m.vertices, n);
    lemma_weld_keys_distinct(ks, m.vertices, n);
    let (seen, kept, map) = weld_prefix(ks, m.vertices, n);
    let w = welded(m, ks);
    assert forall|p: int| 0 <= p < w.vertices.len() implies exists|x: int|
        0 <= x < m.vertices.len() && ks[x] == seen[p] && #[trigger] w.vertices[p] == m.vertices[x] by {
        let x = choose|x: int| 0 <= x < n && #[trigger] seen[p] == ks[x] && kept[p] == m.vertices[x];
    }
    assert forall|j: int, i: int|
        0 <= j < m.faces.len() && 0 <= i < m.faces[j].vertex_indices.len() implies {
            &&& (#[trigger] w.faces[j].vertex_indices[i]) < w.vertices.len()
            &&& seen[w.faces[j].vertex_indices[i] as int] == ks[m.faces[j].vertex_indices[i] as int]
        } by {
        let x = m.faces[j].vertex_indices[i] as int;
        assert(x < n);
        assert(w.faces[j].vertex_indices[i] == map[x]);
    }
}

/// Welding keeps a valid mesh valid.
pub proof fn law_weld_keeps_valid(m: MeshView, ks: Seq<GridKey>, n_materials: nat)
    requires
        weld_fits(m, ks),
        mesh_valid(m, n_materials),
    ensures
        mesh_valid(welded(m, ks), n_materials),
{
    law_weld_keeps_cells(m, ks);
    let w = welded(m, ks);
    assert forall|j: int| 0 <= j < w.faces.len() implies face_valid(#[trigger] w.faces[j], w, n_materials) by {
        assert(face_valid(m.faces[j], m, n_materials));
        assert forall|i: int| 0 <= i < w.faces[j].vertex_indices.len() implies #[trigger] w.faces[j].vertex_indices[i] < w.vertices.len() by {}
    }
}

/// The elements `items` stored with keys `keys` are the elements `origin`
/// of `source`, whose keys they are, one per key.
pub open spec fn keyed_copies<T>(
    items: Seq<T>,
    keys: Seq<GridKey>,
    source: Seq<T>,
    source_keys: Seq<GridKey>,
    origin: Seq<int>,
) -> bool {
    &&& items.len() == keys.len()
    &&& origin.len() == keys.len()
    &&& keys.no_duplicates()
    &&& forall|p: int|
        0 <= p < keys.len() ==> 0 <= #[trigger] origin[p] < source.len() && source_keys[origin[p]] == keys[p]
            && items[p] == source[origin[p]]
}

/// The stored elements after the element `x` of `source` is entered with
/// its key: appended when its key is new.
pub open spec fn entered<T>(items: Seq<T>, keys: Seq<GridKey>, source: Seq<T>, source_keys: Seq<GridKey>, x: int) -> Seq<T> {
    if key_position(keys, source_keys[x]) is Some {
        items
    } else {
        items.push(source[x])
    }
}

/// Entering a key keeps the stored elements keyed copies, keeps the keys
/// already there, and the key's slot holds it.
proof fn lemma_enter_keyed<T>(
    items: Seq<T>,
    keys: Seq<GridKey>,
    source: Seq<T>,
    source_keys: Seq<GridKey>,
    origin: Seq<int>,
    x: int,
) -> (origin2: Seq<int>)
    requires
        keyed_copies(items, keys, source, source_keys, origin),
        0 <= x < source.len(),
        source_keys.len() == source.len(),
    ensures
        keyed_copies(entered(items, keys, source, source_keys, x), with_key(keys, source_keys[x]), source, source_keys, origin2),
        keys.len() <= with_key(keys, source_keys[x]).len() <= keys.len() + 1,
        forall|p: int| 0 <= p < keys.len() ==> #[trigger] with_key(keys, source_keys[x])[p] == keys[p],
        0 <= slot(keys, source_keys[x]) < with_key(keys, source_keys[x]).len(),
        slot(keys, source_keys[x]) <= keys.len(),
        with_key(keys, source_keys[x])[slot(keys, source_keys[x])] == source_keys[x],
{
    let k = source_keys[x];
    lemma_key_position(keys, k);
    if key_position(keys, k) is None {
        let items2 = items.push(source[x]);
        let keys2 = keys.push(k);
        let origin2 = origin.push(x);
        assert forall|a: int, b: int| 0 <= a < keys2.len() && 0 <= b < keys2.len() && a != b implies keys2[a] != keys2[b] by {
            if a == keys.len() {
                assert(keys.contains(keys[b]));
            } else if b == keys.len() {
                assert(keys.contains(keys[a]));
            }
        }
        assert forall|p: int| 0 <= p < keys2.len() implies 0 <= #[trigger] origin2[p] < source.len()
            && source_keys[origin2[p]] == keys2[p] && items2[p] == source[origin2[p]] by {
            if p < keys.len() {
                assert(origin2[p] == origin[p]);
            }
        }
        origin2
    } else {
        origin
    }
}

/// What the first `c` corners of face `f` do to the stored vertices of an
/// optimization: they stay keyed copies, earlier keys stay, and each corner
/// taken refers to the stored vertex with the key of its own.
proof fn lemma_opt_corner_vertices(
    st: OptState,
    m: MeshView,
    vk: Seq<GridKey>,
    nk: Seq<GridKey>,
    tk: Seq<GridKey>,
    f: FaceView,
    c: nat,
    origin: Seq<int>,
) -> (origin2: Seq<int>)
    requires
        keyed_copies(st.mesh.vertices, st.vertex_keys, m.vertices, vk, origin),
        vk.len() == m.vertices.len(),
        nk.len() == m.normals.len(),
        tk.len() == m.uvs.len(),
        corners_valid(f, m),
        c <= f.vertex_indices.len(),
        st.vertex_keys.len() + c <= u32::MAX,
    ensures
        ({
            let (s2, g) = opt_corners(st, m, vk, nk, tk, f, c);
            let cc = c;
            &&& keyed_copies(s2.mesh.vertices, s2.vertex_keys, m.vertices, vk, origin2)
            &&& st.vertex_keys.len() <= s2.vertex_keys.len() <= st.vertex_keys.len() + cc
            &&& forall|p: int| 0 <= p < st.vertex_keys.len() ==> #[trigger] s2.vertex_keys[p] == st.vertex_keys[p]
            &&& g.vertex_indices.len() == cc
            &&& forall|i: int|
                0 <= i < cc ==> #[trigger] g.vertex_indices[i] < s2.vertex_keys.len() && s2.vertex_keys[g.vertex_indices[i] as int] == vk[f.vertex_indices[i] as int]
        }),
    decreases c,
{
    if c == 0 {
        origin
    } else {
        let origin1 = lemma_opt_corner_vertices(st, m, vk, nk, tk, f, (c - 1) as nat, origin);
        let (s1, g1) = opt_corners(st, m, vk, nk, tk, f, (c - 1) as nat);
        let (s2, g) = opt_corners(st, m, vk, nk, tk, f, c);
        let i = c - 1;
        if true {
            let x = f.vertex_indices[i] as int;
            assert(x < m.vertices.len());
            let origin2 = lemma_enter_keyed(s1.mesh.vertices, s1.vertex_keys, m.vertices, vk, origin1, x);
            assert(s2.mesh.vertices == entered(s1.mesh.vertices, s1.vertex_keys, m.vertices, vk, x));
            assert(s2.vertex_keys == with_key(s1.vertex_keys, vk[x]));
            assert(g.vertex_indices == g1.vertex_indices.push(slot(s1.vertex_keys, vk[x]) as u32));
            assert forall|j: int| 0 <= j < c implies #[trigger] g.vertex_indices[j] < s2.vertex_keys.len()
                && s2.vertex_keys[g.vertex_indices[j] as int] == vk[f.vertex_indices[j] as int] by {
                if j < i {
                    assert(g.vertex_indices[j] == g1.vertex_indices[j]);
                    assert(s2.vertex_keys[g1.vertex_indices[j] as int] == s1.vertex_keys[g1.vertex_indices[j] as int]);
                }
            }
            origin2
        } else {
            assert(s2.mesh.vertices == s1.mesh.vertices);
            assert(s2.vertex_keys == s1.vertex_keys);
            assert(g.vertex_indices == g1.vertex_indices);
            origin1
        }
    }
}

/// What the first `c` corners of face `f` do to the stored normals of an
/// optimization: they stay keyed copies, earlier keys stay, and each corner
/// taken refers to the stored normal with the key of its own.
proof fn lemma_opt_corner_normals(
    st: OptState,
    m: MeshView,
    vk: Seq<GridKey>,
    nk: Seq<GridKey>,
    tk: Seq<GridKey>,
    f: FaceView,
    c: nat,
    origin: Seq<int>,
) -> (origin2: Seq<int>)
    requires
        keyed_copies(st.mesh.normals, st.normal_keys, m.normals, nk, origin),
        vk.len() == m.vertices.len(),
        nk.len() == m.normals.len(),
        tk.len() == m.uvs.len(),
        corners_valid(f, m),
        c <= f.vertex_indices.len(),
        st.normal_keys.len() + c <= u32::MAX,
    ensures
        ({
            let (s2, g) = opt_corners(st, m, vk, nk, tk, f, c);
            let cc = min_nat(c, f.normal_indices.len());
            &&& keyed_copies(s2.mesh.normals, s2.normal_keys, m.normals, nk, origin2)
            &&& st.normal_keys.len() <= s2.normal_keys.len() <= st.normal_keys.len() + cc
            &&& forall|p: int| 0 <= p < st.normal_keys.len() ==> #[trigger] s2.normal_keys[p] == st.normal_keys[p]
            &&& g.normal_indices.len() == cc
            &&& forall|i: int|
                0 <= i < cc ==> #[trigger] g.normal_indices[i] < s2.normal_keys.len() && s2.normal_keys[g.normal_indices[i] as int] == nk[f.normal_indices[i] as int]
        }),
    decreases c,
{
    if c == 0 {
        origin
    } else {
        let origin1 = lemma_opt_corner_normals(st, m, vk, nk, tk, f, (c - 1) as nat, origin);
        let (s1, g1) = opt_corners(st, m, vk, nk, tk, f, (c - 1) as nat);
        let (s2, g) = opt_corners(st, m, vk, nk, tk, f, c);
        let i = c - 1;
        if i < f.normal_indices.len() {
            let x = f.normal_indices[i] as int;
            assert(x < m.normals.len());
            let origin2 = lemma_enter_keyed(s1.mesh.normals, s1.normal_keys, m.normals, nk, origin1, x);
            assert(s2.mesh.normals == entered(s1.mesh.normals, s1.normal_keys, m.normals, nk, x));
            assert(s2.normal_keys == with_key(s1.normal_keys, nk[x]));
            assert(g.normal_indices == g1.normal_indices.push(slot(s1.normal_keys, nk[x]) as u32));
            assert forall|j: int| 0 <= j < min_nat(c, f.normal_indices.len()) implies #[trigger] g.normal_indices[j] < s2.normal_keys.len()
                && s2.normal_keys[g.normal_indices[j] as int] == nk[f.normal_indices[j] as int] by {
                if j < i {
                    assert(g.normal_indices[j] == g1.normal_indices[j]);
                    assert(s2.normal_keys[g1.normal_indices[j] as int] == s1.normal_keys[g1.normal_indices[j] as int]);
                }
            }
            origin2
        } else {
            assert(s2.mesh.normals == s1.mesh.normals);
            assert(s2.normal_keys == s1.normal_keys);
            assert(g.normal_indices == g1.normal_indices);
            origin1
        }
    }
}

/// What the first `c` corners of face `f` do to the stored UVs of an
/// optimization: they stay keyed copies, earlier keys stay, and each corner
/// taken refers to the stored UV with the key of its own.
proof fn lemma_opt_corner_uvs(
    st: OptState,
    m: MeshView,
    vk: Seq<GridKey>,
    nk: Seq<GridKey>,
    tk: Seq<GridKey>,
    f: FaceView,
    c: nat,
    origin: Seq<int>,
) -> (origin2: Seq<int>)
    requires
        keyed_copies(st.mesh.uvs, st.uv_keys, m.uvs, tk, origin),
        vk.len() == m.vertices.len(),
        nk.len() == m.normals.len(),
        tk.len() == m.uvs.len(),
        corners_valid(f, m),
        c <= f.vertex_indices.len(),
        st.uv_keys.len() + c <= u32::MAX,
    ensures
        ({
            let (s2, g) = opt_corners(st, m, vk, nk, tk, f, c);
            let cc = min_nat(c, f.uv_indices.len());
            &&& keyed_copies(s2.mesh.uvs, s2.uv_keys, m.uvs, tk, origin2)
            &&& st.uv_keys.len() <= s2.uv_keys.len() <= st.uv_keys.len() + cc
            &&& forall|p: int| 0 <= p < st.uv_keys.len() ==> #[trigger] s2.uv_keys[p] == st.uv_keys[p]
            &&& g.uv_indices.len() == cc
            &&& forall|i: int|
                0 <= i < cc ==> #[trigger] g.uv_indices[i] < s2.uv_keys.len() && s2.uv_keys[g.uv_indices[i] as int] == tk[f.uv_indices[i] as int]
        }),
    decreases c,
{
    if c == 0 {
        origin
    } else {
        let origin1 = lemma_opt_corner_uvs(st, m, vk, nk, tk, f, (c - 1) as nat, origin);
        let (s1, g1) = opt_corners(st, m, vk, nk, tk, f, (c - 1) as nat);
        let (s2, g) = opt_corners(st, m, vk, nk, tk, f, c);
        let i = c - 1;
        if i < f.uv_indices.len() {
            let x = f.uv_indices[i] as int;
            assert(x < m.uvs.len());
            let origin2 = lemma_enter_keyed(s1.mesh.uvs, s1.uv_keys, m.uvs, tk, origin1, x);
            assert(s2.mesh.uvs == entered(s1.mesh.uvs, s1.uv_keys, m.uvs, tk, x));
            assert(s2.uv_keys == with_key(s1.uv_keys, tk[x]));
            assert(g.uv_indices == g1.uv_indices.push(slot(s1.uv_keys, tk[x]) as u32));
            assert forall|j: int| 0 <= j < min_nat(c, f.uv_indices.len()) implies #[trigger] g.uv_indices[j] < s2.uv_keys.len()
                && s2.uv_keys[g.uv_indices[j] as int] == tk[f.uv_indices[j] as int] by {
                if j < i {
                    assert(g.uv_indices[j] == g1.uv_indices[j]);
                    assert(s2.uv_keys[g1.uv_indices[j] as int] == s1.uv_keys[g1.uv_indices[j] as int]);
                }
            }
            origin2
        } else {
            assert(s2.mesh.uvs == s1.mesh.uvs);
            assert(s2.uv_keys == s1.uv_keys);
            assert(g.uv_indices == g1.uv_indices);
            origin1
        }
    }
}

/// Corners leave the faces, the name and the material alone.
proof fn lemma_opt_corner_frame(
    st: OptState,
    m: MeshView,
    vk: Seq<GridKey>,
    nk: Seq<GridKey>,
    tk: Seq<GridKey>,
    f: FaceView,
    c: nat,
)
    ensures
        opt_corners(st, m, vk, nk, tk, f, c).0.mesh.faces == st.mesh.faces,
        opt_corners(st, m, vk, nk, tk, f, c).0.mesh.name == st.mesh.name,
        opt_corners(st, m, vk, nk, tk, f, c).1.material_index == f.material_index,
    decreases c,
{
    if c > 0 {
        lemma_opt_corner_frame(st, m, vk, nk, tk, f, (c - 1) as nat);
    }
}

/// What optimizing the first `k` faces builds: one face per face, whose
/// corners refer to stored elements with the keys of the elements they
/// referred to.
proof fn lemma_opt_faces(m: MeshView, vk: Seq<GridKey>, nk: Seq<GridKey>, tk: Seq<GridKey>, k: nat) -> (origins: (
    Seq<int>,
    Seq<int>,
    Seq<int>,
))
    requires
        optimize_fits(m, vk, nk, tk),
        k <= m.faces.len(),
    ensures
        ({
            let st = opt_faces(m, vk, nk, tk, k);
            &&& keyed_copies(st.mesh.vertices, st.vertex_keys, m.vertices, vk, origins.0)
            &&& keyed_copies(st.mesh.normals, st.normal_keys, m.normals, nk, origins.1)
            &&& keyed_copies(st.mesh.uvs, st.uv_keys, m.uvs, tk, origins.2)
            &&& st.vertex_keys.len() <= corner_total(m.faces.take(k as int))
            &&& st.normal_keys.len() <= corner_total(m.faces.take(k as int))
            &&& st.uv_keys.len() <= corner_total(m.faces.take(k as int))
            &&& st.mesh.name == m.name
            &&& st.mesh.faces.len() == k
            &&& forall|t: int| 0 <= t < k ==> (#[trigger] st.mesh.faces[t]).material_index == m.faces[t].material_index
            &&& forall|t: int| 0 <= t < k ==> (#[trigger] st.mesh.faces[t]).vertex_indices.len() == m.faces[t].vertex_indices.len()
            &&& forall|t: int|
                0 <= t < k ==> (#[trigger] st.mesh.faces[t]).normal_indices.len() == min_nat(
                    m.faces[t].vertex_indices.len(),
                    m.faces[t].normal_indices.len(),
                )
            &&& forall|t: int|
                0 <= t < k ==> (#[trigger] st.mesh.faces[t]).uv_indices.len() == min_nat(
                    m.faces[t].vertex_indices.len(),
                    m.faces[t].uv_indices.len(),
                )
            &&& forall|t: int, i: int|
                0 <= t < k && 0 <= i < st.mesh.faces[t].vertex_indices.len() ==> (#[trigger] st.mesh.faces[t].vertex_indices[i])
                    < st.vertex_keys.len() && st.vertex_keys[st.mesh.faces[t].vertex_indices[i] as int]
                    == vk[m.faces[t].vertex_indices[i] as int]
            &&& forall|t: int, i: int|
                0 <= t < k && 0 <= i < st.mesh.faces[t].normal_indices.len() ==> (#[trigger] st.mesh.faces[t].normal_indices[i])
                    < st.normal_keys.len() && st.normal_keys[st.mesh.faces[t].normal_indices[i] as int]
                    == nk[m.faces[t].normal_indices[i] as int]
            &&& forall|t: int, i: int|
                0 <= t < k && 0 <= i < st.mesh.faces[t].uv_indices.len() ==> (#[trigger] st.mesh.faces[t].uv_indices[i])
                    < st.uv_keys.len() && st.uv_keys[st.mesh.faces[t].uv_indices[i] as int]
                    == tk[m.faces[t].uv_indices[i] as int]
        }),
    decreases k,
{
    if k == 0 {
        let st = opt_faces(m, vk, nk, tk, 0);
        assert(st.vertex_keys.no_duplicates());
        (Seq::empty(), Seq::empty(), Seq::empty())
    } else {
        let (ov, on, ot) = lemma_opt_faces(m, vk, nk, tk, (k - 1) as nat);
        let st0 = opt_faces(m, vk, nk, tk, (k - 1) as nat);
        let f = m.faces[k - 1];
        assert(corners_valid(f, m));
        lemma_corner_total_prefix(m.faces, k as int);
        assert(m.faces.take(k as int).drop_last() =~= m.faces.take(k - 1));
        let nc = f.vertex_indices.len();
        let ov2 = lemma_opt_corner_vertices(st0, m, vk, nk, tk, f, nc, ov);
        let on2 = lemma_opt_corner_normals(st0, m, vk, nk, tk, f, nc, on);
        let ot2 = lemma_opt_corner_uvs(st0, m, vk, nk, tk, f, nc, ot);
        lemma_opt_corner_frame(st0, m, vk, nk, tk, f, nc);
        let (s2, g) = opt_corners(st0, m, vk, nk, tk, f, nc);
        let st = opt_faces(m, vk, nk, tk, k);
        assert(st.mesh.faces == s2.mesh.faces.push(g));
        assert forall|t: int, i: int|
            0 <= t < k && 0 <= i < st.mesh.faces[t].vertex_indices.len() implies (#[trigger] st.mesh.faces[t].vertex_indices[i])
                < st.vertex_keys.len() && st.vertex_keys[st.mesh.faces[t].vertex_indices[i] as int]
                == vk[m.faces[t].vertex_indices[i] as int] by {
            if t < k - 1 {
                assert(st.mesh.faces[t] == st0.mesh.faces[t]);
                assert(st0.mesh.faces[t].vertex_indices[i] < st0.vertex_keys.len());
            } else {
                assert(st.mesh.faces[t] == g);
            }
        }
        assert forall|t: int, i: int|
            0 <= t < k && 0 <= i < st.mesh.faces[t].normal_indices.len() implies (#[trigger] st.mesh.faces[t].normal_indices[i])
                < st.normal_keys.len() && st.normal_keys[st.mesh.faces[t].normal_indices[i] as int]
                == nk[m.faces[t].normal_indices[i] as int] by {
            if t < k - 1 {
                assert(st.mesh.faces[t] == st0.mesh.faces[t]);
                assert(st0.mesh.faces[t].normal_indices[i] < st0.normal_keys.len());
            } else {
                assert(st.mesh.faces[t] == g);
            }
        }
        assert forall|t: int, i: int|
            0 <= t < k && 0 <= i < st.mesh.faces[t].uv_indices.len() implies (#[trigger] st.mesh.faces[t].uv_indices[i])
                < st.uv_keys.len() && st.uv_keys[st.mesh.faces[t].uv_indices[i] as int]
                == tk[m.faces[t].uv_indices[i] as int] by {
            if t < k - 1 {
                assert(st.mesh.faces[t] == st0.mesh.faces[t]);
                assert(st0.mesh.faces[t].uv_indices[i] < st0.uv_keys.len());
            } else {
                assert(st.mesh.faces[t] == g);
            }
        }
        assert forall|t: int| 0 <= t < k implies (#[trigger] st.mesh.faces[t]).material_index == m.faces[t].material_index
            && st.mesh.faces[t].vertex_indices.len() == m.faces[t].vertex_indices.len()
            && st.mesh.faces[t].normal_indices.len() == min_nat(m.faces[t].vertex_indices.len(), m.faces[t].normal_indices.len())
            && st.mesh.faces[t].uv_indices.len() == min_nat(m.faces[t].vertex_indices.len(), m.faces[t].uv_indices.len()) by {
            if t < k - 1 {
                assert(st.mesh.faces[t] == st0.mesh.faces[t]);
            }
        }
        (ov2, on2, ot2)
    }
}

/// Optimizing keeps one element per key and keeps the key of every corner:
/// corner `i` of face `j` refers to a stored vertex (normal, UV) under the
/// key of the element it referred to, and each stored element is the element
/// of the mesh that the returned origins name, stored under that element's
/// key.
pub proof fn law_optimize_keeps_cells(m: MeshView, vk: Seq<GridKey>, nk: Seq<GridKey>, tk: Seq<GridKey>) -> (origins: (
    Seq<int>,
    Seq<int>,
    Seq<int>,
))
    requires
        optimize_fits(m, vk, nk, tk),
    ensures
        ({
            let st = opt_faces(m, vk, nk, tk, m.faces.len());
            let o = optimized(m, vk, nk, tk);
            &&& keyed_copies(o.vertices, st.vertex_keys, m.vertices, vk, origins.0)
            &&& keyed_copies(o.normals, st.normal_keys, m.normals, nk, origins.1)
            &&& keyed_copies(o.uvs, st.uv_keys, m.uvs, tk, origins.2)
            &&& o.faces.len() == m.faces.len()
            &&& forall|j: int| 0 <= j < m.faces.len() ==> (#[trigger] o.faces[j]).material_index == m.faces[j].material_index
            &&& forall|j: int, i: int|
                0 <= j < m.faces.len() && 0 <= i < o.faces[j].vertex_indices.len() ==> (#[trigger] o.faces[j].vertex_indices[i])
                    < o.vertices.len() && st.vertex_keys[o.faces[j].vertex_indices[i] as int]
                    == vk[m.faces[j].vertex_indices[i] as int]
            &&& forall|j: int, i: int|
                0 <= j < m.faces.len() && 0 <= i < o.faces[j].normal_indices.len() ==> (#[trigger] o.faces[j].normal_indices[i])
                    < o.normals.len() && st.normal_keys[o.faces[j].normal_indices[i] as int]
                    == nk[m.faces[j].normal_indices[i] as int]
            &&& forall|j: int, i: int|
                0 <= j < m.faces.len() && 0 <= i < o.faces[j].uv_indices.len() ==> (#[trigger] o.faces[j].uv_indices[i])
                    < o.uvs.len() && st.uv_keys[o.faces[j].uv_indices[i] as int]
                    == tk[m.faces[j].uv_indices[i] as int]
        }),
{
    lemma_opt_faces(m, vk, nk, tk, m.faces.len())
}

/// Optimizing keeps a valid mesh valid.
pub proof fn law_optimize_keeps_valid(m: MeshView, vk: Seq<GridKey>, nk: Seq<GridKey>, tk: Seq<GridKey>, n_materials: nat)
    requires
        optimize_fits(m, vk, nk, tk),
        mesh_valid(m, n_materials),
    ensures
        mesh_valid(optimized(m, vk, nk, tk), n_materials),
{
    law_optimize_keeps_cells(m, vk, nk, tk);
    let o = optimized(m, vk, nk, tk);
    assert forall|j: int| 0 <= j < o.faces.len() implies face_valid(#[trigger] o.faces[j], o, n_materials) by {
        assert(face_valid(m.faces[j], m, n_materials));
        assert forall|i: int| 0 <= i < o.faces[j].vertex_indices.len() implies #[trigger] o.faces[j].vertex_indices[i] < o.vertices.len() by {}
        assert forall|i: int| 0 <= i < o.faces[j].normal_indices.len() implies #[trigger] o.faces[j].normal_indices[i] < o.normals.len() by {}
        assert forall|i: int| 0 <= i < o.faces[j].uv_indices.len() implies #[trigger] o.faces[j].uv_indices[i] < o.uvs.len() by {}
    }
}

/// Face `f` refers to one of `n` materials, if to any, and has at most three
/// corners when triangulation is on.
pub open spec fn parsed_face_ok(f: FaceView, n: nat, triangulate: bool) -> bool {
    &&& triangulate ==> f.vertex_indices.len() <= 3
    &&& f.material_index matches Some(x) ==> x < n
}

/// Every face of the meshes `ms` is a parsed face.
pub open spec fn parsed_meshes_ok(ms: Seq<MeshView>, n: nat, triangulate: bool) -> bool {
    forall|k: int, j: int|
        0 <= k < ms.len() && 0 <= j < ms[k].faces.len() ==> parsed_face_ok(#[trigger] ms[k].faces[j], n, triangulate)
}

/// A parse state whose faces, current mesh and current material all refer
/// to existing materials (and have at most three corners when triangulating).
pub open spec fn parse_state_ok(st: ObjState, triangulate: bool) -> bool {
    let n = st.scene.materials.len();
    &&& parsed_meshes_ok(st.scene.meshes, n, triangulate)
    &&& st.current matches Some(m) ==> forall|j: int| 0 <= j < m.faces.len() ==> parsed_face_ok(#[trigger] m.faces[j], n, triangulate)
    &&& st.material matches Some(x) ==> x < n
}

/// A material found by name is one of the materials.
proof fn lemma_material_position(ms: Seq<MaterialView>, name: Seq<char>)
    ensures
        material_position(ms, name) matches Some(i) ==> 0 <= i < ms.len(),
    decreases ms.len(),
{
    if ms.len() > 0 {
        lemma_material_position(ms.drop_last(), name);
    }
}

/// One line keeps a parse state sound.
proof fn lemma_parse_step_ok(st: ObjState, words: Seq<Seq<char>>, values: Seq<Option<u32>>, base: int, triangulate: bool)
    requires
        parse_state_ok(st, triangulate),
    ensures
        parse_step(st, words, values, base, triangulate) matches Ok(st2) ==> parse_state_ok(st2, triangulate),
{
    let n = st.scene.materials.len();
    if words.len() > 0 {
        match keyword_of(words[0]) {
            Keyword::Object => {
                if let Some(m) = st.current {
                    let ms2 = st.scene.meshes.push(m);
                    assert forall|k: int, j: int| 0 <= k < ms2.len() && 0 <= j < ms2[k].faces.len() implies parsed_face_ok(
                        #[trigger] ms2[k].faces[j],
                        n,
                        triangulate,
                    ) by {
                        if k < st.scene.meshes.len() {
                            assert(ms2[k] == st.scene.meshes[k]);
                        }
                    }
                }
            },
            Keyword::Face => {
                if let Some(m) = st.current {
                    if let Some(f) = face_of(words.drop_first(), st.material) {
                        assert(f.material_index == st.material);
                        let m2 = mesh_add_face(m, f, triangulate);
                        assert forall|j: int| 0 <= j < m2.faces.len() implies parsed_face_ok(#[trigger] m2.faces[j], n, triangulate) by {
                            if j < m.faces.len() {
                                assert(m2.faces[j] == m.faces[j]);
                            } else if triangulate && f.vertex_indices.len() > 3 {
                                assert(m2.faces[j] == triangulation(f)[j - m.faces.len()]);
                                assert(m2.faces[j] == fan_triangle(f, j - m.faces.len() + 1));
                            } else {
                                assert(m2.faces[j] == f);
                            }
                        }
                    }
                }
            },
            Keyword::Mtllib => {
                if words.len() >= 2 {
                    let st2 = parse_step(st, words, values, base, triangulate)->Ok_0;
                    assert forall|k: int, j: int|
                        0 <= k < st2.scene.meshes.len() && 0 <= j < st2.scene.meshes[k].faces.len() implies parsed_face_ok(
                        #[trigger] st2.scene.meshes[k].faces[j],
                        st2.scene.materials.len(),
                        triangulate,
                    ) by {
                        assert(parsed_face_ok(st.scene.meshes[k].faces[j], n, triangulate));
                    }
                    if let Some(m) = st.current {
                        assert forall|j: int| 0 <= j < m.faces.len() implies parsed_face_ok(
                            #[trigger] m.faces[j],
                            st2.scene.materials.len(),
                            triangulate,
                        ) by {
                            assert(parsed_face_ok(m.faces[j], n, triangulate));
                        }
                    }
                }
            },
            Keyword::Usemtl => {
                if words.len() >= 2 {
                    lemma_material_position(st.scene.materials, words[1]);
                }
            },
            _ => {},
        }
    }
}

/// A sound parse state stays sound through any lines.
proof fn lemma_parse_lines_ok(st0: ObjState, lines: Seq<Seq<Seq<char>>>, values: Seq<Option<u32>>, triangulate: bool)
    requires
        parse_state_ok(st0, triangulate),
    ensures
        parse_lines(st0, lines, values, triangulate) matches Ok(st) ==> parse_state_ok(st, triangulate),
    decreases lines.len(),
{
    if lines.len() > 0 {
        lemma_parse_lines_ok(st0, lines.drop_last(), values, triangulate);
        if let Ok(st) = parse_lines(st0, lines.drop_last(), values, triangulate) {
            lemma_parse_step_ok(st, lines.last(), values, text_fields(lines.drop_last()).len() as int, triangulate);
        }
    }
}

/// Every face that a parse produces refers to a material of the scene, if to
/// any; with triangulation on, every face has at most three corners. (Faces
/// of the starting scene are taken to do the same.)
pub proof fn law_parse_faces_ok(scene0: SceneView, content: Seq<char>, values: Seq<Option<u32>>, triangulate: bool)
    requires
        parsed_meshes_ok(scene0.meshes, scene0.materials.len(), triangulate),
    ensures
        parse_obj(scene0, content, values, triangulate) matches Ok(s) ==> parsed_meshes_ok(s.meshes, s.materials.len(), triangulate),
{
    let st0 = ObjState { scene: scene0, current: None, material: None };
    lemma_parse_lines_ok(st0, text_lines(content), values, triangulate);
    if let Ok(st) = parse_lines(st0, text_lines(content), values, triangulate) {
        if let Some(m) = st.current {
            let ms2 = st.scene.meshes.push(m);
            assert forall|k: int, j: int| 0 <= k < ms2.len() && 0 <= j < ms2[k].faces.len() implies parsed_face_ok(
                #[trigger] ms2[k].faces[j],
                st.scene.materials.len(),
                triangulate,
            ) by {
                if k < st.scene.meshes.len() {
                    assert(ms2[k] == st.scene.meshes[k]);
                }
            }
        }
    }
}

/// Giving a valid mesh one normal per vertex, each corner using its
/// vertex's normal, keeps it valid.
pub proof fn law_vertex_normals_keep_valid(m: MeshView, ns: Seq<Vector3>, n_materials: nat)
    requires
        mesh_valid(m, n_materials),
        ns.len() == m.vertices.len(),
    ensures
        mesh_valid(with_vertex_normals(m, ns), n_materials),
{
    let r = with_vertex_normals(m, ns);
    assert forall|j: int| 0 <= j < r.faces.len() implies face_valid(#[trigger] r.faces[j], r, n_materials) by {
        assert(face_valid(m.faces[j], m, n_materials));
        assert forall|i: int| 0 <= i < r.faces[j].normal_indices.len() implies #[trigger] r.faces[j].normal_indices[i] < r.normals.len() by {
            assert(r.faces[j].normal_indices[i] == m.faces[j].vertex_indices[i]);
        }
    }
}

/// With a normal index at every corner position, pointing the corners of
/// one vertex at a normal replaces exactly their indices.
proof fn lemma_corner_normals(ns: Seq<u32>, vs: Seq<u32>, v: u32, idx: u32, c: nat)
    requires
        c <= vs.len(),
        vs.len() <= ns.len(),
    ensures
        corner_normals(ns, vs, v, idx, c).len() == ns.len(),
        forall|i: int|
            0 <= i < ns.len() ==> #[trigger] corner_normals(ns, vs, v, idx, c)[i] == if i < c && vs[i] == v {
                idx
            } else {
                ns[i]
            },
    decreases c,
{
    if c > 0 {
        lemma_corner_normals(ns, vs, v, idx, (c - 1) as nat);
    }
}

/// Every face of `m` has a normal index at each corner and refers to
/// vertices of `m`.
pub open spec fn normals_per_corner(m: MeshView) -> bool {
    forall|j: int|
        0 <= j < m.faces.len() ==> {
            &&& (#[trigger] m.faces[j]).normal_indices.len() == m.faces[j].vertex_indices.len()
            &&& forall|i: int| 0 <= i < m.faces[j].vertex_indices.len() ==> #[trigger] m.faces[j].vertex_indices[i] < m.vertices.len()
        }
}

/// What handling the first `n` vertices does: the kept normals are keyed
/// copies, and the corners of the handled vertices point at the normal kept
/// for their vertex's key; other indices are unchanged.
proof fn lemma_smooth_prefix(m: MeshView, normals: Seq<Vector3>, ks: Seq<GridKey>, n: nat) -> (origin: Seq<int>)
    requires
        smooth_fits(m, normals, ks),
        normals_per_corner(m),
        n <= m.vertices.len(),
    ensures
        ({
            let (seen, kept, faces) = smooth_prefix(m, normals, ks, n);
            &&& keyed_copies(kept, seen, normals, ks, origin)
            &&& seen.len() <= n
            &&& faces.len() == m.faces.len()
            &&& forall|j: int|
                0 <= j < faces.len() ==> {
                    &&& (#[trigger] faces[j]).vertex_indices == m.faces[j].vertex_indices
                    &&& faces[j].uv_indices == m.faces[j].uv_indices
                    &&& faces[j].material_index == m.faces[j].material_index
                    &&& faces[j].normal_indices.len() == m.faces[j].normal_indices.len()
                }
            &&& forall|j: int, i: int|
                0 <= j < faces.len() && 0 <= i < m.faces[j].vertex_indices.len() ==> if m.faces[j].vertex_indices[i] < n {
                    &&& (#[trigger] faces[j].normal_indices[i]) < seen.len()
                    &&& seen[faces[j].normal_indices[i] as int] == ks[m.faces[j].vertex_indices[i] as int]
                } else {
                    faces[j].normal_indices[i] == m.faces[j].normal_indices[i]
                }
        }),
    decreases n,
{
    if n == 0 {
        let (seen, kept, faces) = smooth_prefix(m, normals, ks, 0);
        assert(seen.no_duplicates());
        Seq::empty()
    } else {
        let origin0 = lemma_smooth_prefix(m, normals, ks, (n - 1) as nat);
        let (seen, kept, faces) = smooth_prefix(m, normals, ks, (n - 1) as nat);
        let v = n - 1;
        lemma_key_position(seen, ks[v]);
        let origin1 = lemma_enter_keyed(kept, seen, normals, ks, origin0, v);
        let idx: u32 = match key_position(seen, ks[v]) {
            Some(p) => p as u32,
            None => seen.len() as u32,
        };
        let (seen2, kept2, faces2) = smooth_prefix(m, normals, ks, n);
        assert(seen2 == with_key(seen, ks[v]));
        assert(kept2 == entered(kept, seen, normals, ks, v));
        assert(idx == slot(seen, ks[v]));
        assert(faces2 == faces.map_values(|f: FaceView| face_with_vertex_normal(f, v as u32, idx)));
        assert forall|j: int| 0 <= j < faces2.len() implies {
            &&& (#[trigger] faces2[j]).vertex_indices == m.faces[j].vertex_indices
            &&& faces2[j].uv_indices == m.faces[j].uv_indices
            &&& faces2[j].material_index == m.faces[j].material_index
            &&& faces2[j].normal_indices.len() == m.faces[j].normal_indices.len()
        } by {
            let f = faces[j];
            assert(normals_per_corner(m) ==> m.faces[j].normal_indices.len() == m.faces[j].vertex_indices.len());
            lemma_corner_normals(f.normal_indices, f.vertex_indices, v as u32, idx, f.vertex_indices.len());
        }
        assert forall|j: int, i: int|
            0 <= j < faces2.len() && 0 <= i < m.faces[j].vertex_indices.len() implies if m.faces[j].vertex_indices[i] < n {
                &&& (#[trigger] faces2[j].normal_indices[i]) < seen2.len()
                &&& seen2[faces2[j].normal_indices[i] as int] == ks[m.faces[j].vertex_indices[i] as int]
            } else {
                faces2[j].normal_indices[i] == m.faces[j].normal_indices[i]
            } by {
            let f = faces[j];
            assert(m.faces[j].normal_indices.len() == m.faces[j].vertex_indices.len());
            lemma_corner_normals(f.normal_indices, f.vertex_indices, v as u32, idx, f.vertex_indices.len());
            assert(faces2[j] == face_with_vertex_normal(f, v as u32, idx));
            let x = m.faces[j].vertex_indices[i];
            assert(x < m.vertices.len());
            if x == v {
                assert(f.vertex_indices[i] == v as u32);
            } else {
                assert(f.vertex_indices[i] != v as u32);
                assert(faces2[j].normal_indices[i] == f.normal_indices[i]);
                if x < n {
                    assert(seen2[f.normal_indices[i] as int] == seen[f.normal_indices[i] as int]);
                }
            }
        }
        origin1
    }
}

/// With one normal index per corner, smoothing points every corner at the
/// stored normal kept for the grid key of its vertex; the stored normals are
/// given normals (those the returned origins name), one per key; vertex
/// indices, UVs and materials stay.
pub proof fn law_smooth_keeps_corners(m: MeshView, normals: Seq<Vector3>, ks: Seq<GridKey>) -> (origin: Seq<int>)
    requires
        smooth_fits(m, normals, ks),
        normals_per_corner(m),
    ensures
        ({
            let seen = smooth_prefix(m, normals, ks, m.vertices.len()).0;
            let r = smoothed(m, normals, ks);
            &&& keyed_copies(r.normals, seen, normals, ks, origin)
            &&& r.vertices == m.vertices
            &&& r.faces.len() == m.faces.len()
            &&& forall|j: int|
                0 <= j < m.faces.len() ==> {
                    &&& (#[trigger] r.faces[j]).vertex_indices == m.faces[j].vertex_indices
                    &&& r.faces[j].uv_indices == m.faces[j].uv_indices
                    &&& r.faces[j].material_index == m.faces[j].material_index
                    &&& r.faces[j].normal_indices.len() == m.faces[j].normal_indices.len()
                }
            &&& forall|j: int, i: int|
                0 <= j < m.faces.len() && 0 <= i < m.faces[j].vertex_indices.len() ==> {
                    &&& (#[trigger] r.faces[j].normal_indices[i]) < r.normals.len()
                    &&& seen[r.faces[j].normal_indices[i] as int] == ks[m.faces[j].vertex_indices[i] as int]
                }
        }),
{
    let origin = lemma_smooth_prefix(m, normals, ks, m.vertices.len());
    let (seen, kept, faces) = smooth_prefix(m, normals, ks, m.vertices.len());
    let r = smoothed(m, normals, ks);
    assert(r.faces == faces && r.normals == kept);
    assert forall|j: int, i: int|
        0 <= j < m.faces.len() && 0 <= i < m.faces[j].vertex_indices.len() implies {
            &&& (#[trigger] r.faces[j].normal_indices[i]) < r.normals.len()
            &&& seen[r.faces[j].normal_indices[i] as int] == ks[m.faces[j].vertex_indices[i] as int]
        } by {
        assert(m.faces[j].vertex_indices[i] < m.vertices.len());
    }
    origin
}

/// With one normal index per corner, smoothing keeps a valid mesh valid.
pub proof fn law_smooth_keeps_valid(m: MeshView, normals: Seq<Vector3>, ks: Seq<GridKey>, n_materials: nat)
    requires
        smooth_fits(m, normals, ks),
        normals_per_corner(m),
        mesh_valid(m, n_materials),
    ensures
        mesh_valid(smoothed(m, normals, ks), n_materials),
{
    law_smooth_keeps_corners(m, normals, ks);
    let r = smoothed(m, normals, ks);
    assert forall|j: int| 0 <= j < r.faces.len() implies face_valid(#[trigger] r.faces[j], r, n_materials) by {
        assert(face_valid(m.faces[j], m, n_materials));
        assert(m.faces[j].normal_indices.len() == m.faces[j].vertex_indices.len());
        assert forall|i: int| 0 <= i < r.faces[j].normal_indices.len() implies #[trigger] r.faces[j].normal_indices[i] < r.normals.len() by {
            assert(r.faces[j].normal_indices[i] < r.normals.len());
        }
        assert forall|i: int| 0 <= i < r.faces[j].vertex_indices.len() implies #[trigger] r.faces[j].vertex_indices[i] < r.vertices.len() by {
            assert(r.faces[j].vertex_indices[i] == m.faces[j].vertex_indices[i]);
        }
        assert forall|i: int| 0 <= i < r.faces[j].uv_indices.len() implies #[trigger] r.faces[j].uv_indices[i] < r.uvs.len() by {
            assert(r.faces[j].uv_indices[i] == m.faces[j].uv_indices[i]);
        }
    }
}

/// Reading back the mesh that was just added gives that mesh.
pub proof fn law_read_added_mesh(s: SceneView, m: MeshView)
    ensures
        with_meshes(s, s.meshes.push(m)).meshes.len() == s.meshes.len() + 1,
        with_meshes(s, s.meshes.push(m)).meshes[s.meshes.len() as int] == m,
{
}

/// Reading back a mesh after it was replaced gives the new mesh, and the
/// other meshes stay.
pub proof fn law_read_updated_mesh(s: SceneView, index: int, m: MeshView)
    requires
        0 <= index < s.meshes.len(),
    ensures
        with_meshes(s, s.meshes.update(index, m)).meshes.len() == s.meshes.len(),
        with_meshes(s, s.meshes.update(index, m)).meshes[index] == m,
        forall|k: int|
            0 <= k < s.meshes.len() && k != index ==> #[trigger] with_meshes(s, s.meshes.update(index, m)).meshes[k]
                == s.meshes[k],
{
}

/// Reading back the material that was just added gives that material.
pub proof fn law_read_added_material(s: SceneView, mat: MaterialView)
    ensures
        with_materials(s, s.materials.push(mat)).materials.len() == s.materials.len() + 1,
        with_materials(s, s.materials.push(mat)).materials[s.materials.len() as int] == mat,
{
}

/// Reading back a material after it was replaced gives the new material,
/// and the other materials stay.
pub proof fn law_read_updated_material(s: SceneView, index: int, mat: MaterialView)
    requires
        0 <= index < s.materials.len(),
    ensures
        with_materials(s, s.materials.update(index, mat)).materials.len() == s.materials.len(),
        with_materials(s, s.materials.update(index, mat)).materials[index] == mat,
        forall|k: int|
            0 <= k < s.materials.len() && k != index ==> #[trigger] with_materials(
                s,
                s.materials.update(index, mat),
            ).materials[k] == s.materials[k],
{
}

/// The number of faces of the first `k` groups.
pub open spec fn groups_total(gs: Seq<Seq<int>>, k: nat) -> nat
    decreases k,
{
    if k == 0 {
        0
    } else {
        groups_total(gs, (k - 1) as nat) + gs[k - 1].len()
    }
}

/// The faces of the first `k` groups.
pub open spec fn groups_set(gs: Seq<Seq<int>>, k: nat) -> Set<int>
    decreases k,
{
    if k == 0 {
        Set::empty()
    } else {
        groups_set(gs, (k - 1) as nat) + gs[k - 1].to_set()
    }
}

/// The faces of the first `k` groups of a split are as many as their
/// entries: no face is listed twice.
proof fn lemma_groups_set(m: MeshView, gs: Seq<Seq<int>>, k: nat)
    requires
        is_component_split(m, gs),
        k <= gs.len(),
    ensures
        groups_set(gs, k).finite(),
        groups_set(gs, k).len() == groups_total(gs, k),
        forall|x: int| #[trigger] groups_set(gs, k).contains(x) <==> exists|g: int, q: int|
            0 <= g < k && 0 <= q < gs[g].len() && gs[g][q] == x,
    decreases k,
{
    if k > 0 {
        lemma_groups_set(m, gs, (k - 1) as nat);
        let prev = groups_set(gs, (k - 1) as nat);
        let g = gs[k - 1];
        assert(g.no_duplicates()) by {
            assert forall|a: int, b: int| 0 <= a < g.len() && 0 <= b < g.len() && a != b implies g[a] != g[b] by {
                if g[a] == g[b] {
                    assert(gs[k - 1][a] == gs[k - 1][b]);
                }
            }
        }
        g.unique_seq_to_set();
        assert(prev.disjoint(g.to_set())) by {
            assert forall|x: int| !(prev.contains(x) && g.to_set().contains(x)) by {
                if prev.contains(x) && g.to_set().contains(x) {
                    let (g0, q0) = choose|g0: int, q0: int| 0 <= g0 < k - 1 && 0 <= q0 < gs[g0].len() && gs[g0][q0] == x;
                    let q1 = choose|q1: int| 0 <= q1 < g.len() && g[q1] == x;
                    assert(gs[g0][q0] == gs[k - 1][q1]);
                }
            }
        }
        vstd::set_lib::lemma_set_disjoint_lens(prev, g.to_set());
        assert forall|x: int| #[trigger] groups_set(gs, k).contains(x) <==> exists|g2: int, q: int|
            0 <= g2 < k && 0 <= q < gs[g2].len() && gs[g2][q] == x by {
            if groups_set(gs, k).contains(x) {
                if !prev.contains(x) {
                    assert(g.to_set().contains(x));
                    let q1 = choose|q1: int| 0 <= q1 < g.len() && g[q1] == x;
                    assert(gs[k - 1][q1] == x);
                }
            }
            if exists|g2: int, q: int| 0 <= g2 < k && 0 <= q < gs[g2].len() && gs[g2][q] == x {
                let (g2, q) = choose|g2: int, q: int| 0 <= g2 < k && 0 <= q < gs[g2].len() && gs[g2][q] == x;
                if g2 == k - 1 {
                    assert(g.contains(x));
                } else {
                    assert(prev.contains(x));
                }
            }
        }
    }
}

/// The groups of a split hold as many entries as the mesh has faces.
proof fn lemma_groups_total(m: MeshView, gs: Seq<Seq<int>>)
    requires
        is_component_split(m, gs),
    ensures
        groups_total(gs, gs.len()) == m.faces.len(),
{
    lemma_groups_set(m, gs, gs.len());
    let all = groups_set(gs, gs.len());
    let faces = vstd::set_lib::set_int_range(0, m.faces.len() as int);
    vstd::set_lib::lemma_int_range(0, m.faces.len() as int);
    assert forall|x: int| all.contains(x) <==> faces.contains(x) by {
        if all.contains(x) {
            let (g, q) = choose|g: int, q: int| 0 <= g < gs.len() && 0 <= q < gs[g].len() && gs[g][q] == x;
            assert(0 <= gs[g][q] < m.faces.len());
        }
        if faces.contains(x) {
            assert(in_groups(gs, x));
            let (g, q) = choose|g: int, q: int| 0 <= g < gs.len() && 0 <= q < gs[g].len() && #[trigger] gs[g][q] == x;
            assert(exists|g2: int, q2: int| 0 <= g2 < gs.len() && 0 <= q2 < gs[g2].len() && gs[g2][q2] == x);
        }
    }
    assert(all =~= faces);
}

/// Taking corners into a part leaves its faces alone.
proof fn lemma_part_corners_faces(s: PartState, m: MeshView, f: FaceView, c: nat)
    ensures
        part_corners(s, m, f, c).0.mesh.faces == s.mesh.faces,
    decreases c,
{
    if c > 0 {
        lemma_part_corners_faces(s, m, f, (c - 1) as nat);
    }
}

/// A part has one face per entry of its group.
proof fn lemma_part_face_count(m: MeshView, group: Seq<int>, name: Seq<char>, k: nat)
    ensures
        part_faces(m, group, name, k).mesh.faces.len() == k,
    decreases k,
{
    if k > 0 {
        lemma_part_face_count(m, group, name, (k - 1) as nat);
        let st = part_faces(m, group, name, (k - 1) as nat);
        let f = m.faces[group[k - 1]];
        lemma_part_corners_faces(st, m, f, f.vertex_indices.len());
    }
}

/// The faces of a concatenation of mesh lists.
proof fn lemma_face_total_concat(a: Seq<MeshView>, b: Seq<MeshView>)
    ensures
        face_total(a + b) == face_total(a) + face_total(b),
    decreases b.len(),
{
    if b.len() > 0 {
        lemma_face_total_concat(a, b.drop_last());
        assert((a + b).drop_last() =~= a + b.drop_last());
    } else {
        assert(a + b =~= a);
    }
}

/// The first `k` parts of a mesh hold as many faces as their groups.
proof fn lemma_part_meshes_faces(m: MeshView, gs: Seq<Seq<int>>, k: nat)
    requires
        k <= gs.len(),
    ensures
        face_total(part_meshes(m, gs, k)) == groups_total(gs, k),
    decreases k,
{
    if k > 0 {
        lemma_part_meshes_faces(m, gs, (k - 1) as nat);
        assert(part_meshes(m, gs, k).drop_last() =~= part_meshes(m, gs, (k - 1) as nat));
        lemma_part_face_count(m, gs[k - 1], part_name(m.name, k - 1), gs[k - 1].len());
    }
}

/// Splitting keeps every face: the meshes that replace the meshes of a
/// scene hold as many faces in all as the meshes they replace.
pub proof fn law_split_keeps_faces(ms: Seq<MeshView>, parts: Seq<Seq<Seq<int>>>)
    requires
        splits_of(ms, parts),
    ensures
        face_total(split_prefix(ms, parts, ms.len())) == face_total(ms),
{
    lemma_split_prefix_faces(ms, parts, ms.len());
    assert(ms.take(ms.len() as int) =~= ms);
}

/// The meshes that replace the first `k` meshes hold their faces.
proof fn lemma_split_prefix_faces(ms: Seq<MeshView>, parts: Seq<Seq<Seq<int>>>, k: nat)
    requires
        splits_of(ms, parts),
        k <= ms.len(),
    ensures
        face_total(split_prefix(ms, parts, k)) == face_total(ms.take(k as int)),
    decreases k,
{
    if k > 0 {
        lemma_split_prefix_faces(ms, parts, (k - 1) as nat);
        let m = ms[k - 1];
        let gs = parts[k - 1];
        assert(is_component_split(m, gs));
        lemma_face_total_concat(split_prefix(ms, parts, (k - 1) as nat), mesh_parts(m, gs));
        assert(ms.take(k as int).drop_last() =~= ms.take(k - 1));
        assert(ms.take(k as int).last() == m);
        assert(face_total(ms.take(k as int)) == face_total(ms.take(k - 1)) + m.faces.len());
        if gs.len() > 1 {
            lemma_part_meshes_faces(m, gs, gs.len());
            lemma_groups_total(m, gs);
            assert(mesh_parts(m, gs) == part_meshes(m, gs, gs.len()));
        } else {
            assert(seq![m].drop_last() =~= Seq::<MeshView>::empty());
            assert(face_total(seq![m].drop_last()) == 0);
            assert(seq![m].last() == m);
            assert(face_total(seq![m]) == m.faces.len());
        }
        assert(face_total(mesh_parts(m, gs)) == m.faces.len());
    }
}

/// The position in a merge of face `j` of mesh `k`.
pub open spec fn merged_position(ms: Seq<MeshView>, k: int, j: int) -> int {
    face_total(ms.take(k)) + j
}

/// What merging keeps of every corner: the face at the merged position of
/// face `j` of mesh `k` keeps its material, and each of its corners refers
/// to the same vertex, normal and UV as before.
proof fn lemma_merged_corners(ms: Seq<MeshView>, name: Seq<char>, n_materials: nat)
    requires
        forall|k: int| 0 <= k < ms.len() ==> mesh_valid(#[trigger] ms[k], n_materials),
        vertex_total(ms) <= u32::MAX,
        normal_total(ms) <= u32::MAX,
        uv_total(ms) <= u32::MAX,
    ensures
        ({
            let r = merged(ms, name);
            forall|k: int, j: int|
                #![trigger merged_position(ms, k, j)]
                0 <= k < ms.len() && 0 <= j < ms[k].faces.len() ==> {
                    let g = r.faces[merged_position(ms, k, j)];
                    let f = ms[k].faces[j];
                    &&& 0 <= merged_position(ms, k, j) < r.faces.len()
                    &&& g.material_index == f.material_index
                    &&& g.vertex_indices.len() == f.vertex_indices.len()
                    &&& g.normal_indices.len() == f.normal_indices.len()
                    &&& g.uv_indices.len() == f.uv_indices.len()
                    &&& forall|i: int| 0 <= i < f.vertex_indices.len() ==> r.vertices[(#[trigger] g.vertex_indices[i]) as int] == ms[k].vertices[f.vertex_indices[i] as int]
                    &&& forall|i: int| 0 <= i < f.normal_indices.len() ==> r.normals[(#[trigger] g.normal_indices[i]) as int] == ms[k].normals[f.normal_indices[i] as int]
                    &&& forall|i: int| 0 <= i < f.uv_indices.len() ==> r.uvs[(#[trigger] g.uv_indices[i]) as int] == ms[k].uvs[f.uv_indices[i] as int]
                }
        }),
    decreases ms.len(),
{
    lemma_merged_valid(ms, name, n_materials);
    lemma_merged_counts(ms, name);
    if ms.len() > 0 {
        let ms0 = ms.drop_last();
        lemma_merged_corners(ms0, name, n_materials);
        lemma_merged_valid(ms0, name, n_materials);
        lemma_merged_counts(ms0, name);
        let acc = merged(ms0, name);
        let m = ms.last();
        let r = merged(ms, name);
        let last = ms.len() - 1;
        assert(ms.take(last) =~= ms0);
        assert forall|k: int, j: int|
            #![trigger merged_position(ms, k, j)]
            0 <= k < ms.len() && 0 <= j < ms[k].faces.len() implies {
            let g = r.faces[merged_position(ms, k, j)];
            let f = ms[k].faces[j];
            &&& 0 <= merged_position(ms, k, j) < r.faces.len()
            &&& g.material_index == f.material_index
            &&& g.vertex_indices.len() == f.vertex_indices.len()
            &&& g.normal_indices.len() == f.normal_indices.len()
            &&& g.uv_indices.len() == f.uv_indices.len()
            &&& forall|i: int| 0 <= i < f.vertex_indices.len() ==> r.vertices[(#[trigger] g.vertex_indices[i]) as int] == ms[k].vertices[f.vertex_indices[i] as int]
            &&& forall|i: int| 0 <= i < f.normal_indices.len() ==> r.normals[(#[trigger] g.normal_indices[i]) as int] == ms[k].normals[f.normal_indices[i] as int]
            &&& forall|i: int| 0 <= i < f.uv_indices.len() ==> r.uvs[(#[trigger] g.uv_indices[i]) as int] == ms[k].uvs[f.uv_indices[i] as int]
        } by {
            let f = ms[k].faces[j];
            if k < last {
                assert(ms0[k] == ms[k]);
                assert(ms.take(k) =~= ms0.take(k));
                lemma_face_total_prefix(ms0, k + 1);
                assert(ms0.take(k + 1).drop_last() =~= ms0.take(k));
                assert(face_total(ms0.take(k + 1)) == face_total(ms0.take(k)) + ms0[k].faces.len());
                let t = merged_position(ms, k, j);
                assert(t == merged_position(ms0, k, j));
                assert(t < acc.faces.len());
                assert(r.faces[t] == acc.faces[t]);
                let g = acc.faces[t];
                assert forall|i: int| 0 <= i < f.vertex_indices.len() implies r.vertices[(#[trigger] g.vertex_indices[i]) as int] == ms[k].vertices[f.vertex_indices[i] as int] by {
                    assert(face_valid(g, acc, n_materials));
                    assert(g.vertex_indices[i] < acc.vertices.len());
                }
                assert forall|i: int| 0 <= i < f.normal_indices.len() implies r.normals[(#[trigger] g.normal_indices[i]) as int] == ms[k].normals[f.normal_indices[i] as int] by {
                    assert(face_valid(g, acc, n_materials));
                    assert(g.normal_indices[i] < acc.normals.len());
                }
                assert forall|i: int| 0 <= i < f.uv_indices.len() implies r.uvs[(#[trigger] g.uv_indices[i]) as int] == ms[k].uvs[f.uv_indices[i] as int] by {
                    assert(face_valid(g, acc, n_materials));
                    assert(g.uv_indices[i] < acc.uvs.len());
                }
            } else {
                assert(k == last);
                assert(merged_position(ms, k, j) == acc.faces.len() + j);
                let g = r.faces[merged_position(ms, k, j)];
                assert(g == shifted_face(f, acc.vertices.len(), acc.normals.len(), acc.uvs.len()));
                assert(face_valid(f, m, n_materials));
                assert forall|i: int| 0 <= i < f.vertex_indices.len() implies r.vertices[(#[trigger] g.vertex_indices[i]) as int] == ms[k].vertices[f.vertex_indices[i] as int] by {
                    assert(f.vertex_indices[i] < m.vertices.len());
                }
                assert forall|i: int| 0 <= i < f.normal_indices.len() implies r.normals[(#[trigger] g.normal_indices[i]) as int] == ms[k].normals[f.normal_indices[i] as int] by {
                    assert(f.normal_indices[i] < m.normals.len());
                }
                assert forall|i: int| 0 <= i < f.uv_indices.len() implies r.uvs[(#[trigger] g.uv_indices[i]) as int] == ms[k].uvs[f.uv_indices[i] as int] by {
                    assert(f.uv_indices[i] < m.uvs.len());
                }
            }
        }
    }
}

/// Merging keeps what every corner refers to: face `j` of mesh `k` is found
/// at its merged position with its material, and each of its corners refers
/// to the same vertex, normal and UV as before.
pub proof fn law_merge_keeps_corners(s: SceneView, name: Seq<char>)
    requires
        scene_valid(s),
        merge_fits(s.meshes),
    ensures
        ({
            let ms = s.meshes;
            let r = merged(ms, name);
            forall|k: int, j: int|
                #![trigger merged_position(ms, k, j)]
                0 <= k < ms.len() && 0 <= j < ms[k].faces.len() ==> {
                    let g = r.faces[merged_position(ms, k, j)];
                    let f = ms[k].faces[j];
                    &&& 0 <= merged_position(ms, k, j) < r.faces.len()
                    &&& g.material_index == f.material_index
                    &&& g.vertex_indices.len() == f.vertex_indices.len()
                    &&& g.normal_indices.len() == f.normal_indices.len()
                    &&& g.uv_indices.len() == f.uv_indices.len()
                    &&& forall|i: int| 0 <= i < f.vertex_indices.len() ==> r.vertices[(#[trigger] g.vertex_indices[i]) as int] == ms[k].vertices[f.vertex_indices[i] as int]
                    &&& forall|i: int| 0 <= i < f.normal_indices.len() ==> r.normals[(#[trigger] g.normal_indices[i]) as int] == ms[k].normals[f.normal_indices[i] as int]
                    &&& forall|i: int| 0 <= i < f.uv_indices.len() ==> r.uvs[(#[trigger] g.uv_indices[i]) as int] == ms[k].uvs[f.uv_indices[i] as int]
                }
        }),
{
    assert forall|k: int| 0 <= k < s.meshes.len() implies mesh_valid(#[trigger] s.meshes[k], s.materials.len()) by {}
    lemma_merged_corners(s.meshes, name, s.materials.len());
}

/// Flipping faces or normals keeps a valid scene valid.
pub proof fn law_flips_keep_valid(s: SceneView)
    requires
        scene_valid(s),
    ensures
        scene_valid(with_meshes(s, s.meshes.map_values(|m: MeshView| mesh_with_flipped_faces(m)))),
        scene_valid(with_meshes(s, s.meshes.map_values(|m: MeshView| mesh_with_flipped_normals(m)))),
{
    let n = s.materials.len();
    let a = with_meshes(s, s.meshes.map_values(|m: MeshView| mesh_with_flipped_faces(m)));
    let b = with_meshes(s, s.meshes.map_values(|m: MeshView| mesh_with_flipped_normals(m)));
    assert forall|k: int| 0 <= k < a.meshes.len() implies mesh_valid(#[trigger] a.meshes[k], n) by {
        let m = s.meshes[k];
        assert(mesh_valid(m, n));
        let m2 = a.meshes[k];
        assert forall|j: int| 0 <= j < m2.faces.len() implies face_valid(#[trigger] m2.faces[j], m2, n) by {
            let f = m.faces[j];
            assert(face_valid(f, m, n));
            let g = m2.faces[j];
            assert forall|i: int| 0 <= i < g.vertex_indices.len() implies #[trigger] g.vertex_indices[i] < m2.vertices.len() by {
                assert(g.vertex_indices[i] == f.vertex_indices[f.vertex_indices.len() - 1 - i]);
            }
            assert forall|i: int| 0 <= i < g.normal_indices.len() implies #[trigger] g.normal_indices[i] < m2.normals.len() by {
                assert(g.normal_indices[i] == f.normal_indices[f.normal_indices.len() - 1 - i]);
            }
            assert forall|i: int| 0 <= i < g.uv_indices.len() implies #[trigger] g.uv_indices[i] < m2.uvs.len() by {
                assert(g.uv_indices[i] == f.uv_indices[f.uv_indices.len() - 1 - i]);
            }
        }
    }
    assert forall|k: int| 0 <= k < b.meshes.len() implies mesh_valid(#[trigger] b.meshes[k], n) by {
        let m = s.meshes[k];
        assert(mesh_valid(m, n));
        let m2 = b.meshes[k];
        assert forall|j: int| 0 <= j < m2.faces.len() implies face_valid(#[trigger] m2.faces[j], m2, n) by {
            assert(face_valid(m.faces[j], m, n));
        }
    }
}

} // verus!
