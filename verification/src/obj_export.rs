//! The face section of a mesh in Wavefront OBJ text.
//!
//! Each face is written as an `f` line whose corners read
//! `vertex/uv/normal`, counted from 1, with an empty field where the face
//! has no UV or normal for a corner. A `usemtl` line names the material
//! whenever it changes from one face to the next and refers to a material of
//! the scene.
use vstd::prelude::*;

use crate::models::{FaceView, Material, MaterialView, Mesh};
use crate::text::{decimal, push_decimal, push_str};

verus! {

/// The 1-based text of the index at position `i` of `s`, empty when `s` has
/// no such position.
pub open spec fn optional_index(s: Seq<u32>, i: int) -> Seq<char> {
    if 0 <= i < s.len() {
        decimal((s[i] + 1) as nat)
    } else {
        Seq::empty()
    }
}

/// The text of the first `c` corners of face `f`.
pub open spec fn corners_text(f: FaceView, c: nat) -> Seq<char>
    decreases c,
{
    if c == 0 {
        Seq::empty()
    } else {
        let i = c - 1;
        corners_text(f, (c - 1) as nat) + " "@ + decimal((f.vertex_indices[i] + 1) as nat) + "/"@
            + optional_index(f.uv_indices, i) + "/"@ + optional_index(f.normal_indices, i)
    }
}

/// The `f` line of face `f`.
pub open spec fn face_line(f: FaceView) -> Seq<char> {
    "f"@ + corners_text(f, f.vertex_indices.len()) + "\n"@
}

/// The `usemtl` line written before face `f` when the material before it was
/// `last`: empty unless the material changes to one of `materials`.
pub open spec fn material_line(materials: Seq<MaterialView>, last: Option<u32>, f: FaceView) -> Seq<char> {
    if f.material_index != last {
        match f.material_index {
            Some(index) => if index < materials.len() {
                "usemtl "@ + materials[index as int].name + "\n"@
            } else {
                Seq::empty()
            },
            None => Seq::empty(),
        }
    } else {
        Seq::empty()
    }
}

/// The text of the first `k` faces and the material in use after them.
pub open spec fn faces_text(materials: Seq<MaterialView>, faces: Seq<FaceView>, k: nat) -> (Seq<char>, Option<u32>)
    decreases k,
{
    if k == 0 {
        (Seq::empty(), None)
    } else {
        let (text, last) = faces_text(materials, faces, (k - 1) as nat);
        let f = faces[k - 1];
        (text + material_line(materials, last, f) + face_line(f), f.material_index)
    }
}

/// Every 1-based index written for face `f` fits a `u32`.
pub open spec fn face_fits_obj(f: FaceView) -> bool {
    forall|i: int|
        0 <= i < f.vertex_indices.len() ==> {
            &&& #[trigger] f.vertex_indices[i] < u32::MAX
            &&& i < f.uv_indices.len() ==> f.uv_indices[i] < u32::MAX
            &&& i < f.normal_indices.len() ==> f.normal_indices[i] < u32::MAX
        }
}

/// Appends the 1-based text of the index at position `i` of `s`, if any.
fn push_optional_index(out: &mut String, s: &Vec<u32>, i: usize)
    requires
        i < s@.len() ==> s@[i as int] < u32::MAX,
    ensures
        final(out)@ == old(out)@ + optional_index(s@, i as int),
{
    if i < s.len() {
        push_decimal(out, (s[i] + 1) as u64);
    } else {
        assert(old(out)@ + optional_index(s@, i as int) =~= old(out)@);
    }
}

/// Appends the `f` line of face `f`.
fn push_face_line(out: &mut String, f: &crate::models::Face)
    requires
        face_fits_obj(f@),
    ensures
        final(out)@ == old(out)@ + face_line(f@),
{
    let ghost start = out@;
    push_str(out, "f");
    let nc = f.vertex_indices.len();
    for i in 0..nc
        invariant
            nc == f@.vertex_indices.len(),
            face_fits_obj(f@),
            out@ == start + "f"@ + corners_text(f@, i as nat),
    {
        let ghost before = out@;
        assert(f@.vertex_indices[i as int] < u32::MAX);
        push_str(out, " ");
        push_decimal(out, (f.vertex_indices[i] + 1) as u64);
        push_str(out, "/");
        push_optional_index(out, &f.uv_indices, i);
        push_str(out, "/");
        push_optional_index(out, &f.normal_indices, i);
        assert(out@ =~= start + "f"@ + corners_text(f@, (i + 1) as nat));
    }
    push_str(out, "\n");
    assert(out@ =~= start + face_line(f@));
}

/// The faces of `mesh` as OBJ text, with `usemtl` lines naming the
/// materials of `materials` (the scene's materials) as they change.
pub fn obj_faces_text(mesh: &Mesh, materials: &Vec<Material>) -> (r: String)
    requires
        forall|j: int| 0 <= j < mesh@.faces.len() ==> face_fits_obj(#[trigger] mesh@.faces[j]),
    ensures
        r@ == faces_text(
            materials@.map_values(|m: Material| m@),
            mesh@.faces,
            mesh@.faces.len(),
        ).0,
{
    let ghost mats = materials@.map_values(|m: Material| m@);
    let ghost fs = mesh@.faces;
    let mut out = String::new();
    let mut last: Option<u32> = None;
    let nf = mesh.faces.len();
    for j in 0..nf
        invariant
            nf == fs.len(),
            fs == mesh@.faces,
            mats == materials@.map_values(|m: Material| m@),
            forall|j: int| 0 <= j < fs.len() ==> face_fits_obj(#[trigger] fs[j]),
            (out@, last) == faces_text(mats, fs, j as nat),
    {
        let f = &mesh.faces[j];
        assert(fs[j as int] == f@);
        let ghost before = out@;
        if f.material_index != last {
            if let Some(index) = f.material_index {
                if (index as usize) < materials.len() {
                    push_str(&mut out, "usemtl ");
                    push_str(&mut out, materials[index as usize].name.as_str());
                    push_str(&mut out, "\n");
                }
            }
            last = f.material_index;
        }
        assert(out@ =~= before + material_line(mats, faces_text(mats, fs, j as nat).1, f@));
        push_face_line(&mut out, f);
    }
    out
}

} // verus!
