//! Laws that pin down what single operations produce, stated directly over
//! their inputs: the OBJ face lines, the numbers a parsed line stores, the
//! material a relabelled face keeps, the bits of flipped normals, and the
//! faces and meshes a query selects.
use vstd::prelude::*;

use crate::editing::{scene_after_material_removal, with_meshes};
use crate::mesh_ops::mesh_with_flipped_normals;
use crate::models::{Face, FaceView, Mesh, MeshView, SceneView, Vector2, Vector3};
use crate::obj_export::{corners_text, face_line};
use crate::parser::{line_fields, parse_step, ObjState};
use crate::queries::{faces_using, faces_with_vertex, meshes_using};
use crate::text::{decimal, digit_char};

verus! {

// ---------------------------------------------------------------------------
// OBJ face lines
// ---------------------------------------------------------------------------
/// The number of times `c` occurs in `s`.
pub open spec fn count_char(s: Seq<char>, c: char) -> nat
    decreases s.len(),
{
    if s.len() == 0 {
        0
    } else {
        count_char(s.drop_last(), c) + if s.last() == c {
            1nat
        } else {
            0nat
        }
    }
}

/// Occurrences add up over a concatenation.
proof fn lemma_count_concat(a: Seq<char>, b: Seq<char>, c: char)
    ensures
        count_char(a + b, c) == count_char(a, c) + count_char(b, c),
    decreases b.len(),
{
    if b.len() == 0 {
        assert(a + b =~= a);
    } else {
        lemma_count_concat(a, b.drop_last(), c);
        assert((a + b).drop_last() =~= a + b.drop_last());
    }
}

/// A decimal numeral holds digits only.
proof fn lemma_decimal_digits(n: nat)
    ensures
        forall|i: int| 0 <= i < decimal(n).len() ==> '0' <= #[trigger] decimal(n)[i] <= '9',
    decreases n,
{
    let d = n % 10;
    assert(48 <= 48 + d <= 57);
    assert(digit_char(d) as int == 48 + d);
    assert('0' <= digit_char(d) <= '9');
    if n >= 10 {
        lemma_decimal_digits(n / 10);
        let p = decimal(n / 10);
        assert(decimal(n) == p.push(digit_char(d)));
        assert forall|i: int| 0 <= i < decimal(n).len() implies '0' <= #[trigger] decimal(n)[i] <= '9' by {
            if i < p.len() {
                assert(decimal(n)[i] == p[i]);
            }
        }
    } else {
        assert(decimal(n) == seq![digit_char(n)]);
    }
}

/// A one-character text holds `c` once if it is `c`, else not at all.
proof fn lemma_count_single(c0: char, c: char)
    ensures
        count_char(seq![c0], c) == if c0 == c {
            1nat
        } else {
            0nat
        },
{
    let s1 = seq![c0];
    assert(s1.drop_last() =~= Seq::<char>::empty());
    assert(count_char(Seq::<char>::empty(), c) == 0);
    assert(s1.last() == c0);
    assert(count_char(s1, c) == count_char(s1.drop_last(), c) + if s1.last() == c {
        1nat
    } else {
        0nat
    });
}

/// A character that is not a digit does not occur in a decimal numeral.
proof fn lemma_decimal_count(n: nat, c: char)
    requires
        !('0' <= c <= '9'),
    ensures
        count_char(decimal(n), c) == 0,
{
    lemma_decimal_digits(n);
    lemma_count_absent(decimal(n), c);
}

/// A character absent from `s` occurs in it zero times.
proof fn lemma_count_absent(s: Seq<char>, c: char)
    requires
        forall|i: int| 0 <= i < s.len() ==> s[i] != c,
    ensures
        count_char(s, c) == 0,
    decreases s.len(),
{
    if s.len() > 0 {
        lemma_count_absent(s.drop_last(), c);
    }
}

/// The 1-based text of the index at position `i` of `s`, if `s` has one.
proof fn lemma_optional_count(s: Seq<u32>, i: int, c: char)
    requires
        !('0' <= c <= '9'),
    ensures
        count_char(if 0 <= i < s.len() { decimal((s[i] + 1) as nat) } else { Seq::empty() }, c) == 0,
{
    if 0 <= i < s.len() {
        lemma_decimal_count((s[i] + 1) as nat, c);
    }
}

/// The text of the first `c` corners has one space and two slashes per
/// corner.
proof fn lemma_corners_count(f: FaceView, c: nat)
    requires
        c <= f.vertex_indices.len(),
    ensures
        count_char(corners_text(f, c), ' ') == c,
        count_char(corners_text(f, c), '/') == 2 * c,
    decreases c,
{
    reveal_strlit(" ");
    reveal_strlit("/");
    if c > 0 {
        let i = c - 1;
        lemma_corners_count(f, (c - 1) as nat);
        let v = decimal((f.vertex_indices[i] + 1) as nat);
        let t = if 0 <= i < f.uv_indices.len() {
            decimal((f.uv_indices[i] + 1) as nat)
        } else {
            Seq::empty()
        };
        let n = if 0 <= i < f.normal_indices.len() {
            decimal((f.normal_indices[i] + 1) as nat)
        } else {
            Seq::empty()
        };
        assert(corners_text(f, c) == corners_text(f, (c - 1) as nat) + " "@ + v + "/"@ + t + "/"@ + n);
        lemma_decimal_count((f.vertex_indices[i] + 1) as nat, ' ');
        lemma_decimal_count((f.vertex_indices[i] + 1) as nat, '/');
        lemma_optional_count(f.uv_indices, i, ' ');
        lemma_optional_count(f.uv_indices, i, '/');
        lemma_optional_count(f.normal_indices, i, ' ');
        lemma_optional_count(f.normal_indices, i, '/');
        let p = corners_text(f, (c - 1) as nat);
        lemma_count_concat(p, " "@, ' ');
        lemma_count_concat(p + " "@, v, ' ');
        lemma_count_concat(p + " "@ + v, "/"@, ' ');
        lemma_count_concat(p + " "@ + v + "/"@, t, ' ');
        lemma_count_concat(p + " "@ + v + "/"@ + t, "/"@, ' ');
        lemma_count_concat(p + " "@ + v + "/"@ + t + "/"@, n, ' ');
        lemma_count_concat(p, " "@, '/');
        lemma_count_concat(p + " "@, v, '/');
        lemma_count_concat(p + " "@ + v, "/"@, '/');
        lemma_count_concat(p + " "@ + v + "/"@, t, '/');
        lemma_count_concat(p + " "@ + v + "/"@ + t, "/"@, '/');
        lemma_count_concat(p + " "@ + v + "/"@ + t + "/"@, n, '/');
        assert(" "@ =~= seq![' ']);
        assert("/"@ =~= seq!['/']);
        lemma_count_single(' ', ' ');
        lemma_count_single(' ', '/');
        lemma_count_single('/', '/');
        lemma_count_single('/', ' ');
    }
}

/// The `f` line of a face starts with `f`, ends the line, and writes one
/// corner per vertex index of the face: as many spaces (one before each
/// corner) as the face has vertex indices, and two slashes per corner.
pub proof fn law_face_line_writes_every_corner(f: FaceView)
    ensures
        face_line(f).len() > 1,
        face_line(f)[0] == 'f',
        face_line(f).last() == '\n',
        count_char(face_line(f), ' ') == f.vertex_indices.len(),
        count_char(face_line(f), '/') == 2 * f.vertex_indices.len(),
{
    reveal_strlit("f");
    reveal_strlit("\n");
    let n = f.vertex_indices.len();
    lemma_corners_count(f, n);
    let c = corners_text(f, n);
    lemma_count_concat("f"@, c, ' ');
    lemma_count_concat("f"@ + c, "\n"@, ' ');
    lemma_count_concat("f"@, c, '/');
    lemma_count_concat("f"@ + c, "\n"@, '/');
    assert("f"@ =~= seq!['f']);
    assert("\n"@ =~= seq!['\n']);
    lemma_count_single('f', ' ');
    lemma_count_single('f', '/');
    lemma_count_single('\n', ' ');
    lemma_count_single('\n', '/');
    assert(face_line(f) == "f"@ + c + "\n"@);
}

/// The corners written for a face depend only on the corners written.
proof fn lemma_corners_text_prefix(f: FaceView, g: FaceView, c: nat)
    requires
        c <= f.vertex_indices.len(),
        c <= g.vertex_indices.len(),
        forall|i: int| 0 <= i < c ==> f.vertex_indices[i] == g.vertex_indices[i],
        f.uv_indices == g.uv_indices,
        f.normal_indices == g.normal_indices,
    ensures
        corners_text(f, c) == corners_text(g, c),
    decreases c,
{
    if c > 0 {
        lemma_corners_text_prefix(f, g, (c - 1) as nat);
    }
}

/// A face with no vertex indices is written as a bare `f` line.
pub proof fn law_face_line_empty(f: FaceView)
    requires
        f.vertex_indices.len() == 0,
    ensures
        face_line(f) == seq!['f', '\n'],
{
    reveal_strlit("f");
    reveal_strlit("\n");
    assert(face_line(f) =~= seq!['f', '\n']);
}

/// Adding a vertex index `x` to a face adds one corner to its `f` line,
/// just before the line end: a space, `x + 1`, a slash, the 1-based UV index
/// of that corner if the face has one, a slash, and the 1-based normal index
/// if it has one. With the empty face's line, this tells the whole line.
pub proof fn law_face_line_adds_corner(f: FaceView, x: u32)
    ensures
        ({
            let n = f.vertex_indices.len() as int;
            let g = FaceView { vertex_indices: f.vertex_indices.push(x), ..f };
            face_line(g) == face_line(f).drop_last() + seq![' '] + decimal((x + 1) as nat) + seq!['/'] + (if n
                < f.uv_indices.len() {
                decimal((f.uv_indices[n] + 1) as nat)
            } else {
                Seq::empty()
            }) + seq!['/'] + (if n < f.normal_indices.len() {
                decimal((f.normal_indices[n] + 1) as nat)
            } else {
                Seq::empty()
            }) + seq!['\n']
        }),
{
    reveal_strlit("f");
    reveal_strlit("\n");
    reveal_strlit(" ");
    reveal_strlit("/");
    let n = f.vertex_indices.len();
    let g = FaceView { vertex_indices: f.vertex_indices.push(x), ..f };
    lemma_corners_text_prefix(f, g, n);
    assert(face_line(f).drop_last() =~= "f"@ + corners_text(f, n));
    assert(g.vertex_indices[n as int] == x);
    let lhs = face_line(g);
    assert(lhs == "f"@ + corners_text(g, n + 1) + "\n"@);
    assert(" "@ =~= seq![' ']);
    assert("/"@ =~= seq!['/']);
    assert("\n"@ =~= seq!['\n']);
    assert(lhs =~= face_line(f).drop_last() + seq![' '] + decimal((x + 1) as nat) + seq!['/'] + (if (n as int)
        < f.uv_indices.len() {
        decimal((f.uv_indices[n as int] + 1) as nat)
    } else {
        Seq::empty()
    }) + seq!['/'] + (if (n as int) < f.normal_indices.len() {
        decimal((f.normal_indices[n as int] + 1) as nat)
    } else {
        Seq::empty()
    }) + seq!['\n']);
}

// ---------------------------------------------------------------------------
// The numbers a parsed line stores
// ---------------------------------------------------------------------------
/// The numeric words of a `vt` line are its second and third words, in
/// order; those of a `v` or `vn` line its second to fourth words.
pub proof fn law_numeric_words_in_order(words: Seq<Seq<char>>)
    ensures
        words.len() >= 3 && words[0] == seq!['v', 't'] ==> line_fields(words) == seq![
            (words[1], false),
            (words[2], false),
        ],
        words.len() >= 4 && words[0] == seq!['v'] ==> line_fields(words) == seq![
            (words[1], true),
            (words[2], true),
            (words[3], true),
        ],
        words.len() >= 4 && words[0] == seq!['v', 'n'] ==> line_fields(words) == seq![
            (words[1], false),
            (words[2], false),
            (words[3], false),
        ],
{
    if words.len() >= 3 && words[0] == seq!['v', 't'] {
        assert(words[0].len() != seq!['v'].len());
        assert(words[0].len() != seq!['o'].len() || words[0][0] != seq!['o'][0]);
        assert(words[0][1] != seq!['v', 'n'][1]);
        assert(line_fields(words) =~= seq![(words[1], false), (words[2], false)]);
    }
    if words.len() >= 4 && words[0] == seq!['v'] {
        assert(words[0].len() != seq!['o'].len() || words[0][0] != seq!['o'][0]);
        assert(line_fields(words) =~= seq![(words[1], true), (words[2], true), (words[3], true)]);
    }
    if words.len() >= 4 && words[0] == seq!['v', 'n'] {
        assert(words[0].len() != seq!['v'].len());
        assert(words[0].len() != seq!['o'].len() || words[0][0] != seq!['o'][0]);
        assert(line_fields(words) =~= seq![(words[1], false), (words[2], false), (words[3], false)]);
    }
}

/// Inside an object, a `vt` line with two numbers appends to the object
/// the UV whose `u` is the value of the line's first number and whose `v`
/// is the value of its second; nothing else changes.
pub proof fn law_uv_line_stores_u_then_v(
    st: ObjState,
    words: Seq<Seq<char>>,
    values: Seq<Option<u32>>,
    base: int,
    triangulate: bool,
)
    requires
        st.current is Some,
        words.len() >= 3,
        words[0] == seq!['v', 't'],
        0 <= base,
        base + 1 < values.len(),
        values[base] is Some,
        values[base + 1] is Some,
    ensures
        parse_step(st, words, values, base, triangulate) == Ok::<ObjState, crate::parser::ObjFault>(
            ObjState {
                current: Some(
                    MeshView {
                        uvs: st.current->0.uvs.push(Vector2 { u: values[base]->0, v: values[base + 1]->0 }),
                        ..st.current->0
                    },
                ),
                ..st
            },
        ),
{
    assert(words[0].len() != seq!['v'].len());
    assert(words[0].len() != seq!['o'].len() || words[0][0] != seq!['o'][0]);
    assert(words[0][1] != seq!['v', 'n'][1]);
}

/// Inside an object, a `v` line with three numbers appends the vertex whose
/// `x`, `y` and `z` are the values of the line's first, second and third
/// numbers; nothing else changes.
pub proof fn law_vertex_line_stores_x_y_z(
    st: ObjState,
    words: Seq<Seq<char>>,
    values: Seq<Option<u32>>,
    base: int,
    triangulate: bool,
)
    requires
        st.current is Some,
        words.len() >= 4,
        words[0] == seq!['v'],
        0 <= base,
        base + 2 < values.len(),
        values[base] is Some,
        values[base + 1] is Some,
        values[base + 2] is Some,
    ensures
        parse_step(st, words, values, base, triangulate) == Ok::<ObjState, crate::parser::ObjFault>(
            ObjState {
                current: Some(
                    MeshView {
                        vertices: st.current->0.vertices.push(
                            Vector3 { x: values[base]->0, y: values[base + 1]->0, z: values[base + 2]->0 },
                        ),
                        ..st.current->0
                    },
                ),
                ..st
            },
        ),
{
    assert(words[0].len() != seq!['o'].len() || words[0][0] != seq!['o'][0]);
}

/// Inside an object, a `vn` line with three numbers appends the normal
/// whose `x`, `y` and `z` are the values of the line's first, second and
/// third numbers; nothing else changes.
pub proof fn law_normal_line_stores_x_y_z(
    st: ObjState,
    words: Seq<Seq<char>>,
    values: Seq<Option<u32>>,
    base: int,
    triangulate: bool,
)
    requires
        st.current is Some,
        words.len() >= 4,
        words[0] == seq!['v', 'n'],
        0 <= base,
        base + 2 < values.len(),
        values[base] is Some,
        values[base + 1] is Some,
        values[base + 2] is Some,
    ensures
        parse_step(st, words, values, base, triangulate) == Ok::<ObjState, crate::parser::ObjFault>(
            ObjState {
                current: Some(
                    MeshView {
                        normals: st.current->0.normals.push(
                            Vector3 { x: values[base]->0, y: values[base + 1]->0, z: values[base + 2]->0 },
                        ),
                        ..st.current->0
                    },
                ),
                ..st
            },
        ),
{
    assert(words[0].len() != seq!['v'].len());
    assert(words[0].len() != seq!['o'].len() || words[0][0] != seq!['o'][0]);
}

// ---------------------------------------------------------------------------
// Materials after a removal
// ---------------------------------------------------------------------------
/// After the material at `index` is removed, every face keeps referring to
/// the same material: a face that used the removed material has none, a face
/// without material still has none, and a face that used another existing
/// material refers, in the new material list, to that same material. The
/// meshes and their faces are otherwise the ones before.
pub proof fn law_removal_keeps_face_materials(s: SceneView, index: usize)
    requires
        index < s.materials.len(),
        index <= u32::MAX,
    ensures
        ({
            let r = scene_after_material_removal(s, index);
            &&& r.materials.len() + 1 == s.materials.len()
            &&& r.meshes.len() == s.meshes.len()
            &&& forall|k: int| 0 <= k < s.meshes.len() ==> (#[trigger] r.meshes[k]).faces.len() == s.meshes[k].faces.len()
            &&& forall|k: int, j: int|
                0 <= k < s.meshes.len() && 0 <= j < s.meshes[k].faces.len() ==> {
                    let f = s.meshes[k].faces[j];
                    let g = #[trigger] r.meshes[k].faces[j];
                    &&& g.vertex_indices == f.vertex_indices
                    &&& g.normal_indices == f.normal_indices
                    &&& g.uv_indices == f.uv_indices
                    &&& f.material_index == Some(index as u32) ==> g.material_index is None
                    &&& f.material_index is None ==> g.material_index is None
                    &&& forall|x: u32|
                        f.material_index == Some(x) && x != index && x < s.materials.len() ==> (
                        g.material_index matches Some(y) && y < r.materials.len() && r.materials[y as int]
                            == s.materials[x as int])
                }
        }),
{
    let r = scene_after_material_removal(s, index);
    assert forall|k: int, j: int| 0 <= k < s.meshes.len() && 0 <= j < s.meshes[k].faces.len() implies {
        let f = s.meshes[k].faces[j];
        let g = #[trigger] r.meshes[k].faces[j];
        &&& g.vertex_indices == f.vertex_indices
        &&& g.normal_indices == f.normal_indices
        &&& g.uv_indices == f.uv_indices
        &&& f.material_index == Some(index as u32) ==> g.material_index is None
        &&& f.material_index is None ==> g.material_index is None
        &&& forall|x: u32|
            f.material_index == Some(x) && x != index && x < s.materials.len() ==> (g.material_index matches Some(
                y,
            ) && y < r.materials.len() && r.materials[y as int] == s.materials[x as int])
    } by {
        let f = s.meshes[k].faces[j];
        let g = r.meshes[k].faces[j];
        assert forall|x: u32| f.material_index == Some(x) && x != index && x < s.materials.len() implies (
        g.material_index matches Some(y) && y < r.materials.len() && r.materials[y as int]
            == s.materials[x as int]) by {
            if x > index {
                assert(g.material_index == Some((x - 1) as u32));
                assert(r.materials[x - 1] == s.materials[x as int]);
            } else {
                assert(g.material_index == Some(x));
                assert(r.materials[x as int] == s.materials[x as int]);
            }
        }
    }
}

// ---------------------------------------------------------------------------
// Flipped normals
// ---------------------------------------------------------------------------
/// Flipping the normals toggles the sign bit of every component of every
/// normal and changes no other bit; everything else of the scene stays.
pub proof fn law_flip_normals_toggles_signs(s: SceneView)
    ensures
        ({
            let r = with_meshes(s, s.meshes.map_values(|m: MeshView| mesh_with_flipped_normals(m)));
            &&& r.meshes.len() == s.meshes.len()
            &&& forall|k: int|
                0 <= k < s.meshes.len() ==> {
                    &&& (#[trigger] r.meshes[k]).normals.len() == s.meshes[k].normals.len()
                    &&& r.meshes[k].vertices == s.meshes[k].vertices
                    &&& r.meshes[k].faces == s.meshes[k].faces
                    &&& r.meshes[k].uvs == s.meshes[k].uvs
                }
            &&& forall|k: int, i: int|
                0 <= k < s.meshes.len() && 0 <= i < s.meshes[k].normals.len() ==> {
                    let n = s.meshes[k].normals[i];
                    let n2 = #[trigger] r.meshes[k].normals[i];
                    &&& n2.x ^ n.x == 0x8000_0000u32
                    &&& n2.y ^ n.y == 0x8000_0000u32
                    &&& n2.z ^ n.z == 0x8000_0000u32
                }
        }),
{
    let r = with_meshes(s, s.meshes.map_values(|m: MeshView| mesh_with_flipped_normals(m)));
    assert forall|k: int, i: int| 0 <= k < s.meshes.len() && 0 <= i < s.meshes[k].normals.len() implies {
        let n = s.meshes[k].normals[i];
        let n2 = #[trigger] r.meshes[k].normals[i];
        &&& n2.x ^ n.x == 0x8000_0000u32
        &&& n2.y ^ n.y == 0x8000_0000u32
        &&& n2.z ^ n.z == 0x8000_0000u32
    } by {
        let n = s.meshes[k].normals[i];
        let n2 = r.meshes[k].normals[i];
        assert(n2 == n.spec_negated());
        let (a, b, c) = (n.x, n.y, n.z);
        assert((a ^ 0x8000_0000u32) ^ a == 0x8000_0000u32) by (bit_vector);
        assert((b ^ 0x8000_0000u32) ^ b == 0x8000_0000u32) by (bit_vector);
        assert((c ^ 0x8000_0000u32) ^ c == 0x8000_0000u32) by (bit_vector);
    }
}

// ---------------------------------------------------------------------------
// Queries
// ---------------------------------------------------------------------------
/// The faces that use material `x` are exactly the faces whose material is
/// `x`, in their order in the mesh.
pub proof fn law_faces_using_selects_material(fs: Seq<Face>, x: u32)
    ensures
        faces_using(fs, x) == fs.filter(|f: Face| f.material_index == Some(x)),
    decreases fs.len(),
{
    reveal(Seq::filter);
    if fs.len() > 0 {
        law_faces_using_selects_material(fs.drop_last(), x);
    }
}

/// The faces that use vertex `x` are exactly the faces that list `x` among
/// their vertex indices, in their order in the mesh.
pub proof fn law_faces_with_vertex_selects_vertex(fs: Seq<Face>, x: u32)
    ensures
        faces_with_vertex(fs, x) == fs.filter(|f: Face| exists|i: int| 0 <= i < f.vertex_indices@.len() && f.vertex_indices@[i] == x),
    decreases fs.len(),
{
    reveal(Seq::filter);
    if fs.len() > 0 {
        law_faces_with_vertex_selects_vertex(fs.drop_last(), x);
    }
}

/// The meshes that use material `x` are exactly the meshes with a face
/// whose material is `x`, in their order in the scene.
pub proof fn law_meshes_using_selects_material(ms: Seq<Mesh>, x: u32)
    ensures
        meshes_using(ms, x) == ms.filter(|m: Mesh| exists|j: int| 0 <= j < m.faces@.len() && m.faces@[j].material_index == Some(x)),
    decreases ms.len(),
{
    reveal(Seq::filter);
    if ms.len() > 0 {
        law_meshes_using_selects_material(ms.drop_last(), x);
    }
}

} // verus!
