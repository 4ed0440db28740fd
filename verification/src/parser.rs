//! A parser for the OBJ text format, with support for materials and
//! triangulation.
//!
//! The text is read line by line; each line is split into words at white
//! space and dispatched on its first word:
//!
//! * `o NAME` starts a new mesh (named `unnamed` when the name is missing),
//! * `v X Y Z`, `vn X Y Z`, `vt U V` add a vertex, normal or UV to the
//!   current mesh,
//! * `f A B C ...` adds a face whose corners are `V`, `V/T`, `V//N` or
//!   `V/T/N` (1-based indices),
//! * `p NAME` sets the parent of the current mesh,
//! * `mtllib NAME` adds a default material, `usemtl NAME` selects the first
//!   material of that name for the faces that follow,
//! * `m PATH` records an external model file,
//! * anything else is ignored.
//!
//! The numbers of `v`, `vn` and `vt` lines are `f32` values. The parser does
//! not read them itself: [`scalar_fields`] lists the words that hold them,
//! and the caller hands [`Parser::parse`] the bits of each such word, in the
//! same order (for a vertex coordinate, already multiplied by the vertex
//! scale of the configuration), or `None` where a word is not a number.
use vstd::prelude::*;

use crate::config::Config;
use crate::error::ParserError;
use crate::models::{
    default_material_view, empty_mesh_view, empty_scene_view, faces_view, materials_view,
    meshes_view, strings_view, Face, FaceView, Material, MaterialView, Mesh, MeshView, Scene,
    SceneView, Vector2, Vector3,
};
use crate::text::{
    decimal, parse_u32, parse_u32_in, push_decimal, push_str, split_lines_words, string_of,
    text_lines, words_view,
};

verus! {

// ---------------------------------------------------------------------------
// Keywords
// ---------------------------------------------------------------------------
/// `o`
pub open spec fn kw_object() -> Seq<char> {
    seq!['o']
}

/// `v`
pub open spec fn kw_vertex() -> Seq<char> {
    seq!['v']
}

/// `vn`
pub open spec fn kw_normal() -> Seq<char> {
    seq!['v', 'n']
}

/// `vt`
pub open spec fn kw_uv() -> Seq<char> {
    seq!['v', 't']
}

/// `f`
pub open spec fn kw_face() -> Seq<char> {
    seq!['f']
}

/// `p`
pub open spec fn kw_parent() -> Seq<char> {
    seq!['p']
}

/// `mtllib`
pub open spec fn kw_mtllib() -> Seq<char> {
    seq!['m', 't', 'l', 'l', 'i', 'b']
}

/// `usemtl`
pub open spec fn kw_usemtl() -> Seq<char> {
    seq!['u', 's', 'e', 'm', 't', 'l']
}

/// `m`
pub open spec fn kw_model() -> Seq<char> {
    seq!['m']
}

/// `unnamed`, the name of a mesh whose `o` line gives none.
pub open spec fn unnamed() -> Seq<char> {
    seq!['u', 'n', 'n', 'a', 'm', 'e', 'd']
}

/// The kinds of OBJ lines, told by their first word.
#[derive(Debug, Clone, Copy, PartialEq, Eq, Structural)]
pub enum Keyword {
    Object,
    Vertex,
    Normal,
    Uv,
    Face,
    Parent,
    Mtllib,
    Usemtl,
    Model,
    Other,
}

/// The kind of a line whose first word is `w`.
pub open spec fn keyword_of(w: Seq<char>) -> Keyword {
    if w == kw_object() {
        Keyword::Object
    } else if w == kw_vertex() {
        Keyword::Vertex
    } else if w == kw_normal() {
        Keyword::Normal
    } else if w == kw_uv() {
        Keyword::Uv
    } else if w == kw_face() {
        Keyword::Face
    } else if w == kw_parent() {
        Keyword::Parent
    } else if w == kw_mtllib() {
        Keyword::Mtllib
    } else if w == kw_usemtl() {
        Keyword::Usemtl
    } else if w == kw_model() {
        Keyword::Model
    } else {
        Keyword::Other
    }
}

/// Tells the kind of a line from its first word.
pub fn classify(w: &Vec<char>) -> (r: Keyword)
    ensures
        r == keyword_of(w@),
{
    let n = w.len();
    if n == 1 {
        let c = w[0];
        if c == 'o' {
            assert(w@ =~= kw_object());
            Keyword::Object
        } else if c == 'v' {
            assert(w@ =~= kw_vertex());
            Keyword::Vertex
        } else if c == 'f' {
            assert(w@ =~= kw_face());
            Keyword::Face
        } else if c == 'p' {
            assert(w@ =~= kw_parent());
            Keyword::Parent
        } else if c == 'm' {
            assert(w@ =~= kw_model());
            Keyword::Model
        } else {
            assert(w@ != kw_object() && w@ != kw_vertex() && w@ != kw_face() && w@ != kw_parent()
                && w@ != kw_model());
            Keyword::Other
        }
    } else if n == 2 && w[0] == 'v' && w[1] == 'n' {
        assert(w@ =~= kw_normal());
        Keyword::Normal
    } else if n == 2 && w[0] == 'v' && w[1] == 't' {
        assert(w@ =~= kw_uv());
        Keyword::Uv
    } else if n == 6 && w[0] == 'm' && w[1] == 't' && w[2] == 'l' && w[3] == 'l' && w[4] == 'i'
        && w[5] == 'b' {
        assert(w@ =~= kw_mtllib());
        Keyword::Mtllib
    } else if n == 6 && w[0] == 'u' && w[1] == 's' && w[2] == 'e' && w[3] == 'm' && w[4] == 't'
        && w[5] == 'l' {
        assert(w@ =~= kw_usemtl());
        Keyword::Usemtl
    } else {
        assert(n == 2 ==> w@ != kw_normal() || (w@[0] == 'v' && w@[1] == 'n'));
        assert(n == 2 ==> w@ != kw_uv() || (w@[0] == 'v' && w@[1] == 't'));
        assert(n == 6 ==> w@ != kw_mtllib() || w@[5] == 'b' && w@[0] == 'm' && w@[1] == 't'
            && w@[2] == 'l' && w@[3] == 'l' && w@[4] == 'i');
        assert(n == 6 ==> w@ != kw_usemtl() || w@[5] == 'l' && w@[0] == 'u' && w@[1] == 's'
            && w@[2] == 'e' && w@[3] == 'm' && w@[4] == 't');
        Keyword::Other
    }
}

// ---------------------------------------------------------------------------
// Numeric fields
// ---------------------------------------------------------------------------
/// A word of the text that holds an `f32` value: its text, and whether it is
/// a vertex coordinate (which the vertex scale applies to).
pub struct ScalarField {
    pub text: String,
    pub vertex: bool,
}

/// The smaller of two integers.
pub open spec fn min_int(a: int, b: int) -> int {
    if a < b {
        a
    } else {
        b
    }
}

/// The words of a line that hold numbers: the first three arguments of `v`
/// and `vn`, the first two of `vt`, none for other lines. The flag tells a
/// vertex coordinate.
pub open spec fn line_fields(words: Seq<Seq<char>>) -> Seq<(Seq<char>, bool)> {
    if words.len() == 0 {
        Seq::empty()
    } else if keyword_of(words[0]) == Keyword::Vertex {
        words.subrange(1, min_int(words.len() as int, 4)).map_values(
            |w: Seq<char>| (w, true),
        )
    } else if keyword_of(words[0]) == Keyword::Normal {
        words.subrange(1, min_int(words.len() as int, 4)).map_values(
            |w: Seq<char>| (w, false),
        )
    } else if keyword_of(words[0]) == Keyword::Uv {
        words.subrange(1, min_int(words.len() as int, 3)).map_values(
            |w: Seq<char>| (w, false),
        )
    } else {
        Seq::empty()
    }
}

/// The numeric words of all the lines, in order.
pub open spec fn text_fields(lines: Seq<Seq<Seq<char>>>) -> Seq<(Seq<char>, bool)>
    decreases lines.len(),
{
    if lines.len() == 0 {
        Seq::empty()
    } else {
        text_fields(lines.drop_last()) + line_fields(lines.last())
    }
}

/// The view of a numeric field.
pub open spec fn field_view(f: ScalarField) -> (Seq<char>, bool) {
    (f.text@, f.vertex)
}

/// Lists the words of the text that hold `f32` values, in the order in which
/// [`Parser::parse`] consumes their values.
pub fn scalar_fields(content: &str) -> (r: Vec<ScalarField>)
    ensures
        r@.map_values(|f: ScalarField| field_view(f)) == text_fields(text_lines(content@)),
{
    let lines = split_lines_words(content);
    let ghost tl = text_lines(content@);
    let mut r: Vec<ScalarField> = Vec::new();
    let n = lines.len();
    for i in 0..n
        invariant
            n == lines@.len(),
            tl == crate::text::lines_view(lines@),
            r@.map_values(|f: ScalarField| field_view(f)) == text_fields(tl.take(i as int)),
    {
        let words = &lines[i];
        let ghost wv = words_view(words@);
        assert(wv == tl[i as int]);
        assert(tl.take(i + 1).drop_last() =~= tl.take(i as int));
        let ghost before = r@.map_values(|f: ScalarField| field_view(f));
        let nw = words.len();
        if nw > 0 {
            let kind = classify(&words[0]);
            assert(wv[0] == words@[0]@);
            let vertex = kind == Keyword::Vertex;
            let normal = kind == Keyword::Normal;
            let uv = kind == Keyword::Uv;
            if vertex || normal || uv {
                let limit: usize = if uv {
                    3
                } else {
                    4
                };
                let end: usize = if nw < limit {
                    nw
                } else {
                    limit
                };
                let mut j: usize = 1;
                while j < end
                    invariant
                        1 <= j <= end <= nw,
                        nw == words@.len(),
                        wv == words_view(words@),
                        r@.map_values(|f: ScalarField| field_view(f)) == before + wv.subrange(
                            1,
                            j as int,
                        ).map_values(|w: Seq<char>| (w, vertex)),
                    decreases end - j,
                {
                    let text = string_of(&words[j]);
                    assert(text@ == wv[j as int]);
                    let ghost old_r = r@;
                    r.push(ScalarField { text, vertex });
                    assert(r@.map_values(|f: ScalarField| field_view(f)) =~= old_r.map_values(
                        |f: ScalarField| field_view(f),
                    ).push((wv[j as int], vertex)));
                    assert(wv.subrange(1, j + 1) =~= wv.subrange(1, j as int).push(wv[j as int]));
                    assert(r@.map_values(|f: ScalarField| field_view(f)) =~= before
                        + wv.subrange(1, j + 1).map_values(|w: Seq<char>| (w, vertex)));
                    j = j + 1;
                }
                assert(line_fields(wv) =~= wv.subrange(1, end as int).map_values(
                    |w: Seq<char>| (w, vertex),
                ));
            }
        }
        assert(r@.map_values(|f: ScalarField| field_view(f)) =~= text_fields(tl.take(i + 1)));
    }
    assert(tl.take(n as int) =~= tl);
    r
}

// ---------------------------------------------------------------------------
// Faces
// ---------------------------------------------------------------------------
/// The state of a left-to-right scan that splits a word at `/`: the finished
/// pieces and the piece being read.
pub open spec fn slash_scan(w: Seq<char>) -> (Seq<Seq<char>>, Seq<char>)
    decreases w.len(),
{
    if w.len() == 0 {
        (Seq::empty(), Seq::empty())
    } else {
        let st = slash_scan(w.drop_last());
        if w.last() == '/' {
            (st.0.push(st.1), Seq::empty())
        } else {
            (st.0, st.1.push(w.last()))
        }
    }
}

/// The pieces of `w` between `/` characters (what `str::split('/')` gives).
pub open spec fn split_slash(w: Seq<char>) -> Seq<Seq<char>> {
    let st = slash_scan(w);
    st.0.push(st.1)
}

/// `x - 1`, or `0` for `0`.
pub open spec fn sat_dec(x: u32) -> u32 {
    if x == 0 {
        0
    } else {
        (x - 1) as u32
    }
}

/// The 0-based index that the `k`-th piece of a face corner gives, if it is
/// there and is a number.
pub open spec fn piece_index(pieces: Seq<Seq<char>>, k: int) -> Option<u32> {
    if k < pieces.len() {
        match parse_u32(pieces[k]) {
            Some(x) => Some(sat_dec(x)),
            None => None,
        }
    } else {
        None
    }
}

/// `s` with `x` appended when there is one.
pub open spec fn push_some(s: Seq<u32>, x: Option<u32>) -> Seq<u32> {
    match x {
        Some(v) => s.push(v),
        None => s,
    }
}

/// The face described by the corner words `corners` (the words after `f`),
/// with material `mi`; `None` when a corner has no valid vertex index.
pub open spec fn face_of(corners: Seq<Seq<char>>, mi: Option<u32>) -> Option<FaceView>
    decreases corners.len(),
{
    if corners.len() == 0 {
        Some(
            FaceView {
                vertex_indices: Seq::empty(),
                normal_indices: Seq::empty(),
                uv_indices: Seq::empty(),
                material_index: mi,
            },
        )
    } else {
        match face_of(corners.drop_last(), mi) {
            None => None,
            Some(f) => {
                let p = split_slash(corners.last());
                match piece_index(p, 0) {
                    None => None,
                    Some(v) => Some(
                        FaceView {
                            vertex_indices: f.vertex_indices.push(v),
                            normal_indices: push_some(f.normal_indices, piece_index(p, 2)),
                            uv_indices: push_some(f.uv_indices, piece_index(p, 1)),
                            material_index: mi,
                        },
                    ),
                }
            },
        }
    }
}

/// The triangle of a fan triangulation of `f` made of corners `0`, `i` and
/// `i + 1`; it keeps normals (UVs) only when `f` has normals (UVs) for all
/// three corners.
pub open spec fn fan_triangle(f: FaceView, i: int) -> FaceView {
    FaceView {
        vertex_indices: seq![f.vertex_indices[0], f.vertex_indices[i], f.vertex_indices[i + 1]],
        normal_indices: if i + 1 < f.normal_indices.len() {
            seq![f.normal_indices[0], f.normal_indices[i], f.normal_indices[i + 1]]
        } else {
            Seq::empty()
        },
        uv_indices: if i + 1 < f.uv_indices.len() {
            seq![f.uv_indices[0], f.uv_indices[i], f.uv_indices[i + 1]]
        } else {
            Seq::empty()
        },
        material_index: f.material_index,
    }
}

/// The fan triangulation of `f`: the triangles `(0, i, i + 1)` for
/// `i = 1 .. n - 2`; no triangles for a face of fewer than three vertices.
pub open spec fn triangulation(f: FaceView) -> Seq<FaceView> {
    if f.vertex_indices.len() < 3 {
        Seq::empty()
    } else {
        Seq::new((f.vertex_indices.len() - 2) as nat, |k: int| fan_triangle(f, k + 1))
    }
}

// ---------------------------------------------------------------------------
// The parse
// ---------------------------------------------------------------------------
/// What a parse has built so far: the scene, the mesh being filled, and the
/// material of the faces that follow.
pub ghost struct ObjState {
    pub scene: SceneView,
    pub current: Option<MeshView>,
    pub material: Option<u32>,
}

/// The faults that stop a parse.
#[derive(Debug, Clone, Copy, PartialEq, Eq, Structural)]
pub enum ObjFault {
    VertexOutsideObject,
    InvalidVertex,
    NormalOutsideObject,
    InvalidNormal,
    UvOutsideObject,
    InvalidUv,
    FaceOutsideObject,
    InvalidFaceIndex,
    MissingMtllibName,
    MissingUsemtlName,
}

/// The message of a fault, without its line number.
pub open spec fn fault_text(f: ObjFault) -> Seq<char> {
    match f {
        ObjFault::VertexOutsideObject => "Vertex found outside of an object definition at line "@,
        ObjFault::InvalidVertex => "Invalid vertex data at line "@,
        ObjFault::NormalOutsideObject => "Normal found outside of an object definition at line "@,
        ObjFault::InvalidNormal => "Invalid normal data at line "@,
        ObjFault::UvOutsideObject => "UV found outside of an object definition at line "@,
        ObjFault::InvalidUv => "Invalid UV data at line "@,
        ObjFault::FaceOutsideObject => "Face found outside of an object definition at line "@,
        ObjFault::InvalidFaceIndex => "Invalid face vertex index at line "@,
        ObjFault::MissingMtllibName => "Missing mtllib name at line "@,
        ObjFault::MissingUsemtlName => "Missing usemtl name at line "@,
    }
}

/// The message of a fault at a line.
pub open spec fn fault_message(f: ObjFault, line: nat) -> Seq<char> {
    fault_text(f) + decimal(line)
}

/// The value given for the `k`-th numeric word, `None` when none is given.
pub open spec fn value_at(values: Seq<Option<u32>>, k: int) -> Option<u32> {
    if 0 <= k < values.len() {
        values[k]
    } else {
        None
    }
}

/// The three values of a `v` or `vn` line whose numeric words start at
/// `base`, if the line has three numbers.
pub open spec fn triple_at(words: Seq<Seq<char>>, values: Seq<Option<u32>>, base: int) -> Option<
    Vector3,
> {
    if words.len() >= 4 && value_at(values, base) is Some && value_at(values, base + 1) is Some
        && value_at(values, base + 2) is Some {
        Some(
            Vector3 {
                x: value_at(values, base)->0,
                y: value_at(values, base + 1)->0,
                z: value_at(values, base + 2)->0,
            },
        )
    } else {
        None
    }
}

/// The two values of a `vt` line whose numeric words start at `base`, if the
/// line has two numbers.
pub open spec fn pair_at(words: Seq<Seq<char>>, values: Seq<Option<u32>>, base: int) -> Option<
    Vector2,
> {
    if words.len() >= 3 && value_at(values, base) is Some && value_at(values, base + 1) is Some {
        Some(Vector2 { u: value_at(values, base)->0, v: value_at(values, base + 1)->0 })
    } else {
        None
    }
}

/// The position of the first material named `name`.
pub open spec fn material_position(ms: Seq<MaterialView>, name: Seq<char>) -> Option<int>
    decreases ms.len(),
{
    if ms.len() == 0 {
        None
    } else {
        match material_position(ms.drop_last(), name) {
            Some(i) => Some(i),
            None => if ms.last().name == name {
                Some(ms.len() - 1)
            } else {
                None
            },
        }
    }
}

/// The mesh `m` with the face `f` added: split into its fan triangles when
/// triangulation is on and `f` has more than three vertices.
pub open spec fn mesh_add_face(m: MeshView, f: FaceView, triangulate: bool) -> MeshView {
    if triangulate && f.vertex_indices.len() > 3 {
        MeshView { faces: m.faces + triangulation(f), ..m }
    } else {
        MeshView { faces: m.faces.push(f), ..m }
    }
}

/// The effect of one line with words `words`, whose numeric words start at
/// position `base` of `values`.
pub open spec fn parse_step(
    st: ObjState,
    words: Seq<Seq<char>>,
    values: Seq<Option<u32>>,
    base: int,
    triangulate: bool,
) -> Result<ObjState, ObjFault> {
    if words.len() == 0 {
        Ok(st)
    } else {
        match keyword_of(words[0]) {
            Keyword::Object => {
                let scene = match st.current {
                    Some(m) => SceneView { meshes: st.scene.meshes.push(m), ..st.scene },
                    None => st.scene,
                };
                let name = if words.len() > 1 {
                    words[1]
                } else {
                    unnamed()
                };
                Ok(ObjState { scene, current: Some(empty_mesh_view(name)), ..st })
            },
            Keyword::Vertex => match st.current {
                None => Err(ObjFault::VertexOutsideObject),
                Some(m) => match triple_at(words, values, base) {
                    None => Err(ObjFault::InvalidVertex),
                    Some(v) => Ok(
                        ObjState { current: Some(MeshView { vertices: m.vertices.push(v), ..m }), ..st },
                    ),
                },
            },
            Keyword::Normal => match st.current {
                None => Err(ObjFault::NormalOutsideObject),
                Some(m) => match triple_at(words, values, base) {
                    None => Err(ObjFault::InvalidNormal),
                    Some(v) => Ok(
                        ObjState { current: Some(MeshView { normals: m.normals.push(v), ..m }), ..st },
                    ),
                },
            },
            Keyword::Uv => match st.current {
                None => Err(ObjFault::UvOutsideObject),
                Some(m) => match pair_at(words, values, base) {
                    None => Err(ObjFault::InvalidUv),
                    Some(v) => Ok(
                        ObjState { current: Some(MeshView { uvs: m.uvs.push(v), ..m }), ..st },
                    ),
                },
            },
            Keyword::Face => match st.current {
                None => Err(ObjFault::FaceOutsideObject),
                Some(m) => match face_of(words.drop_first(), st.material) {
                    None => Err(ObjFault::InvalidFaceIndex),
                    Some(f) => Ok(
                        ObjState { current: Some(mesh_add_face(m, f, triangulate)), ..st },
                    ),
                },
            },
            Keyword::Parent => match st.current {
                None => Ok(st),
                Some(m) => {
                    let parent = if words.len() > 1 {
                        Some(words[1])
                    } else {
                        None
                    };
                    Ok(ObjState { current: Some(MeshView { parent, ..m }), ..st })
                },
            },
            Keyword::Mtllib => if words.len() < 2 {
                Err(ObjFault::MissingMtllibName)
            } else {
                Ok(
                    ObjState {
                        scene: SceneView {
                            materials: st.scene.materials.push(default_material_view()),
                            ..st.scene
                        },
                        ..st
                    },
                )
            },
            Keyword::Usemtl => if words.len() < 2 {
                Err(ObjFault::MissingUsemtlName)
            } else {
                let material = match material_position(st.scene.materials, words[1]) {
                    Some(i) => Some((i as usize) as u32),
                    None => None,
                };
                Ok(ObjState { material, ..st })
            },
            Keyword::Model => if words.len() > 1 {
                Ok(
                    ObjState {
                        scene: SceneView {
                            external_models: st.scene.external_models.push(words[1]),
                            ..st.scene
                        },
                        ..st
                    },
                )
            } else {
                Ok(st)
            },
            Keyword::Other => Ok(st),
        }
    }
}

/// The state after the lines `lines`, starting from `st0`, or the first
/// fault with its (1-based) line number.
pub open spec fn parse_lines(
    st0: ObjState,
    lines: Seq<Seq<Seq<char>>>,
    values: Seq<Option<u32>>,
    triangulate: bool,
) -> Result<ObjState, (ObjFault, nat)>
    decreases lines.len(),
{
    if lines.len() == 0 {
        Ok(st0)
    } else {
        match parse_lines(st0, lines.drop_last(), values, triangulate) {
            Err(e) => Err(e),
            Ok(st) => match parse_step(
                st,
                lines.last(),
                values,
                text_fields(lines.drop_last()).len() as int,
                triangulate,
            ) {
                Ok(st2) => Ok(st2),
                Err(f) => Err((f, lines.len())),
            },
        }
    }
}

/// The scene at the end of a parse: the mesh being filled is added.
pub open spec fn finish(st: ObjState) -> SceneView {
    match st.current {
        Some(m) => SceneView { meshes: st.scene.meshes.push(m), ..st.scene },
        None => st.scene,
    }
}

/// The scene that parsing `content` on top of `scene0` gives, or the fault
/// with its line number.
pub open spec fn parse_obj(
    scene0: SceneView,
    content: Seq<char>,
    values: Seq<Option<u32>>,
    triangulate: bool,
) -> Result<SceneView, (ObjFault, nat)> {
    let st0 = ObjState { scene: scene0, current: None, material: None };
    match parse_lines(st0, text_lines(content), values, triangulate) {
        Ok(st) => Ok(finish(st)),
        Err(e) => Err(e),
    }
}

// ---------------------------------------------------------------------------
// Executable parts
// ---------------------------------------------------------------------------
/// The character ranges of the pieces of `w` between `/` characters.
fn slash_ranges(w: &Vec<char>) -> (r: Vec<(usize, usize)>)
    ensures
        forall|k: int| 0 <= k < r@.len() ==> (#[trigger] r@[k]).0 <= r@[k].1 <= w@.len(),
        r@.map_values(|p: (usize, usize)| w@.subrange(p.0 as int, p.1 as int)) == split_slash(
            w@,
        ),
{
    let n = w.len();
    let mut r: Vec<(usize, usize)> = Vec::new();
    let mut start: usize = 0;
    for i in 0..n
        invariant
            n == w@.len(),
            start <= i,
            forall|k: int| 0 <= k < r@.len() ==> (#[trigger] r@[k]).0 <= r@[k].1 <= i,
            r@.map_values(|p: (usize, usize)| w@.subrange(p.0 as int, p.1 as int)) == slash_scan(
                w@.take(i as int),
            ).0,
            w@.subrange(start as int, i as int) == slash_scan(w@.take(i as int)).1,
    {
        assert(w@.take(i + 1).drop_last() =~= w@.take(i as int));
        let ghost old_r = r@;
        if w[i] == '/' {
            r.push((start, i));
            assert(r@.map_values(|p: (usize, usize)| w@.subrange(p.0 as int, p.1 as int))
                =~= old_r.map_values(|p: (usize, usize)| w@.subrange(p.0 as int, p.1 as int)).push(
                w@.subrange(start as int, i as int),
            ));
            start = i + 1;
            assert(w@.subrange(start as int, i + 1) =~= Seq::<char>::empty());
        } else {
            assert(w@.subrange(start as int, i + 1) =~= w@.subrange(start as int, i as int).push(
                w@[i as int],
            ));
        }
    }
    let ghost old_r = r@;
    r.push((start, n));
    assert(w@.take(n as int) =~= w@);
    assert(r@.map_values(|p: (usize, usize)| w@.subrange(p.0 as int, p.1 as int)) =~= old_r.map_values(
        |p: (usize, usize)| w@.subrange(p.0 as int, p.1 as int),
    ).push(w@.subrange(start as int, n as int)));
    r
}

/// The 0-based index given by the `k`-th piece of a face corner.
fn corner_index(w: &Vec<char>, ranges: &Vec<(usize, usize)>, k: usize) -> (r: Option<u32>)
    requires
        forall|j: int| 0 <= j < ranges@.len() ==> (#[trigger] ranges@[j]).0 <= ranges@[j].1 <= w@.len(),
    ensures
        r == piece_index(
            ranges@.map_values(|p: (usize, usize)| w@.subrange(p.0 as int, p.1 as int)),
            k as int,
        ),
{
    if k < ranges.len() {
        let (a, b) = ranges[k];
        match parse_u32_in(w, a, b) {
            Some(x) => Some(if x == 0 {
                0
            } else {
                x - 1
            }),
            None => None,
        }
    } else {
        None
    }
}

/// Reads the face made of the corner words `words[1..]`, with material `mi`.
fn parse_face(words: &Vec<Vec<char>>, mi: Option<u32>) -> (r: Option<Face>)
    requires
        words@.len() >= 1,
    ensures
        match face_of(words_view(words@).drop_first(), mi) {
            Some(f) => r matches Some(face) && face@ == f,
            None => r is None,
        },
{
    let ghost corners = words_view(words@).drop_first();
    let mut face = Face::with_material(mi);
    let n = words.len();
    let mut j: usize = 1;
    while j < n
        invariant
            1 <= j <= n,
            n == words@.len(),
            corners == words_view(words@).drop_first(),
            face_of(corners.take(j - 1), mi) == Some(face@),
        decreases n - j,
    {
        let w = &words[j];
        assert(corners[j - 1] == w@);
        assert(corners.take(j as int).drop_last() =~= corners.take(j - 1));
        let ranges = slash_ranges(w);
        let ghost pieces = split_slash(w@);
        match corner_index(w, &ranges, 0) {
            None => {
                assert(face_of(corners.take(j as int), mi) is None);
                proof {
                    lemma_face_of_prefix_none(corners, j as int, mi);
                }
                return None;
            },
            Some(v) => {
                face.vertex_indices.push(v);
                match corner_index(w, &ranges, 1) {
                    Some(t) => face.uv_indices.push(t),
                    None => {},
                }
                match corner_index(w, &ranges, 2) {
                    Some(nn) => face.normal_indices.push(nn),
                    None => {},
                }
            },
        }
        j = j + 1;
    }
    assert(corners.take(n - 1) =~= corners);
    Some(face)
}

/// Once the corners of a prefix give no face, no longer prefix does.
proof fn lemma_face_of_prefix_none(corners: Seq<Seq<char>>, j: int, mi: Option<u32>)
    requires
        0 <= j <= corners.len(),
        face_of(corners.take(j), mi) is None,
    ensures
        face_of(corners, mi) is None,
    decreases corners.len() - j,
{
    if j < corners.len() {
        assert(corners.take(j + 1).drop_last() =~= corners.take(j));
        lemma_face_of_prefix_none(corners, j + 1, mi);
    } else {
        assert(corners.take(j) =~= corners);
    }
}

/// Splits `face` into the triangles `(0, i, i + 1)` of a fan around its first
/// vertex; a face of fewer than three vertices gives no triangle.
pub fn triangulate_face(face: &Face) -> (r: Vec<Face>)
    ensures
        faces_view(r@) == triangulation(face@),
{
    let mut r: Vec<Face> = Vec::new();
    let n = face.vertex_indices.len();
    if n < 3 {
        assert(faces_view(r@) =~= triangulation(face@));
        return r;
    }
    let ghost f = face@;
    for i in 1..n - 1
        invariant
            n == face.vertex_indices@.len(),
            n >= 3,
            f == face@,
            r@.len() == i - 1,
            forall|k: int| 0 <= k < r@.len() ==> (#[trigger] r@[k])@ == fan_triangle(f, k + 1),
    {
        let mut t = Face::with_material(face.material_index);
        t.vertex_indices.push(face.vertex_indices[0]);
        t.vertex_indices.push(face.vertex_indices[i]);
        t.vertex_indices.push(face.vertex_indices[i + 1]);
        if i + 1 < face.normal_indices.len() {
            t.normal_indices.push(face.normal_indices[0]);
            t.normal_indices.push(face.normal_indices[i]);
            t.normal_indices.push(face.normal_indices[i + 1]);
        }
        if i + 1 < face.uv_indices.len() {
            t.uv_indices.push(face.uv_indices[0]);
            t.uv_indices.push(face.uv_indices[i]);
            t.uv_indices.push(face.uv_indices[i + 1]);
        }
        assert(t@.vertex_indices =~= fan_triangle(f, i as int).vertex_indices);
        assert(t@.normal_indices =~= fan_triangle(f, i as int).normal_indices);
        assert(t@.uv_indices =~= fan_triangle(f, i as int).uv_indices);
        r.push(t);
    }
    assert(faces_view(r@) =~= triangulation(face@));
    r
}

/// The position of the first material named `name`, as [`material_position`]
/// says.
fn find_material_position(materials: &Vec<Material>, name: &String) -> (r: Option<usize>)
    ensures
        match material_position(materials_view(materials@), name@) {
            Some(i) => r == Some(i as usize) && 0 <= i < materials@.len(),
            None => r is None,
        },
{
    let ghost ms = materials_view(materials@);
    let n = materials.len();
    for i in 0..n
        invariant
            n == materials@.len(),
            ms == materials_view(materials@),
            material_position(ms.take(i as int), name@) is None,
    {
        assert(ms.take(i + 1).drop_last() =~= ms.take(i as int));
        if materials[i].name == *name {
            assert(material_position(ms.take(i + 1), name@) == Some(i as int));
            proof {
                lemma_material_position_prefix(ms, i + 1, name@);
            }
            return Some(i);
        }
    }
    assert(ms.take(n as int) =~= ms);
    None
}

/// The first position found in a prefix is the first position overall.
proof fn lemma_material_position_prefix(ms: Seq<MaterialView>, j: int, name: Seq<char>)
    requires
        0 <= j <= ms.len(),
        material_position(ms.take(j), name) is Some,
    ensures
        material_position(ms, name) == material_position(ms.take(j), name),
    decreases ms.len() - j,
{
    if j < ms.len() {
        assert(ms.take(j + 1).drop_last() =~= ms.take(j));
        lemma_material_position_prefix(ms, j + 1, name);
    } else {
        assert(ms.take(j) =~= ms);
    }
}

/// The view of an optional mesh.
pub open spec fn opt_mesh_view(m: Option<Mesh>) -> Option<MeshView> {
    match m {
        Some(x) => Some(x@),
        None => None,
    }
}

/// The value given for the `k`-th numeric word.
fn value_at_exec(values: &Vec<Option<u32>>, k: u128) -> (r: Option<u32>)
    ensures
        r == value_at(values@, k as int),
{
    if k < values.len() as u128 {
        values[k as usize]
    } else {
        None
    }
}

/// The message of a fault at a line.
fn fault_error(f: ObjFault, line: usize) -> (r: ParserError)
    ensures
        r matches ParserError::InvalidData(m) && m@ == fault_message(f, line as nat),
{
    let mut m = String::new();
    match f {
        ObjFault::VertexOutsideObject => push_str(&mut m, "Vertex found outside of an object definition at line "),
        ObjFault::InvalidVertex => push_str(&mut m, "Invalid vertex data at line "),
        ObjFault::NormalOutsideObject => push_str(&mut m, "Normal found outside of an object definition at line "),
        ObjFault::InvalidNormal => push_str(&mut m, "Invalid normal data at line "),
        ObjFault::UvOutsideObject => push_str(&mut m, "UV found outside of an object definition at line "),
        ObjFault::InvalidUv => push_str(&mut m, "Invalid UV data at line "),
        ObjFault::FaceOutsideObject => push_str(&mut m, "Face found outside of an object definition at line "),
        ObjFault::InvalidFaceIndex => push_str(&mut m, "Invalid face vertex index at line "),
        ObjFault::MissingMtllibName => push_str(&mut m, "Missing mtllib name at line "),
        ObjFault::MissingUsemtlName => push_str(&mut m, "Missing usemtl name at line "),
    }
    push_decimal(&mut m, line as u64);
    ParserError::InvalidData(m)
}

/// The number of numeric words of a line.
fn line_field_count(words: &Vec<Vec<char>>) -> (r: u128)
    ensures
        r == line_fields(words_view(words@)).len(),
        r <= 3,
{
    let n = words.len();
    if n == 0 {
        return 0;
    }
    let kind = classify(&words[0]);
    assert(words_view(words@)[0] == words@[0]@);
    let limit: usize = match kind {
        Keyword::Vertex => 4,
        Keyword::Normal => 4,
        Keyword::Uv => 3,
        _ => return 0,
    };
    let end: usize = if n < limit {
        n
    } else {
        limit
    };
    (end - 1) as u128
}

/// Once a prefix of the lines faults, the whole text faults the same way.
proof fn lemma_parse_lines_fault(
    st0: ObjState,
    lines: Seq<Seq<Seq<char>>>,
    j: int,
    values: Seq<Option<u32>>,
    triangulate: bool,
)
    requires
        0 <= j <= lines.len(),
        parse_lines(st0, lines.take(j), values, triangulate) is Err,
    ensures
        parse_lines(st0, lines, values, triangulate) == parse_lines(
            st0,
            lines.take(j),
            values,
            triangulate,
        ),
    decreases lines.len() - j,
{
    if j < lines.len() {
        assert(lines.take(j + 1).drop_last() =~= lines.take(j));
        lemma_parse_lines_fault(st0, lines, j + 1, values, triangulate);
    } else {
        assert(lines.take(j) =~= lines);
    }
}

/// The parser of OBJ text.
pub struct Parser<'a> {
    scene: Scene,
    config: &'a Config,
}

impl<'a> Parser<'a> {
    /// The scene that the parse adds to.
    pub closed spec fn start_scene(&self) -> SceneView {
        self.scene@
    }

    /// Whether faces are triangulated.
    pub closed spec fn triangulates(&self) -> bool {
        self.config.triangulate
    }

    /// Creates a parser with the given configuration.
    pub fn new(config: &'a Config) -> (r: Self)
        ensures
            r.start_scene() == empty_scene_view(),
            r.triangulates() == config.triangulate,
    {
        Parser { scene: Scene::default(), config }
    }

    /// The state of the parse.
    closed spec fn state(&self, current: Option<Mesh>, material: Option<u32>) -> ObjState {
        ObjState { scene: self.scene@, current: opt_mesh_view(current), material }
    }

    /// Processes one line, whose numeric words start at position `base` of
    /// `values`.
    fn parse_line(
        &mut self,
        current: &mut Option<Mesh>,
        material: &mut Option<u32>,
        words: &Vec<Vec<char>>,
        values: &Vec<Option<u32>>,
        base: u128,
        line: usize,
    ) -> (r: Result<(), ParserError>)
        requires
            base <= 3 * usize::MAX,
        ensures
            final(self).config == old(self).config,
            match parse_step(
                old(self).state(*old(current), *old(material)),
                words_view(words@),
                values@,
                base as int,
                old(self).config.triangulate,
            ) {
                Ok(st) => r is Ok && final(self).state(*final(current), *final(material)) == st,
                Err(f) => r matches Err(ParserError::InvalidData(m)) && m@ == fault_message(
                    f,
                    line as nat,
                ),
            },
    {
        let ghost wv = words_view(words@);
        let n = words.len();
        if n == 0 {
            return Ok(());
        }
        assert(wv[0] == words@[0]@);
        assert(n > 1 ==> wv[1] == words@[1]@);
        let kind = classify(&words[0]);
        match kind {
            Keyword::Object => {
                let ghost old_scene = self.scene@;
                match current.take() {
                    Some(m) => {
                        let ghost mv = m@;
                        self.scene.meshes.push(m);
                        assert(meshes_view(self.scene.meshes@) =~= old_scene.meshes.push(mv));
                    },
                    None => {},
                }
                let name = if n > 1 {
                    string_of(&words[1])
                } else {
                    let u = "unnamed";
                    proof {
                        reveal_strlit("unnamed");
                    }
                    assert(u@ =~= unnamed());
                    u.to_owned()
                };
                *current = Some(Mesh::named(name));
                Ok(())
            },
            Keyword::Vertex | Keyword::Normal => {
                let vertex = kind == Keyword::Vertex;
                match current {
                    None => Err(fault_error(
                        if vertex {
                            ObjFault::VertexOutsideObject
                        } else {
                            ObjFault::NormalOutsideObject
                        },
                        line,
                    )),
                    Some(m) => {
                        let bad = if vertex {
                            ObjFault::InvalidVertex
                        } else {
                            ObjFault::InvalidNormal
                        };
                        if n < 4 {
                            return Err(fault_error(bad, line));
                        }
                        let x = value_at_exec(values, base);
                        let y = value_at_exec(values, base + 1);
                        let z = value_at_exec(values, base + 2);
                        match (x, y, z) {
                            (Some(x), Some(y), Some(z)) => {
                                let v = Vector3 { x, y, z };
                                if vertex {
                                    m.vertices.push(v);
                                } else {
                                    m.normals.push(v);
                                }
                                Ok(())
                            },
                            _ => Err(fault_error(bad, line)),
                        }
                    },
                }
            },
            Keyword::Uv => {
                match current {
                    None => Err(fault_error(ObjFault::UvOutsideObject, line)),
                    Some(m) => {
                        if n < 3 {
                            return Err(fault_error(ObjFault::InvalidUv, line));
                        }
                        let u = value_at_exec(values, base);
                        let v = value_at_exec(values, base + 1);
                        match (u, v) {
                            (Some(u), Some(v)) => {
                                m.uvs.push(Vector2 { u, v });
                                Ok(())
                            },
                            _ => Err(fault_error(ObjFault::InvalidUv, line)),
                        }
                    },
                }
            },
            Keyword::Face => {
                match current {
                    None => Err(fault_error(ObjFault::FaceOutsideObject, line)),
                    Some(m) => {
                        match parse_face(words, *material) {
                            None => Err(fault_error(ObjFault::InvalidFaceIndex, line)),
                            Some(f) => {
                                let ghost fv = f@;
                                let ghost old_faces = faces_view(m.faces@);
                                if self.config.triangulate && f.vertex_indices.len() > 3 {
                                    let mut tris = triangulate_face(&f);
                                    let ghost tv = faces_view(tris@);
                                    m.faces.append(&mut tris);
                                    assert(faces_view(m.faces@) =~= old_faces + tv);
                                } else {
                                    m.faces.push(f);
                                    assert(faces_view(m.faces@) =~= old_faces.push(fv));
                                }
                                Ok(())
                            },
                        }
                    },
                }
            },
            Keyword::Parent => {
                match current {
                    None => {},
                    Some(m) => {
                        m.parent = if n > 1 {
                            Some(string_of(&words[1]))
                        } else {
                            None
                        };
                    },
                }
                Ok(())
            },
            Keyword::Mtllib => {
                if n < 2 {
                    return Err(fault_error(ObjFault::MissingMtllibName, line));
                }
                let ghost old_materials = self.scene@.materials;
                self.scene.materials.push(Material::default());
                assert(materials_view(self.scene.materials@) =~= old_materials.push(
                    default_material_view(),
                ));
                Ok(())
            },
            Keyword::Usemtl => {
                if n < 2 {
                    return Err(fault_error(ObjFault::MissingUsemtlName, line));
                }
                let name = string_of(&words[1]);
                *material = match find_material_position(&self.scene.materials, &name) {
                    Some(i) => Some(#[verifier::truncate] (i as u32)),
                    None => None,
                };
                Ok(())
            },
            Keyword::Model => {
                if n > 1 {
                    let ghost old_models = self.scene@.external_models;
                    let path = string_of(&words[1]);
                    let ghost pv = path@;
                    self.scene.external_models.push(path);
                    assert(strings_view(self.scene.external_models@) =~= old_models.push(pv));
                }
                Ok(())
            },
            Keyword::Other => Ok(()),
        }
    }

    /// Parses OBJ text. `values` holds, for each word that
    /// [`scalar_fields`] lists for `content` and in that order, the bits of
    /// its `f32` value (a vertex coordinate multiplied by the vertex scale),
    /// or `None` where the word is not a number.
    pub fn parse(self, content: &str, values: &Vec<Option<u32>>) -> (r: Result<
        Scene,
        ParserError,
    >)
        ensures
            match parse_obj(self.start_scene(), content@, values@, self.triangulates()) {
                Ok(s) => r matches Ok(scene) && scene@ == s,
                Err((f, line)) => r matches Err(ParserError::InvalidData(m)) && m@
                    == fault_message(f, line),
            },
    {
        let mut parser = self;
        let ghost st0 = ObjState { scene: parser.scene@, current: None, material: None };
        let lines = split_lines_words(content);
        let ghost tl = text_lines(content@);
        let mut current: Option<Mesh> = None;
        let mut material: Option<u32> = None;
        let mut used: u128 = 0;
        let n = lines.len();
        for i in 0..n
            invariant
                n == lines@.len(),
                tl == crate::text::lines_view(lines@),
                tl == text_lines(content@),
                st0 == (ObjState { scene: self.start_scene(), current: None, material: None }),
                parser.config == self.config,
                used == text_fields(tl.take(i as int)).len(),
                used <= 3 * i,
                parse_lines(st0, tl.take(i as int), values@, self.triangulates()) == Ok::<
                    ObjState,
                    (ObjFault, nat),
                >(parser.state(current, material)),
        {
            assert(tl.take(i + 1).drop_last() =~= tl.take(i as int));
            assert(tl[i as int] == words_view(lines@[i as int]@));
            let count = line_field_count(&lines[i]);
            match parser.parse_line(&mut current, &mut material, &lines[i], values, used, i + 1) {
                Err(e) => {
                    proof {
                        lemma_parse_lines_fault(st0, tl, i + 1, values@, self.triangulates());
                    }
                    return Err(e);
                },
                Ok(()) => {},
            }
            used = used + count;
        }
        assert(tl.take(n as int) =~= tl);
        match current {
            Some(m) => {
                let ghost old_scene = parser.scene@;
                let ghost mv = m@;
                parser.scene.meshes.push(m);
                assert(meshes_view(parser.scene.meshes@) =~= old_scene.meshes.push(mv));
            },
            None => {},
        }
        Ok(parser.scene)
    }
}

} // verus!
