# cirious_crdf

A library for 3D scene data: meshes, materials, skins, animations and nodes,
an OBJ text parser, and the operations that edit, query, check and
restructure the meshes of a scene. The logic is written in Verus and proved
against its specifications; the parts that need floating-point arithmetic,
files or JSON live in a small companion crate.

## Layout

- `src/` — the verified library.
  - `models.rs`: the scene model. Real values (coordinates, colours,
    weights) are stored as the bit patterns of `f32` values.
  - `editing.rs`, `access.rs`, `queries.rs`: creating and editing scenes,
    looking things up, counting.
  - `validation.rs`: whether every index of a scene refers to something.
  - `text.rs`, `parser.rs`: splitting OBJ text into lines and words and
    parsing it; the caller supplies the `f32` values of the numeric words.
  - `mesh_ops.rs`: flipping faces and normals, merging, unwelding.
  - `welding.rs`, `smoothing.rs`: merging vertices, normals and UVs by grid
    cell, and smoothed normals; the cells are computed by the caller.
  - `split.rs`, `parts.rs`: connected parts of a mesh and the split into one
    mesh per part.
  - `obj_export.rs`: the face section of an OBJ file.
  - `file_type.rs`: the file format told by a file name.
  - `laws.rs`: properties that relate operations, or hold of every result
    (what each operation keeps valid, what it keeps of every corner, what
    undoes what).
- `tests/` — tests of the library on concrete scenes.
- `app/` — the companion crate: `f32` vector arithmetic, bounding boxes,
  transforms, normal computation, grid keys, OBJ and JSON files, and the
  configuration file.
