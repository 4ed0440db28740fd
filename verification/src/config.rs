//! The configuration of the parser.
use vstd::prelude::*;

use crate::models::BITS_1_0;

verus! {

/// How the OBJ parser treats its input.
#[derive(Debug, Clone, Copy, PartialEq, Eq, Structural)]
pub struct Config {
    /// The bits of the `f32` factor applied to vertex coordinates when loading.
    pub vertex_scale: u32,
    /// Whether faces with more than three vertices are split into triangles.
    pub triangulate: bool,
}

impl Default for Config {
    /// A vertex scale of `1.0` and no triangulation.
    fn default() -> (r: Self)
        ensures
            r == (Config { vertex_scale: BITS_1_0, triangulate: false }),
    {
        Config { vertex_scale: BITS_1_0, triangulate: false }
    }
}

} // verus!
