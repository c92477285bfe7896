//! The candidate shape: three integer vertices, an RGB color and an optional
//! fill opacity. Values are immutable; crossover and mutation build new ones.

use vstd::prelude::*;
use crate::params::OPACITY_SCALE;

verus! {

/// One 2D corner of a triangle, in pixel coordinates.
#[derive(Clone, Copy, Debug, PartialEq, Eq, Structural)]
pub struct Vertex {
    pub x: i32,
    pub y: i32,
}

/// An 8-bit-per-channel RGB fill color.
#[derive(Clone, Copy, Debug, PartialEq, Eq, Structural)]
pub struct Color {
    pub r: u8,
    pub g: u8,
    pub b: u8,
}

/// A candidate triangle. `opacity` is present exactly in the alpha-blended
/// variant of the search, in units of `1/OPACITY_SCALE`.
#[derive(Clone, Copy, Debug, PartialEq, Eq)]
pub struct Triangle {
    pub v0: Vertex,
    pub v1: Vertex,
    pub v2: Vertex,
    pub color: Color,
    pub opacity: Option<u16>,
}

/// The vertex lies on the square canvas of the given side length.
pub open spec fn vertex_in_canvas(v: Vertex, size: u32) -> bool {
    &&& 0 <= v.x < size
    &&& 0 <= v.y < size
}

/// The conditions every scoring and drawing call needs: vertices on the
/// canvas and an opacity, when present, in range.
pub open spec fn tri_sane(t: Triangle, size: u32) -> bool {
    &&& vertex_in_canvas(t.v0, size)
    &&& vertex_in_canvas(t.v1, size)
    &&& vertex_in_canvas(t.v2, size)
    &&& match t.opacity {
        Some(o) => o <= OPACITY_SCALE,
        None => true,
    }
}

/// Well-formedness of a triangle for a run: every vertex on the canvas, and
/// an opacity in range exactly when the run's variant calls for one.
pub open spec fn tri_wf(t: Triangle, size: u32, use_opacity: bool) -> bool {
    &&& vertex_in_canvas(t.v0, size)
    &&& vertex_in_canvas(t.v1, size)
    &&& vertex_in_canvas(t.v2, size)
    &&& match t.opacity {
        Some(o) => use_opacity && o <= OPACITY_SCALE,
        None => !use_opacity,
    }
}

} // verus!
