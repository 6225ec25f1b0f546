//! The fatal failure modes of a model conversion.

use vstd::prelude::*;

verus! {

/// A fatal conversion error. Every variant aborts the whole conversion; a
/// texture file that merely fails to load is not an error here, the face
/// falls back to the reserved fallback tile instead.
#[derive(Clone, Copy, Debug, PartialEq, Eq, Structural)]
pub enum McModelError {
    /// A face's texture reference does not start with the `#` sigil.
    MalformedReference,
    /// A face's texture rotation is not one of 0, 90, 180 or 270 degrees.
    /// Carries the rejected value.
    UnsupportedRotation(i16),
    /// The atlas allocator could not place a tile on the fixed canvas.
    AtlasExhausted,
    /// More unique vertices than the widest index form can address.
    TooManyVertices,
}

} // verus!
