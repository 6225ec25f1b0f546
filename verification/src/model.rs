//! The in-memory block model: cuboid elements, their faces, and the fixed
//! per-direction constants.
//!
//! Numeric fields that the source document declares as binary64 (corners, UV
//! rectangles, rotation angles and origins) are carried as raw bit patterns
//! (`u64`); see the crate documentation.

use vstd::prelude::*;

verus! {

/// Axis about which a whole cuboid element may be rotated.
#[derive(Clone, Copy, Debug, PartialEq, Eq, Structural)]
pub enum McModelRotationAxis {
    X,
    Y,
    Z,
}

/// One of the six axis-aligned directions a cuboid face can look toward.
#[derive(Clone, Copy, Debug, PartialEq, Eq, Structural)]
pub enum McModelDirection {
    North,
    East,
    South,
    West,
    Up,
    Down,
}

/// A flat color, one byte per channel, in sRGB with linear alpha.
#[derive(Clone, Copy, Debug, PartialEq, Eq, Structural, Hash)]
pub struct Rgba {
    pub r: u8,
    pub g: u8,
    pub b: u8,
    pub a: u8,
}

impl McModelDirection {
    /// The fixed outward unit normal of this direction, as integer components.
    pub open spec fn normal_spec(self) -> (i8, i8, i8) {
        match self {
            McModelDirection::North => (0i8, 0i8, -1i8),
            McModelDirection::East => (1i8, 0i8, 0i8),
            McModelDirection::South => (0i8, 0i8, 1i8),
            McModelDirection::West => (-1i8, 0i8, 0i8),
            McModelDirection::Up => (0i8, 1i8, 0i8),
            McModelDirection::Down => (0i8, -1i8, 0i8),
        }
    }

    /// The fixed outward unit normal of this direction, as integer components.
    pub fn get_normal(&self) -> (r: (i8, i8, i8))
        ensures
            r == self.normal_spec(),
    {
        match self {
            McModelDirection::North => (0, 0, -1),
            McModelDirection::East => (1, 0, 0),
            McModelDirection::South => (0, 0, 1),
            McModelDirection::West => (-1, 0, 0),
            McModelDirection::Up => (0, 1, 0),
            McModelDirection::Down => (0, -1, 0),
        }
    }

    /// The fixed, non-physical shading multiplier of this direction (north
    /// and south 0.8, east and west 0.6, up 1.0, down 0.5), rendered as an
    /// opaque sRGB gray: each channel is the multiplier times 255, truncated
    /// toward zero.
    pub open spec fn shading_srgba_spec(self) -> Rgba {
        match self {
            McModelDirection::North => Rgba { r: 204, g: 204, b: 204, a: 255 },
            McModelDirection::East => Rgba { r: 153, g: 153, b: 153, a: 255 },
            McModelDirection::South => Rgba { r: 204, g: 204, b: 204, a: 255 },
            McModelDirection::West => Rgba { r: 153, g: 153, b: 153, a: 255 },
            McModelDirection::Up => Rgba { r: 255, g: 255, b: 255, a: 255 },
            McModelDirection::Down => Rgba { r: 127, g: 127, b: 127, a: 255 },
        }
    }

    /// The fixed shading multiplier of this direction as an opaque sRGB gray.
    pub fn get_shading_srgba(&self) -> (r: Rgba)
        ensures
            r == self.shading_srgba_spec(),
    {
        match self {
            McModelDirection::North => Rgba { r: 204, g: 204, b: 204, a: 255 },
            McModelDirection::East => Rgba { r: 153, g: 153, b: 153, a: 255 },
            McModelDirection::South => Rgba { r: 204, g: 204, b: 204, a: 255 },
            McModelDirection::West => Rgba { r: 153, g: 153, b: 153, a: 255 },
            McModelDirection::Up => Rgba { r: 255, g: 255, b: 255, a: 255 },
            McModelDirection::Down => Rgba { r: 127, g: 127, b: 127, a: 255 },
        }
    }
}

/// A whole-element rotation: a continuous angle in degrees about one global
/// axis, around a pivot point. Angle and origin are binary64 bit patterns.
#[derive(Clone, Copy, Debug)]
pub struct McModelRotation {
    pub angle: u64,
    pub axis: McModelRotationAxis,
    pub origin: [u64; 3],
}

/// One declared face of a cuboid element.
#[derive(Clone, Debug)]
pub struct McModelFace {
    /// The declared UV rectangle `[u0, v0, u1, v1]`, in texel space relative
    /// to a 16-unit reference block, as binary64 bit patterns.
    pub uv: [u64; 4],
    /// The texture reference; it must start with the `#` sigil.
    pub texture: String,
    /// Discrete UV rotation in degrees; only 0, 90, 180 and 270 are valid.
    pub rotation: i16,
    /// Neighbor-direction hint for face culling; recorded, never acted on.
    pub cullface: Option<McModelDirection>,
}

/// The up to six declared faces of a cuboid element.
#[derive(Clone, Debug)]
pub struct McModelFaces {
    pub north: Option<McModelFace>,
    pub east: Option<McModelFace>,
    pub south: Option<McModelFace>,
    pub west: Option<McModelFace>,
    pub up: Option<McModelFace>,
    pub down: Option<McModelFace>,
}

/// An axis-aligned cuboid, given by two corners that are not necessarily
/// ordered; the box is reconstructed by componentwise min/max.
#[derive(Clone, Debug)]
pub struct McModelElement {
    pub from: [u64; 3],
    pub to: [u64; 3],
    pub faces: McModelFaces,
    pub rotation: Option<McModelRotation>,
}

/// A named display transform preset. All components are binary64 bit patterns.
#[derive(Clone, Copy, Debug)]
pub enum McModelDisplay {
    FirstpersonRighthand { rotation: [u64; 3], translation: [u64; 3], scale: [u64; 3] },
}

/// A whole block model document.
#[derive(Clone, Debug)]
pub struct McModelJson {
    pub parent: String,
    pub display: Option<McModelDisplay>,
    /// Texture id to path fragment, in declaration order.
    pub textures: Vec<(String, String)>,
    pub elements: Vec<McModelElement>,
}

impl McModelFaces {
    /// How many of the six faces are declared.
    pub open spec fn enabled_spec(self) -> int {
        (if self.north is Some { 1int } else { 0 })
        + (if self.east is Some { 1int } else { 0 })
        + (if self.south is Some { 1int } else { 0 })
        + (if self.west is Some { 1int } else { 0 })
        + (if self.up is Some { 1int } else { 0 })
        + (if self.down is Some { 1int } else { 0 })
    }
}

impl McModelElement {
    /// How many of this element's six faces are declared.
    pub fn faces_enabled(&self) -> (n: usize)
        ensures
            n == self.faces.enabled_spec(),
    {
        let mut count: usize = 0;
        if self.faces.north.is_some() {
            count += 1;
        }
        if self.faces.east.is_some() {
            count += 1;
        }
        if self.faces.south.is_some() {
            count += 1;
        }
        if self.faces.west.is_some() {
            count += 1;
        }
        if self.faces.up.is_some() {
            count += 1;
        }
        if self.faces.down.is_some() {
            count += 1;
        }
        count
    }
}

/// The total number of declared faces over a sequence of elements.
pub open spec fn total_faces_spec(elements: Seq<McModelElement>) -> int
    decreases elements.len(),
{
    if elements.len() == 0 {
        0
    } else {
        total_faces_spec(elements.drop_last()) + elements.last().faces.enabled_spec()
    }
}

impl McModelJson {
    /// The total number of declared faces over all elements.
    pub fn face_count(&self) -> (n: usize)
        requires
            self.elements.len() * 6 <= usize::MAX,
        ensures
            n == total_faces_spec(self.elements@),
    {
        let mut count: usize = 0;
        let mut i: usize = 0;
        while i < self.elements.len()
            invariant
                i <= self.elements.len(),
                self.elements.len() * 6 <= usize::MAX,
                count == total_faces_spec(self.elements@.take(i as int)),
                count <= i * 6,
            decreases self.elements.len() - i,
        {
            proof {
                assert(self.elements@.take(i + 1).drop_last() =~= self.elements@.take(i as int));
                assert(self.elements@.take(i + 1).last() == self.elements@[i as int]);
            }
            count += self.elements[i].faces_enabled();
            i += 1;
        }
        proof {
            assert(self.elements@.take(self.elements@.len() as int) =~= self.elements@);
        }
        count
    }
}

} // verus!
