//! Planning a model's elements for emission: resolving every declared face
//! and reconstructing each element's box corners.
//!
//! The plan is everything the numeric stages need: the raw corners (the
//! caller applies any whole-element rotation to them), the resolved texel
//! coordinates with their atlas rectangles (the caller normalizes and
//! bleed-corrects them), and the declared rotation itself.

use vstd::prelude::*;

use crate::atlas::AtlasRect;
use crate::double::{max_bits, min_bits, minmax};
use crate::error::McModelError;
use crate::mesh::ElementCorners;
use crate::model::{McModelElement, McModelFace, McModelJson, McModelRotation};
use crate::uv::{resolve_face_uv, resolve_face_uv_spec, ResolvedFaceUv};

verus! {

/// One element, ready for the numeric stages: its raw box corners, its
/// optional whole-element rotation, and each declared face resolved.
#[derive(Clone, Debug)]
pub struct ElementPlan {
    pub corners: ElementCorners,
    pub rotation: Option<McModelRotation>,
    pub north: Option<ResolvedFaceUv>,
    pub east: Option<ResolvedFaceUv>,
    pub south: Option<ResolvedFaceUv>,
    pub west: Option<ResolvedFaceUv>,
    pub up: Option<ResolvedFaceUv>,
    pub down: Option<ResolvedFaceUv>,
}

/// Whether corner `ci` takes the max (rather than min) coordinate on axis
/// `ax`, under the corner numbering of [`ElementCorners`].
pub open spec fn corner_uses_max(ci: int, ax: int) -> bool {
    if ax == 0 {
        ci >= 4
    } else if ax == 1 {
        ci == 2 || ci == 3 || ci == 6 || ci == 7
    } else {
        ci % 2 == 1
    }
}

/// Coordinate `ax` of corner `ci` of an element's reconstructed box.
pub open spec fn corner_coord_spec(e: McModelElement, ci: int, ax: int) -> u64 {
    if corner_uses_max(ci, ax) {
        max_bits(e.from@[ax], e.to@[ax])
    } else {
        min_bits(e.from@[ax], e.to@[ax])
    }
}

/// The corners hold exactly the element's reconstructed box.
pub open spec fn corners_of_spec(e: McModelElement, c: ElementCorners) -> bool {
    forall|ci: int, ax: int|
        0 <= ci < 8 && 0 <= ax < 3 ==> #[trigger] c.pts@[ci][ax] == corner_coord_spec(e, ci, ax)
}

/// Resolving an optional face: nothing to do, a resolution, or its error.
pub open spec fn face_res_spec(
    f: Option<McModelFace>,
    allocations: Seq<(String, AtlasRect)>,
    fallback: AtlasRect,
) -> Result<Option<ResolvedFaceUv>, McModelError> {
    match f {
        Some(face) => match resolve_face_uv_spec(face, allocations, fallback) {
            Ok(v) => Ok(Some(v)),
            Err(e) => Err(e),
        },
        None => Ok(None),
    }
}

/// The resolution of an optional face on the success path.
pub open spec fn face_ok_spec(
    f: Option<McModelFace>,
    allocations: Seq<(String, AtlasRect)>,
    fallback: AtlasRect,
) -> Option<ResolvedFaceUv> {
    match face_res_spec(f, allocations, fallback) {
        Ok(v) => v,
        Err(_) => None,
    }
}

/// The first resolution error among an element's six faces, in the fixed
/// north, east, south, west, up, down order.
pub open spec fn element_error_spec(
    e: McModelElement,
    allocations: Seq<(String, AtlasRect)>,
    fallback: AtlasRect,
) -> Option<McModelError> {
    match face_res_spec(e.faces.north, allocations, fallback) {
        Err(er) => Some(er),
        Ok(_) => match face_res_spec(e.faces.east, allocations, fallback) {
            Err(er) => Some(er),
            Ok(_) => match face_res_spec(e.faces.south, allocations, fallback) {
                Err(er) => Some(er),
                Ok(_) => match face_res_spec(e.faces.west, allocations, fallback) {
                    Err(er) => Some(er),
                    Ok(_) => match face_res_spec(e.faces.up, allocations, fallback) {
                        Err(er) => Some(er),
                        Ok(_) => match face_res_spec(e.faces.down, allocations, fallback) {
                            Err(er) => Some(er),
                            Ok(_) => None,
                        },
                    },
                },
            },
        },
    }
}

/// The first resolution error over a sequence of elements.
pub open spec fn model_error_spec(
    elements: Seq<McModelElement>,
    allocations: Seq<(String, AtlasRect)>,
    fallback: AtlasRect,
) -> Option<McModelError>
    decreases elements.len(),
{
    if elements.len() == 0 {
        None
    } else {
        match model_error_spec(elements.drop_last(), allocations, fallback) {
            Some(er) => Some(er),
            None => element_error_spec(elements.last(), allocations, fallback),
        }
    }
}

/// An error in a prefix is the error of the whole sequence.
proof fn lemma_model_error_prefix(
    elements: Seq<McModelElement>,
    allocations: Seq<(String, AtlasRect)>,
    fallback: AtlasRect,
    j: int,
)
    requires
        0 <= j <= elements.len(),
        model_error_spec(elements.take(j), allocations, fallback) is Some,
    ensures
        model_error_spec(elements, allocations, fallback) == model_error_spec(
            elements.take(j),
            allocations,
            fallback,
        ),
    decreases elements.len() - j,
{
    if j < elements.len() {
        assert(elements.take(j + 1).drop_last() =~= elements.take(j));
        lemma_model_error_prefix(elements, allocations, fallback, j + 1);
    } else {
        assert(elements.take(j) =~= elements);
    }
}

/// Resolve an optional face.
fn resolve_opt(
    f: &Option<McModelFace>,
    allocations: &Vec<(String, AtlasRect)>,
    fallback: AtlasRect,
) -> (r: Result<Option<ResolvedFaceUv>, McModelError>)
    ensures
        r == face_res_spec(*f, allocations@, fallback),
{
    match f {
        Some(face) => match resolve_face_uv(face, allocations, fallback) {
            Ok(v) => Ok(Some(v)),
            Err(e) => Err(e),
        },
        None => Ok(None),
    }
}

/// Plan every element: reconstruct its box corners by componentwise
/// min/max of the two declared corners, and resolve each declared face.
/// The first face that fails to resolve aborts the conversion with its
/// error.
pub fn plan_elements(
    model: &McModelJson,
    allocations: &Vec<(String, AtlasRect)>,
    fallback: AtlasRect,
) -> (r: Result<Vec<ElementPlan>, McModelError>)
    ensures
        r is Ok <==> model_error_spec(model.elements@, allocations@, fallback) is None,
        r matches Err(e) ==> model_error_spec(model.elements@, allocations@, fallback) == Some(
            e,
        ),
        r matches Ok(plans) ==> {
            &&& plans@.len() == model.elements@.len()
            &&& forall|j: int|
                0 <= j < plans@.len() ==> (#[trigger] plans@[j]).rotation
                    == model.elements@[j].rotation
            &&& forall|j: int|
                0 <= j < plans@.len() ==> corners_of_spec(
                    model.elements@[j],
                    (#[trigger] plans@[j]).corners,
                )
            &&& forall|j: int|
                0 <= j < plans@.len() ==> (#[trigger] plans@[j]).north == face_ok_spec(
                    model.elements@[j].faces.north,
                    allocations@,
                    fallback,
                )
            &&& forall|j: int|
                0 <= j < plans@.len() ==> (#[trigger] plans@[j]).east == face_ok_spec(
                    model.elements@[j].faces.east,
                    allocations@,
                    fallback,
                )
            &&& forall|j: int|
                0 <= j < plans@.len() ==> (#[trigger] plans@[j]).south == face_ok_spec(
                    model.elements@[j].faces.south,
                    allocations@,
                    fallback,
                )
            &&& forall|j: int|
                0 <= j < plans@.len() ==> (#[trigger] plans@[j]).west == face_ok_spec(
                    model.elements@[j].faces.west,
                    allocations@,
                    fallback,
                )
            &&& forall|j: int|
                0 <= j < plans@.len() ==> (#[trigger] plans@[j]).up == face_ok_spec(
                    model.elements@[j].faces.up,
                    allocations@,
                    fallback,
                )
            &&& forall|j: int|
                0 <= j < plans@.len() ==> (#[trigger] plans@[j]).down == face_ok_spec(
                    model.elements@[j].faces.down,
                    allocations@,
                    fallback,
                )
        },
{
    let mut plans: Vec<ElementPlan> = Vec::new();
    let n = model.elements.len();
    let mut i: usize = 0;
    proof {
        assert(model.elements@.take(0) =~= Seq::<McModelElement>::empty());
    }
    while i < n
        invariant
            n == model.elements@.len(),
            i <= n,
            model_error_spec(model.elements@.take(i as int), allocations@, fallback) is None,
            plans@.len() == i,
            forall|j: int|
                0 <= j < i ==> (#[trigger] plans@[j]).rotation == model.elements@[j].rotation,
            forall|j: int|
                0 <= j < i ==> corners_of_spec(model.elements@[j], (#[trigger] plans@[j]).corners),
            forall|j: int|
                0 <= j < i ==> (#[trigger] plans@[j]).north == face_ok_spec(
                    model.elements@[j].faces.north,
                    allocations@,
                    fallback,
                ),
            forall|j: int|
                0 <= j < i ==> (#[trigger] plans@[j]).east == face_ok_spec(
                    model.elements@[j].faces.east,
                    allocations@,
                    fallback,
                ),
            forall|j: int|
                0 <= j < i ==> (#[trigger] plans@[j]).south == face_ok_spec(
                    model.elements@[j].faces.south,
                    allocations@,
                    fallback,
                ),
            forall|j: int|
                0 <= j < i ==> (#[trigger] plans@[j]).west == face_ok_spec(
                    model.elements@[j].faces.west,
                    allocations@,
                    fallback,
                ),
            forall|j: int|
                0 <= j < i ==> (#[trigger] plans@[j]).up == face_ok_spec(
                    model.elements@[j].faces.up,
                    allocations@,
                    fallback,
                ),
            forall|j: int|
                0 <= j < i ==> (#[trigger] plans@[j]).down == face_ok_spec(
                    model.elements@[j].faces.down,
                    allocations@,
                    fallback,
                ),
        decreases n - i,
    {
        proof {
            assert(model.elements@.take(i + 1).drop_last() =~= model.elements@.take(i as int));
            assert(model.elements@.take(i + 1).last() == model.elements@[i as int]);
        }
        let e = &model.elements[i];
        let north = match resolve_opt(&e.faces.north, allocations, fallback) {
            Ok(v) => v,
            Err(er) => {
                proof {
                    lemma_model_error_prefix(model.elements@, allocations@, fallback, i + 1);
                }
                return Err(er);
            },
        };
        let east = match resolve_opt(&e.faces.east, allocations, fallback) {
            Ok(v) => v,
            Err(er) => {
                proof {
                    lemma_model_error_prefix(model.elements@, allocations@, fallback, i + 1);
                }
                return Err(er);
            },
        };
        let south = match resolve_opt(&e.faces.south, allocations, fallback) {
            Ok(v) => v,
            Err(er) => {
                proof {
                    lemma_model_error_prefix(model.elements@, allocations@, fallback, i + 1);
                }
                return Err(er);
            },
        };
        let west = match resolve_opt(&e.faces.west, allocations, fallback) {
            Ok(v) => v,
            Err(er) => {
                proof {
                    lemma_model_error_prefix(model.elements@, allocations@, fallback, i + 1);
                }
                return Err(er);
            },
        };
        let up = match resolve_opt(&e.faces.up, allocations, fallback) {
            Ok(v) => v,
            Err(er) => {
                proof {
                    lemma_model_error_prefix(model.elements@, allocations@, fallback, i + 1);
                }
                return Err(er);
            },
        };
        let down = match resolve_opt(&e.faces.down, allocations, fallback) {
            Ok(v) => v,
            Err(er) => {
                proof {
                    lemma_model_error_prefix(model.elements@, allocations@, fallback, i + 1);
                }
                return Err(er);
            },
        };
        let (x0, x1) = minmax(e.from[0], e.to[0]);
        let (y0, y1) = minmax(e.from[1], e.to[1]);
        let (z0, z1) = minmax(e.from[2], e.to[2]);
        let corners = ElementCorners {
            pts: [
                [x0, y0, z0],
                [x0, y0, z1],
                [x0, y1, z0],
                [x0, y1, z1],
                [x1, y0, z0],
                [x1, y0, z1],
                [x1, y1, z0],
                [x1, y1, z1],
            ],
        };
        proof {
            assert forall|ci: int, ax: int| 0 <= ci < 8 && 0 <= ax < 3 implies #[trigger] corners
                .pts@[ci][ax] == corner_coord_spec(*e, ci, ax) by {
            }
        }
        let plan = ElementPlan { corners, rotation: e.rotation, north, east, south, west, up, down };
        plans.push(plan);
        i += 1;
    }
    proof {
        assert(model.elements@.take(n as int) =~= model.elements@);
    }
    Ok(plans)
}

} // verus!
