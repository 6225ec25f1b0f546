//! Resolving a face's declared texture coordinates: sigil check, atlas
//! lookup, V-flip and discrete rotation.
//!
//! The coordinates stay in texel space as binary64 bit patterns; this stage
//! only checks, looks up and shuffles them. Translating them to the matched
//! rectangle and normalizing to atlas space is numeric work the caller does
//! with the returned rectangle.

use vstd::prelude::*;

use crate::atlas::AtlasRect;
use crate::error::McModelError;
use crate::model::McModelFace;

verus! {

/// A face's texture coordinates after reference resolution, V-flip and
/// discrete rotation, still in texel space as binary64 bit patterns.
#[derive(Clone, Copy, Debug, PartialEq, Eq, Structural)]
pub struct ResolvedFaceUv {
    /// Whether the emitter must use the mirrored vertex-to-UV pairing
    /// (true exactly for rotations of 90 and 270 degrees).
    pub flip: bool,
    pub u0: u64,
    pub v0: u64,
    pub u1: u64,
    pub v1: u64,
    /// The atlas rectangle whose min corner offsets these coordinates: the
    /// matched allocation, or the fallback tile.
    pub rect: AtlasRect,
}

/// The discrete rotations a face may declare.
pub open spec fn uv_rotation_valid(rotation: i16) -> bool {
    rotation == 0 || rotation == 90 || rotation == 180 || rotation == 270
}

/// The declared corners `[u0, v0, u1, v1]` after the V-flip (the source
/// convention stores V inverted) and the discrete rotation, as
/// `(flip, u0, v0, u1, v1)`.
pub open spec fn rotated_uv_spec(uv: [u64; 4], rotation: i16) -> (bool, u64, u64, u64, u64)
    recommends
        uv_rotation_valid(rotation),
{
    if rotation == 0 {
        (false, uv[0], uv[3], uv[2], uv[1])
    } else if rotation == 90 {
        (true, uv[0], uv[1], uv[2], uv[3])
    } else if rotation == 180 {
        (false, uv[2], uv[1], uv[0], uv[3])
    } else {
        (true, uv[2], uv[3], uv[0], uv[1])
    }
}

/// The rectangle an id resolves to: the first mapping entry with that id,
/// or the fallback tile when no entry has it.
pub open spec fn lookup_rect_spec(
    allocations: Seq<(String, AtlasRect)>,
    id: Seq<char>,
    fallback: AtlasRect,
) -> AtlasRect
    decreases allocations.len(),
{
    if allocations.len() == 0 {
        fallback
    } else if allocations.first().0@ == id {
        allocations.first().1
    } else {
        lookup_rect_spec(allocations.drop_first(), id, fallback)
    }
}

/// What resolving a face yields: the errors the reference demands, in their
/// order, else the looked-up rectangle with the shuffled coordinates.
pub open spec fn resolve_face_uv_spec(
    face: McModelFace,
    allocations: Seq<(String, AtlasRect)>,
    fallback: AtlasRect,
) -> Result<ResolvedFaceUv, McModelError> {
    if face.texture@.len() == 0 || face.texture@[0] != '#' {
        Err(McModelError::MalformedReference)
    } else if !uv_rotation_valid(face.rotation) {
        Err(McModelError::UnsupportedRotation(face.rotation))
    } else {
        let rect = lookup_rect_spec(
            allocations,
            face.texture@.subrange(1, face.texture@.len() as int),
            fallback,
        );
        let p = rotated_uv_spec(face.uv, face.rotation);
        Ok(ResolvedFaceUv { flip: p.0, u0: p.1, v0: p.2, u1: p.3, v1: p.4, rect })
    }
}

/// The first allocation entry whose id matches, or the fallback tile.
fn lookup_rect(allocations: &Vec<(String, AtlasRect)>, id: &str, fallback: AtlasRect) -> (r:
    AtlasRect)
    ensures
        r == lookup_rect_spec(allocations@, id@, fallback),
{
    let id_string: String = id.to_owned();
    let n = allocations.len();
    let mut j: usize = 0;
    proof {
        assert(allocations@.skip(0) =~= allocations@);
    }
    while j < n
        invariant
            n == allocations@.len(),
            j <= n,
            id_string@ == id@,
            lookup_rect_spec(allocations@, id@, fallback) == lookup_rect_spec(
                allocations@.skip(j as int),
                id@,
                fallback,
            ),
        decreases n - j,
    {
        let entry = &allocations[j];
        if entry.0 == id_string {
            return entry.1;
        }
        proof {
            assert(allocations@.skip(j as int).drop_first() =~= allocations@.skip(j + 1));
        }
        j += 1;
    }
    proof {
        assert(allocations@.skip(n as int) =~= Seq::<(String, AtlasRect)>::empty());
    }
    fallback
}

/// Resolve one face: demand the `#` sigil, reject rotations outside
/// {0, 90, 180, 270}, substitute the fallback tile for an id with no
/// allocation, flip V and apply the rotation.
pub fn resolve_face_uv(
    face: &McModelFace,
    allocations: &Vec<(String, AtlasRect)>,
    fallback: AtlasRect,
) -> (r: Result<ResolvedFaceUv, McModelError>)
    ensures
        r == resolve_face_uv_spec(*face, allocations@, fallback),
{
    let len = face.texture.as_str().unicode_len();
    if len == 0 {
        return Err(McModelError::MalformedReference);
    }
    if face.texture.as_str().get_char(0) != '#' {
        return Err(McModelError::MalformedReference);
    }
    let (flip, u0, v0, u1, v1) = match face.rotation {
        0 => (false, face.uv[0], face.uv[3], face.uv[2], face.uv[1]),
        90 => (true, face.uv[0], face.uv[1], face.uv[2], face.uv[3]),
        180 => (false, face.uv[2], face.uv[1], face.uv[0], face.uv[3]),
        270 => (true, face.uv[2], face.uv[3], face.uv[0], face.uv[1]),
        _ => {
            return Err(McModelError::UnsupportedRotation(face.rotation));
        },
    };
    let id = face.texture.as_str().substring_char(1, len);
    let rect = lookup_rect(allocations, id, fallback);
    Ok(ResolvedFaceUv { flip, u0, v0, u1, v1, rect })
}

/// A lookup over entries that all miss lands on the fallback.
proof fn lemma_lookup_miss(
    allocations: Seq<(String, AtlasRect)>,
    id: Seq<char>,
    fallback: AtlasRect,
)
    requires
        forall|j: int| 0 <= j < allocations.len() ==> (#[trigger] allocations[j]).0@ != id,
    ensures
        lookup_rect_spec(allocations, id, fallback) == fallback,
    decreases allocations.len(),
{
    if allocations.len() > 0 {
        assert forall|j: int| 0 <= j < allocations.drop_first().len() implies (#[trigger]
        allocations.drop_first()[j]).0@ != id by {
            assert(allocations.drop_first()[j] == allocations[j + 1]);
        }
        lemma_lookup_miss(allocations.drop_first(), id, fallback);
    }
}

/// Law: fallback substitution. A face whose reference carries the sigil and
/// whose rotation is valid always resolves, even when no allocation entry
/// carries its stripped id; in that case, and only through this one path,
/// the face gets the reserved fallback rectangle.
pub proof fn lemma_fallback_substitution(
    face: McModelFace,
    allocations: Seq<(String, AtlasRect)>,
    fallback: AtlasRect,
)
    requires
        face.texture@.len() > 0,
        face.texture@[0] == '#',
        uv_rotation_valid(face.rotation),
        forall|j: int|
            0 <= j < allocations.len() ==> (#[trigger] allocations[j]).0@
                != face.texture@.subrange(1, face.texture@.len() as int),
    ensures
        resolve_face_uv_spec(face, allocations, fallback) matches Ok(r) && r.rect == fallback,
{
    lemma_lookup_miss(
        allocations,
        face.texture@.subrange(1, face.texture@.len() as int),
        fallback,
    );
}

/// Law: rotation 0 keeps the V-flipped corners with no permutation and no
/// mirrored pairing; rotation 180 lands on the diagonally opposite corners —
/// `u0` with `u1` exchanged and `v0` with `v1` exchanged — again without the
/// pairing; rotations 90 and 270 both set the mirrored pairing, 90 keeping
/// the U corners and exchanging the V corners, 270 the other way around, so
/// the two exchange the roles of the U and V spans on the face.
pub proof fn lemma_uv_rotation_relations(uv: [u64; 4])
    ensures
        ({
            let base = rotated_uv_spec(uv, 0);
            let half = rotated_uv_spec(uv, 180);
            &&& !base.0
            &&& !half.0
            &&& half.1 == base.3
            &&& half.3 == base.1
            &&& half.2 == base.4
            &&& half.4 == base.2
        }),
        ({
            let base = rotated_uv_spec(uv, 0);
            let quarter = rotated_uv_spec(uv, 90);
            let three_quarter = rotated_uv_spec(uv, 270);
            &&& quarter.0
            &&& three_quarter.0
            &&& quarter.1 == base.1
            &&& quarter.3 == base.3
            &&& quarter.2 == base.4
            &&& quarter.4 == base.2
            &&& three_quarter.1 == base.3
            &&& three_quarter.3 == base.1
            &&& three_quarter.2 == base.2
            &&& three_quarter.4 == base.4
        }),
{
}

} // verus!

