//! Triangle emission and bit-exact vertex deduplication.
//!
//! Each enabled face of a cuboid becomes two triangles (six vertices) whose
//! corners are picked from the element's eight box corners by fixed
//! per-direction templates, paired with the face's texture coordinates in an
//! order chosen by the mirrored-pairing flag, and colored with the
//! direction's flat shading gray. Vertices are deduplicated by exact bit
//! equality of every field; indices then take the narrowest width that fits.

use vstd::prelude::*;

use crate::error::McModelError;
use crate::model::{McModelDirection, Rgba};

verus! {

/// One emitted vertex: position and texture coordinates as binary64 bit
/// patterns, and the face's flat shading color. Vertex identity is equality
/// of all six fields, bit for bit.
#[derive(Clone, Copy, Debug, PartialEq, Eq, Structural)]
pub struct Vertex {
    pub x: u64,
    pub y: u64,
    pub z: u64,
    pub u: u64,
    pub v: u64,
    pub color: Rgba,
}

/// A face ready for emission: the mirrored-pairing flag from resolution and
/// the four atlas-normalized, bleed-corrected coordinates as binary64 bit
/// patterns.
#[derive(Clone, Copy, Debug, PartialEq, Eq, Structural)]
pub struct FaceQuad {
    pub flip: bool,
    pub u0: u64,
    pub v0: u64,
    pub u1: u64,
    pub v1: u64,
}

/// The eight corners of an element's box, after any whole-element rotation,
/// indexed by choice bits: corner `(xi, yi, zi)` sits at `4*xi + 2*yi + zi`,
/// where bit 0 picks the min corner of that axis and bit 1 the max corner.
#[derive(Clone, Copy, Debug)]
pub struct ElementCorners {
    pub pts: [[u64; 3]; 8],
}

/// Everything the emitter needs of one element: its corners and, per
/// direction, the face to emit.
#[derive(Clone, Debug)]
pub struct ElementGeom {
    pub corners: ElementCorners,
    pub north: Option<FaceQuad>,
    pub east: Option<FaceQuad>,
    pub south: Option<FaceQuad>,
    pub west: Option<FaceQuad>,
    pub up: Option<FaceQuad>,
    pub down: Option<FaceQuad>,
}

// ---------------------------------------------------------------------------
// The emission templates.
// ---------------------------------------------------------------------------

/// Which of the eight corners vertex `k` of a face uses, per direction. Each
/// face is two triangles sharing a diagonal, in the fixed source winding.
pub open spec fn face_corner_index(dir: McModelDirection, k: int) -> int
    recommends
        0 <= k < 6,
{
    match dir {
        McModelDirection::North => seq![0int, 2, 6, 6, 4, 0][k],
        McModelDirection::East => seq![4int, 6, 7, 7, 5, 4][k],
        McModelDirection::South => seq![5int, 7, 3, 3, 1, 5][k],
        McModelDirection::West => seq![1int, 3, 2, 2, 0, 1][k],
        McModelDirection::Up => seq![7int, 6, 2, 2, 3, 7][k],
        McModelDirection::Down => seq![4int, 5, 1, 1, 0, 4][k],
    }
}

/// Which texture corner vertex `k` uses, as `(take u1, take v1)`. The two
/// pairings are mirror permutations of one another; the mirrored one keeps
/// the correspondence right for quarter-turned faces.
pub open spec fn face_uv_sel(flip: bool, k: int) -> (bool, bool)
    recommends
        0 <= k < 6,
{
    if flip {
        seq![(true, false), (false, false), (false, true), (false, true), (true, true), (true, false)][k]
    } else {
        seq![(true, false), (true, true), (false, true), (false, true), (false, false), (true, false)][k]
    }
}

/// Vertex `k` of a face: the templated corner, the selected texture corner,
/// and the direction's flat shading color.
pub open spec fn face_vertex_spec(
    corners: ElementCorners,
    quad: FaceQuad,
    dir: McModelDirection,
    k: int,
) -> Vertex {
    let p = corners.pts@[face_corner_index(dir, k)];
    let sel = face_uv_sel(quad.flip, k);
    Vertex {
        x: p[0],
        y: p[1],
        z: p[2],
        u: if sel.0 {
            quad.u1
        } else {
            quad.u0
        },
        v: if sel.1 {
            quad.v1
        } else {
            quad.v0
        },
        color: dir.shading_srgba_spec(),
    }
}

/// The six vertices a face emits, in order.
pub open spec fn face_stream(
    corners: ElementCorners,
    quad: FaceQuad,
    dir: McModelDirection,
) -> Seq<Vertex> {
    Seq::new(6nat, |k: int| face_vertex_spec(corners, quad, dir, k))
}

/// The vertices an optional face emits: six, or none.
pub open spec fn opt_face_stream(
    corners: ElementCorners,
    face: Option<FaceQuad>,
    dir: McModelDirection,
) -> Seq<Vertex> {
    match face {
        Some(quad) => face_stream(corners, quad, dir),
        None => Seq::empty(),
    }
}

/// The fixed emission order of the six direction slots.
pub open spec fn dir_at(d: int) -> McModelDirection {
    if d == 0 {
        McModelDirection::North
    } else if d == 1 {
        McModelDirection::East
    } else if d == 2 {
        McModelDirection::South
    } else if d == 3 {
        McModelDirection::West
    } else if d == 4 {
        McModelDirection::Up
    } else {
        McModelDirection::Down
    }
}

/// The face an element declares in direction slot `d`.
pub open spec fn dir_slot(g: ElementGeom, d: int) -> Option<FaceQuad> {
    if d == 0 {
        g.north
    } else if d == 1 {
        g.east
    } else if d == 2 {
        g.south
    } else if d == 3 {
        g.west
    } else if d == 4 {
        g.up
    } else {
        g.down
    }
}

/// The vertices the first `d` of an element's six direction slots emit, in
/// the fixed north, east, south, west, up, down order.
pub open spec fn element_stream_prefix(g: ElementGeom, d: int) -> Seq<Vertex>
    decreases d,
{
    if d <= 0 {
        Seq::empty()
    } else {
        element_stream_prefix(g, d - 1) + opt_face_stream(g.corners, dir_slot(g, d - 1), dir_at(d - 1))
    }
}

/// The vertices one element emits.
pub open spec fn element_stream(g: ElementGeom) -> Seq<Vertex> {
    element_stream_prefix(g, 6)
}

/// The vertices a whole model emits, element by element.
pub open spec fn model_stream(geoms: Seq<ElementGeom>) -> Seq<Vertex>
    decreases geoms.len(),
{
    if geoms.len() == 0 {
        Seq::empty()
    } else {
        model_stream(geoms.drop_last()) + element_stream(geoms.last())
    }
}

// ---------------------------------------------------------------------------
// Bit-exact deduplication, as a fold over the vertex stream.
// ---------------------------------------------------------------------------

/// One dedup step: a vertex already in the table leaves it unchanged, a new
/// one is appended.
pub open spec fn dedup_insert(table: Seq<Vertex>, v: Vertex) -> Seq<Vertex> {
    if table.contains(v) {
        table
    } else {
        table.push(v)
    }
}

/// The table after pushing a whole stream.
pub open spec fn dedup_push_all(table: Seq<Vertex>, stream: Seq<Vertex>) -> Seq<Vertex>
    decreases stream.len(),
{
    if stream.len() == 0 {
        table
    } else {
        dedup_insert(dedup_push_all(table, stream.drop_last()), stream.last())
    }
}

/// The position of the first occurrence of `v`, or the length when absent.
pub open spec fn first_index(table: Seq<Vertex>, v: Vertex) -> int
    decreases table.len(),
{
    if table.len() == 0 {
        0
    } else if table.first() == v {
        0
    } else {
        1 + first_index(table.drop_first(), v)
    }
}

/// The indices a stream gets when pushed onto a table: each vertex points at
/// its first occurrence in the table as grown so far.
pub open spec fn dedup_indices_from(table: Seq<Vertex>, stream: Seq<Vertex>) -> Seq<int> {
    Seq::new(
        stream.len(),
        |k: int| first_index(dedup_push_all(table, stream.take(k + 1)), stream[k]),
    )
}

/// Scanning past a prefix without a match only shifts the first occurrence.
proof fn lemma_first_index_skip(table: Seq<Vertex>, v: Vertex, j: int)
    requires
        0 <= j <= table.len(),
        forall|k: int| 0 <= k < j ==> table[k] != v,
    ensures
        first_index(table, v) == j + first_index(table.skip(j), v),
    decreases j,
{
    if j == 0 {
        assert(table.skip(0) =~= table);
    } else {
        assert(table.first() != v);
        assert(table.drop_first().skip(j - 1) =~= table.skip(j));
        lemma_first_index_skip(table.drop_first(), v, j - 1);
    }
}

/// A vertex absent from the table lands at its end when appended.
proof fn lemma_first_index_appended(table: Seq<Vertex>, v: Vertex)
    requires
        !table.contains(v),
    ensures
        first_index(table.push(v), v) == table.len(),
{
    assert(forall|k: int| 0 <= k < table.len() ==> table.push(v)[k] != v);
    lemma_first_index_skip(table.push(v), v, table.len() as int);
    assert(table.push(v).skip(table.len() as int) =~= seq![v]);
    assert(first_index(seq![v], v) == 0);
}

/// A matched vertex in a duplicate-free table is its only occurrence.
proof fn lemma_first_index_found(table: Seq<Vertex>, v: Vertex, j: int)
    requires
        0 <= j < table.len(),
        table[j] == v,
        forall|k: int| 0 <= k < j ==> table[k] != v,
    ensures
        first_index(table, v) == j,
{
    lemma_first_index_skip(table, v, j);
    assert(table.skip(j).first() == v);
}

/// Pushing two streams one after the other is pushing their concatenation.
proof fn lemma_dedup_push_all_concat(table: Seq<Vertex>, s1: Seq<Vertex>, s2: Seq<Vertex>)
    ensures
        dedup_push_all(table, s1 + s2) == dedup_push_all(dedup_push_all(table, s1), s2),
    decreases s2.len(),
{
    if s2.len() == 0 {
        assert(s1 + s2 =~= s1);
    } else {
        assert((s1 + s2).drop_last() =~= s1 + s2.drop_last());
        assert((s1 + s2).last() == s2.last());
        lemma_dedup_push_all_concat(table, s1, s2.drop_last());
    }
}

/// Pushing a stream never shrinks the table.
proof fn lemma_dedup_len_grows(table: Seq<Vertex>, stream: Seq<Vertex>)
    ensures
        dedup_push_all(table, stream).len() >= table.len(),
    decreases stream.len(),
{
    if stream.len() > 0 {
        lemma_dedup_len_grows(table, stream.drop_last());
    }
}

/// Extending the pushed stream: the table extends the earlier table, the
/// earlier indices keep their values, and the new indices are those of the
/// second stream pushed onto the intermediate table.
proof fn lemma_stream_extend(table: Seq<Vertex>, s1: Seq<Vertex>, s2: Seq<Vertex>)
    ensures
        dedup_push_all(table, s1 + s2) == dedup_push_all(dedup_push_all(table, s1), s2),
        forall|t: int|
            0 <= t < s1.len() ==> dedup_indices_from(table, s1 + s2)[t] == dedup_indices_from(
                table,
                s1,
            )[t],
        forall|t: int|
            0 <= t < s2.len() ==> dedup_indices_from(table, s1 + s2)[s1.len() + t]
                == dedup_indices_from(dedup_push_all(table, s1), s2)[t],
{
    lemma_dedup_push_all_concat(table, s1, s2);
    assert forall|t: int| 0 <= t < s1.len() implies dedup_indices_from(table, s1 + s2)[t]
        == dedup_indices_from(table, s1)[t] by {
        assert((s1 + s2).take(t + 1) =~= s1.take(t + 1));
        assert((s1 + s2)[t] == s1[t]);
    }
    assert forall|t: int| 0 <= t < s2.len() implies dedup_indices_from(table, s1 + s2)[s1.len()
        + t] == dedup_indices_from(dedup_push_all(table, s1), s2)[t] by {
        assert((s1 + s2).take(s1.len() + t + 1) =~= s1 + s2.take(t + 1));
        lemma_dedup_push_all_concat(table, s1, s2.take(t + 1));
        assert((s1 + s2)[s1.len() + t] == s2[t]);
    }
}

/// An element's emitted prefix never exceeds its whole emission.
proof fn lemma_element_prefix_monotone(table: Seq<Vertex>, g: ElementGeom, d: int)
    requires
        0 <= d <= 6,
    ensures
        dedup_push_all(table, element_stream_prefix(g, d)).len() <= dedup_push_all(
            table,
            element_stream(g),
        ).len(),
    decreases 6 - d,
{
    if d < 6 {
        lemma_dedup_push_all_concat(
            table,
            element_stream_prefix(g, d),
            opt_face_stream(g.corners, dir_slot(g, d), dir_at(d)),
        );
        lemma_dedup_len_grows(
            dedup_push_all(table, element_stream_prefix(g, d)),
            opt_face_stream(g.corners, dir_slot(g, d), dir_at(d)),
        );
        lemma_element_prefix_monotone(table, g, d + 1);
    }
}

/// A model's emitted prefix never exceeds its whole emission.
proof fn lemma_model_stream_monotone(geoms: Seq<ElementGeom>, i: int)
    requires
        0 <= i <= geoms.len(),
    ensures
        dedup_push_all(Seq::empty(), model_stream(geoms.take(i))).len() <= dedup_push_all(
            Seq::empty(),
            model_stream(geoms),
        ).len(),
    decreases geoms.len() - i,
{
    if i < geoms.len() {
        assert(geoms.take(i + 1).drop_last() =~= geoms.take(i));
        assert(geoms.take(i + 1).last() == geoms[i]);
        lemma_dedup_push_all_concat(
            Seq::empty(),
            model_stream(geoms.take(i)),
            element_stream(geoms[i]),
        );
        lemma_dedup_len_grows(
            dedup_push_all(Seq::empty(), model_stream(geoms.take(i))),
            element_stream(geoms[i]),
        );
        lemma_model_stream_monotone(geoms, i + 1);
    } else {
        assert(geoms.take(i) =~= geoms);
    }
}

// ---------------------------------------------------------------------------
// The builder.
// ---------------------------------------------------------------------------

/// The insertion-ordered vertex table and the index stream referencing it.
#[derive(Clone, Debug)]
pub struct MeshBuilder {
    pub vertices: Vec<Vertex>,
    pub indices: Vec<u32>,
}

impl MeshBuilder {
    /// The table is duplicate-free and small enough for 32-bit indices, and
    /// every index points into it.
    pub open spec fn wf(self) -> bool {
        &&& forall|p: int, q: int|
            0 <= p < q < self.vertices@.len() ==> self.vertices@[p] != self.vertices@[q]
        &&& self.vertices@.len() <= u32::MAX
        &&& forall|k: int|
            0 <= k < self.indices@.len() ==> (#[trigger] self.indices@[k]) < self.vertices@.len()
    }

    /// An empty builder.
    pub fn new() -> (r: MeshBuilder)
        ensures
            r.wf(),
            r.vertices@ == Seq::<Vertex>::empty(),
            r.indices@ == Seq::<u32>::empty(),
    {
        MeshBuilder { vertices: Vec::new(), indices: Vec::new() }
    }

    /// Push one vertex: a vertex bit-equal to an earlier one gets that
    /// vertex's index and adds no table entry; any difference, even one unit
    /// in the last place of one coordinate, appends a fresh entry. Fails
    /// only when a fresh entry would overflow the widest index form.
    pub fn push(&mut self, v: Vertex) -> (r: Result<(), McModelError>)
        requires
            old(self).wf(),
        ensures
            final(self).wf(),
            match r {
                Ok(_) => {
                    &&& final(self).vertices@ == dedup_insert(old(self).vertices@, v)
                    &&& final(self).indices@.drop_last() == old(self).indices@
                    &&& final(self).indices@.len() == old(self).indices@.len() + 1
                    &&& final(self).indices@.last() as int == first_index(
                        final(self).vertices@,
                        v,
                    )
                },
                Err(e) => {
                    &&& e == McModelError::TooManyVertices
                    &&& *final(self) == *old(self)
                    &&& old(self).vertices@.len() == u32::MAX
                    &&& !old(self).vertices@.contains(v)
                },
            },
    {
        let n = self.vertices.len();
        let mut j: usize = 0;
        while j < n
            invariant
                *self == *old(self),
                old(self).wf(),
                n == self.vertices@.len(),
                j <= n,
                forall|k: int| 0 <= k < j ==> self.vertices@[k] != v,
            decreases n - j,
        {
            if self.vertices[j] == v {
                proof {
                    lemma_first_index_found(self.vertices@, v, j as int);
                }
                self.indices.push(j as u32);
                proof {
                    assert(self.indices@.drop_last() =~= old(self).indices@);
                    assert(self.vertices@.contains(v));
                }
                return Ok(());
            }
            j += 1;
        }
        proof {
            assert(!self.vertices@.contains(v));
        }
        if n == u32::MAX as usize {
            return Err(McModelError::TooManyVertices);
        }
        self.indices.push(n as u32);
        self.vertices.push(v);
        proof {
            lemma_first_index_appended(old(self).vertices@, v);
            assert(self.indices@.drop_last() =~= old(self).indices@);
        }
        Ok(())
    }
}

// ---------------------------------------------------------------------------
// Emission.
// ---------------------------------------------------------------------------

/// The corner template row, as executable code.
fn corner_index(dir: McModelDirection, k: usize) -> (r: usize)
    requires
        k < 6,
    ensures
        r as int == face_corner_index(dir, k as int),
        r < 8,
{
    match dir {
        McModelDirection::North => {
            if k == 0 {
                0
            } else if k == 1 {
                2
            } else if k == 2 || k == 3 {
                6
            } else if k == 4 {
                4
            } else {
                0
            }
        },
        McModelDirection::East => {
            if k == 0 {
                4
            } else if k == 1 {
                6
            } else if k == 2 || k == 3 {
                7
            } else if k == 4 {
                5
            } else {
                4
            }
        },
        McModelDirection::South => {
            if k == 0 {
                5
            } else if k == 1 {
                7
            } else if k == 2 || k == 3 {
                3
            } else if k == 4 {
                1
            } else {
                5
            }
        },
        McModelDirection::West => {
            if k == 0 {
                1
            } else if k == 1 {
                3
            } else if k == 2 || k == 3 {
                2
            } else if k == 4 {
                0
            } else {
                1
            }
        },
        McModelDirection::Up => {
            if k == 0 {
                7
            } else if k == 1 {
                6
            } else if k == 2 || k == 3 {
                2
            } else if k == 4 {
                3
            } else {
                7
            }
        },
        McModelDirection::Down => {
            if k == 0 {
                4
            } else if k == 1 {
                5
            } else if k == 2 || k == 3 {
                1
            } else if k == 4 {
                0
            } else {
                4
            }
        },
    }
}

/// The texture-corner selection row, as executable code.
fn uv_sel(flip: bool, k: usize) -> (r: (bool, bool))
    requires
        k < 6,
    ensures
        r == face_uv_sel(flip, k as int),
{
    if flip {
        if k == 0 {
            (true, false)
        } else if k == 1 {
            (false, false)
        } else if k == 2 || k == 3 {
            (false, true)
        } else if k == 4 {
            (true, true)
        } else {
            (true, false)
        }
    } else {
        if k == 0 {
            (true, false)
        } else if k == 1 {
            (true, true)
        } else if k == 2 || k == 3 {
            (false, true)
        } else if k == 4 {
            (false, false)
        } else {
            (true, false)
        }
    }
}

/// Emit one face: its six vertices pushed through the dedup table.
fn emit_face(
    m: &mut MeshBuilder,
    corners: &ElementCorners,
    quad: FaceQuad,
    dir: McModelDirection,
) -> (r: Result<(), McModelError>)
    requires
        old(m).wf(),
    ensures
        final(m).wf(),
        match r {
            Ok(_) => {
                &&& final(m).vertices@ == dedup_push_all(
                    old(m).vertices@,
                    face_stream(*corners, quad, dir),
                )
                &&& final(m).indices@.len() == old(m).indices@.len() + 6
                &&& forall|t: int|
                    0 <= t < old(m).indices@.len() ==> final(m).indices@[t] == old(m).indices@[t]
                &&& forall|t: int|
                    0 <= t < 6 ==> final(m).indices@[old(m).indices@.len() + t] as int
                        == dedup_indices_from(
                        old(m).vertices@,
                        face_stream(*corners, quad, dir),
                    )[t]
            },
            Err(e) => {
                &&& e == McModelError::TooManyVertices
                &&& dedup_push_all(old(m).vertices@, face_stream(*corners, quad, dir)).len()
                    > u32::MAX
            },
        },
{
    let ghost fs = face_stream(*corners, quad, dir);
    let mut k: usize = 0;
    proof {
        assert(fs.take(0) =~= Seq::<Vertex>::empty());
    }
    while k < 6
        invariant
            old(m).wf(),
            m.wf(),
            fs == face_stream(*corners, quad, dir),
            k <= 6,
            m.vertices@ == dedup_push_all(old(m).vertices@, fs.take(k as int)),
            m.indices@.len() == old(m).indices@.len() + k,
            forall|t: int|
                0 <= t < old(m).indices@.len() ==> m.indices@[t] == old(m).indices@[t],
            forall|t: int|
                0 <= t < k ==> m.indices@[old(m).indices@.len() + t] as int
                    == dedup_indices_from(old(m).vertices@, fs)[t],
        decreases 6 - k,
    {
        let ci = corner_index(dir, k);
        let sel = uv_sel(quad.flip, k);
        let p = corners.pts[ci];
        let vert = Vertex {
            x: p[0],
            y: p[1],
            z: p[2],
            u: if sel.0 {
                quad.u1
            } else {
                quad.u0
            },
            v: if sel.1 {
                quad.v1
            } else {
                quad.v0
            },
            color: dir.get_shading_srgba(),
        };
        proof {
            assert(vert == fs[k as int]);
            assert(fs.take(k + 1).drop_last() =~= fs.take(k as int));
            assert(fs.take(k + 1).last() == fs[k as int]);
        }
        match m.push(vert) {
            Ok(_) => {},
            Err(e) => {
                proof {
                    assert(dedup_push_all(old(m).vertices@, fs.take(k + 1)).len() == u32::MAX
                        + 1);
                    assert(fs =~= fs.take(k + 1) + fs.skip(k + 1));
                    lemma_dedup_push_all_concat(
                        old(m).vertices@,
                        fs.take(k + 1),
                        fs.skip(k + 1),
                    );
                    lemma_dedup_len_grows(
                        dedup_push_all(old(m).vertices@, fs.take(k + 1)),
                        fs.skip(k + 1),
                    );
                }
                return Err(e);
            },
        }
        k += 1;
    }
    proof {
        assert(fs.take(6) =~= fs);
    }
    Ok(())
}

/// Emit an optional face: six vertices, or nothing at all.
fn emit_slot(
    m: &mut MeshBuilder,
    corners: &ElementCorners,
    face: &Option<FaceQuad>,
    dir: McModelDirection,
) -> (r: Result<(), McModelError>)
    requires
        old(m).wf(),
    ensures
        final(m).wf(),
        match r {
            Ok(_) => {
                &&& final(m).vertices@ == dedup_push_all(
                    old(m).vertices@,
                    opt_face_stream(*corners, *face, dir),
                )
                &&& final(m).indices@.len() == old(m).indices@.len() + opt_face_stream(
                    *corners,
                    *face,
                    dir,
                ).len()
                &&& forall|t: int|
                    0 <= t < old(m).indices@.len() ==> final(m).indices@[t] == old(m).indices@[t]
                &&& forall|t: int|
                    0 <= t < opt_face_stream(*corners, *face, dir).len() ==> final(m).indices@[old(m).indices@.len() + t] as int == dedup_indices_from(
                        old(m).vertices@,
                        opt_face_stream(*corners, *face, dir),
                    )[t]
            },
            Err(e) => {
                &&& e == McModelError::TooManyVertices
                &&& dedup_push_all(old(m).vertices@, opt_face_stream(*corners, *face, dir)).len()
                    > u32::MAX
            },
        },
{
    match face {
        Some(quad) => emit_face(m, corners, *quad, dir),
        None => {
            proof {
                assert(opt_face_stream(*corners, *face, dir) =~= Seq::<Vertex>::empty());
            }
            Ok(())
        },
    }
}

/// The face an element declares in slot `d`, as executable code.
fn slot_of<'a>(g: &'a ElementGeom, d: usize) -> (r: &'a Option<FaceQuad>)
    requires
        d < 6,
    ensures
        *r == dir_slot(*g, d as int),
{
    if d == 0 {
        &g.north
    } else if d == 1 {
        &g.east
    } else if d == 2 {
        &g.south
    } else if d == 3 {
        &g.west
    } else if d == 4 {
        &g.up
    } else {
        &g.down
    }
}

/// The direction of slot `d`, as executable code.
fn dir_of(d: usize) -> (r: McModelDirection)
    requires
        d < 6,
    ensures
        r == dir_at(d as int),
{
    if d == 0 {
        McModelDirection::North
    } else if d == 1 {
        McModelDirection::East
    } else if d == 2 {
        McModelDirection::South
    } else if d == 3 {
        McModelDirection::West
    } else if d == 4 {
        McModelDirection::Up
    } else {
        McModelDirection::Down
    }
}

/// Emit one element: its declared faces in the fixed direction order.
fn emit_element(m: &mut MeshBuilder, g: &ElementGeom) -> (r: Result<(), McModelError>)
    requires
        old(m).wf(),
    ensures
        final(m).wf(),
        match r {
            Ok(_) => {
                &&& final(m).vertices@ == dedup_push_all(old(m).vertices@, element_stream(*g))
                &&& final(m).indices@.len() == old(m).indices@.len() + element_stream(*g).len()
                &&& forall|t: int|
                    0 <= t < old(m).indices@.len() ==> final(m).indices@[t] == old(m).indices@[t]
                &&& forall|t: int|
                    0 <= t < element_stream(*g).len() ==> final(m).indices@[old(m).indices@.len() + t] as int == dedup_indices_from(
                        old(m).vertices@,
                        element_stream(*g),
                    )[t]
            },
            Err(e) => {
                &&& e == McModelError::TooManyVertices
                &&& dedup_push_all(old(m).vertices@, element_stream(*g)).len() > u32::MAX
            },
        },
{
    let ghost t0 = old(m).vertices@;
    let ghost base = old(m).indices@;
    let mut d: usize = 0;
    proof {
        assert(element_stream_prefix(*g, 0) =~= Seq::<Vertex>::empty());
    }
    while d < 6
        invariant
            old(m).wf(),
            m.wf(),
            t0 == old(m).vertices@,
            base == old(m).indices@,
            d <= 6,
            m.vertices@ == dedup_push_all(t0, element_stream_prefix(*g, d as int)),
            m.indices@.len() == base.len() + element_stream_prefix(*g, d as int).len(),
            forall|t: int| 0 <= t < base.len() ==> m.indices@[t] == base[t],
            forall|t: int|
                0 <= t < element_stream_prefix(*g, d as int).len() ==> m.indices@[base.len()
                    + t] as int == #[trigger] dedup_indices_from(
                    t0,
                    element_stream_prefix(*g, d as int),
                )[t],
        decreases 6 - d,
    {
        let ghost sp = element_stream_prefix(*g, d as int);
        let ghost os = opt_face_stream(g.corners, dir_slot(*g, d as int), dir_at(d as int));
        let ghost pre = *m;
        let face = slot_of(g, d);
        let dir = dir_of(d);
        match emit_slot(m, &g.corners, face, dir) {
            Ok(_) => {},
            Err(e) => {
                proof {
                    lemma_dedup_push_all_concat(t0, sp, os);
                    assert(element_stream_prefix(*g, d as int + 1) == sp + os);
                    lemma_element_prefix_monotone(t0, *g, d as int + 1);
                }
                return Err(e);
            },
        }
        proof {
            lemma_stream_extend(t0, sp, os);
            assert(element_stream_prefix(*g, d as int + 1) == sp + os);
            assert forall|t: int|
                0 <= t < element_stream_prefix(*g, d as int + 1).len() implies m.indices@[base.len()
                + t] as int == #[trigger] dedup_indices_from(
                t0,
                element_stream_prefix(*g, d as int + 1),
            )[t] by {
                if t < sp.len() {
                    assert(m.indices@[base.len() + t] == pre.indices@[base.len() + t]);
                    assert(pre.indices@[base.len() + t] as int == dedup_indices_from(t0, sp)[t]);
                    assert(dedup_indices_from(t0, sp + os)[t] == dedup_indices_from(t0, sp)[t]);
                } else {
                    let t2 = t - sp.len();
                    assert(m.indices@[pre.indices@.len() + t2] as int == dedup_indices_from(
                        pre.vertices@,
                        os,
                    )[t2]);
                    assert(dedup_indices_from(t0, sp + os)[sp.len() + t2] == dedup_indices_from(
                        dedup_push_all(t0, sp),
                        os,
                    )[t2]);
                    assert(base.len() + t == pre.indices@.len() + t2);
                }
            }
        }
        d += 1;
    }
    proof {
        assert(element_stream(*g) == element_stream_prefix(*g, 6));
    }
    Ok(())
}

// ---------------------------------------------------------------------------
// Finalization.
// ---------------------------------------------------------------------------

/// The index buffer in its narrowest form: nothing for an empty table,
/// 8-bit for up to 255 entries, 16-bit for up to 65535, else 32-bit.
#[derive(Clone, Debug)]
pub enum McIndices {
    Empty,
    U8(Vec<u8>),
    U16(Vec<u16>),
    U32(Vec<u32>),
}

/// The index values an `McIndices` denotes, as plain integers.
pub open spec fn mesh_index_seq(mi: McIndices) -> Seq<int> {
    match mi {
        McIndices::Empty => Seq::empty(),
        McIndices::U8(b) => b@.map_values(|x: u8| x as int),
        McIndices::U16(b) => b@.map_values(|x: u16| x as int),
        McIndices::U32(b) => b@.map_values(|x: u32| x as int),
    }
}

/// Narrow a 32-bit index buffer to the smallest width that addresses
/// `count` table entries, preserving every value.
fn narrow_indices(count: usize, indices: &Vec<u32>) -> (r: McIndices)
    requires
        count <= u32::MAX,
        forall|k: int| 0 <= k < indices@.len() ==> (#[trigger] indices@[k]) < count,
    ensures
        count == 0 ==> r is Empty,
        1 <= count <= 255 ==> r is U8,
        256 <= count <= 65535 ==> r is U16,
        65536 <= count ==> r is U32,
        mesh_index_seq(r).len() == indices@.len(),
        forall|k: int|
            0 <= k < indices@.len() ==> mesh_index_seq(r)[k] == (#[trigger] indices@[k]) as int,
{
    if count == 0 {
        proof {
            if indices@.len() > 0 {
                assert(indices@[0] < count);
            }
        }
        McIndices::Empty
    } else if count <= 255 {
        let mut out: Vec<u8> = Vec::new();
        let n = indices.len();
        let mut j: usize = 0;
        while j < n
            invariant
                n == indices@.len(),
                j <= n,
                count <= 255,
                forall|k: int| 0 <= k < indices@.len() ==> (#[trigger] indices@[k]) < count,
                out@.len() == j,
                forall|k: int| 0 <= k < j ==> out@[k] as int == (#[trigger] indices@[k]) as int,
            decreases n - j,
        {
            out.push(indices[j] as u8);
            j += 1;
        }
        McIndices::U8(out)
    } else if count <= 65535 {
        let mut out: Vec<u16> = Vec::new();
        let n = indices.len();
        let mut j: usize = 0;
        while j < n
            invariant
                n == indices@.len(),
                j <= n,
                count <= 65535,
                forall|k: int| 0 <= k < indices@.len() ==> (#[trigger] indices@[k]) < count,
                out@.len() == j,
                forall|k: int| 0 <= k < j ==> out@[k] as int == (#[trigger] indices@[k]) as int,
            decreases n - j,
        {
            out.push(indices[j] as u16);
            j += 1;
        }
        McIndices::U16(out)
    } else {
        let mut out: Vec<u32> = Vec::new();
        let n = indices.len();
        let mut j: usize = 0;
        while j < n
            invariant
                n == indices@.len(),
                j <= n,
                out@.len() == j,
                forall|k: int| 0 <= k < j ==> out@[k] as int == (#[trigger] indices@[k]) as int,
            decreases n - j,
        {
            out.push(indices[j]);
            j += 1;
        }
        McIndices::U32(out)
    }
}

/// The finished mesh: the vertex table in first-seen order and the index
/// buffer in its narrowest form.
#[derive(Clone, Debug)]
pub struct McMesh {
    pub vertices: Vec<Vertex>,
    pub indices: McIndices,
}

/// Build the whole mesh: emit every element's declared faces in order
/// through the bit-exact dedup table, then narrow the index buffer. Fails
/// exactly when the model yields more unique vertices than the widest index
/// form can address.
pub fn assemble_mesh(geoms: &Vec<ElementGeom>) -> (r: Result<McMesh, McModelError>)
    ensures
        r is Ok <==> dedup_push_all(Seq::empty(), model_stream(geoms@)).len() <= u32::MAX,
        match r {
            Ok(mesh) => {
                &&& mesh.vertices@ == dedup_push_all(Seq::empty(), model_stream(geoms@))
                &&& mesh_index_seq(mesh.indices) == dedup_indices_from(
                    Seq::empty(),
                    model_stream(geoms@),
                )
                &&& (mesh.vertices@.len() == 0 ==> mesh.indices is Empty)
                &&& (1 <= mesh.vertices@.len() <= 255 ==> mesh.indices is U8)
                &&& (256 <= mesh.vertices@.len() <= 65535 ==> mesh.indices is U16)
                &&& (65536 <= mesh.vertices@.len() ==> mesh.indices is U32)
            },
            Err(e) => e == McModelError::TooManyVertices,
        },
{
    let mut m = MeshBuilder::new();
    let n = geoms.len();
    let mut i: usize = 0;
    proof {
        assert(model_stream(geoms@.take(0)) =~= Seq::<Vertex>::empty());
    }
    while i < n
        invariant
            m.wf(),
            n == geoms@.len(),
            i <= n,
            m.vertices@ == dedup_push_all(Seq::empty(), model_stream(geoms@.take(i as int))),
            m.indices@.len() == model_stream(geoms@.take(i as int)).len(),
            forall|t: int|
                0 <= t < m.indices@.len() ==> m.indices@[t] as int == dedup_indices_from(
                    Seq::empty(),
                    model_stream(geoms@.take(i as int)),
                )[t],
        decreases n - i,
    {
        let ghost sp = model_stream(geoms@.take(i as int));
        let ghost es = element_stream(geoms@[i as int]);
        let ghost pre = m;
        proof {
            assert(geoms@.take(i + 1).drop_last() =~= geoms@.take(i as int));
            assert(geoms@.take(i + 1).last() == geoms@[i as int]);
        }
        match emit_element(&mut m, &geoms[i]) {
            Ok(_) => {},
            Err(e) => {
                proof {
                    lemma_dedup_push_all_concat(Seq::empty(), sp, es);
                    assert(model_stream(geoms@.take(i + 1)) == sp + es);
                    lemma_model_stream_monotone(geoms@, i + 1);
                }
                return Err(e);
            },
        }
        proof {
            lemma_stream_extend(Seq::empty(), sp, es);
            assert(model_stream(geoms@.take(i + 1)) == sp + es);
            assert forall|t: int|
                0 <= t < m.indices@.len() implies m.indices@[t] as int == dedup_indices_from(
                Seq::empty(),
                model_stream(geoms@.take(i + 1)),
            )[t] by {
                if t < sp.len() {
                    assert(m.indices@[t] == pre.indices@[t]);
                    assert(pre.indices@[t] as int == dedup_indices_from(Seq::empty(), sp)[t]);
                    assert(dedup_indices_from(Seq::empty(), sp + es)[t] == dedup_indices_from(
                        Seq::empty(),
                        sp,
                    )[t]);
                } else {
                    let t2 = t - sp.len();
                    assert(m.indices@[pre.indices@.len() + t2] as int == dedup_indices_from(
                        pre.vertices@,
                        es,
                    )[t2]);
                    assert(dedup_indices_from(Seq::empty(), sp + es)[sp.len() + t2]
                        == dedup_indices_from(dedup_push_all(Seq::empty(), sp), es)[t2]);
                }
            }
        }
        i += 1;
    }
    proof {
        assert(geoms@.take(n as int) =~= geoms@);
    }
    let count = m.vertices.len();
    let indices = narrow_indices(count, &m.indices);
    proof {
        assert forall|k: int| 0 <= k < mesh_index_seq(indices).len() implies mesh_index_seq(
            indices,
        )[k] == dedup_indices_from(Seq::empty(), model_stream(geoms@))[k] by {
            assert(mesh_index_seq(indices)[k] == m.indices@[k] as int);
            assert(m.indices@[k] as int == dedup_indices_from(
                Seq::empty(),
                model_stream(geoms@),
            )[k]);
        }
        assert(mesh_index_seq(indices) =~= dedup_indices_from(
            Seq::empty(),
            model_stream(geoms@),
        ));
    }
    Ok(McMesh { vertices: m.vertices, indices })
}

/// Law: deduplication is bit-exact. A vertex equal to a table entry in
/// every field leaves the table unchanged and resolves to that entry's
/// position; a vertex differing from every entry — in any field, by as
/// little as one bit — extends the table and resolves to the fresh
/// position at its end.
pub proof fn lemma_dedup_exact(table: Seq<Vertex>, v: Vertex)
    ensures
        table.contains(v) ==> dedup_insert(table, v) == table,
        !table.contains(v) ==> dedup_insert(table, v) == table.push(v) && first_index(
            dedup_insert(table, v),
            v,
        ) == table.len(),
{
    if !table.contains(v) {
        lemma_first_index_appended(table, v);
    }
}

/// Law: every vertex a face emits carries the face direction's flat shading
/// color, whatever the element's position and texture coordinates; an up
/// face shades with multiplier 1 (opaque white), a down face with
/// multiplier 0.5 (the 127 gray).
pub proof fn lemma_face_shading(corners: ElementCorners, quad: FaceQuad, dir: McModelDirection)
    ensures
        forall|k: int|
            0 <= k < 6 ==> (#[trigger] face_stream(corners, quad, dir)[k]).color
                == dir.shading_srgba_spec(),
        McModelDirection::Up.shading_srgba_spec() == (Rgba { r: 255, g: 255, b: 255, a: 255 }),
        McModelDirection::Down.shading_srgba_spec() == (Rgba { r: 127, g: 127, b: 127, a: 255 }),
{
}

} // verus!
