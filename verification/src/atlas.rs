//! The texture atlas: a fixed-size RGBA canvas, a shelf-packing allocator for
//! placing tiles on it, and the build pass that packs a model's textures.
//!
//! The canvas itself and every texel written to it are this crate's own,
//! verified code; only the rectangle allocator is the outside crate's.

use vstd::arithmetic::div_mod::{
    lemma_fundamental_div_mod,
    lemma_fundamental_div_mod_converse,
};
use vstd::prelude::*;

use crate::error::McModelError;
use crate::model::Rgba;

verus! {

/// Width and height in texels of the atlas canvas.
pub const ATLAS_SIZE: u32 = 2048;

/// Texels of the canvas.
pub const ATLAS_TEXELS: usize = (ATLAS_SIZE * ATLAS_SIZE) as usize;

/// Width and height in texels of the reserved fallback tile.
pub const FALLBACK_TILE: u32 = 16;

/// A rectangle on the atlas canvas: min corner inclusive, max corner
/// exclusive, in texels from the top-left.
#[derive(Clone, Copy, Debug, PartialEq, Eq, Structural)]
pub struct AtlasRect {
    pub x0: u32,
    pub y0: u32,
    pub x1: u32,
    pub y1: u32,
}

impl AtlasRect {
    /// The rectangle is ordered and lies on the canvas.
    pub open spec fn wf(self) -> bool {
        self.x0 <= self.x1 && self.y0 <= self.y1 && self.x1 <= ATLAS_SIZE && self.y1 <= ATLAS_SIZE
    }
}

/// A decoded RGBA image handed in by the caller: `width * height` texels,
/// row-major from the top-left.
#[derive(Clone, Debug)]
pub struct ImageBuf {
    pub width: u32,
    pub height: u32,
    pub pixels: Vec<Rgba>,
}

impl ImageBuf {
    /// The pixel buffer holds exactly the declared texels.
    pub open spec fn wf(self) -> bool {
        self.pixels.len() == self.width * self.height
    }
}

/// The fallback checkerboard texel at `(x, y)`: magenta where `x + y` is
/// even, black elsewhere, always opaque.
pub open spec fn checker_color(x: int, y: int) -> Rgba {
    if (x + y) % 2 == 0 {
        Rgba { r: 255, g: 0, b: 255, a: 255 }
    } else {
        Rgba { r: 0, g: 0, b: 0, a: 255 }
    }
}

/// The canvas after painting the checkerboard over `r`.
pub open spec fn checker_pixels(base: Seq<Rgba>, r: AtlasRect) -> Seq<Rgba> {
    Seq::new(
        base.len(),
        |i: int|
            {
                let x = i % (ATLAS_SIZE as int);
                let y = i / (ATLAS_SIZE as int);
                if r.x0 <= x < r.x1 && r.y0 <= y < r.y1 {
                    checker_color(x, y)
                } else {
                    base[i]
                }
            },
    )
}

/// The canvas after copying an `iw * ih` image with its top-left corner at
/// `(x0, y0)`.
pub open spec fn blit_pixels(
    base: Seq<Rgba>,
    img: Seq<Rgba>,
    iw: int,
    ih: int,
    x0: int,
    y0: int,
) -> Seq<Rgba> {
    Seq::new(
        base.len(),
        |i: int|
            {
                let x = i % (ATLAS_SIZE as int);
                let y = i / (ATLAS_SIZE as int);
                if x0 <= x < x0 + iw && y0 <= y < y0 + ih {
                    img[(y - y0) * iw + (x - x0)]
                } else {
                    base[i]
                }
            },
    )
}

/// The fully transparent canvas.
pub open spec fn blank_pixels() -> Seq<Rgba> {
    Seq::new(ATLAS_TEXELS as nat, |i: int| Rgba { r: 0, g: 0, b: 0, a: 0 })
}

/// The fixed-size RGBA atlas canvas, row-major from the top-left.
#[derive(Clone, Debug)]
pub struct AtlasBitmap {
    pub pixels: Vec<Rgba>,
}

/// Texel `(x, y)` of the canvas sits at index `y * ATLAS_SIZE + x`; this ties
/// the flat index back to its coordinates.
proof fn lemma_texel_index(x: int, y: int, i: int)
    requires
        0 <= x < ATLAS_SIZE,
        0 <= y < ATLAS_SIZE,
        i == y * (ATLAS_SIZE as int) + x,
    ensures
        i % (ATLAS_SIZE as int) == x,
        i / (ATLAS_SIZE as int) == y,
{
    lemma_fundamental_div_mod_converse(i, ATLAS_SIZE as int, y, x);
}

impl AtlasBitmap {
    /// The buffer holds exactly the canvas texels.
    pub open spec fn wf(self) -> bool {
        self.pixels.len() == ATLAS_TEXELS
    }

    /// A fresh, fully transparent canvas.
    pub fn blank() -> (r: AtlasBitmap)
        ensures
            r.wf(),
            r.pixels@ == blank_pixels(),
    {
        let mut pixels: Vec<Rgba> = Vec::new();
        let mut i: usize = 0;
        while i < ATLAS_TEXELS
            invariant
                i <= ATLAS_TEXELS,
                pixels.len() == i,
                forall|j: int| 0 <= j < i ==> pixels@[j] == (Rgba { r: 0, g: 0, b: 0, a: 0 }),
            decreases ATLAS_TEXELS - i,
        {
            pixels.push(Rgba { r: 0, g: 0, b: 0, a: 0 });
            i += 1;
        }
        proof {
            assert(pixels@ =~= blank_pixels());
        }
        AtlasBitmap { pixels }
    }

    /// Write one texel.
    pub fn put_pixel(&mut self, x: u32, y: u32, color: Rgba)
        requires
            old(self).wf(),
            x < ATLAS_SIZE,
            y < ATLAS_SIZE,
        ensures
            final(self).wf(),
            final(self).pixels@ == old(self).pixels@.update(
                y * (ATLAS_SIZE as int) + x,
                color,
            ),
    {
        proof {
            assert(y * (ATLAS_SIZE as int) + x < (ATLAS_SIZE as int) * (ATLAS_SIZE as int))
                by (nonlinear_arith)
                requires
                    x < ATLAS_SIZE,
                    y < ATLAS_SIZE,
            ;
        }
        let idx: usize = (y as usize) * (ATLAS_SIZE as usize) + (x as usize);
        self.pixels.set(idx, color);
    }

    /// Paint the fallback checkerboard over `r`, exactly as the reserved
    /// tile is painted when the atlas is built.
    pub fn fill_checker(&mut self, r: AtlasRect)
        requires
            old(self).wf(),
            r.wf(),
        ensures
            final(self).wf(),
            final(self).pixels@ == checker_pixels(old(self).pixels@, r),
    {
        let ghost base = old(self).pixels@;
        let ghost target = checker_pixels(old(self).pixels@, r);
        let mut x: u32 = r.x0;
        while x < r.x1
            invariant
                old(self).wf(),
                self.wf(),
                r.wf(),
                r.x0 <= x <= r.x1,
                target == checker_pixels(base, r),
                base.len() == ATLAS_TEXELS,
                forall|i: int|
                    0 <= i < ATLAS_TEXELS ==> self.pixels@[i] == (if i % (ATLAS_SIZE as int)
                        < x {
                        target[i]
                    } else {
                        base[i]
                    }),
            decreases r.x1 - x,
        {
            let mut y: u32 = r.y0;
            while y < r.y1
                invariant
                    old(self).wf(),
                    self.wf(),
                    r.wf(),
                    r.x0 <= x < r.x1,
                    r.y0 <= y <= r.y1,
                    target == checker_pixels(base, r),
                    base.len() == ATLAS_TEXELS,
                    forall|i: int|
                        0 <= i < ATLAS_TEXELS ==> self.pixels@[i] == (if i % (ATLAS_SIZE as int)
                            < x || (i % (ATLAS_SIZE as int) == x && i / (ATLAS_SIZE as int)
                            < y) {
                            target[i]
                        } else {
                            base[i]
                        }),
                decreases r.y1 - y,
            {
                let color = if (x + y) % 2 == 0 {
                    Rgba { r: 255, g: 0, b: 255, a: 255 }
                } else {
                    Rgba { r: 0, g: 0, b: 0, a: 255 }
                };
                let ghost prev = self.pixels@;
                self.put_pixel(x, y, color);
                proof {
                    let sz = ATLAS_SIZE as int;
                    let idx = y * sz + x;
                    lemma_texel_index(x as int, y as int, idx);
                    assert(color == checker_color(idx % sz, idx / sz));
                    assert(target[idx] == color);
                    assert forall|i: int| 0 <= i < ATLAS_TEXELS implies self.pixels@[i] == (
                    if i % sz < x || (i % sz == x && i / sz < y + 1) {
                        target[i]
                    } else {
                        base[i]
                    }) by {
                        lemma_fundamental_div_mod(i, sz);
                        if i == idx {
                        } else {
                            assert(self.pixels@[i] == prev[i]);
                            if i % sz == x && i / sz == y {
                                assert(i == idx);
                            }
                        }
                    }
                }
                y += 1;
            }
            x += 1;
        }
        proof {
            assert forall|i: int| 0 <= i < ATLAS_TEXELS implies self.pixels@[i] == target[i] by {
                lemma_fundamental_div_mod(i, ATLAS_SIZE as int);
            }
            assert(self.pixels@ =~= target);
        }
    }

    /// Copy a whole image onto the canvas with its top-left corner at
    /// `(x0, y0)`.
    pub fn blit(&mut self, img: &ImageBuf, x0: u32, y0: u32)
        requires
            old(self).wf(),
            img.wf(),
            x0 + img.width <= ATLAS_SIZE,
            y0 + img.height <= ATLAS_SIZE,
        ensures
            final(self).wf(),
            final(self).pixels@ == blit_pixels(
                old(self).pixels@,
                img.pixels@,
                img.width as int,
                img.height as int,
                x0 as int,
                y0 as int,
            ),
    {
        let ghost base = old(self).pixels@;
        let ghost target = blit_pixels(
            old(self).pixels@,
            img.pixels@,
            img.width as int,
            img.height as int,
            x0 as int,
            y0 as int,
        );
        let iw = img.width;
        let ih = img.height;
        let mut ix: u32 = 0;
        while ix < iw
            invariant
                old(self).wf(),
                self.wf(),
                img.wf(),
                iw == img.width,
                ih == img.height,
                x0 + iw <= ATLAS_SIZE,
                y0 + ih <= ATLAS_SIZE,
                ix <= iw,
                target == blit_pixels(base, img.pixels@, iw as int, ih as int, x0 as int, y0 as int),
                base.len() == ATLAS_TEXELS,
                forall|i: int|
                    0 <= i < ATLAS_TEXELS ==> self.pixels@[i] == (if x0 <= i % (
                    ATLAS_SIZE as int) < x0 + ix {
                        target[i]
                    } else {
                        base[i]
                    }),
            decreases iw - ix,
        {
            let mut iy: u32 = 0;
            while iy < ih
                invariant
                    old(self).wf(),
                    self.wf(),
                    img.wf(),
                    iw == img.width,
                    ih == img.height,
                    x0 + iw <= ATLAS_SIZE,
                    y0 + ih <= ATLAS_SIZE,
                    ix < iw,
                    iy <= ih,
                    target == blit_pixels(
                        base,
                        img.pixels@,
                        iw as int,
                        ih as int,
                        x0 as int,
                        y0 as int,
                    ),
                    base.len() == ATLAS_TEXELS,
                    forall|i: int|
                        0 <= i < ATLAS_TEXELS ==> self.pixels@[i] == (if x0 <= i % (
                        ATLAS_SIZE as int) < x0 + ix || (i % (ATLAS_SIZE as int) == x0 + ix && y0
                            <= i / (ATLAS_SIZE as int) < y0 + iy) {
                            target[i]
                        } else {
                            base[i]
                        }),
                decreases ih - iy,
            {
                proof {
                    assert(iy * iw + ix < ih * iw) by (nonlinear_arith)
                        requires
                            iy < ih,
                            ix < iw,
                    ;
                }
                let color = img.pixels[(iy as usize) * (iw as usize) + (ix as usize)];
                let px = x0 + ix;
                let py = y0 + iy;
                let ghost prev = self.pixels@;
                self.put_pixel(px, py, color);
                proof {
                    let sz = ATLAS_SIZE as int;
                    let idx = py * sz + px;
                    lemma_texel_index(px as int, py as int, idx);
                    assert(target[idx] == img.pixels@[(py - y0) * (iw as int) + (px - x0)]);
                    assert((py - y0) * (iw as int) + (px - x0) == iy * iw + ix);
                    assert(target[idx] == color);
                    assert forall|i: int| 0 <= i < ATLAS_TEXELS implies self.pixels@[i] == (
                    if x0 <= i % sz < x0 + ix || (i % sz == x0 + ix && y0 <= i / sz < y0 + iy
                        + 1) {
                        target[i]
                    } else {
                        base[i]
                    }) by {
                        lemma_fundamental_div_mod(i, sz);
                        if i == idx {
                        } else {
                            assert(self.pixels@[i] == prev[i]);
                            if i % sz == px && i / sz == py {
                                assert(i == idx);
                            }
                        }
                    }
                }
                iy += 1;
            }
            ix += 1;
        }
        proof {
            assert forall|i: int| 0 <= i < ATLAS_TEXELS implies self.pixels@[i] == target[i] by {
                lemma_fundamental_div_mod(i, ATLAS_SIZE as int);
            }
            assert(self.pixels@ =~= target);
        }
    }
}

// ---------------------------------------------------------------------------
// The outside rectangle allocator.
// ---------------------------------------------------------------------------

#[verifier::external_type_specification]
#[verifier::external_body]
pub struct ExAtlasAllocator(etagere::AtlasAllocator);

/// The canvas size an allocator was created over.
pub uninterp spec fn canvas_of(a: etagere::AtlasAllocator) -> (int, int);

/// The sizes of the placements an allocator has granted so far, in order.
pub uninterp spec fn history_of(a: etagere::AtlasAllocator) -> Seq<(int, int)>;

/// What the shelf allocator answers to a request: `None`, or the granted
/// rectangle `(x0, y0, x1, y1)`. The answer depends only on the canvas size,
/// the history of granted requests and the requested size.
pub uninterp spec fn shelf_alloc(
    canvas: (int, int),
    history: Seq<(int, int)>,
    w: int,
    h: int,
) -> Option<(int, int, int, int)>;

/// Relies on etagere::AtlasAllocator::new: a fresh shelf allocator over a
/// `w` by `h` canvas with the default options (one column, alignment one),
/// which has granted no placements yet. The constructor panics on sizes
/// outside `1..=65535` or areas beyond `i32::MAX`, so those are excluded.
#[verifier::external_body]
fn allocator_new(w: u32, h: u32) -> (a: etagere::AtlasAllocator)
    requires
        0 < w <= u16::MAX,
        0 < h <= u16::MAX,
        w * h <= i32::MAX,
    ensures
        canvas_of(a) == (w as int, h as int),
        history_of(a) == Seq::<(int, int)>::empty(),
{
    etagere::AtlasAllocator::new(etagere::size2(w as i32, h as i32))
}

/// Relies on etagere::AtlasAllocator::allocate: the answer is a pure function
/// of the canvas size, the granted history and the requested size (the
/// allocator keeps no other state and consults nothing else); a granted
/// rectangle lies on the canvas and spans at least the requested size from
/// its min corner; a refused request leaves the allocator unchanged.
#[verifier::external_body]
fn allocator_allocate(a: &mut etagere::AtlasAllocator, w: u32, h: u32) -> (r: Option<AtlasRect>)
    ensures
        canvas_of(*final(a)) == canvas_of(*old(a)),
        r is Some ==> history_of(*final(a)) == history_of(*old(a)).push((w as int, h as int)),
        r is None ==> *final(a) == *old(a),
        (match (r, shelf_alloc(canvas_of(*old(a)), history_of(*old(a)), w as int, h as int)) {
            (Some(rect), Some(s)) => rect.x0 == s.0 && rect.y0 == s.1 && rect.x1 == s.2
                && rect.y1 == s.3,
            (None, None) => true,
            _ => false,
        }),
        r matches Some(rect) ==> rect.x0 + w <= rect.x1 && rect.y0 + h <= rect.y1 && rect.x1
            <= canvas_of(*old(a)).0 && rect.y1 <= canvas_of(*old(a)).1,
{
    match a.allocate(etagere::size2(w as i32, h as i32)) {
        Some(alloc) => Some(
            AtlasRect {
                x0: alloc.rectangle.min.x as u32,
                y0: alloc.rectangle.min.y as u32,
                x1: alloc.rectangle.max.x as u32,
                y1: alloc.rectangle.max.y as u32,
            },
        ),
        None => None,
    }
}

// ---------------------------------------------------------------------------
// The build pass.
// ---------------------------------------------------------------------------

/// The canvas size every build uses.
pub open spec fn canvas_spec() -> (int, int) {
    (ATLAS_SIZE as int, ATLAS_SIZE as int)
}

/// The sizes of the loadable images, in declaration order.
pub open spec fn sizes_of(textures: Seq<(String, Option<ImageBuf>)>) -> Seq<(int, int)>
    decreases textures.len(),
{
    if textures.len() == 0 {
        Seq::empty()
    } else {
        let rest = sizes_of(textures.drop_last());
        match textures.last().1 {
            Some(img) => rest.push((img.width as int, img.height as int)),
            None => rest,
        }
    }
}

/// The granted history after the fallback tile and the given textures.
pub open spec fn history_after(textures: Seq<(String, Option<ImageBuf>)>) -> Seq<(int, int)> {
    seq![(FALLBACK_TILE as int, FALLBACK_TILE as int)] + sizes_of(textures)
}

/// Where the reserved fallback tile lands: the first request on a fresh
/// canvas, so it is stable across runs.
pub open spec fn fallback_alloc_spec() -> Option<(int, int, int, int)> {
    shelf_alloc(canvas_spec(), Seq::empty(), FALLBACK_TILE as int, FALLBACK_TILE as int)
}

/// The rectangle a granted answer denotes.
pub open spec fn rect_of(s: (int, int, int, int)) -> AtlasRect {
    AtlasRect { x0: s.0 as u32, y0: s.1 as u32, x1: s.2 as u32, y1: s.3 as u32 }
}

/// Every placement the build asks for is granted.
pub open spec fn allocs_ok(textures: Seq<(String, Option<ImageBuf>)>) -> bool
    decreases textures.len(),
{
    if textures.len() == 0 {
        true
    } else {
        allocs_ok(textures.drop_last()) && match textures.last().1 {
            Some(img) => shelf_alloc(
                canvas_spec(),
                history_after(textures.drop_last()),
                img.width as int,
                img.height as int,
            ) is Some,
            None => true,
        }
    }
}

/// The id-to-rectangle mapping of the built atlas: one entry per loadable
/// image, in declaration order.
pub open spec fn allocs_of(textures: Seq<(String, Option<ImageBuf>)>) -> Seq<(String, AtlasRect)>
    decreases textures.len(),
{
    if textures.len() == 0 {
        Seq::empty()
    } else {
        let rest = allocs_of(textures.drop_last());
        match textures.last().1 {
            Some(img) => match shelf_alloc(
                canvas_spec(),
                history_after(textures.drop_last()),
                img.width as int,
                img.height as int,
            ) {
                Some(s) => rest.push((textures.last().0, rect_of(s))),
                None => rest,
            },
            None => rest,
        }
    }
}

/// The canvas contents of the built atlas: the checkerboard on the fallback
/// tile, then each loadable image at its placement, in declaration order.
pub open spec fn atlas_pixels_of(textures: Seq<(String, Option<ImageBuf>)>) -> Seq<Rgba>
    decreases textures.len(),
{
    if textures.len() == 0 {
        match fallback_alloc_spec() {
            Some(s) => checker_pixels(blank_pixels(), rect_of(s)),
            None => blank_pixels(),
        }
    } else {
        let rest = atlas_pixels_of(textures.drop_last());
        match textures.last().1 {
            Some(img) => match shelf_alloc(
                canvas_spec(),
                history_after(textures.drop_last()),
                img.width as int,
                img.height as int,
            ) {
                Some(s) => blit_pixels(
                    rest,
                    img.pixels@,
                    img.width as int,
                    img.height as int,
                    s.0,
                    s.1,
                ),
                None => rest,
            },
            None => rest,
        }
    }
}

/// A build that succeeds as a whole succeeds on every prefix.
proof fn lemma_allocs_ok_prefix(t: Seq<(String, Option<ImageBuf>)>, j: int)
    requires
        0 <= j <= t.len(),
        allocs_ok(t),
    ensures
        allocs_ok(t.take(j)),
    decreases t.len(),
{
    if j < t.len() {
        assert(t.drop_last().take(j) =~= t.take(j));
        lemma_allocs_ok_prefix(t.drop_last(), j);
    } else {
        assert(t.take(j) =~= t);
    }
}

/// A packed atlas: the canvas, the id-to-rectangle mapping in declaration
/// order, and the reserved fallback rectangle.
#[derive(Clone, Debug)]
pub struct McAtlas {
    pub bitmap: AtlasBitmap,
    pub allocations: Vec<(String, AtlasRect)>,
    pub fallback: AtlasRect,
}

impl McAtlas {
    /// Canvas and every rectangle are well formed.
    pub open spec fn wf(self) -> bool {
        self.bitmap.wf() && self.fallback.wf() && forall|j: int|
            0 <= j < self.allocations.len() ==> (#[trigger] self.allocations@[j]).1.wf()
    }
}

/// Pack a model's textures: reserve the 16-by-16 fallback tile first and
/// paint its checkerboard, then place each loadable image in declaration
/// order and copy its texels at the granted origin. An image that could not
/// be loaded gets no entry; a placement that cannot be granted aborts the
/// build.
pub fn build_atlas(textures: &Vec<(String, Option<ImageBuf>)>) -> (r: Result<
    McAtlas,
    McModelError,
>)
    requires
        forall|j: int|
            0 <= j < textures@.len() ==> ((#[trigger] textures@[j]).1 matches Some(img)
                ==> img.wf()),
    ensures
        r is Ok <==> (fallback_alloc_spec() is Some && allocs_ok(textures@)),
        r matches Ok(atlas) ==> atlas.allocations@ == allocs_of(textures@)
            && atlas.bitmap.pixels@ == atlas_pixels_of(textures@) && (
        fallback_alloc_spec() matches Some(s) && atlas.fallback == rect_of(s)) && atlas.wf(),
        r is Err ==> r == Err::<McAtlas, McModelError>(McModelError::AtlasExhausted),
{
    let mut alloc = allocator_new(ATLAS_SIZE, ATLAS_SIZE);
    let mut bitmap = AtlasBitmap::blank();
    let fallback = match allocator_allocate(&mut alloc, FALLBACK_TILE, FALLBACK_TILE) {
        Some(rect) => rect,
        None => {
            return Err(McModelError::AtlasExhausted);
        },
    };
    bitmap.fill_checker(fallback);
    let mut allocations: Vec<(String, AtlasRect)> = Vec::new();
    let n = textures.len();
    let mut i: usize = 0;
    proof {
        assert(textures@.take(0) =~= Seq::<(String, Option<ImageBuf>)>::empty());
        assert(history_after(textures@.take(0)) =~= history_of(alloc));
        assert(allocations@ =~= allocs_of(textures@.take(0)));
    }
    while i < n
        invariant
            n == textures@.len(),
            i <= n,
            forall|j: int|
                0 <= j < textures@.len() ==> ((#[trigger] textures@[j]).1 matches Some(img)
                    ==> img.wf()),
            canvas_of(alloc) == canvas_spec(),
            history_of(alloc) == history_after(textures@.take(i as int)),
            fallback_alloc_spec() matches Some(s) && fallback == rect_of(s),
            fallback.wf(),
            allocs_ok(textures@.take(i as int)),
            allocations@ == allocs_of(textures@.take(i as int)),
            forall|j: int|
                0 <= j < allocations.len() ==> (#[trigger] allocations@[j]).1.wf(),
            bitmap.wf(),
            bitmap.pixels@ == atlas_pixels_of(textures@.take(i as int)),
        decreases n - i,
    {
        let ghost prefix = textures@.take(i as int);
        proof {
            assert(textures@.take(i + 1).drop_last() =~= prefix);
            assert(textures@.take(i + 1).last() == textures@[i as int]);
        }
        let entry = &textures[i];
        match &entry.1 {
            Some(img) => {
                match allocator_allocate(&mut alloc, img.width, img.height) {
                    Some(rect) => {
                        bitmap.blit(img, rect.x0, rect.y0);
                        allocations.push((entry.0.clone(), rect));
                        proof {
                            assert(history_after(textures@.take(i + 1)) =~= history_after(
                                prefix,
                            ).push((img.width as int, img.height as int)));
                        }
                    },
                    None => {
                        proof {
                            assert(!allocs_ok(textures@.take(i + 1)));
                            if allocs_ok(textures@) {
                                lemma_allocs_ok_prefix(textures@, i + 1);
                            }
                        }
                        return Err(McModelError::AtlasExhausted);
                    },
                }
            },
            None => {
                proof {
                    assert(history_after(textures@.take(i + 1)) =~= history_after(prefix));
                }
            },
        }
        i += 1;
    }
    proof {
        assert(textures@.take(n as int) =~= textures@);
    }
    Ok(McAtlas { bitmap, allocations, fallback })
}

/// Law: atlas packing is deterministic. Equal texture lists (same ids and
/// the same loadable images, texel for texel) yield the same id-to-rectangle
/// mapping, byte-identical canvas contents and the same success or failure;
/// the build contract pins each of these as a function of the list alone.
pub proof fn lemma_atlas_deterministic(
    t1: Seq<(String, Option<ImageBuf>)>,
    t2: Seq<(String, Option<ImageBuf>)>,
)
    requires
        t1 == t2,
    ensures
        allocs_of(t1) == allocs_of(t2),
        atlas_pixels_of(t1) == atlas_pixels_of(t2),
        allocs_ok(t1) == allocs_ok(t2),
{
}

} // verus!
