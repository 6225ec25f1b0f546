use mc_json_stuff::atlas::{build_atlas, AtlasRect, ImageBuf, ATLAS_SIZE};
use mc_json_stuff::error::McModelError;
use mc_json_stuff::model::Rgba;

const MAGENTA: Rgba = Rgba { r: 255, g: 0, b: 255, a: 255 };
const BLACK: Rgba = Rgba { r: 0, g: 0, b: 0, a: 255 };
const CLEAR: Rgba = Rgba { r: 0, g: 0, b: 0, a: 0 };

fn texel(pixels: &[Rgba], x: u32, y: u32) -> Rgba {
    pixels[(y * ATLAS_SIZE + x) as usize]
}

fn solid_image(w: u32, h: u32, color: Rgba) -> ImageBuf {
    ImageBuf { width: w, height: h, pixels: vec![color; (w * h) as usize] }
}

#[test]
fn fallback_tile_is_a_16_by_16_checkerboard() {
    let atlas = build_atlas(&vec![]).unwrap();
    // The fallback is the first request on a fresh canvas, so it is pinned
    // to the top-left corner.
    assert_eq!(atlas.fallback, AtlasRect { x0: 0, y0: 0, x1: 16, y1: 16 });
    assert!(atlas.allocations.is_empty());
    let px = &atlas.bitmap.pixels;
    assert_eq!(px.len(), (ATLAS_SIZE * ATLAS_SIZE) as usize);
    assert_eq!(texel(px, 0, 0), MAGENTA);
    assert_eq!(texel(px, 1, 0), BLACK);
    assert_eq!(texel(px, 0, 1), BLACK);
    assert_eq!(texel(px, 1, 1), MAGENTA);
    assert_eq!(texel(px, 15, 15), MAGENTA);
    // Outside the tile the canvas stays transparent.
    assert_eq!(texel(px, 16, 0), CLEAR);
    assert_eq!(texel(px, 0, 16), CLEAR);
}

#[test]
fn image_texels_are_copied_at_the_granted_origin() {
    let red = Rgba { r: 200, g: 10, b: 20, a: 255 };
    let mut img = solid_image(4, 4, red);
    img.pixels[5] = BLACK; // texel (1, 1) of the image
    let textures = vec![("stone".to_string(), Some(img))];
    let atlas = build_atlas(&textures).unwrap();
    assert_eq!(atlas.allocations.len(), 1);
    assert_eq!(atlas.allocations[0].0, "stone");
    let rect = atlas.allocations[0].1;
    // The granted rectangle is not the fallback tile and spans the image.
    assert_ne!(rect, atlas.fallback);
    assert!(rect.x1 - rect.x0 >= 4 && rect.y1 - rect.y0 >= 4);
    assert!(rect.x1 <= ATLAS_SIZE && rect.y1 <= ATLAS_SIZE);
    let px = &atlas.bitmap.pixels;
    assert_eq!(texel(px, rect.x0, rect.y0), red);
    assert_eq!(texel(px, rect.x0 + 1, rect.y0 + 1), BLACK);
    assert_eq!(texel(px, rect.x0 + 3, rect.y0 + 3), red);
}

#[test]
fn unloadable_texture_gets_no_entry_and_build_succeeds() {
    let textures = vec![
        ("missing".to_string(), None),
        ("there".to_string(), Some(solid_image(2, 2, BLACK))),
    ];
    let atlas = build_atlas(&textures).unwrap();
    assert_eq!(atlas.allocations.len(), 1);
    assert_eq!(atlas.allocations[0].0, "there");
}

#[test]
fn oversized_image_exhausts_the_atlas() {
    let textures = vec![(
        "huge".to_string(),
        Some(solid_image(ATLAS_SIZE + 1, 1, BLACK)),
    )];
    assert!(matches!(
        build_atlas(&textures),
        Err(McModelError::AtlasExhausted)
    ));
}

#[test]
fn packing_is_deterministic() {
    let textures = vec![
        ("a".to_string(), Some(solid_image(16, 16, MAGENTA))),
        ("b".to_string(), None),
        ("c".to_string(), Some(solid_image(7, 3, BLACK))),
    ];
    let one = build_atlas(&textures).unwrap();
    let two = build_atlas(&textures).unwrap();
    assert_eq!(one.fallback, two.fallback);
    assert_eq!(one.allocations, two.allocations);
    assert_eq!(one.bitmap.pixels, two.bitmap.pixels);
}
