use mc_json_stuff::atlas::AtlasRect;
use mc_json_stuff::double::minmax;
use mc_json_stuff::error::McModelError;
use mc_json_stuff::model::McModelFace;
use mc_json_stuff::uv::resolve_face_uv;

fn face(texture: &str, rotation: i16) -> McModelFace {
    McModelFace {
        uv: [
            1.0f64.to_bits(),
            2.0f64.to_bits(),
            3.0f64.to_bits(),
            4.0f64.to_bits(),
        ],
        texture: texture.to_string(),
        rotation,
        cullface: None,
    }
}

fn rect(x0: u32, y0: u32, x1: u32, y1: u32) -> AtlasRect {
    AtlasRect { x0, y0, x1, y1 }
}

const FALLBACK: AtlasRect = AtlasRect { x0: 0, y0: 0, x1: 16, y1: 16 };

#[test]
fn rotation_zero_is_v_flip_only() {
    let allocs = vec![("side".to_string(), rect(32, 64, 48, 80))];
    let r = resolve_face_uv(&face("#side", 0), &allocs, FALLBACK).unwrap();
    // Declared [u0, v0, u1, v1] = [1, 2, 3, 4]; only V is flipped.
    assert!(!r.flip);
    assert_eq!(f64::from_bits(r.u0), 1.0);
    assert_eq!(f64::from_bits(r.v0), 4.0);
    assert_eq!(f64::from_bits(r.u1), 3.0);
    assert_eq!(f64::from_bits(r.v1), 2.0);
    assert_eq!(r.rect, rect(32, 64, 48, 80));
}

#[test]
fn rotation_180_takes_diagonal_opposites() {
    let allocs = vec![("side".to_string(), rect(32, 64, 48, 80))];
    let base = resolve_face_uv(&face("#side", 0), &allocs, FALLBACK).unwrap();
    let half = resolve_face_uv(&face("#side", 180), &allocs, FALLBACK).unwrap();
    assert!(!half.flip);
    assert_eq!(half.u0, base.u1);
    assert_eq!(half.u1, base.u0);
    assert_eq!(half.v0, base.v1);
    assert_eq!(half.v1, base.v0);
}

#[test]
fn rotations_90_and_270_swap_u_and_v_roles() {
    let allocs = vec![("side".to_string(), rect(32, 64, 48, 80))];
    let base = resolve_face_uv(&face("#side", 0), &allocs, FALLBACK).unwrap();
    let quarter = resolve_face_uv(&face("#side", 90), &allocs, FALLBACK).unwrap();
    let three_quarter = resolve_face_uv(&face("#side", 270), &allocs, FALLBACK).unwrap();
    assert!(quarter.flip);
    assert!(three_quarter.flip);
    // 90 keeps the U corners and exchanges the V corners.
    assert_eq!(quarter.u0, base.u0);
    assert_eq!(quarter.u1, base.u1);
    assert_eq!(quarter.v0, base.v1);
    assert_eq!(quarter.v1, base.v0);
    // 270 is the mirror image: U corners exchanged, V corners kept.
    assert_eq!(three_quarter.u0, base.u1);
    assert_eq!(three_quarter.u1, base.u0);
    assert_eq!(three_quarter.v0, base.v0);
    assert_eq!(three_quarter.v1, base.v1);
}

#[test]
fn rotation_45_is_unsupported() {
    let allocs = vec![("side".to_string(), rect(32, 64, 48, 80))];
    let r = resolve_face_uv(&face("#side", 45), &allocs, FALLBACK);
    assert_eq!(r, Err(McModelError::UnsupportedRotation(45)));
}

#[test]
fn missing_sigil_is_malformed() {
    let allocs = vec![("side".to_string(), rect(32, 64, 48, 80))];
    assert_eq!(
        resolve_face_uv(&face("side", 0), &allocs, FALLBACK),
        Err(McModelError::MalformedReference)
    );
    assert_eq!(
        resolve_face_uv(&face("", 0), &allocs, FALLBACK),
        Err(McModelError::MalformedReference)
    );
}

#[test]
fn unknown_id_falls_back() {
    let allocs = vec![("side".to_string(), rect(32, 64, 48, 80))];
    let r = resolve_face_uv(&face("#nope", 0), &allocs, FALLBACK).unwrap();
    assert_eq!(r.rect, FALLBACK);
}

#[test]
fn first_matching_allocation_wins() {
    let allocs = vec![
        ("a".to_string(), rect(16, 0, 32, 16)),
        ("b".to_string(), rect(32, 0, 64, 32)),
    ];
    let r = resolve_face_uv(&face("#b", 0), &allocs, FALLBACK).unwrap();
    assert_eq!(r.rect, rect(32, 0, 64, 32));
}

#[test]
fn minmax_orders_corner_coordinates() {
    let a = 5.5f64.to_bits();
    let b = (-3.25f64).to_bits();
    assert_eq!(minmax(a, b), (b, a));
    assert_eq!(minmax(b, a), (b, a));
    // Equal inputs keep both; the pair is (second, first) by the convention.
    assert_eq!(minmax(a, a), (a, a));
    // The ordering is numeric, not bitwise: -0.0 equals 0.0.
    let pz = 0.0f64.to_bits();
    let nz = (-0.0f64).to_bits();
    assert_eq!(minmax(pz, nz), (nz, pz));
    assert_eq!(minmax(nz, pz), (pz, nz));
}
