use mc_json_stuff::atlas::AtlasRect;
use mc_json_stuff::error::McModelError;
use mc_json_stuff::mesh::{
    assemble_mesh, ElementGeom, FaceQuad, McIndices, MeshBuilder, Vertex,
};
use mc_json_stuff::model::{
    McModelDirection, McModelElement, McModelFace, McModelFaces, McModelJson, McModelRotation,
    McModelRotationAxis, Rgba,
};
use mc_json_stuff::plan::{plan_elements, ElementPlan};
use mc_json_stuff::uv::ResolvedFaceUv;
use three_d::{vec3, Deg, Matrix4, Transform};

const FALLBACK: AtlasRect = AtlasRect { x0: 0, y0: 0, x1: 16, y1: 16 };

fn bits3(v: [f64; 3]) -> [u64; 3] {
    [v[0].to_bits(), v[1].to_bits(), v[2].to_bits()]
}

fn face() -> McModelFace {
    McModelFace {
        uv: [
            0.0f64.to_bits(),
            0.0f64.to_bits(),
            16.0f64.to_bits(),
            16.0f64.to_bits(),
        ],
        texture: "#t".to_string(),
        rotation: 0,
        cullface: None,
    }
}

/// A face whose four texture corners coincide, so that vertex identity is
/// decided by position and color alone.
fn flat_uv_face() -> McModelFace {
    let mut f = face();
    f.uv = [0, 0, 0, 0];
    f
}

fn no_faces() -> McModelFaces {
    McModelFaces { north: None, east: None, south: None, west: None, up: None, down: None }
}

fn element(from: [f64; 3], to: [f64; 3], faces: McModelFaces) -> McModelElement {
    McModelElement { from: bits3(from), to: bits3(to), faces, rotation: None }
}

fn model(elements: Vec<McModelElement>) -> McModelJson {
    McModelJson { parent: String::new(), display: None, textures: vec![], elements }
}

fn quad_of(r: &ResolvedFaceUv) -> FaceQuad {
    FaceQuad { flip: r.flip, u0: r.u0, v0: r.v0, u1: r.u1, v1: r.v1 }
}

/// Turn a plan into emitter input, keeping the texel-space coordinates as
/// they are (the numeric normalization is irrelevant to these tests).
fn geom_of(p: &ElementPlan) -> ElementGeom {
    ElementGeom {
        corners: p.corners,
        north: p.north.as_ref().map(quad_of),
        east: p.east.as_ref().map(quad_of),
        south: p.south.as_ref().map(quad_of),
        west: p.west.as_ref().map(quad_of),
        up: p.up.as_ref().map(quad_of),
        down: p.down.as_ref().map(quad_of),
    }
}

fn geoms_for(m: &McModelJson) -> Vec<ElementGeom> {
    let plans = plan_elements(m, &vec![], FALLBACK).unwrap();
    plans.iter().map(geom_of).collect()
}

fn pos(v: &Vertex) -> (f64, f64, f64) {
    (f64::from_bits(v.x), f64::from_bits(v.y), f64::from_bits(v.z))
}

#[test]
fn single_north_face_dedups_to_four_vertices() {
    let mut faces = no_faces();
    faces.north = Some(face());
    let m = model(vec![element([0.0, 0.0, 0.0], [1.0, 1.0, 1.0], faces)]);
    let mesh = assemble_mesh(&geoms_for(&m)).unwrap();
    assert_eq!(mesh.vertices.len(), 4);
    match &mesh.indices {
        McIndices::U8(idx) => assert_eq!(idx, &vec![0u8, 1, 2, 2, 3, 0]),
        _ => panic!("expected 8-bit indices"),
    }
    let p: Vec<(f64, f64, f64)> = mesh.vertices.iter().map(pos).collect();
    assert_eq!(p[0], (0.0, 0.0, 0.0));
    assert_eq!(p[1], (0.0, 1.0, 0.0));
    assert_eq!(p[2], (1.0, 1.0, 0.0));
    assert_eq!(p[3], (1.0, 0.0, 0.0));
    for v in &mesh.vertices {
        assert_eq!(v.color, Rgba { r: 204, g: 204, b: 204, a: 255 });
    }
    // Vertex 0 pairs with (u1, v0) of the resolved quad: the V-flipped
    // mapping of [0, 0, 16, 16] gives u1 = 16, v0 = 16.
    assert_eq!(f64::from_bits(mesh.vertices[0].u), 16.0);
    assert_eq!(f64::from_bits(mesh.vertices[0].v), 16.0);
}

#[test]
fn exact_shared_corners_collapse_across_elements() {
    let mut f1 = no_faces();
    f1.north = Some(flat_uv_face());
    let mut f2 = no_faces();
    f2.north = Some(flat_uv_face());
    let m = model(vec![
        element([0.0, 0.0, 0.0], [1.0, 1.0, 1.0], f1),
        element([1.0, 0.0, 0.0], [2.0, 1.0, 1.0], f2),
    ]);
    let mesh = assemble_mesh(&geoms_for(&m)).unwrap();
    // Eight template corners, two of them bit-identical across the pair.
    assert_eq!(mesh.vertices.len(), 6);
}

#[test]
fn one_ulp_of_difference_keeps_vertices_apart() {
    let nudged = f64::from_bits(1.0f64.to_bits() + 1);
    let mut f1 = no_faces();
    f1.north = Some(flat_uv_face());
    let mut f2 = no_faces();
    f2.north = Some(flat_uv_face());
    let m = model(vec![
        element([0.0, 0.0, 0.0], [1.0, 1.0, 1.0], f1),
        element([nudged, 0.0, 0.0], [2.0, 1.0, 1.0], f2),
    ]);
    let mesh = assemble_mesh(&geoms_for(&m)).unwrap();
    assert_eq!(mesh.vertices.len(), 8);
}

#[test]
fn builder_push_is_bit_exact() {
    let v = Vertex {
        x: 0.1f64.to_bits(),
        y: 0.2f64.to_bits(),
        z: 0.3f64.to_bits(),
        u: 0.4f64.to_bits(),
        v: 0.5f64.to_bits(),
        color: Rgba { r: 204, g: 204, b: 204, a: 255 },
    };
    let mut b = MeshBuilder::new();
    b.push(v).unwrap();
    b.push(v).unwrap();
    assert_eq!(b.vertices.len(), 1);
    assert_eq!(b.indices, vec![0, 0]);
    let mut w = v;
    w.z = w.z + 1; // one unit in the last place
    b.push(w).unwrap();
    assert_eq!(b.vertices.len(), 2);
    assert_eq!(b.indices, vec![0, 0, 1]);
}

/// A few shapes with known unique-vertex yield: a full quad gives 4, a
/// line (degenerate in Y) gives 2, a point gives 1.
fn elements_with_exactly(total: usize) -> Vec<McModelElement> {
    assert!(total >= 3);
    let quads = (total - 3) / 4;
    assert_eq!(quads * 4 + 3, total);
    let mut out = Vec::new();
    for i in 0..quads {
        let x = 3.0 * i as f64;
        let mut f = no_faces();
        f.north = Some(face());
        out.push(element([x, 0.0, 0.0], [x + 1.0, 1.0, 0.0], f));
    }
    let mut f = no_faces();
    f.north = Some(flat_uv_face());
    out.push(element([-10.0, 5.0, 0.0], [-9.0, 5.0, 0.0], f));
    let mut f = no_faces();
    f.north = Some(flat_uv_face());
    out.push(element([-20.0, 7.0, 0.0], [-20.0, 7.0, 0.0], f));
    out
}

#[test]
fn exactly_255_vertices_select_8_bit_indices() {
    let m = model(elements_with_exactly(255));
    let mesh = assemble_mesh(&geoms_for(&m)).unwrap();
    assert_eq!(mesh.vertices.len(), 255);
    assert!(matches!(mesh.indices, McIndices::U8(_)));
}

#[test]
fn exactly_256_vertices_select_16_bit_indices() {
    let mut elements = elements_with_exactly(255);
    let mut f = no_faces();
    f.north = Some(flat_uv_face());
    elements.push(element([-30.0, 9.0, 0.0], [-30.0, 9.0, 0.0], f));
    let m = model(elements);
    let mesh = assemble_mesh(&geoms_for(&m)).unwrap();
    assert_eq!(mesh.vertices.len(), 256);
    assert!(matches!(mesh.indices, McIndices::U16(_)));
}

#[test]
fn empty_model_has_no_indices() {
    let mesh = assemble_mesh(&vec![]).unwrap();
    assert_eq!(mesh.vertices.len(), 0);
    assert!(matches!(mesh.indices, McIndices::Empty));
}

#[test]
fn up_face_shades_white_and_down_face_shades_half() {
    let mut up_only = no_faces();
    up_only.up = Some(face());
    let m = model(vec![element([3.0, 4.0, 5.0], [6.0, 7.0, 8.0], up_only)]);
    let mesh = assemble_mesh(&geoms_for(&m)).unwrap();
    assert_eq!(mesh.vertices.len(), 4);
    for v in &mesh.vertices {
        assert_eq!(v.color, Rgba { r: 255, g: 255, b: 255, a: 255 });
    }
    let mut down_only = no_faces();
    down_only.down = Some(face());
    let m = model(vec![element([3.0, 4.0, 5.0], [6.0, 7.0, 8.0], down_only)]);
    let mesh = assemble_mesh(&geoms_for(&m)).unwrap();
    for v in &mesh.vertices {
        assert_eq!(v.color, Rgba { r: 127, g: 127, b: 127, a: 255 });
    }
}

#[test]
fn shading_bytes_match_the_renderer_conversion() {
    for (dir, mult) in [
        (McModelDirection::North, 0.8f32),
        (McModelDirection::East, 0.6),
        (McModelDirection::South, 0.8),
        (McModelDirection::West, 0.6),
        (McModelDirection::Up, 1.0),
        (McModelDirection::Down, 0.5),
    ] {
        let expected = three_d::Srgba::from([mult, mult, mult, 1.0]);
        let got = dir.get_shading_srgba();
        assert_eq!((got.r, got.g, got.b, got.a), (expected.r, expected.g, expected.b, expected.a));
    }
}

#[test]
fn quarter_turn_about_y_permutes_corners_and_keeps_y() {
    let mut f = no_faces();
    f.north = Some(face());
    f.up = Some(face());
    let mut e = element([0.0, 0.0, 0.0], [1.0, 1.0, 1.0], f);
    e.rotation = Some(McModelRotation {
        angle: 90.0f64.to_bits(),
        axis: McModelRotationAxis::Y,
        origin: bits3([0.5, 0.5, 0.5]),
    });
    let m = model(vec![e]);
    let plans = plan_elements(&m, &vec![], FALLBACK).unwrap();
    let plan = &plans[0];
    let rot = plan.rotation.as_ref().unwrap();
    assert!(matches!(rot.axis, McModelRotationAxis::Y));

    // Apply the whole-element rotation the way the conversion shell does.
    let mat = Matrix4::<f64>::from_angle_y(Deg(f64::from_bits(rot.angle)));
    let origin = vec3(
        f64::from_bits(rot.origin[0]),
        f64::from_bits(rot.origin[1]),
        f64::from_bits(rot.origin[2]),
    );
    let mut geom = geom_of(plan);
    let mut rotated = Vec::new();
    for ci in 0..8 {
        let p = geom.corners.pts[ci];
        let v = vec3(
            f64::from_bits(p[0]),
            f64::from_bits(p[1]),
            f64::from_bits(p[2]),
        );
        let r = mat.transform_vector(v - origin) + origin;
        rotated.push((r.x, r.y, r.z));
        geom.corners.pts[ci] = [r.x.to_bits(), r.y.to_bits(), r.z.to_bits()];
    }
    let mesh = assemble_mesh(&vec![geom]).unwrap();

    // The Y coordinate is untouched by a rotation about the Y axis.
    for (ci, r) in rotated.iter().enumerate() {
        let orig_y = f64::from_bits(plan.corners.pts[ci][1]);
        assert_eq!(r.1, orig_y);
    }
    // The rotated unit cube lands on the unrotated cube's corner positions,
    // up to the precision of the trigonometry.
    for v in &mesh.vertices {
        let (x, y, z) = pos(v);
        for c in [x, y, z] {
            assert!((c - c.round()).abs() < 1e-9);
            assert!(c.round() == 0.0 || c.round() == 1.0);
        }
    }
}

#[test]
fn missing_texture_faces_stay_inside_the_fallback_tile() {
    // The model references "#t", for which no allocation exists, so the
    // face resolves to the reserved tile — and the conversion succeeds.
    let atlas = mc_json_stuff::atlas::build_atlas(&vec![]).unwrap();
    let mut f = no_faces();
    f.north = Some(face());
    let m = model(vec![element([0.0, 0.0, 0.0], [1.0, 1.0, 1.0], f)]);
    let plans = plan_elements(&m, &atlas.allocations, atlas.fallback).unwrap();
    let r = plans[0].north.as_ref().unwrap();
    assert_eq!(r.rect, atlas.fallback);

    // Normalize and bleed the way the conversion shell does; the sampled
    // span must stay inside the tile.
    let size = 2048.0f64;
    let bleed = (size * 16.0).recip();
    let u0 = (r.rect.x0 as f64 + f64::from_bits(r.u0)) / size;
    let u1 = (r.rect.x0 as f64 + f64::from_bits(r.u1)) / size;
    let (u0, u1) = if u0 < u1 { (u0 + bleed, u1 - bleed) } else { (u0 - bleed, u1 + bleed) };
    let v0 = (r.rect.y0 as f64 + f64::from_bits(r.v0)) / size;
    let v1 = (r.rect.y0 as f64 + f64::from_bits(r.v1)) / size;
    let (v0, v1) = if v0 < v1 { (v0 + bleed, v1 - bleed) } else { (v0 - bleed, v1 + bleed) };
    for u in [u0, u1] {
        assert!(r.rect.x0 as f64 / size <= u && u <= r.rect.x1 as f64 / size);
    }
    for v in [v0, v1] {
        assert!(r.rect.y0 as f64 / size <= v && v <= r.rect.y1 as f64 / size);
    }
}

#[test]
fn unsupported_rotation_aborts_the_whole_conversion() {
    let mut f1 = no_faces();
    f1.north = Some(face());
    let mut bad = face();
    bad.rotation = 33;
    let mut f2 = no_faces();
    f2.down = Some(bad);
    let m = model(vec![
        element([0.0, 0.0, 0.0], [1.0, 1.0, 1.0], f1),
        element([2.0, 0.0, 0.0], [3.0, 1.0, 1.0], f2),
    ]);
    let r = plan_elements(&m, &vec![], FALLBACK);
    assert!(matches!(r, Err(McModelError::UnsupportedRotation(33))));
}
