use mc_json_stuff::model::{
    McModelDirection, McModelElement, McModelFace, McModelFaces, McModelJson,
};

fn face() -> McModelFace {
    McModelFace {
        uv: [0, 0, 0, 0],
        texture: "#t".to_string(),
        rotation: 0,
        cullface: None,
    }
}

#[test]
fn normals_point_outward() {
    assert_eq!(McModelDirection::North.get_normal(), (0, 0, -1));
    assert_eq!(McModelDirection::East.get_normal(), (1, 0, 0));
    assert_eq!(McModelDirection::South.get_normal(), (0, 0, 1));
    assert_eq!(McModelDirection::West.get_normal(), (-1, 0, 0));
    assert_eq!(McModelDirection::Up.get_normal(), (0, 1, 0));
    assert_eq!(McModelDirection::Down.get_normal(), (0, -1, 0));
}

#[test]
fn face_counts_add_up() {
    let one = McModelElement {
        from: [0, 0, 0],
        to: [0, 0, 0],
        faces: McModelFaces {
            north: Some(face()),
            east: None,
            south: Some(face()),
            west: None,
            up: Some(face()),
            down: None,
        },
        rotation: None,
    };
    let two = McModelElement {
        from: [0, 0, 0],
        to: [0, 0, 0],
        faces: McModelFaces {
            north: None,
            east: Some(face()),
            south: None,
            west: None,
            up: None,
            down: Some(face()),
        },
        rotation: None,
    };
    assert_eq!(one.faces_enabled(), 3);
    assert_eq!(two.faces_enabled(), 2);
    let m = McModelJson {
        parent: String::new(),
        display: None,
        textures: vec![],
        elements: vec![one, two],
    };
    assert_eq!(m.face_count(), 5);
}
