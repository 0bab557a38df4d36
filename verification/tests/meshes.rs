use objscene::mesh::Double;
use objscene::mesh::Triple;
use objscene::obj::ObjParser;

fn lines(text: &str) -> Vec<String> {
    text.lines().map(|l| l.to_string()).collect()
}

#[test]
fn cube_of_quads_emits_twelve_triangles() {
    let text = "\
# unit cube
v -0.5 -0.5 -0.5
v -0.5 -0.5 0.5
v -0.5 0.5 -0.5
v -0.5 0.5 0.5
v 0.5 -0.5 -0.5
v 0.5 -0.5 0.5
v 0.5 0.5 -0.5
v 0.5 0.5 0.5
vt 0 0
vn 0 -1 0
vn 0 0 1
vn 0 1 0
vn 0 0 -1
vn -1 0 0
vn 1 0 0
f 1/1/1 2/1/1 6/1/1 5/1/1
f 2/1/2 4/1/2 8/1/2 6/1/2
f 4/1/3 3/1/3 7/1/3 8/1/3
f 1/1/4 3/1/4 7/1/4 5/1/4
f 1/1/5 3/1/5 4/1/5 2/1/5
f 5/1/6 7/1/6 8/1/6 6/1/6
";
    let vs = ObjParser::new().parse_obj(&lines(text)).unwrap();
    assert_eq!(vs.len(), 36);
    // Each face is a fan anchored at its first vertex: the fourth emitted
    // vertex of a quad repeats the first.
    for face in vs.chunks(6) {
        assert_eq!(face[0].coordinates.x, face[3].coordinates.x);
        assert_eq!(face[0].coordinates.y, face[3].coordinates.y);
        assert_eq!(face[0].coordinates.z, face[3].coordinates.z);
    }
}

#[test]
fn coordinate_tokens_pass_through_unchanged() {
    let text = "\
v -0.5 1e3 +2.25
v 1 2 3
v 4 5 6
vt .25 1E-2
vn -1 0 0
f 1/1/1 2/1/1 3/1/1
";
    let vs = ObjParser::new().parse_obj(&lines(text)).unwrap();
    assert_eq!(vs[0].coordinates.x, "-0.5");
    assert_eq!(vs[0].coordinates.y, "1e3");
    assert_eq!(vs[0].coordinates.z, "+2.25");
    assert_eq!(vs[0].texture_coordinates.x, ".25");
    assert_eq!(vs[0].texture_coordinates.y, "1E-2");
    assert_eq!(vs[0].normal.x, "-1");
}

#[test]
fn vertex_data_resolves_one_based_indices() {
    let mut parser = ObjParser::new();
    parser.points.push(Triple {
        x: "10".to_string(),
        y: "11".to_string(),
        z: "12".to_string(),
    });
    parser.points.push(Triple {
        x: "20".to_string(),
        y: "21".to_string(),
        z: "22".to_string(),
    });
    parser.texture_coords.push(Double {
        x: "0.5".to_string(),
        y: "0.25".to_string(),
    });
    parser.normals.push(Triple {
        x: "0".to_string(),
        y: "1".to_string(),
        z: "0".to_string(),
    });
    let v = parser.parse_vertex_data("2/1/1").unwrap();
    assert_eq!(v.coordinates.x, "20");
    assert_eq!(v.texture_coordinates.y, "0.25");
    assert_eq!(v.normal.y, "1");
    assert_eq!(v.color.x, "1");
    let err = parser.parse_vertex_data("3/1/1").unwrap_err();
    assert_eq!(err, "Face vertex index out of range");
    let err = parser.parse_vertex_data("").unwrap_err();
    assert_eq!(err, "Could not parse `` into usize");
}

#[test]
fn extra_fields_on_a_record_are_ignored() {
    let text = "\
v 1 2 3 4 5
vt 0 0 7
vn 0 0 1 9
f 1/1/1 1/1/1 1/1/1
";
    let vs = ObjParser::new().parse_obj(&lines(text)).unwrap();
    assert_eq!(vs.len(), 3);
    assert_eq!(vs[0].coordinates.z, "3");
}

#[test]
fn face_vertex_with_extra_index_fields_is_accepted() {
    let text = "\
v 1 2 3
vt 0 0
vn 0 0 1
f 1/1/1/9 1/1/1 1/1/1
";
    let vs = ObjParser::new().parse_obj(&lines(text)).unwrap();
    assert_eq!(vs.len(), 3);
}

#[test]
fn empty_index_field_is_an_error() {
    let text = "\
v 1 2 3
vt 0 0
vn 0 0 1
f 1//1 1/1/1 1/1/1
";
    let err = ObjParser::new().parse_obj(&lines(text)).unwrap_err();
    assert_eq!(err, "Could not parse `` into usize");
}
