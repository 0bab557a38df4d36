use objscene::obj::ObjParser;
use objscene::text::parse;

fn lines(text: &str) -> Vec<String> {
    text.lines().map(|l| l.to_string()).collect()
}

fn parse_text(text: &str) -> Result<Vec<objscene::mesh::VertexData>, String> {
    ObjParser::new().parse_obj(&lines(text))
}

const SMALL: &str = "\
# a triangle
v 0 0 0
v 1 0 0
v 1 1 0
vt 0 0
vt 1 1
vn 0 0 1
f 1/1/1 2/2/1 3/1/1
";

#[test]
fn triangle_resolves_indices() {
    let vs = parse_text(SMALL).unwrap();
    assert_eq!(vs.len(), 3);
    assert_eq!(vs[0].coordinates.x, "0");
    assert_eq!(vs[0].coordinates.y, "0");
    assert_eq!(vs[0].coordinates.z, "0");
    assert_eq!(vs[1].coordinates.x, "1");
    assert_eq!(vs[1].coordinates.y, "0");
    assert_eq!(vs[2].coordinates.y, "1");
    assert_eq!(vs[0].texture_coordinates.x, "0");
    assert_eq!(vs[1].texture_coordinates.x, "1");
    assert_eq!(vs[1].texture_coordinates.y, "1");
    for v in &vs {
        assert_eq!(v.normal.x, "0");
        assert_eq!(v.normal.y, "0");
        assert_eq!(v.normal.z, "1");
        assert_eq!(v.color.x, "1");
        assert_eq!(v.color.y, "1");
        assert_eq!(v.color.z, "1");
    }
}

#[test]
fn quad_becomes_a_fan_of_two_triangles() {
    let text = "\
v 0 0 0
v 1 0 0
v 1 1 0
v 0 1 0
vt 0 0
vn 0 0 1
f 1/1/1 2/1/1 3/1/1 4/1/1
";
    let vs = parse_text(text).unwrap();
    assert_eq!(vs.len(), 6);
    // First triangle: vertices 1, 2, 3; second: 1, 3, 4, anchored at 1.
    let xs: Vec<(&str, &str)> = vs
        .iter()
        .map(|v| (v.coordinates.x.as_str(), v.coordinates.y.as_str()))
        .collect();
    assert_eq!(xs, vec![
        ("0", "0"),
        ("1", "0"),
        ("1", "1"),
        ("0", "0"),
        ("1", "1"),
        ("0", "1"),
    ]);
}

#[test]
fn pentagon_emits_nine_vertices() {
    let text = "\
v 0 0 0
v 1 0 0
v 2 1 0
v 1 2 0
v 0 1 0
vt 0 0
vn 0 0 1
f 1/1/1 2/1/1 3/1/1 4/1/1 5/1/1
";
    let vs = parse_text(text).unwrap();
    assert_eq!(vs.len(), 9);
}

#[test]
fn two_vertex_face_emits_nothing() {
    let text = "\
v 0 0 0
v 1 0 0
vt 0 0
vn 0 0 1
f 1/1/1 2/1/1
";
    let vs = parse_text(text).unwrap();
    assert_eq!(vs.len(), 0);
}

#[test]
fn comments_blanks_and_unknown_keywords_are_skipped() {
    let text = "\
# header comment
o some object


usemtl stone
v 0 0 0
v 1 0 0
v 1 1 0
vt 0 0
vn 0 0 1
s off
f 1/1/1 2/1/1 3/1/1
";
    let vs = parse_text(text).unwrap();
    assert_eq!(vs.len(), 3);
}

#[test]
fn extra_spaces_between_tokens_are_tolerated() {
    let text = "\
v   0  0   0
v 1 0 0
v 1 1 0
vt  0  0
vn  0  0  1
f   1/1/1   2/1/1   3/1/1
";
    let vs = parse_text(text).unwrap();
    assert_eq!(vs.len(), 3);
}

#[test]
fn one_vertex_face_is_an_error() {
    let err = parse_text("v 0 0 0\nvt 0 0\nvn 0 0 1\nf 1/1/1\n").unwrap_err();
    assert_eq!(err, "Not enough entities for a polygon");
}

#[test]
fn short_point_record_is_an_error() {
    let err = parse_text("v 1 2\n").unwrap_err();
    assert_eq!(err, "Not enough coordinates for a point 3");
}

#[test]
fn short_texture_record_keeps_the_point_3_wording() {
    let err = parse_text("vt 1\n").unwrap_err();
    assert_eq!(err, "Not enough coordinates for a point 3");
}

#[test]
fn bad_coordinate_is_an_error() {
    let err = parse_text("v a 2 3\n").unwrap_err();
    assert_eq!(err, "Could not parse `a` into f32");
}

#[test]
fn bad_face_index_is_an_error() {
    let err = parse_text("v 0 0 0\nvt 0 0\nvn 0 0 1\nf x/1/1 1/1/1 1/1/1\n").unwrap_err();
    assert_eq!(err, "Could not parse `x` into usize");
}

#[test]
fn zero_face_index_is_an_error() {
    let err = parse_text("v 0 0 0\nvt 0 0\nvn 0 0 1\nf 0/1/1 1/1/1 1/1/1\n").unwrap_err();
    assert_eq!(err, "Face vertex index out of range");
}

#[test]
fn oversized_face_index_is_an_error() {
    let err = parse_text("v 0 0 0\nvt 0 0\nvn 0 0 1\nf 2/1/1 1/1/1 1/1/1\n").unwrap_err();
    assert_eq!(err, "Face vertex index out of range");
}

#[test]
fn missing_index_fields_are_an_error() {
    let err = parse_text("v 0 0 0\nvt 0 0\nvn 0 0 1\nf 1/1 1/1/1 1/1/1\n").unwrap_err();
    assert_eq!(err, "Not enough index fields for a face vertex");
}

#[test]
fn error_stops_at_the_first_bad_line() {
    let err = parse_text("v 0 0 0\nv oops 0 0\nv also bad\n").unwrap_err();
    assert_eq!(err, "Could not parse `oops` into f32");
}

#[test]
fn empty_input_yields_no_vertices() {
    let vs = parse_text("").unwrap();
    assert_eq!(vs.len(), 0);
}

#[test]
fn parse_reads_decimal_usize() {
    assert_eq!(parse("12"), Ok(12));
    assert_eq!(parse("+7"), Ok(7));
    assert_eq!(parse("007"), Ok(7));
    assert_eq!(parse("0"), Ok(0));
}

#[test]
fn parse_rejects_what_is_not_a_decimal_usize() {
    assert_eq!(parse(""), Err("Could not parse `` into usize".to_string()));
    assert_eq!(parse("+"), Err("Could not parse `+` into usize".to_string()));
    assert_eq!(parse("1a"), Err("Could not parse `1a` into usize".to_string()));
    assert_eq!(parse("-1"), Err("Could not parse `-1` into usize".to_string()));
    assert_eq!(
        parse("99999999999999999999999999"),
        Err("Could not parse `99999999999999999999999999` into usize".to_string())
    );
}

#[test]
fn parse_matches_the_standard_parser() {
    for s in [
        "0", "1", "12", "+12", "007", "", "+", "-1", "1a", " 1", "1 ",
        "18446744073709551615", "18446744073709551616",
    ] {
        assert_eq!(parse(s).is_ok(), s.parse::<usize>().is_ok(), "token {:?}", s);
        if let Ok(v) = parse(s) {
            assert_eq!(v, s.parse::<usize>().unwrap(), "token {:?}", s);
        }
    }
}
