use webmaths::obj::{parse_obj, Coords, ObjError, Span, TriData};

fn word<'a>(text: &'a str, s: Span) -> &'a str {
    &text[s.start..s.end]
}

fn words<'a>(text: &'a str, c: &Coords) -> [&'a str; 3] {
    [word(text, c.x), word(text, c.y), word(text, c.z)]
}

fn error_of(text: &str) -> ObjError {
    match parse_obj(text) {
        Ok(_) => panic!("accepted: {:?}", text),
        Err(e) => e,
    }
}

#[test]
fn one_triangle() {
    let text = "v 0 0 0\nv 1.5 0 0\nv 0 -2e1 0\nvn 0 0 1\nf 1/1/1 2/2/1 3/3/1\n";
    let mesh = parse_obj(text).ok().unwrap();
    assert_eq!(mesh.vertices.len(), 3);
    assert_eq!(mesh.normals.len(), 1);
    assert_eq!(words(text, &mesh.vertices[0]), ["0", "0", "0"]);
    assert_eq!(words(text, &mesh.vertices[1]), ["1.5", "0", "0"]);
    assert_eq!(words(text, &mesh.vertices[2]), ["0", "-2e1", "0"]);
    assert_eq!(words(text, &mesh.normals[0]), ["0", "0", "1"]);
    assert_eq!(mesh.triangles, vec![TriData { p: [2, 1, 0], n: [0, 0, 0] }]);
}

#[test]
fn one_face_line_gives_one_triangle_with_reversed_corners() {
    let text = "v 0 0 0\nv 1 0 0\nv 0 1 0\nvn 0 0 1\nf 1//1 2//1 3//1";
    let mesh = parse_obj(text).ok().unwrap();
    assert_eq!(mesh.triangles.len(), 1);
    let t = mesh.triangles[0];
    assert_eq!(words(text, &mesh.vertices[t.p[0]]), ["0", "1", "0"]);
    assert_eq!(words(text, &mesh.vertices[t.p[1]]), ["1", "0", "0"]);
    assert_eq!(words(text, &mesh.vertices[t.p[2]]), ["0", "0", "0"]);
    for k in 0..3 {
        assert_eq!(words(text, &mesh.normals[t.n[k]]), ["0", "0", "1"]);
    }
}

#[test]
fn faces_keep_their_order() {
    let text = "v 0 0 0\nv 1 0 0\nv 0 1 0\nvn 0 0 1\nvn 1 0 0\nf 1//1 2//1 3//2\nf 3//2 3//1 1//2\n";
    let mesh = parse_obj(text).ok().unwrap();
    assert_eq!(
        mesh.triangles,
        vec![TriData { p: [2, 1, 0], n: [1, 0, 0] }, TriData { p: [0, 2, 2], n: [1, 0, 1] }]
    );
}

#[test]
fn spans_point_into_the_text() {
    let text = "vn 0.25 -1 3";
    let mesh = parse_obj(text).ok().unwrap();
    assert_eq!(mesh.normals[0].x, Span { start: 3, end: 7 });
    assert_eq!(mesh.normals[0].y, Span { start: 8, end: 10 });
    assert_eq!(mesh.normals[0].z, Span { start: 11, end: 12 });
}

#[test]
fn empty_text_is_an_empty_mesh() {
    let mesh = parse_obj("").ok().unwrap();
    assert!(mesh.vertices.is_empty() && mesh.normals.is_empty() && mesh.triangles.is_empty());
}

#[test]
fn other_lines_are_passed_over() {
    let text = "# a comment\n\nvt 0 0\no thing\nv 1 2 3\n  v 4 5 6\nvx 1 2 3\n";
    let mesh = parse_obj(text).ok().unwrap();
    assert_eq!(mesh.vertices.len(), 1);
    assert_eq!(words(text, &mesh.vertices[0]), ["1", "2", "3"]);
}

#[test]
fn carriage_return_before_line_feed_ends_the_line() {
    let text = "v 1 2 3\r\nv 4 5 6\r\n";
    let mesh = parse_obj(text).ok().unwrap();
    assert_eq!(words(text, &mesh.vertices[0]), ["1", "2", "3"]);
    assert_eq!(words(text, &mesh.vertices[1]), ["4", "5", "6"]);
}

#[test]
fn carriage_return_at_the_end_of_the_text_stays() {
    let text = "v 1 2 3\r";
    let mesh = parse_obj(text).ok().unwrap();
    assert_eq!(words(text, &mesh.vertices[0]), ["1", "2", "3\r"]);
}

#[test]
fn last_line_needs_no_line_feed() {
    let text = "v 1 2 3\nv 4 5 6";
    let mesh = parse_obj(text).ok().unwrap();
    assert_eq!(mesh.vertices.len(), 2);
    assert_eq!(words(text, &mesh.vertices[1]), ["4", "5", "6"]);
}

#[test]
fn two_spaces_make_an_empty_piece() {
    let text = "v  1 2 3";
    let mesh = parse_obj(text).ok().unwrap();
    assert_eq!(words(text, &mesh.vertices[0]), ["", "1", "2"]);
}

#[test]
fn more_than_three_coordinates_are_left_out() {
    let text = "v 1 2 3 4 5";
    let mesh = parse_obj(text).ok().unwrap();
    assert_eq!(words(text, &mesh.vertices[0]), ["1", "2", "3"]);
}

#[test]
fn missing_number() {
    assert_eq!(error_of("v 1 2"), ObjError::MissingNumber);
    assert_eq!(error_of("vn"), ObjError::MissingNumber);
    assert_eq!(error_of("v 1 2 3\nvn 1\n"), ObjError::MissingNumber);
}

#[test]
fn missing_corner() {
    let head = "v 0 0 0\nvn 0 0 1\n";
    assert_eq!(error_of(&format!("{head}f")), ObjError::MissingCorner);
    assert_eq!(error_of(&format!("{head}f 1//1 1//1")), ObjError::MissingCorner);
}

#[test]
fn missing_index() {
    let head = "v 0 0 0\nvn 0 0 1\n";
    assert_eq!(error_of(&format!("{head}f 1 1 1")), ObjError::MissingIndex);
    assert_eq!(error_of(&format!("{head}f 1/1 1/1 1/1")), ObjError::MissingIndex);
    assert_eq!(error_of(&format!("{head}f 1//1 1/ 1//1")), ObjError::MissingIndex);
}

#[test]
fn bad_index() {
    let head = "v 0 0 0\nvn 0 0 1\n";
    assert_eq!(error_of(&format!("{head}f a//1 1//1 1//1")), ObjError::BadIndex);
    assert_eq!(error_of(&format!("{head}f /1/1 1//1 1//1")), ObjError::BadIndex);
    assert_eq!(error_of(&format!("{head}f 0//1 1//1 1//1")), ObjError::BadIndex);
    assert_eq!(error_of(&format!("{head}f 1//0 1//1 1//1")), ObjError::BadIndex);
    assert_eq!(error_of(&format!("{head}f -1//1 1//1 1//1")), ObjError::BadIndex);
    assert_eq!(error_of(&format!("{head}f 1//1 1//1x 1//1")), ObjError::BadIndex);
    assert_eq!(error_of(&format!("{head}f +//1 1//1 1//1")), ObjError::BadIndex);
    assert_eq!(error_of(&format!("{head}f  1//1 1//1 1//1")), ObjError::BadIndex);
    assert_eq!(
        error_of(&format!("{head}f 99999999999999999999999999//1 1//1 1//1")),
        ObjError::BadIndex
    );
}

#[test]
fn index_agrees_with_the_number_reader_of_std() {
    let head = "v 0 0 0\nv 0 0 0\nvn 0 0 1\n";
    for piece in ["1", "+1", "01", "2", "+02", "3", "0", "", "+", "++1", "1+", "1.0", "18446744073709551616"] {
        let text = format!("{head}f {piece}//1 1//1 1//1");
        let want = match piece.parse::<usize>() {
            Ok(0) => Err(ObjError::BadIndex),
            Ok(v) if v <= 2 => Ok(v - 1),
            Ok(_) => Err(ObjError::UnknownVertex),
            Err(_) => Err(ObjError::BadIndex),
        };
        let got = parse_obj(&text).map(|m| m.triangles[0].p[2]);
        assert_eq!(got.ok(), want.ok(), "piece {:?}", piece);
        if let Err(e) = want {
            assert_eq!(error_of(&text), e, "piece {:?}", piece);
        }
    }
}

#[test]
fn plus_sign_is_taken() {
    let text = "v 0 0 0\nvn 0 0 1\nf +1//+1 1//1 1//1";
    let mesh = parse_obj(text).ok().unwrap();
    assert_eq!(mesh.triangles, vec![TriData { p: [0, 0, 0], n: [0, 0, 0] }]);
}

#[test]
fn unknown_vertex_and_normal() {
    assert_eq!(error_of("vn 0 0 1\nf 1//1 1//1 1//1"), ObjError::UnknownVertex);
    assert_eq!(error_of("v 0 0 0\nf 1//1 1//1 1//1"), ObjError::UnknownNormal);
    assert_eq!(error_of("v 0 0 0\nvn 0 0 1\nf 1//1 2//1 1//1"), ObjError::UnknownVertex);
    assert_eq!(error_of("v 0 0 0\nvn 0 0 1\nf 1//1 1//2 1//1"), ObjError::UnknownNormal);
}

#[test]
fn face_sees_only_what_came_before_it() {
    assert_eq!(error_of("vn 0 0 1\nf 1//1 1//1 1//1\nv 0 0 0\n"), ObjError::UnknownVertex);
}

#[test]
fn first_error_decides() {
    assert_eq!(error_of("v 1\nf x"), ObjError::MissingNumber);
    assert_eq!(error_of("f 1//1\nv 1"), ObjError::UnknownVertex);
    let head = "v 0 0 0\nvn 0 0 1\n";
    assert_eq!(error_of(&format!("{head}f 1//1 x")), ObjError::BadIndex);
    assert_eq!(error_of(&format!("{head}f 2//9 1")), ObjError::UnknownVertex);
}

#[test]
fn corners_of_a_read_mesh_are_known() {
    let text = "v 0 0 0\nv 1 0 0\nvn 0 0 1\nf 2//1 1//1 2//1\nv 2 2 2\nf 3//1 1//1 2//1\n";
    let mesh = parse_obj(text).ok().unwrap();
    assert_eq!(mesh.triangles.len(), 2);
    for t in mesh.triangles.iter() {
        for k in 0..3 {
            assert!(t.p[k] < mesh.vertices.len());
            assert!(t.n[k] < mesh.normals.len());
        }
    }
    assert_eq!(mesh.triangles[0].p, [1, 0, 1]);
    assert_eq!(mesh.triangles[1].p, [1, 0, 2]);
}
