use diorama::obj::{
    classify_line, face_triangles, parse_corner, parse_index, parse_record, record_from_fields, resolve_index, triangulate, FaceCorner,
    ObjError, ObjLine, ObjRecord,
};

fn corner(vertex: i64, uv: Option<i64>) -> FaceCorner {
    FaceCorner { vertex, uv }
}

#[test]
fn parse_index_reads_signed_decimals() {
    assert_eq!(parse_index(b"42"), 42);
    assert_eq!(parse_index(b"-3"), -3);
    assert_eq!(parse_index(b"+7"), 7);
    assert_eq!(parse_index(b"007"), 7);
    assert_eq!(parse_index(b"2147483647"), i32::MAX);
    assert_eq!(parse_index(b"-2147483648"), i32::MIN);
}

#[test]
fn parse_index_reads_bad_text_as_zero() {
    assert_eq!(parse_index(b""), 0);
    assert_eq!(parse_index(b"-"), 0);
    assert_eq!(parse_index(b"+"), 0);
    assert_eq!(parse_index(b"1x"), 0);
    assert_eq!(parse_index(b" 1"), 0);
    assert_eq!(parse_index(b"2147483648"), 0);
    assert_eq!(parse_index(b"-2147483649"), 0);
    assert_eq!(parse_index(b"99999999999999999999"), 0);
}

#[test]
fn resolve_index_cases() {
    assert_eq!(resolve_index(1, 10), Some(0));
    assert_eq!(resolve_index(10, 10), Some(9));
    assert_eq!(resolve_index(-1, 10), Some(9));
    assert_eq!(resolve_index(-10, 10), Some(0));
    assert_eq!(resolve_index(-11, 10), Some(-1));
    assert_eq!(resolve_index(0, 10), None);
}

#[test]
fn parse_corner_forms() {
    assert_eq!(parse_corner("3", 5, 5), Some(corner(2, None)));
    assert_eq!(parse_corner("3/2", 5, 5), Some(corner(2, Some(1))));
    assert_eq!(parse_corner("3/2/1", 5, 5), Some(corner(2, Some(1))));
    assert_eq!(parse_corner("3//1", 5, 5), Some(corner(2, None)));
    assert_eq!(parse_corner("-1/-2", 5, 4), Some(corner(4, Some(2))));
    assert_eq!(parse_corner("/2", 5, 5), None);
    assert_eq!(parse_corner("0/2", 5, 5), None);
    assert_eq!(parse_corner("x/2", 5, 5), None);
    assert_eq!(parse_corner("3/0", 5, 5), Some(corner(2, None)));
}

#[test]
fn triangulate_makes_a_fan() {
    let cs = vec![corner(0, None), corner(1, None), corner(2, None), corner(3, None)];
    let tris = triangulate(&cs, 4, 0).unwrap();
    assert_eq!(tris, vec![(cs[0], cs[1], cs[2]), (cs[0], cs[2], cs[3])]);
}

#[test]
fn triangulate_too_few_corners_gives_none() {
    let cs = vec![corner(0, None), corner(9, None)];
    assert_eq!(triangulate(&cs, 1, 0), Ok(vec![]));
}

#[test]
fn triangulate_rejects_missing_vertex() {
    let cs = vec![corner(0, None), corner(1, None), corner(3, None)];
    assert_eq!(triangulate(&cs, 3, 0), Err(ObjError::IndexOutOfRange));
    let cs = vec![corner(0, Some(0)), corner(1, Some(1)), corner(2, Some(-1))];
    assert_eq!(triangulate(&cs, 3, 2), Err(ObjError::IndexOutOfRange));
}

#[test]
fn face_triangles_of_a_quad_with_uvs() {
    let tokens = vec!["1/1", "2/2", "3/3", "4/4"];
    let tris = face_triangles(&tokens, 4, 4).unwrap();
    assert_eq!(tris.len(), 2);
    assert_eq!(tris[1], (corner(0, Some(0)), corner(2, Some(2)), corner(3, Some(3))));
}

#[test]
fn face_triangles_skips_tokens_without_vertex() {
    let tokens = vec!["1", "0", "2", "3"];
    let tris = face_triangles(&tokens, 3, 0).unwrap();
    assert_eq!(tris, vec![(corner(0, None), corner(1, None), corner(2, None))]);
}

#[test]
fn face_triangles_of_short_record_is_empty() {
    let tokens = vec!["1", "2"];
    assert_eq!(face_triangles(&tokens, 3, 0), Ok(vec![]));
}

#[test]
fn face_triangles_relative_indices() {
    let tokens = vec!["-3", "-2", "-1"];
    let tris = face_triangles(&tokens, 5, 0).unwrap();
    assert_eq!(tris, vec![(corner(2, None), corner(3, None), corner(4, None))]);
    assert_eq!(face_triangles(&vec!["-6", "-2", "-1"], 5, 0), Err(ObjError::IndexOutOfRange));
}

#[test]
fn classify_lines() {
    assert_eq!(classify_line(""), ObjLine::Blank);
    assert_eq!(classify_line("# comment"), ObjLine::Comment);
    assert_eq!(classify_line("v 1 2 3"), ObjLine::Position);
    assert_eq!(classify_line("vt 0.5 0.5"), ObjLine::TexCoord);
    assert_eq!(classify_line("f 1 2 3"), ObjLine::Face);
    assert_eq!(classify_line("vn 0 1 0"), ObjLine::Other);
    assert_eq!(classify_line("v"), ObjLine::Other);
    assert_eq!(classify_line("usemtl x"), ObjLine::Other);
}

#[test]
fn parse_record_position_and_texcoord() {
    assert!(matches!(parse_record("  v 1.5 -2 3e1  ", 0, 0), Ok(ObjRecord::Position("1.5", "-2", "3e1"))));
    assert!(matches!(parse_record("v\t1 2 3", 0, 0), Ok(ObjRecord::Skip)));
    assert!(matches!(parse_record("v 1 2", 0, 0), Ok(ObjRecord::Skip)));
    assert!(matches!(parse_record("vt 0.25   0.75 0", 0, 0), Ok(ObjRecord::TexCoord("0.25", "0.75"))));
    assert!(matches!(parse_record("vt 0.25", 0, 0), Ok(ObjRecord::Skip)));
}

#[test]
fn parse_record_skips_blank_comment_and_other() {
    assert!(matches!(parse_record("", 0, 0), Ok(ObjRecord::Skip)));
    assert!(matches!(parse_record("   ", 0, 0), Ok(ObjRecord::Skip)));
    assert!(matches!(parse_record("# v 1 2 3", 0, 0), Ok(ObjRecord::Skip)));
    assert!(matches!(parse_record("vn 0 1 0", 0, 0), Ok(ObjRecord::Skip)));
}

#[test]
fn parse_record_face() {
    match parse_record(" f 1/1 2/2 3/3 4/4\r", 4, 4) {
        Ok(ObjRecord::Face(tris)) => {
            assert_eq!(tris.len(), 2);
            assert_eq!(tris[0], (corner(0, Some(0)), corner(1, Some(1)), corner(2, Some(2))));
        }
        other => panic!("unexpected {:?}", other),
    }
    assert!(matches!(parse_record("f 1 2", 4, 0), Ok(ObjRecord::Face(ref t)) if t.is_empty()));
    assert!(matches!(parse_record("f 1 2 9", 4, 0), Err(ObjError::IndexOutOfRange)));
}

#[test]
fn parse_record_unicode_white_space() {
    assert!(matches!(parse_record("\u{3000}v 1\u{a0}2 3 4", 0, 0), Ok(ObjRecord::Position("1", "2", "3"))));
}

#[test]
fn record_from_fields_picks_fields() {
    let fields = vec!["v", "1", "2", "3", "4"];
    assert!(matches!(record_from_fields(ObjLine::Position, &fields, 0, 0), Ok(ObjRecord::Position("1", "2", "3"))));
    let fields = vec!["vt", "0.5"];
    assert!(matches!(record_from_fields(ObjLine::TexCoord, &fields, 0, 0), Ok(ObjRecord::Skip)));
    let fields = vec!["f", "1", "2", "3"];
    assert!(matches!(record_from_fields(ObjLine::Face, &fields, 3, 0), Ok(ObjRecord::Face(ref t)) if t.len() == 1));
    assert!(matches!(record_from_fields(ObjLine::Comment, &fields, 3, 0), Ok(ObjRecord::Skip)));
}
