use space_sim::render::obj::{parse_obj, push_line, resolve, ObjError};
use space_sim::render::vertex::{Mesh, Vertex};

fn chars(s: &str) -> Vec<char> {
    s.chars().collect()
}

fn line(tokens: &[&str]) -> Vec<Vec<char>> {
    tokens.iter().map(|t| chars(t)).collect()
}

fn coordinates(v: &Vertex) -> (String, String, String) {
    (v.x.iter().collect(), v.y.iter().collect(), v.z.iter().collect())
}

fn position(v: &Vertex) -> (f32, f32, f32) {
    let (x, y, z) = coordinates(v);
    (x.parse().unwrap(), y.parse().unwrap(), z.parse().unwrap())
}

#[test]
fn quad_becomes_two_triangles() {
    let text = "# a square\nv 0 0 0\nv 1 0 0\nv 1 1 0\nv 0 1 0\n\nf 1 2 3 4\n";
    let mesh = parse_obj(text).unwrap();
    assert_eq!(mesh.vertices.len(), 4);
    assert_eq!(position(&mesh.vertices[2]), (1.0, 1.0, 0.0));
    assert_eq!(mesh.indices, vec![0, 1, 2, 0, 2, 3]);
}

#[test]
fn pentagon_fans_from_its_first_corner() {
    let text = "v 0 0 0\nv 1 0 0\nv 2 1 0\nv 1 2 0\nv 0 1 0\nf 1 2 3 4 5";
    let mesh = parse_obj(text).unwrap();
    assert_eq!(mesh.indices, vec![0, 1, 2, 0, 2, 3, 0, 3, 4]);
}

#[test]
fn faces_of_one_or_two_corners_give_no_triangle() {
    let mesh = parse_obj("v 0 0 0\nv 1 0 0\nf 1\nf 1 2\n").unwrap();
    assert_eq!(mesh.vertices.len(), 2);
    assert!(mesh.indices.is_empty());
}

#[test]
fn coordinates_are_kept_as_written() {
    let mesh = parse_obj("v 1.50 -2e3 +.25 1.0 extra\n").unwrap();
    assert_eq!(
        coordinates(&mesh.vertices[0]),
        ("1.50".to_string(), "-2e3".to_string(), "+.25".to_string())
    );
    assert_eq!(position(&mesh.vertices[0]), (1.5, -2000.0, 0.25));
}

#[test]
fn entries_use_what_stands_before_the_first_slash() {
    let text = "v 0 0 0\nv 1 0 0\nv 0 1 0\nf 1/7/9 2//4 3/5\n";
    let mesh = parse_obj(text).unwrap();
    assert_eq!(mesh.indices, vec![0, 1, 2]);
}

#[test]
fn negative_references_count_back_from_the_latest_vertex() {
    let text = "v 0 0 0\nv 1 0 0\nv 0 1 0\nf -3 -2 -1\nv 5 5 5\nf -1 -2 -3\n";
    let mesh = parse_obj(text).unwrap();
    assert_eq!(mesh.indices, vec![0, 1, 2, 3, 2, 1]);
}

#[test]
fn references_outside_the_vertices_wrap() {
    assert_eq!(resolve(1, 0), 0);
    assert_eq!(resolve(0, 5), u32::MAX);
    assert_eq!(resolve(-1, 0), u32::MAX);
    assert_eq!(resolve(-3, 1), u32::MAX - 1);
    assert_eq!(resolve(i32::MAX, 0), 2147483646);
    assert_eq!(resolve(i32::MIN, 0), 2147483648);
    assert_eq!(resolve(-2, 10), 8);
    assert_eq!(resolve(7, 3), 6);
    let mesh = parse_obj("v 0 0 0\nf 0 1 -1 -2\n").unwrap();
    assert_eq!(mesh.indices, vec![u32::MAX, 0, 0, u32::MAX, 0, u32::MAX]);
}

#[test]
fn comments_blank_lines_and_other_tags_are_skipped() {
    let text = "\n   \n# v 1 2 3\n  #f 1 2 3\nvn 0 0 1\nvt 0 0\no thing\ng\nusemtl m\nvv 1 2 3\nv# 1 2 3\n";
    let mesh = parse_obj(text).unwrap();
    assert!(mesh.vertices.is_empty());
    assert!(mesh.indices.is_empty());
}

#[test]
fn carriage_returns_and_wide_spaces_separate_tokens() {
    let text = "v 0 0 0\r\nv\t1\u{a0}0\u{2003}0\r\n  v 0 1 0  \r\nf 1 2 3\r\n";
    let mesh = parse_obj(text).unwrap();
    assert_eq!(mesh.vertices.len(), 3);
    assert_eq!(position(&mesh.vertices[1]), (1.0, 0.0, 0.0));
    assert_eq!(mesh.indices, vec![0, 1, 2]);
}

#[test]
fn empty_text_is_an_empty_mesh() {
    let mesh = parse_obj("").unwrap();
    assert!(mesh.vertices.is_empty());
    assert!(mesh.indices.is_empty());
}

#[test]
fn missing_coordinate_is_reported() {
    assert_eq!(parse_obj("v").err(), Some(ObjError::MissingCoordinate));
    assert_eq!(parse_obj("v 1").err(), Some(ObjError::MissingCoordinate));
    assert_eq!(parse_obj("v 1 2\nv 1 2 3").err(), Some(ObjError::MissingCoordinate));
}

#[test]
fn invalid_coordinate_is_reported() {
    assert_eq!(parse_obj("v 1 2 x").err(), Some(ObjError::InvalidCoordinate));
    assert_eq!(parse_obj("v one").err(), Some(ObjError::InvalidCoordinate));
    assert_eq!(parse_obj("v 1 2, 3").err(), Some(ObjError::InvalidCoordinate));
    assert_eq!(parse_obj("v 1 . 3").err(), Some(ObjError::InvalidCoordinate));
}

#[test]
fn invalid_index_is_reported() {
    assert_eq!(parse_obj("f a b c").err(), Some(ObjError::InvalidIndex));
    assert_eq!(parse_obj("f 1 2 /3").err(), Some(ObjError::InvalidIndex));
    assert_eq!(parse_obj("f 1 2 3.0").err(), Some(ObjError::InvalidIndex));
    assert_eq!(parse_obj("f 1 2 2147483648").err(), Some(ObjError::InvalidIndex));
}

#[test]
fn empty_face_is_reported() {
    assert_eq!(parse_obj("f").err(), Some(ObjError::EmptyFace));
    assert_eq!(parse_obj("v 0 0 0\n  f  \n").err(), Some(ObjError::EmptyFace));
}

#[test]
fn the_first_failing_line_decides() {
    assert_eq!(parse_obj("f x\nv 1\n").err(), Some(ObjError::InvalidIndex));
    assert_eq!(parse_obj("v 1\nf x\n").err(), Some(ObjError::MissingCoordinate));
    assert_eq!(parse_obj("v a\nf\n").err(), Some(ObjError::InvalidCoordinate));
    assert_eq!(parse_obj("f\nv a\n").err(), Some(ObjError::EmptyFace));
}

#[test]
fn a_failing_line_leaves_the_mesh_alone() {
    let mut mesh = Mesh::new();
    assert_eq!(push_line(&mut mesh, &line(&["v", "1", "2", "3"])), Ok(()));
    assert_eq!(push_line(&mut mesh, &line(&["f", "1", "1", "1"])), Ok(()));
    assert_eq!(push_line(&mut mesh, &line(&["f", "1", "oops"])), Err(ObjError::InvalidIndex));
    assert_eq!(push_line(&mut mesh, &line(&["v", "1", "2"])), Err(ObjError::MissingCoordinate));
    assert_eq!(mesh.vertices.len(), 1);
    assert_eq!(mesh.indices, vec![0, 0, 0]);
}
