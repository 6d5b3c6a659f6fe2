use software_renderer::color::Color;
use software_renderer::mesh::{triangulate_faces, FaceElement, Triangle3D};
use software_renderer::model::Model;
use software_renderer::obj::{
    is_skipped_line, parse_command, parse_corner, parse_face_element, parse_usize, split_slashes, Obj, ObjCommand,
    ObjError,
};

fn face(indices: &[usize]) -> FaceElement {
    FaceElement { vertex_indices: indices.to_vec(), texture_indices: None, normal_indices: None }
}

fn corners(t: &Triangle3D<char>) -> (char, char, char) {
    (t.a, t.b, t.c)
}

fn parts(words: &[&str]) -> Vec<Vec<u8>> {
    words.iter().map(|w| w.as_bytes().to_vec()).collect()
}

#[test]
fn face_is_fanned_around_its_first_corner() {
    let vertices = vec!['a', 'b', 'c', 'd', 'e'];
    let fan = Triangle3D::create_triangles_from_face(&vertices, &face(&[0, 1, 2, 3, 4]));
    let got: Vec<_> = fan.iter().map(corners).collect();
    assert_eq!(got, vec![('a', 'b', 'c'), ('a', 'c', 'd'), ('a', 'd', 'e')]);
    assert!(fan.iter().all(|t| t.color == Color::new(255, 255, 255)));
}

#[test]
fn small_faces_give_no_triangles() {
    let vertices = vec!['a', 'b'];
    assert!(Triangle3D::create_triangles_from_face(&vertices, &face(&[0, 1])).is_empty());
    assert!(Triangle3D::create_triangles_from_face(&vertices, &face(&[])).is_empty());
}

#[test]
fn faces_are_triangulated_in_order() {
    let vertices = vec!['a', 'b', 'c', 'd'];
    let faces = vec![face(&[3, 2, 1, 0]), face(&[0, 1]), face(&[1, 2, 3])];
    let all = triangulate_faces(&vertices, &faces);
    let got: Vec<_> = all.iter().map(corners).collect();
    assert_eq!(got, vec![('d', 'c', 'b'), ('d', 'b', 'a'), ('b', 'c', 'd')]);
}

#[test]
fn model_from_mesh_keeps_the_fan_and_colours_each_triangle() {
    let mut obj: Obj<char, ()> = Obj::new();
    for c in ['a', 'b', 'c', 'd'] {
        obj.add_vertex(c);
    }
    obj.add_face(vec![0, 1, 2, 3], None, None);
    let positions = obj.vertices.clone();
    let model = Model::from(&obj, &positions, "identity");
    assert_eq!(model.transform, "identity");
    let got: Vec<_> = model.triangles.iter().map(corners).collect();
    assert_eq!(got, vec![('a', 'b', 'c'), ('a', 'c', 'd')]);
}

#[test]
fn model_collects_triangles() {
    let mut m: Model<char, u8> = Model::new(0);
    assert_eq!(m.add_triangle(Triangle3D::new('a', 'b', 'c')), 0);
    let mut t = Triangle3D::new('d', 'e', 'f');
    t.set_color(Color::new(1, 2, 3));
    assert_eq!(m.add_triangle(t), 1);
    assert_eq!(m.triangles[1].color, Color::new(1, 2, 3));
}

#[test]
fn numbers_are_read_like_usize_parse() {
    assert_eq!(parse_usize(b"12"), Some(12));
    assert_eq!(parse_usize(b"+7"), Some(7));
    assert_eq!(parse_usize(b"007"), Some(7));
    assert_eq!(parse_usize(b""), None);
    assert_eq!(parse_usize(b"+"), None);
    assert_eq!(parse_usize(b"-1"), None);
    assert_eq!(parse_usize(b"1a"), None);
    assert_eq!(parse_usize(b"18446744073709551615"), Some(usize::MAX));
    assert_eq!(parse_usize(b"18446744073709551616"), None);
    assert_eq!(parse_usize(b"99999999999999999999999"), None);
}

#[test]
fn fields_are_split_at_slashes() {
    let f = split_slashes(b"3//2");
    assert_eq!(f, vec![b"3".to_vec(), vec![], b"2".to_vec()]);
    assert_eq!(split_slashes(b""), vec![Vec::<u8>::new()]);
    assert_eq!(split_slashes(b"/"), vec![Vec::<u8>::new(), vec![]]);
}

#[test]
fn corners_name_zero_based_indices() {
    assert_eq!(parse_corner(b"3", 4, 0, 0), Ok((2, None, None)));
    assert_eq!(parse_corner(b"3/1/2", 4, 1, 2), Ok((2, Some(0), Some(1))));
    assert_eq!(parse_corner(b"3//2", 4, 0, 2), Ok((2, None, Some(1))));
    assert_eq!(parse_corner(b"3/1", 4, 1, 0), Ok((2, Some(0), None)));
}

#[test]
fn corner_errors() {
    assert_eq!(parse_corner(b"/2", 4, 4, 4), Err(ObjError::InvalidVertexIndex));
    assert_eq!(parse_corner(b"x", 4, 4, 4), Err(ObjError::InvalidVertexIndex));
    assert_eq!(parse_corner(b"0", 4, 4, 4), Err(ObjError::VertexIndexOutOfBounds(0)));
    assert_eq!(parse_corner(b"5", 4, 4, 4), Err(ObjError::VertexIndexOutOfBounds(5)));
    assert_eq!(parse_corner(b"1/x", 4, 4, 4), Err(ObjError::InvalidTextureIndex));
    assert_eq!(parse_corner(b"1/5", 4, 4, 4), Err(ObjError::TextureIndexOutOfBounds(5)));
    assert_eq!(parse_corner(b"1//q", 4, 4, 4), Err(ObjError::InvalidNormalIndex));
    assert_eq!(parse_corner(b"1/1/9", 4, 4, 4), Err(ObjError::NormalIndexOutOfBounds(9)));
    assert_eq!(parse_corner(b"5/x", 4, 4, 4), Err(ObjError::VertexIndexOutOfBounds(5)));
}

#[test]
fn face_lines_are_read_corner_by_corner() {
    let f = parse_face_element(&parts(&["1/1", "2", "3/2/1"]), 3, 2, 1).unwrap();
    assert_eq!(f.vertex_indices, vec![0, 1, 2]);
    assert_eq!(f.texture_indices, Some(vec![0, 1]));
    assert_eq!(f.normal_indices, Some(vec![0]));
    let g = parse_face_element(&parts(&["1", "2", "3"]), 3, 0, 0).unwrap();
    assert_eq!(g.texture_indices, None);
    assert_eq!(g.normal_indices, None);
    let bad = parse_face_element(&parts(&["1", "9", "x"]), 3, 0, 0);
    assert_eq!(bad.err(), Some(ObjError::VertexIndexOutOfBounds(9)));
}

#[test]
fn face_lines_are_added_to_the_mesh() {
    let mut obj: Obj<u8, u8> = Obj::new();
    obj.add_vertex(1);
    obj.add_vertex(2);
    obj.add_vertex(3);
    assert_eq!(obj.add_texture_coordinate(7), 0);
    assert_eq!(obj.add_normal(8), 0);
    assert_eq!(obj.add_face_line(&parts(&["1", "2", "3"])), Ok(0));
    assert_eq!(obj.add_face_line(&parts(&["1", "2", "4"])), Err(ObjError::VertexIndexOutOfBounds(4)));
    assert_eq!(obj.faces.len(), 1);
    obj.clear();
    assert!(obj.vertices.is_empty() && obj.faces.is_empty() && obj.normals.is_empty());
}

#[test]
fn keywords_name_commands() {
    assert_eq!(parse_command(b"v"), Ok(ObjCommand::Vertex));
    assert_eq!(parse_command(b"vn"), Ok(ObjCommand::Normal));
    assert_eq!(parse_command(b"vt"), Ok(ObjCommand::TextureCoordinate));
    assert_eq!(parse_command(b"f"), Ok(ObjCommand::Face));
    assert_eq!(parse_command(b"o"), Ok(ObjCommand::Object));
    assert_eq!(parse_command(b"s"), Ok(ObjCommand::SmoothingGroup));
    assert_eq!(parse_command(b"mtllib"), Ok(ObjCommand::MaterialLibrary));
    assert_eq!(parse_command(b"usemtl"), Ok(ObjCommand::UseMaterial));
    assert_eq!(parse_command(b"vp"), Err(ObjError::UnknownCommand));
    assert_eq!(parse_command(b""), Err(ObjError::UnknownCommand));
}

#[test]
fn blank_and_comment_lines_are_skipped() {
    assert!(is_skipped_line(b""));
    assert!(is_skipped_line(b"# a comment"));
    assert!(!is_skipped_line(b"v 1 2 3"));
}
