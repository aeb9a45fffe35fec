use obj_parser::parser::{Diagnostic, Parser};

fn new_parser() -> Parser {
    Parser::new(&String::from("model.obj"))
}

fn toks(v: &[&str]) -> Vec<String> {
    v.iter().map(|s| s.to_string()).collect()
}

fn as_f32(tokens: &[String]) -> Vec<f32> {
    tokens.iter().map(|t| t.parse::<f32>().unwrap()).collect()
}

#[test]
fn scenario_a_vertex_line() {
    let mut p = new_parser();
    let diags = p.parse_line("v 1.0 2.0 3.0");
    assert_eq!(p.vertices.len(), 1);
    assert_eq!(p.vertices[0], toks(&["1.0", "2.0", "3.0", "1.0"]));
    assert_eq!(as_f32(&p.vertices[0]), vec![1.0f32, 2.0, 3.0, 1.0]);
    assert!(diags.is_empty());
}

#[test]
fn scenario_b_face_line() {
    let mut p = new_parser();
    p.parse_line("f 1/2/3 4//6 7");
    assert_eq!(p.faces.len(), 1);
    assert_eq!(p.faces[0].vertices, vec![0u32, 3, 6]);
    assert_eq!(p.faces[0].textures, vec![Some(1u32), None, None]);
    assert_eq!(p.faces[0].normals, vec![Some(2u32), Some(5), None]);
}

#[test]
fn scenario_c_smoothing_transitions() {
    let mut p = new_parser();
    p.parse_line("s off");
    assert_eq!(p.smoothing_group, 0);
    p.parse_line("s 4");
    assert_eq!(p.smoothing_group, 4);
    p.parse_line("s off");
    assert_eq!(p.smoothing_group, 0);
}

#[test]
fn scenario_d_malformed_vertex_component() {
    let mut p = new_parser();
    let diags = p.parse_line("v 1.0 x 3.0");
    assert_eq!(p.vertices.len(), 1);
    assert_eq!(p.vertices[0], toks(&["1.0", "3.0"]));
    assert_eq!(diags, vec![Diagnostic::DroppedCoordinate]);
}

#[test]
fn scenario_e_comment_changes_nothing() {
    let mut p = new_parser();
    let diags = p.parse_line("# hello world");
    assert!(p.vertices.is_empty());
    assert!(p.faces.is_empty());
    assert_eq!(p.name, "Untitled");
    assert_eq!(p.group, "");
    assert_eq!(p.material, "");
    assert_eq!(p.material_path, "");
    assert_eq!(p.smoothing_group, 0);
    assert_eq!(p.model_path, "model.obj");
    assert_eq!(diags, vec![Diagnostic::Comment]);
}

#[test]
fn parsing_twice_yields_identical_models() {
    let lines: Vec<String> = toks(&[
        "o Cube",
        "v 1.0 2.0 3.0",
        "v 4 5 6 7",
        "g side",
        "usemtl stone",
        "mtllib materials.mtl",
        "s 12",
        "f 1/1/1 2/2/2 3/3/3",
        "# comment",
        "vt 0.5 0.5",
    ]);
    let mut p1 = new_parser();
    let mut p2 = new_parser();
    let d1 = p1.parse(&lines);
    let d2 = p2.parse(&lines);
    assert_eq!(p1.vertices, p2.vertices);
    assert_eq!(p1.name, p2.name);
    assert_eq!(p1.group, p2.group);
    assert_eq!(p1.material, p2.material);
    assert_eq!(p1.material_path, p2.material_path);
    assert_eq!(p1.smoothing_group, p2.smoothing_group);
    assert_eq!(p1.faces.len(), p2.faces.len());
    for (f1, f2) in p1.faces.iter().zip(p2.faces.iter()) {
        assert_eq!(f1.vertices, f2.vertices);
        assert_eq!(f1.textures, f2.textures);
        assert_eq!(f1.normals, f2.normals);
    }
    assert_eq!(d1, d2);
}

#[test]
fn vertex_line_padding_only_at_three() {
    let mut p = new_parser();
    p.parse_line("v 5 -2.5 1e2");
    p.parse_line("v 1 2");
    p.parse_line("v 1 2 3 4");
    assert_eq!(p.vertices[0], toks(&["5", "-2.5", "1e2", "1.0"]));
    assert_eq!(p.vertices[1], toks(&["1", "2"]));
    assert_eq!(p.vertices[2], toks(&["1", "2", "3", "4"]));
}

#[test]
fn vertex_trailing_space_still_pads() {
    let mut p = new_parser();
    let diags = p.parse_line("v 1 2 3 ");
    assert_eq!(p.vertices[0], toks(&["1", "2", "3", "1.0"]));
    assert_eq!(diags, vec![Diagnostic::DroppedCoordinate]);
}

#[test]
fn face_parallel_arrays() {
    let mut p = new_parser();
    p.parse_line("f 1/1/1 2 3//3 bogus");
    let f = &p.faces[0];
    assert_eq!(f.textures.len(), 4);
    assert_eq!(f.normals.len(), 4);
    assert_eq!(f.vertices.len(), 3);
    p.parse_line("f 4 5 6");
    let g = &p.faces[1];
    assert_eq!(g.vertices.len(), 3);
    assert_eq!(g.textures.len(), 3);
    assert_eq!(g.normals.len(), 3);
}

#[test]
fn face_index_conversion_is_minus_one() {
    let mut p = new_parser();
    p.parse_line("f 10/20/30 1/1/1");
    let f = &p.faces[0];
    assert_eq!(f.vertices, vec![9u32, 0]);
    assert_eq!(f.textures, vec![Some(19u32), Some(0)]);
    assert_eq!(f.normals, vec![Some(29u32), Some(0)]);
}

#[test]
fn face_zero_index_is_dropped() {
    let mut p = new_parser();
    p.parse_line("f 0/0/0 2");
    let f = &p.faces[0];
    assert_eq!(f.vertices, vec![1u32]);
    assert_eq!(f.textures, vec![None, None]);
    assert_eq!(f.normals, vec![None, None]);
}

#[test]
fn face_empty_group_from_double_space() {
    let mut p = new_parser();
    p.parse_line("f  1");
    let f = &p.faces[0];
    assert_eq!(f.vertices, vec![0u32]);
    assert_eq!(f.textures, vec![None, None]);
    assert_eq!(f.normals, vec![None, None]);
}

#[test]
fn defaults_on_construction() {
    let p = new_parser();
    assert_eq!(p.model_path, "model.obj");
    assert!(p.vertices.is_empty());
    assert!(p.faces.is_empty());
    assert_eq!(p.name, "Untitled");
    assert_eq!(p.group, "");
    assert_eq!(p.material, "");
    assert_eq!(p.material_path, "");
    assert_eq!(p.smoothing_group, 0);
}

#[test]
fn text_attributes_last_write_wins() {
    let mut p = new_parser();
    p.parse_line("o First");
    p.parse_line("o Second");
    assert_eq!(p.name, "Second");
    p.parse_line("g walls");
    assert_eq!(p.group, "walls");
    p.parse_line("usemtl stone");
    assert_eq!(p.material, "stone");
    p.parse_line("mtllib scene.mtl");
    assert_eq!(p.material_path, "scene.mtl");
    p.parse_line("usemtl wood");
    assert_eq!(p.material, "wood");
}

#[test]
fn smoothing_invalid_resets_to_zero() {
    let mut p = new_parser();
    p.parse_line("s 7");
    assert_eq!(p.smoothing_group, 7);
    p.parse_line("s banana");
    assert_eq!(p.smoothing_group, 0);
    p.parse_line("s -2");
    assert_eq!(p.smoothing_group, -2);
    p.parse_line("s 12x");
    assert_eq!(p.smoothing_group, 0);
}

#[test]
fn unimplemented_directives_report_and_keep_model() {
    for line in ["vt 0.1 0.2", "vn 0 0 1", "vp 0.5", "l 1 2"] {
        let mut p = new_parser();
        let diags = p.parse_line(line);
        assert_eq!(diags, vec![Diagnostic::NotImplemented]);
        assert!(p.vertices.is_empty());
        assert!(p.faces.is_empty());
    }
}

#[test]
fn blank_line_is_a_comment() {
    let mut p = new_parser();
    let diags = p.parse_line("");
    assert_eq!(diags, vec![Diagnostic::Comment]);
    assert!(p.vertices.is_empty());
    assert!(p.faces.is_empty());
}

#[test]
fn vertex_indices_concatenates_in_face_order() {
    let mut p = new_parser();
    p.parse_line("f 1 2 3");
    p.parse_line("f 4 5");
    let idx = p.vertex_indices();
    assert_eq!(idx, vec![0u32, 1, 2, 3, 4]);
    let total: usize = p.faces.iter().map(|f| f.vertices.len()).sum();
    assert_eq!(idx.len(), total);
    // The export is read-only: the faces still hold their indices.
    assert_eq!(p.faces[0].vertices, vec![0u32, 1, 2]);
}

#[test]
fn flat_and_nonhomogenous_vertices() {
    let mut p = new_parser();
    p.parse_line("v 1 2 3");
    p.parse_line("v 4 5 6");
    assert_eq!(p.flat_vertices(), toks(&["1", "2", "3", "1.0", "4", "5", "6", "1.0"]));
    assert_eq!(p.nonhomogenous_vertices(), toks(&["1", "2", "3", "4", "5", "6"]));
}

#[test]
fn parse_whole_source_in_order() {
    let lines: Vec<String> = toks(&[
        "# a tiny model",
        "o Tri",
        "v 0 0 0",
        "v 1 0 0",
        "v 0 1 0",
        "s off",
        "f 1/1 2/2 3/3",
    ]);
    let mut p = new_parser();
    let diags = p.parse(&lines);
    assert_eq!(p.name, "Tri");
    assert_eq!(p.vertices.len(), 3);
    assert_eq!(p.faces.len(), 1);
    assert_eq!(p.faces[0].vertices, vec![0u32, 1, 2]);
    assert_eq!(p.faces[0].textures, vec![Some(0u32), Some(1), Some(2)]);
    assert_eq!(p.faces[0].normals, vec![None, None, None]);
    assert_eq!(p.smoothing_group, 0);
    assert_eq!(diags, vec![Diagnostic::Comment]);
}

#[test]
fn face_points_counts_vertices() {
    let mut p = new_parser();
    p.parse_line("f 1 2 3 4");
    assert_eq!(p.faces[0].points(), 4);
}
