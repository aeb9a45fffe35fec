//! The geometry model and the parse pass that fills it.
//!
//! A `Parser` accumulates vertices, faces and scalar metadata while the
//! directive lines of one source are fed to it in file order. Every line's
//! effect on the model is given by the spec function `parse_line_spec`, and
//! a whole parse is the left fold of that function over the lines.

use crate::coord::{is_coord_token, make_unit_token, spec_is_coord, unit_token};
use crate::directive::{kind_of, AttributeType};
use crate::face::{face_of, face_vertices, face_textures, face_normals, group_subfields, Face, FaceView};
use crate::numbers::{parse_i32_str, parse_u32_str, spec_parse_i32};
use crate::text::{spec_split, spec_strip, split_char, str_eq, strip_prefix_chars, lemma_split_nonempty};
use vstd::prelude::*;

verus! {

/// One entry of the diagnostic channel a parse returns alongside its model
/// mutations.
#[derive(Clone, Copy, Debug, PartialEq, Eq, Structural)]
pub enum Diagnostic {
    /// A vertex coordinate token was not numeric and was dropped.
    DroppedCoordinate,
    /// A recognized directive kind that populates no data was met.
    NotImplemented,
    /// An unrecognized line was treated as a comment.
    Comment,
}

/// Parses a standard `.obj` source and stores the information in a usable
/// format. Not all attributes are currently supported: recognized but
/// unimplemented kinds are reported on the diagnostic channel.
pub struct Parser {
    pub model_path: String,
    pub vertices: Vec<Vec<String>>,
    pub name: String,
    pub group: String,
    pub material: String,
    pub material_path: String,
    pub smoothing_group: i32,
    pub faces: Vec<Face>,
}

/// The mathematical content of a `Parser`.
#[verifier::ext_equal]
pub ghost struct ParserView {
    pub model_path: Seq<char>,
    pub vertices: Seq<Seq<Seq<char>>>,
    pub name: Seq<char>,
    pub group: Seq<char>,
    pub material: Seq<char>,
    pub material_path: Seq<char>,
    pub smoothing_group: int,
    pub faces: Seq<FaceView>,
}

impl View for Parser {
    type V = ParserView;

    open spec fn view(&self) -> ParserView {
        ParserView {
            model_path: self.model_path@,
            vertices: self.vertices.deep_view(),
            name: self.name@,
            group: self.group@,
            material: self.material@,
            material_path: self.material_path@,
            smoothing_group: self.smoothing_group as int,
            faces: Seq::new(self.faces@.len(), |i: int| self.faces@[i]@),
        }
    }
}

/// The model a parse starts from: everything empty, the name `Untitled`,
/// smoothing group zero.
pub open spec fn init_view(path: Seq<char>) -> ParserView {
    ParserView {
        model_path: path,
        vertices: Seq::<Seq<Seq<char>>>::empty(),
        name: "Untitled"@,
        group: Seq::<char>::empty(),
        material: Seq::<char>::empty(),
        material_path: Seq::<char>::empty(),
        smoothing_group: 0,
        faces: Seq::<FaceView>::empty(),
    }
}

pub open spec fn with_vertex(m: ParserView, v: Seq<Seq<char>>) -> ParserView {
    ParserView { vertices: m.vertices.push(v), ..m }
}

pub open spec fn with_face(m: ParserView, f: FaceView) -> ParserView {
    ParserView { faces: m.faces.push(f), ..m }
}

pub open spec fn with_name(m: ParserView, s: Seq<char>) -> ParserView {
    ParserView { name: s, ..m }
}

pub open spec fn with_group(m: ParserView, s: Seq<char>) -> ParserView {
    ParserView { group: s, ..m }
}

pub open spec fn with_material(m: ParserView, s: Seq<char>) -> ParserView {
    ParserView { material: s, ..m }
}

pub open spec fn with_material_path(m: ParserView, s: Seq<char>) -> ParserView {
    ParserView { material_path: s, ..m }
}

pub open spec fn with_smoothing(m: ParserView, g: int) -> ParserView {
    ParserView { smoothing_group: g, ..m }
}

/// The coordinate tokens of a vertex line that are kept: those accepted by
/// the coordinate grammar, in order.
pub open spec fn vertex_coords(toks: Seq<Seq<char>>) -> Seq<Seq<char>>
    decreases toks.len(),
{
    if toks.len() == 0 {
        Seq::<Seq<char>>::empty()
    } else {
        let rest = vertex_coords(toks.drop_last());
        if spec_is_coord(toks.last()) {
            rest.push(toks.last())
        } else {
            rest
        }
    }
}

/// The vertex a vertex line's tokens build: the kept coordinates, padded
/// with the unit `w` component exactly when three coordinates were kept.
pub open spec fn vertex_of(toks: Seq<Seq<char>>) -> Seq<Seq<char>> {
    let cs = vertex_coords(toks);
    if cs.len() == 3 {
        cs.push(unit_token())
    } else {
        cs
    }
}

/// One dropped-coordinate diagnostic per rejected vertex token.
pub open spec fn vertex_diags(toks: Seq<Seq<char>>) -> Seq<Diagnostic>
    decreases toks.len(),
{
    if toks.len() == 0 {
        Seq::<Diagnostic>::empty()
    } else {
        let rest = vertex_diags(toks.drop_last());
        if spec_is_coord(toks.last()) {
            rest
        } else {
            rest.push(Diagnostic::DroppedCoordinate)
        }
    }
}

/// The smoothing group a smoothing directive's remainder sets: `off` and
/// unparsable values reset to group zero.
pub open spec fn smoothing_of(rem: Seq<char>) -> int {
    if rem == "off"@ {
        0
    } else {
        match spec_parse_i32(rem) {
            Some(g) => g as int,
            None => 0,
        }
    }
}

/// The effect of one directive line on the model.
pub open spec fn parse_line_spec(m: ParserView, line: Seq<char>) -> ParserView {
    let toks = spec_split(line, ' ');
    match kind_of(toks[0]) {
        AttributeType::Vertex => with_vertex(m, vertex_of(toks.drop_first())),
        AttributeType::Faces => with_face(m, face_of(toks.drop_first())),
        AttributeType::Name => with_name(m, spec_strip(line, 2)),
        AttributeType::Group => with_group(m, spec_strip(line, 2)),
        AttributeType::Smoothing => with_smoothing(m, smoothing_of(spec_strip(line, 2))),
        AttributeType::Material => with_material(m, spec_strip(line, 7)),
        AttributeType::MaterialPath => with_material_path(m, spec_strip(line, 7)),
        _ => m,
    }
}

/// The diagnostics one directive line produces.
pub open spec fn line_diags(line: Seq<char>) -> Seq<Diagnostic> {
    let toks = spec_split(line, ' ');
    match kind_of(toks[0]) {
        AttributeType::Vertex => vertex_diags(toks.drop_first()),
        AttributeType::Textures => seq![Diagnostic::NotImplemented],
        AttributeType::Normals => seq![Diagnostic::NotImplemented],
        AttributeType::ParameterSpace => seq![Diagnostic::NotImplemented],
        AttributeType::Line => seq![Diagnostic::NotImplemented],
        AttributeType::Unknown => seq![Diagnostic::Comment],
        _ => Seq::<Diagnostic>::empty(),
    }
}

/// The model after all lines, fed in file order.
pub open spec fn parse_lines_spec(m: ParserView, lines: Seq<Seq<char>>) -> ParserView
    decreases lines.len(),
{
    if lines.len() == 0 {
        m
    } else {
        parse_line_spec(parse_lines_spec(m, lines.drop_last()), lines.last())
    }
}

/// The diagnostics of all lines, concatenated in file order.
pub open spec fn lines_diags(lines: Seq<Seq<char>>) -> Seq<Diagnostic>
    decreases lines.len(),
{
    if lines.len() == 0 {
        Seq::<Diagnostic>::empty()
    } else {
        lines_diags(lines.drop_last()) + line_diags(lines.last())
    }
}

/// Every face's vertex indices, concatenated in face-insertion order.
pub open spec fn flat_indices(faces: Seq<FaceView>) -> Seq<u32>
    decreases faces.len(),
{
    if faces.len() == 0 {
        Seq::<u32>::empty()
    } else {
        flat_indices(faces.drop_last()) + faces.last().vertices
    }
}

/// Every vertex's coordinate tokens, concatenated in vertex-insertion order.
pub open spec fn flat_coords(vs: Seq<Seq<Seq<char>>>) -> Seq<Seq<char>>
    decreases vs.len(),
{
    if vs.len() == 0 {
        Seq::<Seq<char>>::empty()
    } else {
        flat_coords(vs.drop_last()) + vs.last()
    }
}

/// A flat coordinate sequence with every fourth entry (the `w` components,
/// under the fixed stride of four) removed.
pub open spec fn spec_drop_w(s: Seq<Seq<char>>) -> Seq<Seq<char>>
    decreases s.len(),
{
    if s.len() == 0 {
        Seq::<Seq<char>>::empty()
    } else if (s.len() - 1) % 4 == 3 {
        spec_drop_w(s.drop_last())
    } else {
        spec_drop_w(s.drop_last()).push(s.last())
    }
}

impl Parser {
    pub fn new(path: &String) -> (r: Parser)
        ensures
            r@ == init_view(path@),
    {
        let r = Parser {
            model_path: path.clone(),
            vertices: Vec::new(),
            name: "Untitled".to_owned(),
            group: String::new(),
            material: String::new(),
            material_path: String::new(),
            smoothing_group: 0,
            faces: Vec::new(),
        };
        proof {
            assert(r@ =~~= init_view(path@));
        }
        r
    }

    /// Feed one directive line to the model; the returned diagnostics report
    /// dropped coordinates, unimplemented directives and comments.
    pub fn parse_line(&mut self, line: &str) -> (diags: Vec<Diagnostic>)
        ensures
            final(self)@ == parse_line_spec(old(self)@, line@),
            diags@ == line_diags(line@),
    {
        let toks = split_char(line, ' ');
        proof {
            lemma_split_nonempty(line@, ' ');
            assert(toks.deep_view()[0] == toks@[0]@);
            assert(toks@[0]@ == spec_split(line@, ' ')[0]);
        }
        let kind = AttributeType::from_prefix(toks[0].as_str());
        match kind {
            AttributeType::Vertex => self.handle_vertex(&toks),
            AttributeType::Faces => {
                self.handle_face(&toks);
                Vec::new()
            },
            AttributeType::Name => {
                let r = self.handle_text_attribute(line, "o ");
                self.name = r;
                proof {
                    reveal_strlit("o ");
                    assert(self@ =~~= with_name(old(self)@, spec_strip(line@, 2)));
                }
                Vec::new()
            },
            AttributeType::Group => {
                let r = self.handle_text_attribute(line, "g ");
                self.group = r;
                proof {
                    reveal_strlit("g ");
                    assert(self@ =~~= with_group(old(self)@, spec_strip(line@, 2)));
                }
                Vec::new()
            },
            AttributeType::Smoothing => {
                self.handle_smoothing(line, "s ");
                proof {
                    reveal_strlit("s ");
                }
                Vec::new()
            },
            AttributeType::Material => {
                let r = self.handle_text_attribute(line, "usemtl ");
                self.material = r;
                proof {
                    reveal_strlit("usemtl ");
                    assert(self@ =~~= with_material(old(self)@, spec_strip(line@, 7)));
                }
                Vec::new()
            },
            AttributeType::MaterialPath => {
                let r = self.handle_text_attribute(line, "mtllib ");
                self.material_path = r;
                proof {
                    reveal_strlit("mtllib ");
                    assert(self@ =~~= with_material_path(old(self)@, spec_strip(line@, 7)));
                }
                Vec::new()
            },
            AttributeType::Textures => self.handle_texture(),
            AttributeType::Normals => self.handle_normal(),
            AttributeType::ParameterSpace => self.handle_parameter_space(),
            AttributeType::Line => self.handle_line(),
            AttributeType::Unknown => self.handle_comment(),
        }
    }

    /// Feed every line in order. The model afterwards is the fold of the
    /// per-line transition over the lines; the diagnostics concatenate the
    /// per-line diagnostics.
    pub fn parse(&mut self, lines: &Vec<String>) -> (diags: Vec<Diagnostic>)
        ensures
            final(self)@ == parse_lines_spec(old(self)@, lines.deep_view()),
            diags@ == lines_diags(lines.deep_view()),
    {
        let ghost m0 = self@;
        let ghost ls = lines.deep_view();
        let mut diags: Vec<Diagnostic> = Vec::new();
        let mut i: usize = 0;
        proof {
            assert(ls.take(0) =~= Seq::<Seq<char>>::empty());
        }
        while i < lines.len()
            invariant
                0 <= i <= lines@.len(),
                ls == lines.deep_view(),
                ls.len() == lines@.len(),
                self@ == parse_lines_spec(m0, ls.take(i as int)),
                diags@ == lines_diags(ls.take(i as int)),
            decreases lines@.len() - i,
        {
            proof {
                assert(ls.take(i + 1).drop_last() =~= ls.take(i as int));
                assert(ls.take(i + 1).last() == ls[i as int]);
                assert(ls[i as int] == lines@[i as int]@);
            }
            let mut d = self.parse_line(lines[i].as_str());
            diags.append(&mut d);
            i += 1;
        }
        proof {
            assert(ls.take(ls.len() as int) =~= ls);
        }
        diags
    }

    /// Get a flat vector of all vertex indices.
    pub fn vertex_indices(&self) -> (r: Vec<u32>)
        ensures
            r@ == flat_indices(self@.faces),
    {
        let mut r: Vec<u32> = Vec::new();
        let mut i: usize = 0;
        proof {
            assert(self@.faces.take(0) =~= Seq::<FaceView>::empty());
        }
        while i < self.faces.len()
            invariant
                0 <= i <= self.faces@.len(),
                self@.faces.len() == self.faces@.len(),
                r@ == flat_indices(self@.faces.take(i as int)),
            decreases self.faces@.len() - i,
        {
            let face = &self.faces[i];
            let mut j: usize = 0;
            proof {
                assert(face.vertices@.take(0) =~= Seq::<u32>::empty());
            }
            while j < face.vertices.len()
                invariant
                    0 <= j <= face.vertices@.len(),
                    0 <= i < self.faces@.len(),
                    self@.faces.len() == self.faces@.len(),
                    face@ == self@.faces[i as int],
                    face.vertices@ == face@.vertices,
                    r@ == flat_indices(self@.faces.take(i as int)) + face.vertices@.take(
                        j as int,
                    ),
                decreases face.vertices@.len() - j,
            {
                r.push(face.vertices[j]);
                proof {
                    assert(face.vertices@.take(j + 1) =~= face.vertices@.take(j as int).push(
                        face.vertices@[j as int],
                    ));
                }
                j += 1;
            }
            proof {
                assert(self@.faces.take(i + 1).drop_last() =~= self@.faces.take(i as int));
                assert(self@.faces.take(i + 1).last() == self@.faces[i as int]);
                assert(face.vertices@.take(face.vertices@.len() as int) =~= face.vertices@);
            }
            i += 1;
        }
        proof {
            assert(self@.faces.take(self.faces@.len() as int) =~= self@.faces);
        }
        r
    }

    /// Get a flat vector of all vertex coordinate tokens.
    pub fn flat_vertices(&self) -> (r: Vec<String>)
        ensures
            r.deep_view() == flat_coords(self@.vertices),
    {
        let mut r: Vec<String> = Vec::new();
        let mut i: usize = 0;
        proof {
            assert(self@.vertices.take(0) =~= Seq::<Seq<Seq<char>>>::empty());
            assert(r.deep_view() =~~= flat_coords(self@.vertices.take(0)));
        }
        while i < self.vertices.len()
            invariant
                0 <= i <= self.vertices@.len(),
                self@.vertices.len() == self.vertices@.len(),
                r.deep_view() == flat_coords(self@.vertices.take(i as int)),
            decreases self.vertices@.len() - i,
        {
            let vertex = &self.vertices[i];
            proof {
                assert(self@.vertices[i as int] == self.vertices@[i as int].deep_view());
            }
            let mut j: usize = 0;
            proof {
                assert(vertex.deep_view().take(0) =~~= Seq::<Seq<char>>::empty());
            }
            while j < vertex.len()
                invariant
                    0 <= j <= vertex@.len(),
                    0 <= i < self.vertices@.len(),
                    self@.vertices.len() == self.vertices@.len(),
                    vertex.deep_view() == self@.vertices[i as int],
                    vertex.deep_view().len() == vertex@.len(),
                    r.deep_view() == flat_coords(self@.vertices.take(i as int))
                        + vertex.deep_view().take(j as int),
                decreases vertex@.len() - j,
            {
                let ghost rd = r.deep_view();
                r.push(vertex[j].clone());
                proof {
                    assert(vertex.deep_view()[j as int] == vertex@[j as int]@);
                    assert(r.deep_view() =~~= rd.push(vertex@[j as int]@));
                    assert(vertex.deep_view().take(j + 1) =~~= vertex.deep_view().take(
                        j as int,
                    ).push(vertex.deep_view()[j as int]));
                    assert(r.deep_view() =~~= flat_coords(self@.vertices.take(i as int))
                        + vertex.deep_view().take(j + 1));
                }
                j += 1;
            }
            proof {
                assert(self@.vertices.take(i + 1).drop_last() =~~= self@.vertices.take(i as int));
                assert(self@.vertices.take(i + 1).last() == self@.vertices[i as int]);
                assert(vertex.deep_view().take(vertex.deep_view().len() as int) =~~=
                    vertex.deep_view());
            }
            i += 1;
        }
        proof {
            assert(self@.vertices.take(self.vertices@.len() as int) =~~= self@.vertices);
        }
        r
    }

    /// Get a flat vector of all vertex coordinate tokens without the `w`
    /// coordinate. This view assumes the fixed stride of four that the
    /// vertex handler's padding rule gives three-coordinate input; vertices
    /// stored with any other coordinate count shift the stride.
    pub fn nonhomogenous_vertices(&self) -> (r: Vec<String>)
        ensures
            r.deep_view() == spec_drop_w(flat_coords(self@.vertices)),
    {
        let flat = self.flat_vertices();
        let ghost fs = flat.deep_view();
        let mut r: Vec<String> = Vec::new();
        let mut k: usize = 0;
        proof {
            assert(fs.take(0) =~~= Seq::<Seq<char>>::empty());
            assert(r.deep_view() =~~= spec_drop_w(fs.take(0)));
        }
        while k < flat.len()
            invariant
                0 <= k <= flat@.len(),
                fs == flat.deep_view(),
                fs.len() == flat@.len(),
                r.deep_view() == spec_drop_w(fs.take(k as int)),
            decreases flat@.len() - k,
        {
            proof {
                assert(fs.take(k + 1).drop_last() =~~= fs.take(k as int));
                assert(fs.take(k + 1).last() == fs[k as int]);
                assert(fs[k as int] == flat@[k as int]@);
            }
            if k % 4 != 3 {
                r.push(flat[k].clone());
                proof {
                    assert(r.deep_view() =~~= spec_drop_w(fs.take(k + 1)));
                }
            }
            k += 1;
        }
        proof {
            assert(fs.take(fs.len() as int) =~~= fs);
        }
        r
    }

    /// Handle parsing of vertex attributes.
    fn handle_vertex(&mut self, data: &Vec<String>) -> (diags: Vec<Diagnostic>)
        requires
            data.deep_view().len() >= 1,
        ensures
            final(self)@ == with_vertex(old(self)@, vertex_of(data.deep_view().drop_first())),
            diags@ == vertex_diags(data.deep_view().drop_first()),
    {
        let ghost toks = data.deep_view().drop_first();
        let mut vertex: Vec<String> = Vec::new();
        let mut diags: Vec<Diagnostic> = Vec::new();
        let mut i: usize = 1;
        proof {
            assert(toks.take(0) =~= Seq::<Seq<char>>::empty());
            assert(vertex.deep_view() =~~= vertex_coords(toks.take(0)));
        }
        while i < data.len()
            invariant
                1 <= i <= data@.len(),
                toks == data.deep_view().drop_first(),
                data.deep_view().len() == data@.len(),
                vertex.deep_view() == vertex_coords(toks.take(i - 1)),
                diags@ == vertex_diags(toks.take(i - 1)),
            decreases data@.len() - i,
        {
            proof {
                assert(toks.take(i as int).drop_last() =~= toks.take(i - 1));
                assert(toks.take(i as int).last() == toks[i - 1]);
                assert(toks[i - 1] == data.deep_view()[i as int]);
                assert(data.deep_view()[i as int] == data@[i as int]@);
            }
            let tok = &data[i];
            if is_coord_token(tok.as_str()) {
                vertex.push(tok.clone());
                proof {
                    assert(vertex.deep_view() =~~= vertex_coords(toks.take(i as int)));
                }
            } else {
                diags.push(Diagnostic::DroppedCoordinate);
                proof {
                    assert(vertex.deep_view() =~~= vertex_coords(toks.take(i as int)));
                    assert(diags@ =~= vertex_diags(toks.take(i as int)));
                }
            }
            i += 1;
        }
        proof {
            assert(toks.take(data@.len() - 1) =~= toks);
        }
        let dims: usize = vertex.len();
        if dims == 3 {
            vertex.push(make_unit_token());
            proof {
                assert(vertex.deep_view() =~~= vertex_coords(toks).push(unit_token()));
            }
        }
        self.vertices.push(vertex);
        proof {
            assert(self@.vertices =~~= old(self)@.vertices.push(vertex_of(toks)));
            assert(self@ =~~= with_vertex(old(self)@, vertex_of(toks)));
        }
        diags
    }

    /// Handle parsing of face attributes.
    fn handle_face(&mut self, data: &Vec<String>)
        requires
            data.deep_view().len() >= 1,
        ensures
            final(self)@ == with_face(old(self)@, face_of(data.deep_view().drop_first())),
    {
        let ghost groups = data.deep_view().drop_first();
        let mut vertices: Vec<u32> = Vec::new();
        let mut textures: Vec<Option<u32>> = Vec::new();
        let mut normals: Vec<Option<u32>> = Vec::new();
        let mut i: usize = 1;
        proof {
            assert(groups.take(0) =~= Seq::<Seq<char>>::empty());
            assert(vertices@ =~= face_vertices(groups.take(0)));
            assert(textures@ =~= face_textures(groups.take(0)));
            assert(normals@ =~= face_normals(groups.take(0)));
        }
        while i < data.len()
            invariant
                1 <= i <= data@.len(),
                groups == data.deep_view().drop_first(),
                data.deep_view().len() == data@.len(),
                vertices@ == face_vertices(groups.take(i - 1)),
                textures@ == face_textures(groups.take(i - 1)),
                normals@ == face_normals(groups.take(i - 1)),
            decreases data@.len() - i,
        {
            proof {
                assert(groups.take(i as int).drop_last() =~= groups.take(i - 1));
                assert(groups.take(i as int).last() == groups[i - 1]);
                assert(groups[i - 1] == data.deep_view()[i as int]);
                assert(data.deep_view()[i as int] == data@[i as int]@);
            }
            let elements = split_char(data[i].as_str(), '/');
            proof {
                assert(elements.deep_view() =~~= group_subfields(groups[i - 1]));
                assert(elements.deep_view()[0] == elements@[0]@);
            }
            match parse_u32_str(elements[0].as_str()) {
                Some(v) => if v >= 1 {
                    vertices.push(v - 1);
                },
                None => {},
            }
            if elements.len() >= 2 {
                proof {
                    assert(elements.deep_view()[1] == elements@[1]@);
                }
                match parse_u32_str(elements[1].as_str()) {
                    Some(t) => if t >= 1 {
                        textures.push(Some(t - 1));
                    } else {
                        textures.push(None);
                    },
                    None => textures.push(None),
                }
            } else {
                textures.push(None);
            }
            if elements.len() >= 3 {
                proof {
                    assert(elements.deep_view()[2] == elements@[2]@);
                }
                match parse_u32_str(elements[2].as_str()) {
                    Some(nr) => if nr >= 1 {
                        normals.push(Some(nr - 1));
                    } else {
                        normals.push(None);
                    },
                    None => normals.push(None),
                }
            } else {
                normals.push(None);
            }
            proof {
                assert(vertices@ =~= face_vertices(groups.take(i as int)));
                assert(textures@ =~= face_textures(groups.take(i as int)));
                assert(normals@ =~= face_normals(groups.take(i as int)));
            }
            i += 1;
        }
        proof {
            assert(groups.take(data@.len() - 1) =~= groups);
        }
        let face = Face::new(vertices, textures, normals);
        self.faces.push(face);
        proof {
            assert(self@.faces =~~= old(self)@.faces.push(face_of(groups)));
            assert(self@ =~~= with_face(old(self)@, face_of(groups)));
        }
    }

    /// Handle parsing of the smoothing group attribute.
    fn handle_smoothing(&mut self, data: &str, prefix: &str)
        ensures
            final(self)@ == with_smoothing(
                old(self)@,
                smoothing_of(spec_strip(data@, prefix@.len() as int)),
            ),
    {
        let stripped = strip_prefix_chars(data, prefix.unicode_len());
        if str_eq(stripped.as_str(), "off") {
            self.smoothing_group = 0;
        } else {
            match parse_i32_str(stripped.as_str()) {
                Some(group_number) => {
                    self.smoothing_group = group_number;
                },
                None => {
                    self.smoothing_group = 0;
                },
            }
        }
        proof {
            assert(self@ =~~= with_smoothing(
                old(self)@,
                smoothing_of(spec_strip(data@, prefix@.len() as int)),
            ));
        }
    }

    /// Handle parsing of similar text attributes: the stored value is the
    /// line with the directive prefix removed.
    fn handle_text_attribute(&self, data: &str, prefix: &str) -> (r: String)
        ensures
            r@ == spec_strip(data@, prefix@.len() as int),
    {
        strip_prefix_chars(data, prefix.unicode_len())
    }

    /// Handle parsing of texture attributes.
    fn handle_texture(&self) -> (diags: Vec<Diagnostic>)
        ensures
            diags@ == seq![Diagnostic::NotImplemented],
    {
        let mut diags: Vec<Diagnostic> = Vec::new();
        diags.push(Diagnostic::NotImplemented);
        proof {
            assert(diags@ =~= seq![Diagnostic::NotImplemented]);
        }
        diags
    }

    /// Handle parsing of normal attributes.
    fn handle_normal(&self) -> (diags: Vec<Diagnostic>)
        ensures
            diags@ == seq![Diagnostic::NotImplemented],
    {
        let mut diags: Vec<Diagnostic> = Vec::new();
        diags.push(Diagnostic::NotImplemented);
        proof {
            assert(diags@ =~= seq![Diagnostic::NotImplemented]);
        }
        diags
    }

    /// Handle parsing of parameter space (freeform) geometry attributes.
    fn handle_parameter_space(&self) -> (diags: Vec<Diagnostic>)
        ensures
            diags@ == seq![Diagnostic::NotImplemented],
    {
        let mut diags: Vec<Diagnostic> = Vec::new();
        diags.push(Diagnostic::NotImplemented);
        proof {
            assert(diags@ =~= seq![Diagnostic::NotImplemented]);
        }
        diags
    }

    /// Handle parsing of line attributes.
    fn handle_line(&self) -> (diags: Vec<Diagnostic>)
        ensures
            diags@ == seq![Diagnostic::NotImplemented],
    {
        let mut diags: Vec<Diagnostic> = Vec::new();
        diags.push(Diagnostic::NotImplemented);
        proof {
            assert(diags@ =~= seq![Diagnostic::NotImplemented]);
        }
        diags
    }

    /// Handle comments.
    fn handle_comment(&self) -> (diags: Vec<Diagnostic>)
        ensures
            diags@ == seq![Diagnostic::Comment],
    {
        let mut diags: Vec<Diagnostic> = Vec::new();
        diags.push(Diagnostic::Comment);
        proof {
            assert(diags@ =~= seq![Diagnostic::Comment]);
        }
        diags
    }
}

} // verus!
