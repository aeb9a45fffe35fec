//! Properties of the parse pass, stated and proved over the same spec
//! functions the executable contracts use.

use crate::coord::{spec_is_coord, unit_token};
use crate::directive::{kind_of, AttributeType};
use crate::face::{face_of, face_vertices, group_vertex, sub_index, FaceView};
use crate::numbers::spec_parse_u32;
use crate::parser::{
    flat_coords, flat_indices, parse_line_spec, parse_lines_spec, spec_drop_w, vertex_coords,
    vertex_of, with_vertex, ParserView,
};
use crate::text::spec_split;
use vstd::prelude::*;

verus! {

/// A vertex line whose three coordinate tokens are all accepted stores
/// exactly those three coordinates padded with the unit `w` component.
pub proof fn lemma_vertex_line(
    m: ParserView,
    line: Seq<char>,
    x: Seq<char>,
    y: Seq<char>,
    z: Seq<char>,
)
    requires
        spec_split(line, ' ') == seq!["v"@, x, y, z],
        spec_is_coord(x),
        spec_is_coord(y),
        spec_is_coord(z),
    ensures
        parse_line_spec(m, line) == with_vertex(m, seq![x, y, z, unit_token()]),
{
    let toks = spec_split(line, ' ');
    assert(kind_of(toks[0]) == AttributeType::Vertex);
    let rest = toks.drop_first();
    let s3 = seq![x, y, z];
    let s2 = seq![x, y];
    let s1 = seq![x];
    let s0 = Seq::<Seq<char>>::empty();
    assert(rest =~~= s3);
    assert(s3.drop_last() =~~= s2);
    assert(s3.last() == z);
    assert(s2.drop_last() =~~= s1);
    assert(s2.last() == y);
    assert(s1.drop_last() =~~= s0);
    assert(s1.last() == x);
    assert(vertex_coords(s0) =~~= s0);
    assert(vertex_coords(s1) =~~= s1);
    assert(vertex_coords(s2) =~~= s2);
    assert(vertex_coords(s3) =~~= s3);
    assert(vertex_of(rest) =~~= seq![x, y, z, unit_token()]);
}

/// Every face line yields texture and normal sequences with exactly one
/// entry per polygon-vertex group, and never more vertex indices than
/// groups.
pub proof fn lemma_face_entry_per_group(groups: Seq<Seq<char>>)
    ensures
        face_of(groups).textures.len() == groups.len(),
        face_of(groups).normals.len() == groups.len(),
        face_of(groups).vertices.len() <= groups.len(),
    decreases groups.len(),
{
    if groups.len() > 0 {
        lemma_face_entry_per_group(groups.drop_last());
    }
}

/// When every group's mandatory vertex sub-field parses, the three parallel
/// sequences of the resulting face all have one entry per group.
pub proof fn lemma_face_parallel(groups: Seq<Seq<char>>)
    requires
        forall|i: int| 0 <= i < groups.len() ==> group_vertex(#[trigger] groups[i]) is Some,
    ensures
        face_of(groups).vertices.len() == groups.len(),
        face_of(groups).textures.len() == groups.len(),
        face_of(groups).normals.len() == groups.len(),
    decreases groups.len(),
{
    lemma_face_entry_per_group(groups);
    if groups.len() > 0 {
        let rest = groups.drop_last();
        assert(forall|i: int| 0 <= i < rest.len() ==> rest[i] == groups[i]);
        lemma_face_parallel(rest);
        assert(group_vertex(groups[groups.len() - 1]) is Some);
        assert(face_vertices(groups) == face_vertices(rest).push(
            group_vertex(groups.last()) -> Some_0,
        ));
    }
}

/// A sub-field that parses to the one-based index `n` is stored as the
/// zero-based index `n - 1`.
pub proof fn lemma_sub_index_conversion(t: Seq<char>, n: u32)
    requires
        spec_parse_u32(t) == Some(n),
        n >= 1,
    ensures
        sub_index(t) == Some((n - 1) as u32),
{
}

/// The total vertex-index count over a face sequence.
pub open spec fn total_points(faces: Seq<FaceView>) -> int
    decreases faces.len(),
{
    if faces.len() == 0 {
        0
    } else {
        total_points(faces.drop_last()) + faces.last().vertices.len()
    }
}

/// The flat vertex-index view is exactly as long as the sum of all faces'
/// vertex counts, in face order.
pub proof fn lemma_vertex_indices_length(faces: Seq<FaceView>)
    ensures
        flat_indices(faces).len() == total_points(faces),
    decreases faces.len(),
{
    if faces.len() > 0 {
        lemma_vertex_indices_length(faces.drop_last());
    }
}

/// Dropping the `w` stride commutes with appending one four-coordinate
/// vertex: the vertex's first three coordinates survive, its fourth is
/// removed.
proof fn lemma_drop_w_block(a: Seq<Seq<char>>, b: Seq<Seq<char>>)
    requires
        a.len() % 4 == 0,
        b.len() == 4,
    ensures
        spec_drop_w(a + b) =~~= spec_drop_w(a) + seq![b[0], b[1], b[2]],
{
    let s3 = a + seq![b[0], b[1], b[2]];
    let s2 = a + seq![b[0], b[1]];
    let s1 = a + seq![b[0]];
    assert((a + b).drop_last() =~~= s3);
    assert((a + b).last() == b[3]);
    assert(s3.drop_last() =~~= s2);
    assert(s3.last() == b[2]);
    assert(s2.drop_last() =~~= s1);
    assert(s2.last() == b[1]);
    assert(s1.drop_last() =~~= a);
    assert(s1.last() == b[0]);
    assert(spec_drop_w(a + b) == spec_drop_w(s3));
    assert(spec_drop_w(s3) == spec_drop_w(s2).push(b[2]));
    assert(spec_drop_w(s2) == spec_drop_w(s1).push(b[1]));
    assert(spec_drop_w(s1) == spec_drop_w(a).push(b[0]));
}

/// The fixed-stride view is correct whenever every stored vertex holds
/// exactly four coordinates (as the padding rule gives three-coordinate
/// input): the flattened sequence then carries four scalars per vertex, and
/// removing every fourth one leaves exactly the first three of each vertex,
/// three scalars per vertex.
pub proof fn lemma_nonhomogenous_stride(vs: Seq<Seq<Seq<char>>>)
    requires
        forall|i: int| 0 <= i < vs.len() ==> (#[trigger] vs[i]).len() == 4,
    ensures
        flat_coords(vs).len() == 4 * vs.len(),
        spec_drop_w(flat_coords(vs)).len() == 3 * vs.len(),
    decreases vs.len(),
{
    if vs.len() > 0 {
        let rest = vs.drop_last();
        assert(forall|i: int| 0 <= i < rest.len() ==> rest[i] == vs[i]);
        lemma_nonhomogenous_stride(rest);
        assert(vs.last().len() == 4);
        lemma_drop_w_block(flat_coords(rest), vs.last());
    }
}

/// Parsing the same lines from equal starting models yields equal models:
/// the outcome is a function of the input lines alone, so two parses of one
/// source are structurally identical.
pub proof fn lemma_parse_deterministic(m1: ParserView, m2: ParserView, lines: Seq<Seq<char>>)
    requires
        m1 == m2,
    ensures
        parse_lines_spec(m1, lines) == parse_lines_spec(m2, lines),
{
}

/// Lines of unhandled kinds — unrecognized lines (comments among them),
/// texture coordinates, normals, parameter-space vertices and line
/// elements — leave every field of the model unchanged.
pub proof fn lemma_no_mutation_line(m: ParserView, line: Seq<char>)
    requires
        ({
            let k = kind_of(spec_split(line, ' ')[0]);
            k == AttributeType::Unknown || k == AttributeType::Textures || k
                == AttributeType::Normals || k == AttributeType::ParameterSpace || k
                == AttributeType::Line
        }),
    ensures
        parse_line_spec(m, line) == m,
{
}

} // verus!
