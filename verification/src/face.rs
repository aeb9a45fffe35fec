//! Faces: three parallel sequences, one entry per polygon vertex, holding
//! the mandatory vertex index and the optional texture and normal indices.
//! File indices are one-based; stored indices are zero-based.

use crate::numbers::spec_parse_u32;
use crate::text::spec_split;
use vstd::prelude::*;

verus! {

/// Holds what makes up a face.
pub struct Face {
    pub vertices: Vec<u32>,
    pub textures: Vec<Option<u32>>,
    pub normals: Vec<Option<u32>>,
}

/// The mathematical content of a `Face`.
#[verifier::ext_equal]
pub ghost struct FaceView {
    pub vertices: Seq<u32>,
    pub textures: Seq<Option<u32>>,
    pub normals: Seq<Option<u32>>,
}

impl View for Face {
    type V = FaceView;

    open spec fn view(&self) -> FaceView {
        FaceView { vertices: self.vertices@, textures: self.textures@, normals: self.normals@ }
    }
}

impl Face {
    pub fn new(vertices: Vec<u32>, textures: Vec<Option<u32>>, normals: Vec<Option<u32>>) -> (r:
        Face)
        ensures
            r@ == (FaceView { vertices: vertices@, textures: textures@, normals: normals@ }),
    {
        Face { vertices, textures, normals }
    }

    /// How many points or vertices the face has.
    pub fn points(&self) -> (r: u32)
        ensures
            r == self@.vertices.len() as u32,
    {
        #[verifier::truncate]
        (self.vertices.len() as u32)
    }
}

/// A sub-field holding a one-based index yields the zero-based index;
/// anything else (including a zero index, which has no zero-based
/// counterpart) yields nothing.
pub open spec fn sub_index(t: Seq<char>) -> Option<u32> {
    match spec_parse_u32(t) {
        Some(n) => if n >= 1 {
            Some((n - 1) as u32)
        } else {
            None
        },
        None => None,
    }
}

/// The `/`-separated sub-fields of one polygon-vertex group.
pub open spec fn group_subfields(g: Seq<char>) -> Seq<Seq<char>> {
    spec_split(g, '/')
}

/// The mandatory vertex sub-field of a group.
pub open spec fn group_vertex(g: Seq<char>) -> Option<u32> {
    sub_index(group_subfields(g)[0])
}

/// The optional sub-field of a group at position `k` (1 = texture,
/// 2 = normal): absent when the group has no such sub-field and when it does
/// not parse.
pub open spec fn group_opt(g: Seq<char>, k: int) -> Option<u32> {
    if group_subfields(g).len() > k {
        sub_index(group_subfields(g)[k])
    } else {
        None
    }
}

/// The vertex indices a face line's groups contribute, in order; a group
/// whose vertex sub-field does not parse contributes none.
pub open spec fn face_vertices(groups: Seq<Seq<char>>) -> Seq<u32>
    decreases groups.len(),
{
    if groups.len() == 0 {
        Seq::<u32>::empty()
    } else {
        let rest = face_vertices(groups.drop_last());
        match group_vertex(groups.last()) {
            Some(v) => rest.push(v),
            None => rest,
        }
    }
}

/// The texture indices, one entry per group.
pub open spec fn face_textures(groups: Seq<Seq<char>>) -> Seq<Option<u32>> {
    Seq::new(groups.len(), |i: int| group_opt(groups[i], 1))
}

/// The normal indices, one entry per group.
pub open spec fn face_normals(groups: Seq<Seq<char>>) -> Seq<Option<u32>> {
    Seq::new(groups.len(), |i: int| group_opt(groups[i], 2))
}

/// The face a face line's groups describe.
pub open spec fn face_of(groups: Seq<Seq<char>>) -> FaceView {
    FaceView {
        vertices: face_vertices(groups),
        textures: face_textures(groups),
        normals: face_normals(groups),
    }
}

} // verus!
