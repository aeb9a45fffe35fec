//! Directive classification: the mapping from a line's first
//! whitespace-delimited token to the kind of directive the line carries.

use crate::text::str_eq;
use vstd::prelude::*;

verus! {

/// Different types of attributes that may appear inside a `.obj` file.
#[derive(Clone, Copy, Debug, PartialEq, Eq, Structural)]
pub enum AttributeType {
    Vertex,
    Textures,
    Normals,
    ParameterSpace,
    Faces,
    Line,
    Name,
    Group,
    Smoothing,
    Material,
    MaterialPath,
    Unknown,
}

/// The directive kind a first token names; every token names exactly one.
pub open spec fn kind_of(t: Seq<char>) -> AttributeType {
    if t == "v"@ {
        AttributeType::Vertex
    } else if t == "vt"@ {
        AttributeType::Textures
    } else if t == "vn"@ {
        AttributeType::Normals
    } else if t == "vp"@ {
        AttributeType::ParameterSpace
    } else if t == "f"@ {
        AttributeType::Faces
    } else if t == "l"@ {
        AttributeType::Line
    } else if t == "mtllib"@ {
        AttributeType::MaterialPath
    } else if t == "usemtl"@ {
        AttributeType::Material
    } else if t == "o"@ {
        AttributeType::Name
    } else if t == "g"@ {
        AttributeType::Group
    } else if t == "s"@ {
        AttributeType::Smoothing
    } else {
        AttributeType::Unknown
    }
}

impl AttributeType {
    /// Mapping from the line prefix to the enum.
    pub fn from_prefix(extension: &str) -> (r: AttributeType)
        ensures
            r == kind_of(extension@),
    {
        if str_eq(extension, "v") {
            AttributeType::Vertex
        } else if str_eq(extension, "vt") {
            AttributeType::Textures
        } else if str_eq(extension, "vn") {
            AttributeType::Normals
        } else if str_eq(extension, "vp") {
            AttributeType::ParameterSpace
        } else if str_eq(extension, "f") {
            AttributeType::Faces
        } else if str_eq(extension, "l") {
            AttributeType::Line
        } else if str_eq(extension, "mtllib") {
            AttributeType::MaterialPath
        } else if str_eq(extension, "usemtl") {
            AttributeType::Material
        } else if str_eq(extension, "o") {
            AttributeType::Name
        } else if str_eq(extension, "g") {
            AttributeType::Group
        } else if str_eq(extension, "s") {
            AttributeType::Smoothing
        } else {
            AttributeType::Unknown
        }
    }
}

} // verus!
