//! Small shared utility types for consumers of the parsed geometry.

use vstd::prelude::*;

verus! {

/// Principal axis a consumer selects when it asks for a rotation of the
/// parsed geometry about one axis.
#[derive(Clone, Copy, Debug, PartialEq, Eq, Structural)]
pub enum Direction {
    X,
    Y,
    Z,
}

} // verus!
