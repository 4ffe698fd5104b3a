//! What a printed toolpath is for.

use vstd::prelude::*;

verus! {

/// The role of a toolpath in a layer: an outline, a fill line, or a move
/// without extrusion.
#[derive(Clone, Copy, Debug, PartialEq, Eq, Structural)]
pub enum ToolpathRole {
    Perimeter,
    Infill,
    Travel,
}

impl Default for ToolpathRole {
    /// A toolpath is a perimeter unless said otherwise.
    fn default() -> (r: Self)
        ensures
            r == ToolpathRole::Perimeter,
    {
        ToolpathRole::Perimeter
    }
}

} // verus!
