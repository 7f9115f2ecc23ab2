//! The integer backbone of collision shapes: a cube's point range. The
//! floating-point shape algebra itself lives outside the verified core.

use vstd::prelude::*;

verus! {

/// The namespace for shape operations; the floating-point operations on
/// merged shapes live with the physics collaborator outside this crate.
pub struct Shapes;

/// An axis divided into equal parts: `parts` cubes give `parts + 1`
/// boundary points. Needs at least one part.
#[derive(Debug, Clone, Copy, PartialEq, Eq, Structural)]
pub struct CubePointRange {
    pub parts: u32,
}

impl CubePointRange {
    /// Well-formedness: at least one part.
    pub open spec fn wf(&self) -> bool {
        self.parts >= 1
    }

    /// The number of boundary points, one more than the parts.
    pub fn size(&self) -> (r: u32)
        requires
            self.parts < u32::MAX,
        ensures
            r == self.parts + 1,
    {
        self.parts + 1
    }
}

} // verus!
