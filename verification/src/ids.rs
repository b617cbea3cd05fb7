use vstd::prelude::*;

verus! {

/// An opaque, totally ordered, 64-bit non-negative post identifier.
/// It is the unit of cursor progress: a link's cursor is the largest
/// identifier already delivered.
#[derive(PartialEq, Eq, Structural, Clone, Copy, Debug, Hash, PartialOrd, Ord)]
pub struct Id(pub u64);

impl Id {
    /// The zero identifier, used when no progress has been persisted yet.
    pub fn zero() -> (r: Id)
        ensures
            r.0 == 0,
    {
        Id(0)
    }

    /// The larger of two identifiers.
    pub fn max(self, other: Id) -> (r: Id)
        ensures
            r.0 == if self.0 >= other.0 { self.0 } else { other.0 },
    {
        if self.0 >= other.0 {
            self
        } else {
            other
        }
    }
}

} // verus!
