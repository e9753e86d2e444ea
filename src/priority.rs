use vstd::prelude::*;

verus! {

/// How strongly a claim holds on to the public port it asked for.
/// Ordered `Optional` < `Recommended` < `Required`.
#[derive(Clone, Copy, Debug, PartialEq, Eq, Structural)]
pub enum PortPriority {
    Optional,
    Recommended,
    Required,
}

impl PortPriority {
    /// Position of the level in the order of priorities.
    pub open spec fn level(self) -> nat {
        match self {
            PortPriority::Optional => 0,
            PortPriority::Recommended => 1,
            PortPriority::Required => 2,
        }
    }

    pub fn rank(&self) -> (r: u8)
        ensures
            r as nat == self.level(),
    {
        match self {
            PortPriority::Optional => 0,
            PortPriority::Recommended => 1,
            PortPriority::Required => 2,
        }
    }

    /// Whether `self` is strictly weaker than `other`.
    pub fn is_lower_than(&self, other: &PortPriority) -> (r: bool)
        ensures
            r == (self.level() < other.level()),
    {
        self.rank() < other.rank()
    }
}

} // verus!
