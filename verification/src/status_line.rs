use vstd::prelude::*;

verus! {

/// The score shown on the status line.
#[derive(Debug, Clone, Copy, PartialEq, Eq, Structural)]
pub struct Score(pub u32);

impl Score {
    pub const UNIT_POINTS: u32 = 100;

    pub fn empty() -> (r: Self)
        ensures
            r.0 == 0,
    {
        Score(0)
    }

    pub fn new(value: u32) -> (r: Self)
        ensures
            r.0 == value,
    {
        Self(value)
    }

    /// adds a unit of score
    pub fn add_unit(&mut self)
        requires
            old(self).0 + Self::UNIT_POINTS <= u32::MAX,
        ensures
            final(self).0 == old(self).0 + Self::UNIT_POINTS,
    {
        self.0 = self.0 + Self::UNIT_POINTS;
    }

    /// Adds `rhs`, capped at `u32::MAX`.
    pub fn add_assign(&mut self, rhs: Self)
        ensures
            final(self).0 == if old(self).0 + rhs.0 > u32::MAX {
                u32::MAX
            } else {
                (old(self).0 + rhs.0) as u32
            },
    {
        self.0 = self.0.saturating_add(rhs.0);
    }
}

} // verus!
