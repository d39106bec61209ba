use vstd::prelude::*;

verus! {

/// A single point: its position on the two axes, `x` then `y`. Its view is
/// that position as a pair.
///
/// A particle has no invariant of its own; the field that owns it keeps it
/// inside the bounds.
pub struct Particle {
    pos: [u64; 2],
}

impl View for Particle {
    type V = (u64, u64);

    closed spec fn view(&self) -> (u64, u64) {
        (self.pos[0], self.pos[1])
    }
}

impl Particle {
    pub fn new(pos: [u64; 2]) -> (p: Particle)
        ensures
            p@ == (pos[0], pos[1]),
    {
        Particle { pos }
    }

    pub fn pos(&self) -> (r: &[u64; 2])
        ensures
            self@ == (r[0], r[1]),
    {
        &self.pos
    }

    pub fn pos_mut(&mut self) -> (r: &mut [u64; 2])
        ensures
            old(self)@ == (r[0], r[1]),
            final(self)@ == (final(r)[0], final(r)[1]),
    {
        &mut self.pos
    }
}

} // verus!
