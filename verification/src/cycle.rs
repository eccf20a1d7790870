//! Frame cycles of the instrument panels: each panel shows its frames in
//! turn, one step per firing of its own timer.

use vstd::prelude::*;

verus! {

/// Milliseconds between two frames of the crew.
pub const CREW_PERIOD_MS: u32 = 600;

/// Milliseconds between two frames of the commander.
pub const COMMANDER_PERIOD_MS: u32 = 800;

/// Milliseconds between two frames of the blinking console.
pub const BLINK_PERIOD_MS: u32 = 1200;

/// Frames of the crew.
pub const CREW_FRAMES: u8 = 2;

/// Frames of the commander.
pub const COMMANDER_FRAMES: u8 = 3;

/// Frames of the blinking console.
pub const BLINK_FRAMES: u8 = 2;

/// The frame after `frame` in a cycle of `count` frames.
pub open spec fn following(frame: int, count: int) -> int {
    (frame + 1) % count
}

/// A position in a cycle of frames.
pub struct FrameCycle {
    frame: u8,
    count: u8,
}

impl FrameCycle {
    #[verifier::type_invariant]
    spec fn inv(self) -> bool {
        self.frame < self.count
    }

    /// The frame that is shown.
    pub closed spec fn shown(&self) -> int {
        self.frame as int
    }

    /// The number of frames of the cycle.
    pub closed spec fn length(&self) -> int {
        self.count as int
    }

    /// A cycle of `count` frames that shows the first.
    pub fn new(count: u8) -> (c: Self)
        requires
            count >= 1,
        ensures
            c.shown() == 0,
            c.length() == count,
    {
        FrameCycle { frame: 0, count }
    }

    /// The frame that is shown.
    pub fn frame(&self) -> (f: u8)
        ensures
            f == self.shown(),
            0 <= self.shown() < self.length(),
    {
        proof {
            use_type_invariant(self);
        }
        self.frame
    }

    /// Moves to the next frame, from the last back to the first, and returns
    /// the frame that is then shown.
    pub fn advance(&mut self) -> (f: u8)
        ensures
            final(self).length() == old(self).length(),
            final(self).shown() == following(old(self).shown(), old(self).length()),
            f == final(self).shown(),
    {
        proof {
            use_type_invariant(&*self);
        }
        let next: u8 = if self.frame + 1 == self.count {
            proof {
                vstd::arithmetic::div_mod::lemma_mod_self_0(self.count as int);
            }
            0
        } else {
            proof {
                vstd::arithmetic::div_mod::lemma_small_mod(
                    (self.frame + 1) as nat,
                    self.count as nat,
                );
            }
            self.frame + 1
        };
        *self = FrameCycle { frame: next, count: self.count };
        next
    }
}

/// The frame that is shown `steps` steps after `frame`.
pub open spec fn after_steps(frame: int, count: int, steps: nat) -> int
    decreases steps,
{
    if steps == 0 {
        frame
    } else {
        following(after_steps(frame, count, (steps - 1) as nat), count)
    }
}

/// A cycle comes back to where it was after as many steps as it has frames.
pub proof fn lemma_cycle_returns(frame: int, count: int, steps: nat)
    requires
        0 <= frame < count,
    ensures
        0 <= after_steps(frame, count, steps) < count,
        after_steps(frame, count, steps) == (frame + steps) % count,
        steps == count ==> after_steps(frame, count, steps) == frame,
    decreases steps,
{
    if steps > 0 {
        lemma_cycle_returns(frame, count, (steps - 1) as nat);
        vstd::arithmetic::div_mod::lemma_add_mod_noop_right(1, frame + steps - 1, count);
    } else {
        vstd::arithmetic::div_mod::lemma_small_mod(frame as nat, count as nat);
    }
    if steps == count {
        vstd::arithmetic::div_mod::lemma_mod_add_multiples_vanish(frame, count);
        vstd::arithmetic::div_mod::lemma_small_mod(frame as nat, count as nat);
    }
}

} // verus!
