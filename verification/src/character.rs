//! The interface of an animated character that can be sent to a place on
//! the screen.

use vstd::prelude::*;

verus! {

/// A character with an idle and a walking animation that can be moved to a
/// target position.
pub trait CharacterSprite: Sized {
    /// Where the top-left corner of the sprite stands.
    spec fn place(&self) -> (int, int);

    /// Whether the character is at rest.
    spec fn resting(&self) -> bool;

    /// Begins walking toward `(target_x, target_y)`, the top-left corner of
    /// the sprite. Nothing changes if the character stands there already.
    fn walk_to(&mut self, target_x: i32, target_y: i32)
        ensures
            final(self).place() == old(self).place(),
            old(self).place() == (target_x as int, target_y as int) ==> *final(self) == *old(self),
            old(self).place() != (target_x as int, target_y as int) ==> !final(self).resting(),
    ;

    /// Advances the animation and the position by `delta_ms` milliseconds;
    /// called once per tick. A character at rest stays at rest where it is.
    fn update(&mut self, delta_ms: u32)
        ensures
            old(self).resting() ==> final(self).resting() && final(self).place() == old(
                self,
            ).place(),
    ;

    /// The top-left corner of the sprite on screen.
    fn position(&self) -> (p: (i32, i32))
        ensures
            (p.0 as int, p.1 as int) == self.place(),
    ;

    /// True when the character is not walking.
    fn is_idle(&self) -> (r: bool)
        ensures
            r == self.resting(),
    ;
}

} // verus!
