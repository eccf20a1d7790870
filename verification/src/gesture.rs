//! Which screen a swipe leads to.

use vstd::prelude::*;

verus! {

/// Milliseconds that a change of screen takes.
pub const SLIDE_MS: u32 = 150;

/// The two screens.
#[derive(Clone, Copy, Debug, PartialEq, Eq, Structural)]
pub enum Screen {
    /// The bridge scene.
    First,
    /// The second screen, to the right of the first.
    Second,
}

/// The direction of a gesture.
#[derive(Clone, Copy, Debug, PartialEq, Eq, Structural)]
pub enum Swipe {
    Left,
    Right,
    Up,
    Down,
}

/// How the new screen comes in.
#[derive(Clone, Copy, Debug, PartialEq, Eq, Structural)]
pub enum Slide {
    MoveLeft,
    MoveRight,
}

/// The screen that a swipe leads to from `active`, and how it comes in:
/// a swipe to the left on the first screen brings the second, a swipe to
/// the right on the second brings the first back.
pub open spec fn transition(active: Screen, dir: Swipe) -> Option<(Screen, Slide)> {
    match (active, dir) {
        (Screen::First, Swipe::Left) => Some((Screen::Second, Slide::MoveLeft)),
        (Screen::Second, Swipe::Right) => Some((Screen::First, Slide::MoveRight)),
        _ => None,
    }
}

/// Decides what a gesture on the active screen does: the screen to load and
/// the slide to load it with, or nothing.
pub fn screen_after_swipe(active: Screen, dir: Swipe) -> (t: Option<(Screen, Slide)>)
    ensures
        t == transition(active, dir),
        t matches Some((to, _)) ==> to != active,
{
    match (active, dir) {
        (Screen::First, Swipe::Left) => Some((Screen::Second, Slide::MoveLeft)),
        (Screen::Second, Swipe::Right) => Some((Screen::First, Slide::MoveRight)),
        _ => None,
    }
}

/// The direction against `dir`.
pub open spec fn opposite(dir: Swipe) -> Swipe {
    match dir {
        Swipe::Left => Swipe::Right,
        Swipe::Right => Swipe::Left,
        Swipe::Up => Swipe::Down,
        Swipe::Down => Swipe::Up,
    }
}

/// Swiping there and back returns to the screen one came from.
pub proof fn lemma_swipe_back(active: Screen, dir: Swipe, to: Screen, slide: Slide)
    requires
        transition(active, dir) == Some((to, slide)),
    ensures
        transition(to, opposite(dir)) matches Some((back, other)) && back == active && other
            != slide,
{
}

} // verus!
