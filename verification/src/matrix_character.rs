//! The trench-coat character: its animation state, the cadence of its
//! frames and its walk toward a target.

use vstd::prelude::*;
use vstd::arithmetic::div_mod::lemma_add_mod_noop_right;
use crate::character::CharacterSprite;
use crate::matrix_frames::{
    is_idle_frame,
    is_walk_frame,
    make_idle_frame,
    make_walk_frame,
    IDLE_FRAMES,
    WALK_FRAMES,
};

verus! {

/// Milliseconds that an idle frame is shown.
pub const IDLE_FRAME_MS: u32 = 500;

/// Milliseconds that a walking frame is shown.
pub const WALK_FRAME_MS: u32 = 150;

/// Pixels that a walking character moves along each axis per update.
pub const WALK_SPEED: i32 = 2;

/// What the character is doing.
#[derive(Clone, Copy, Debug, PartialEq, Eq, Structural)]
pub enum AnimState {
    /// At rest until told to walk.
    Idle,
    /// On the way to a target, until it arrives.
    Walking { target_x: i32, target_y: i32 },
}

/// The animation of a character as a mathematical value.
pub struct Motion {
    /// The target of the walk, if the character walks.
    pub target: Option<(int, int)>,
    /// The index of the frame that is shown.
    pub frame: nat,
    /// Milliseconds since the frame was first shown.
    pub elapsed: nat,
    /// Column of the sprite's top-left corner.
    pub x: int,
    /// Row of the sprite's top-left corner.
    pub y: int,
}

/// How long one frame is shown, for a character that walks or rests.
pub open spec fn period(walking: bool) -> nat {
    if walking {
        WALK_FRAME_MS as nat
    } else {
        IDLE_FRAME_MS as nat
    }
}

/// How many frames the animation cycles through.
pub open spec fn frame_count(walking: bool) -> nat {
    if walking {
        WALK_FRAMES as nat
    } else {
        IDLE_FRAMES as nat
    }
}

/// The states that an animation can be in: the frame belongs to the current
/// animation, less than one period has passed on it, and a walking character
/// is not at its target.
pub open spec fn valid(m: Motion) -> bool {
    &&& m.frame < frame_count(m.target is Some)
    &&& m.elapsed < period(m.target is Some)
    &&& m.target != Some((m.x, m.y))
}

/// A character at rest at `(x, y)`, on its first frame.
pub open spec fn at_rest(x: int, y: int) -> Motion {
    Motion { target: None, frame: 0, elapsed: 0, x, y }
}

/// The effect of a command to walk to `(tx, ty)`: none where the character
/// stands there; otherwise it walks, from the first walking frame.
pub open spec fn start_walk(m: Motion, tx: int, ty: int) -> Motion {
    if m.x == tx && m.y == ty {
        m
    } else {
        Motion { target: Some((tx, ty)), frame: 0, elapsed: 0, x: m.x, y: m.y }
    }
}

/// A coordinate `p` moved `by` pixels toward `t`, stopping at `t`.
pub open spec fn toward(p: int, t: int, by: int) -> int {
    if p <= t {
        if t - p <= by {
            t
        } else {
            p + by
        }
    } else {
        if p - t <= by {
            t
        } else {
            p - by
        }
    }
}

/// The frame and the time on it after `delta` more milliseconds: one frame
/// further for each full period, the rest of the time carried over.
pub open spec fn advance(m: Motion, delta: nat) -> Motion {
    let walking = m.target is Some;
    let total = m.elapsed + delta;
    Motion {
        target: m.target,
        frame: (m.frame + total / period(walking)) % frame_count(walking),
        elapsed: total % period(walking),
        x: m.x,
        y: m.y,
    }
}

/// One update of `delta` milliseconds: the frames advance; a walking
/// character also moves one step along each axis, and comes to rest on its
/// first idle frame when it reaches the target.
pub open spec fn tick(m: Motion, delta: nat) -> Motion {
    match m.target {
        None => advance(m, delta),
        Some((tx, ty)) => {
            let nx = toward(m.x, tx, WALK_SPEED as int);
            let ny = toward(m.y, ty, WALK_SPEED as int);
            if nx == tx && ny == ty {
                at_rest(tx, ty)
            } else {
                Motion { x: nx, y: ny, ..advance(m, delta) }
            }
        },
    }
}

/// The state after one update for each entry of `deltas`, in order.
pub open spec fn run(m: Motion, deltas: Seq<nat>) -> Motion
    decreases deltas.len(),
{
    if deltas.len() == 0 {
        m
    } else {
        tick(run(m, deltas.drop_last()), deltas.last())
    }
}

/// The sum of the entries of `deltas`.
pub open spec fn total(deltas: Seq<nat>) -> nat
    decreases deltas.len(),
{
    if deltas.len() == 0 {
        0
    } else {
        total(deltas.drop_last()) + deltas.last()
    }
}

/// An update leads from a valid state to a valid state.
pub proof fn lemma_tick_valid(m: Motion, delta: nat)
    requires
        valid(m),
    ensures
        valid(tick(m, delta)),
{
}

/// Each update moves a walking character toward its target on each axis and
/// never past it; a character at rest does not move.
pub proof fn lemma_tick_moves_toward_target(m: Motion, delta: nat)
    requires
        valid(m),
    ensures
        m.target is None ==> tick(m, delta).x == m.x && tick(m, delta).y == m.y,
        m.target matches Some((tx, ty)) ==> {
            &&& (m.x <= tx ==> m.x <= tick(m, delta).x <= tx)
            &&& (m.x >= tx ==> m.x >= tick(m, delta).x >= tx)
            &&& (m.y <= ty ==> m.y <= tick(m, delta).y <= ty)
            &&& (m.y >= ty ==> m.y >= tick(m, delta).y >= ty)
            &&& (tick(m, delta).target is None <==> tick(m, delta).x == tx && tick(m, delta).y
                == ty)
        },
{
}

/// Where a walk to `(tx, ty)` stands after any number of updates: each
/// coordinate has moved one step per update toward the target and stopped
/// there, and the character is at rest exactly when both have arrived.
pub proof fn lemma_walk_progress(m: Motion, tx: int, ty: int, deltas: Seq<nat>)
    requires
        valid(m),
        m.target == Some((tx, ty)),
    ensures
        run(m, deltas).x == toward(m.x, tx, WALK_SPEED * deltas.len()),
        run(m, deltas).y == toward(m.y, ty, WALK_SPEED * deltas.len()),
        run(m, deltas).target == if run(m, deltas).x == tx && run(m, deltas).y == ty {
            None
        } else {
            m.target
        },
        valid(run(m, deltas)),
    decreases deltas.len(),
{
    if deltas.len() > 0 {
        lemma_walk_progress(m, tx, ty, deltas.drop_last());
    }
}

/// A walk ends: once the updates cover the longer of the two distances, the
/// character stands exactly on its target and is at rest.
pub proof fn lemma_walk_arrives(m: Motion, tx: int, ty: int, deltas: Seq<nat>)
    requires
        valid(m),
        m.target == Some((tx, ty)),
        m.x - tx <= WALK_SPEED * deltas.len(),
        tx - m.x <= WALK_SPEED * deltas.len(),
        m.y - ty <= WALK_SPEED * deltas.len(),
        ty - m.y <= WALK_SPEED * deltas.len(),
    ensures
        run(m, deltas).target is None,
        run(m, deltas).x == tx,
        run(m, deltas).y == ty,
{
    lemma_walk_progress(m, tx, ty, deltas);
}

/// Time carried over a frame change is not lost: advancing by `s` and then
/// by `d` shows the frame, and leaves the time on it, that advancing by
/// `s + d` does.
pub proof fn lemma_advance_adds(m: Motion, s: nat, d: nat)
    ensures
        advance(advance(m, s), d) == advance(m, s + d),
{
    let e = m.elapsed;
    let f = m.frame;
    if m.target is Some {
        assert(((e + s) % 150 + d) % 150 == (e + s + d) % 150);
        assert(((e + s) % 150 + d) / 150 + (e + s) / 150 == (e + s + d) / 150);
        let shown = f + (e + s) / 150;
        let more = ((e + s) % 150 + d) / 150;
        lemma_add_mod_noop_right(more as int, shown as int, 4);
        assert((shown % 4 + more) % 4 == (shown + more) % 4);
    } else {
        assert(((e + s) % 500 + d) % 500 == (e + s + d) % 500);
        assert(((e + s) % 500 + d) / 500 + (e + s) / 500 == (e + s + d) / 500);
        let shown = f + (e + s) / 500;
        let more = ((e + s) % 500 + d) / 500;
        lemma_add_mod_noop_right(more as int, shown as int, 2);
        assert((shown % 2 + more) % 2 == (shown + more) % 2);
    }
}

/// The cadence does not drift: while the character keeps doing what it does,
/// the frame and the time on it depend on the sum of the updates alone, not
/// on how the time was cut into updates.
pub proof fn lemma_cadence_sum(m: Motion, deltas: Seq<nat>)
    requires
        valid(m),
        m.target is Some ==> run(m, deltas).target is Some,
    ensures
        run(m, deltas).target == m.target,
        run(m, deltas).frame == advance(m, total(deltas)).frame,
        run(m, deltas).elapsed == advance(m, total(deltas)).elapsed,
    decreases deltas.len(),
{
    if deltas.len() > 0 {
        let before = run(m, deltas.drop_last());
        let d = deltas.last();
        let s = total(deltas.drop_last());
        lemma_run_valid(m, deltas.drop_last());
        lemma_cadence_sum(m, deltas.drop_last());
        lemma_advance_adds(m, s, d);
        let shown = advance(m, s);
        assert(advance(before, d).frame == advance(shown, d).frame);
        assert(advance(before, d).elapsed == advance(shown, d).elapsed);
    } else {
        assert(m.elapsed % period(m.target is Some) == m.elapsed);
        assert((m.frame + m.elapsed / period(m.target is Some)) % frame_count(m.target is Some)
            == m.frame);
    }
}

/// Every state that updates lead to from a valid state is valid.
pub proof fn lemma_run_valid(m: Motion, deltas: Seq<nat>)
    requires
        valid(m),
    ensures
        valid(run(m, deltas)),
        m.target is None ==> run(m, deltas).target is None,
    decreases deltas.len(),
{
    if deltas.len() > 0 {
        lemma_run_valid(m, deltas.drop_last());
    }
}

/// Updates that add up to exactly one period show the next frame, with the
/// same time on it as before: nothing is lost between updates.
pub proof fn lemma_one_period_is_one_frame(m: Motion, deltas: Seq<nat>)
    requires
        valid(m),
        m.target is Some ==> run(m, deltas).target is Some,
        total(deltas) == period(m.target is Some),
    ensures
        run(m, deltas).frame == (m.frame + 1) % frame_count(m.target is Some),
        run(m, deltas).elapsed == m.elapsed,
{
    lemma_cadence_sum(m, deltas);
}

/// An animated character on screen.
pub struct MatrixCharacter {
    state: AnimState,
    frame_idx: usize,
    frame_timer_ms: u32,
    pos_x: i32,
    pos_y: i32,
}

impl View for MatrixCharacter {
    type V = Motion;

    closed spec fn view(&self) -> Motion {
        Motion {
            target: match self.state {
                AnimState::Idle => None,
                AnimState::Walking { target_x, target_y } => Some(
                    (target_x as int, target_y as int),
                ),
            },
            frame: self.frame_idx as nat,
            elapsed: self.frame_timer_ms as nat,
            x: self.pos_x as int,
            y: self.pos_y as int,
        }
    }
}

/// The coordinate `p` moved one step toward `t`, stopping at `t`.
fn step_toward(p: i32, t: i32) -> (r: i32)
    ensures
        r == toward(p as int, t as int, WALK_SPEED as int),
{
    let gap: i64 = t as i64 - p as i64;
    if gap >= 0 {
        if gap <= WALK_SPEED as i64 {
            t
        } else {
            p + WALK_SPEED
        }
    } else {
        if -gap <= WALK_SPEED as i64 {
            t
        } else {
            p - WALK_SPEED
        }
    }
}

impl MatrixCharacter {
    #[verifier::type_invariant]
    spec fn inv(self) -> bool {
        valid(self@)
    }

    /// A character at rest at `(x, y)`, showing its first idle frame.
    pub fn new(x: i32, y: i32) -> (c: Self)
        ensures
            c@ == at_rest(x as int, y as int),
            valid(c@),
    {
        MatrixCharacter {
            state: AnimState::Idle,
            frame_idx: 0,
            frame_timer_ms: 0,
            pos_x: x,
            pos_y: y,
        }
    }

    /// What the character is doing.
    pub fn state(&self) -> (s: AnimState)
        ensures
            valid(self@),
            match s {
                AnimState::Idle => self@.target is None,
                AnimState::Walking { target_x, target_y } => self@.target == Some(
                    (target_x as int, target_y as int),
                ),
            },
    {
        proof {
            use_type_invariant(self);
        }
        self.state
    }

    /// The index of the frame that is shown, within the current animation.
    pub fn frame_index(&self) -> (i: usize)
        ensures
            i == self@.frame,
            i < frame_count(self@.target is Some),
    {
        proof {
            use_type_invariant(self);
        }
        self.frame_idx
    }

    /// Milliseconds that the current frame has been shown.
    pub fn frame_elapsed_ms(&self) -> (ms: u32)
        ensures
            ms == self@.elapsed,
            ms < period(self@.target is Some),
    {
        proof {
            use_type_invariant(self);
        }
        self.frame_timer_ms
    }

    /// The pixels of the frame that is shown: the idle frame with open eyes
    /// or the blink, or the walking frame of the current step.
    pub fn frame_pixels(&self) -> (p: [u16; 1024])
        ensures
            self@.target is None ==> is_idle_frame(p@, self@.frame == 0),
            self@.target is Some ==> is_walk_frame(p@, self@.frame as u8),
    {
        proof {
            use_type_invariant(self);
        }
        match self.state {
            AnimState::Idle => make_idle_frame(self.frame_idx == 0),
            AnimState::Walking { .. } => make_walk_frame(self.frame_idx as u8),
        }
    }
}

impl CharacterSprite for MatrixCharacter {
    open spec fn place(&self) -> (int, int) {
        (self@.x, self@.y)
    }

    open spec fn resting(&self) -> bool {
        self@.target is None
    }

    fn walk_to(&mut self, target_x: i32, target_y: i32)
        ensures
            final(self)@ == start_walk(old(self)@, target_x as int, target_y as int),
            valid(final(self)@),
    {
        proof {
            use_type_invariant(&*self);
        }
        if self.pos_x == target_x && self.pos_y == target_y {
            return ;
        }
        *self = MatrixCharacter {
            state: AnimState::Walking { target_x, target_y },
            frame_idx: 0,
            frame_timer_ms: 0,
            pos_x: self.pos_x,
            pos_y: self.pos_y,
        };
    }

    fn update(&mut self, delta_ms: u32)
        ensures
            final(self)@ == tick(old(self)@, delta_ms as nat),
            valid(final(self)@),
    {
        proof {
            use_type_invariant(&*self);
        }
        let total: u64 = self.frame_timer_ms as u64 + delta_ms as u64;
        match self.state {
            AnimState::Idle => {
                let steps: u64 = total / (IDLE_FRAME_MS as u64);
                *self = MatrixCharacter {
                    state: AnimState::Idle,
                    frame_idx: ((self.frame_idx as u64 + steps) % (IDLE_FRAMES as u64)) as usize,
                    frame_timer_ms: (total % (IDLE_FRAME_MS as u64)) as u32,
                    pos_x: self.pos_x,
                    pos_y: self.pos_y,
                };
            },
            AnimState::Walking { target_x, target_y } => {
                let steps: u64 = total / (WALK_FRAME_MS as u64);
                let nx: i32 = step_toward(self.pos_x, target_x);
                let ny: i32 = step_toward(self.pos_y, target_y);
                if nx == target_x && ny == target_y {
                    *self = MatrixCharacter {
                        state: AnimState::Idle,
                        frame_idx: 0,
                        frame_timer_ms: 0,
                        pos_x: nx,
                        pos_y: ny,
                    };
                } else {
                    *self = MatrixCharacter {
                        state: AnimState::Walking { target_x, target_y },
                        frame_idx: ((self.frame_idx as u64 + steps) % (WALK_FRAMES as u64)) as usize,
                        frame_timer_ms: (total % (WALK_FRAME_MS as u64)) as u32,
                        pos_x: nx,
                        pos_y: ny,
                    };
                }
            },
        }
    }

    fn position(&self) -> (p: (i32, i32))
        ensures
            p.0 == self@.x,
            p.1 == self@.y,
    {
        (self.pos_x, self.pos_y)
    }

    fn is_idle(&self) -> (r: bool)
        ensures
            r == (self@.target is None),
    {
        match self.state {
            AnimState::Idle => true,
            AnimState::Walking { .. } => false,
        }
    }
}

} // verus!
