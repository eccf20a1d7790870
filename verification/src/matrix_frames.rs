//! Pixel art of the trench-coat character: a 32x32 sprite with two idle
//! frames (eyes open, blink) and four walking frames (one stride cycle).
//!
//! Each frame is a list of regions in front-to-back order; a pixel takes the
//! colour of the first region that holds it, and black where none does.

use vstd::prelude::*;
use crate::geometry::{ellipse_contains, in_ellipse, in_rect, rect_contains};
use crate::raster::{color_from, is_rendering, render, shape_holds, Bitmap, Primitive, RegionSet, Shape};

verus! {

/// Width of the sprite in pixels.
pub const CHAR_W: i32 = 32;

/// Height of the sprite in pixels.
pub const CHAR_H: i32 = 32;

/// Number of pixels of one frame.
pub const FRAME_LEN: usize = 1024;

/// Number of idle frames.
pub const IDLE_FRAMES: usize = 2;

/// Number of walking frames.
pub const WALK_FRAMES: usize = 4;

/// Background of every frame.
pub const BLACK: u16 = 0x0000;

/// Open eyes: the encoding of (0x00, 0xFF, 0x41).
pub const MATRIX_GREEN: u16 = 0xE807;

/// Closed eyes: the encoding of (0x00, 0x60, 0x20).
pub const GREEN_DIM: u16 = 0x0403;

/// Coat shadow: the encoding of (0x1A, 0x1A, 0x1A).
pub const COAT_DK: u16 = 0xC318;

/// Coat midtone: the encoding of (0x2E, 0x2E, 0x2E).
pub const COAT_MID: u16 = 0x6529;

/// Coat highlight along the centre crease: the encoding of (0x48, 0x48, 0x48).
pub const COAT_HL: u16 = 0x494A;

/// Skin: the encoding of (0xC8, 0x84, 0x5A).
pub const SKIN: u16 = 0x2BCC;

/// Hair: the encoding of (0x0C, 0x0C, 0x0C).
pub const HAIR: u16 = 0x6108;

/// The palette holds the panel encodings of the colours it is named after.
pub proof fn lemma_palette_encoded()
    ensures
        BLACK == crate::color::encoded(0x00, 0x00, 0x00),
        MATRIX_GREEN == crate::color::encoded(0x00, 0xFF, 0x41),
        GREEN_DIM == crate::color::encoded(0x00, 0x60, 0x20),
        COAT_DK == crate::color::encoded(0x1A, 0x1A, 0x1A),
        COAT_MID == crate::color::encoded(0x2E, 0x2E, 0x2E),
        COAT_HL == crate::color::encoded(0x48, 0x48, 0x48),
        SKIN == crate::color::encoded(0xC8, 0x84, 0x5A),
        HAIR == crate::color::encoded(0x0C, 0x0C, 0x0C),
{
}

/// The head: a disc of radius 6 about (16, 6).
pub open spec fn head(x: int, y: int) -> bool {
    ellipse_contains(x, y, 16, 6, 6, 6)
}

/// The hair: the part of the head down to row 4.
pub open spec fn hair(x: int, y: int) -> bool {
    head(x, y) && y <= 4
}

/// The face: the head below the hair.
pub open spec fn face(x: int, y: int) -> bool {
    head(x, y) && y > 4
}

/// The eyes: two pixels each on row 5.
pub open spec fn eyes(x: int, y: int) -> bool {
    y == 5 && (x == 12 || x == 13 || x == 19 || x == 20)
}

/// The neck.
pub open spec fn neck(x: int, y: int) -> bool {
    rect_contains(x, y, 14, 9, 18, 10)
}

/// Half the width of the coat on row `y`: it flares by one pixel every three
/// rows below row 20.
pub open spec fn coat_half_width(y: int) -> int {
    if y <= 20 {
        8
    } else {
        8 + (y - 20) / 3
    }
}

/// Shoulders, collar and coat body.
pub open spec fn torso(x: int, y: int) -> bool {
    rect_contains(x, y, 6, 11, 26, 12) || rect_contains(x, y, 12, 11, 20, 13) || (13 <= y <= 25
        && 16 - coat_half_width(y) <= x <= 16 + coat_half_width(y))
}

/// The shade of the coat in column `x`: a highlight on the crease, a midtone
/// beside it, shadow elsewhere.
pub open spec fn coat_shade(x: int) -> u16 {
    if x == 16 {
        COAT_HL
    } else if 14 <= x <= 18 {
        COAT_MID
    } else {
        COAT_DK
    }
}

/// The strip of coat that hangs between the legs.
pub open spec fn coat_hem(x: int, y: int) -> bool {
    rect_contains(x, y, 14, 26, 18, 29)
}

/// The left leg, tested at the coordinates moved by `(-dx, dy)` and kept to
/// the leg rows: the shift moves the test point, not the band that is painted.
pub open spec fn left_leg(x: int, y: int, dx: int, dy: int) -> bool {
    26 <= y <= 31 && rect_contains(x - dx, y + dy, 9, 26, 13, 31)
}

/// The right leg, shifted like the left one.
pub open spec fn right_leg(x: int, y: int, dx: int, dy: int) -> bool {
    26 <= y <= 31 && rect_contains(x - dx, y + dy, 19, 26, 23, 31)
}

/// The shift of the left leg at a step of the stride, as `(dx, dy)`; the
/// right leg takes the opposite shift. Steps 0 and 2 lead with the left and
/// the right foot, every other step is level.
pub open spec fn stride(step: u8) -> (int, int) {
    if step == 0 {
        (-1, -1)
    } else if step == 2 {
        (1, 1)
    } else {
        (0, 0)
    }
}

/// Whether any region of the idle frames holds `(x, y)`.
pub open spec fn idle_covered(x: int, y: int) -> bool {
    head(x, y) || neck(x, y) || torso(x, y) || left_leg(x, y, 0, 0) || right_leg(x, y, 0, 0)
        || coat_hem(x, y)
}

/// Whether any region of the walking frame at `step` holds `(x, y)`.
pub open spec fn walk_covered(x: int, y: int, step: u8) -> bool {
    head(x, y) || neck(x, y) || torso(x, y) || left_leg(x, y, stride(step).0, stride(step).1)
        || right_leg(x, y, -stride(step).0, -stride(step).1) || coat_hem(x, y)
}

/// The colour of the character at `(x, y)` with the legs shifted by `(dx, dy)`
/// and the eyes in colour `eye`: the first region that holds the point decides.
pub open spec fn figure_color(x: int, y: int, eye: u16, dx: int, dy: int) -> u16 {
    if hair(x, y) {
        HAIR
    } else if face(x, y) {
        if eyes(x, y) {
            eye
        } else {
            SKIN
        }
    } else if neck(x, y) {
        SKIN
    } else if torso(x, y) {
        coat_shade(x)
    } else if left_leg(x, y, dx, dy) || right_leg(x, y, -dx, -dy) || coat_hem(x, y) {
        COAT_DK
    } else {
        BLACK
    }
}

/// The colour of an idle frame at `(x, y)`.
pub open spec fn idle_color(x: int, y: int, eyes_open: bool) -> u16 {
    figure_color(
        x,
        y,
        if eyes_open {
            MATRIX_GREEN
        } else {
            GREEN_DIM
        },
        0,
        0,
    )
}

/// The colour of the walking frame `step` at `(x, y)`.
pub open spec fn walk_color(x: int, y: int, step: u8) -> u16 {
    figure_color(x, y, MATRIX_GREEN, stride(step).0, stride(step).1)
}

/// A point that no region of an idle frame holds is black.
pub proof fn lemma_idle_background(x: int, y: int, eyes_open: bool)
    requires
        !idle_covered(x, y),
    ensures
        idle_color(x, y, eyes_open) == BLACK,
{
}

/// A point that no region of a walking frame holds is black.
pub proof fn lemma_walk_background(x: int, y: int, step: u8)
    requires
        !walk_covered(x, y, step),
    ensures
        walk_color(x, y, step) == BLACK,
{
}

/// The two idle frames differ in the eyes alone.
pub proof fn lemma_blink_changes_eyes_only(x: int, y: int)
    ensures
        idle_color(x, y, true) != idle_color(x, y, false) <==> face(x, y) && eyes(x, y),
{
}

/// The level steps of the stride show the idle pose with open eyes.
pub proof fn lemma_level_step_is_idle_pose(x: int, y: int, step: u8)
    requires
        step != 0,
        step != 2,
    ensures
        walk_color(x, y, step) == idle_color(x, y, true),
{
}

/// The shade of the coat in column `x`.
fn coat_color(x: i32) -> (px: u16)
    ensures
        px == coat_shade(x as int),
{
    if x == 16 {
        COAT_HL
    } else if x >= 14 && x <= 18 {
        COAT_MID
    } else {
        COAT_DK
    }
}

/// Whether shoulders, collar or coat body hold `(x, y)`.
fn in_torso(x: i32, y: i32) -> (r: bool)
    ensures
        r == torso(x as int, y as int),
{
    let cx: i32 = 16;
    let in_shoulders = in_rect(x, y, cx - 10, 11, cx + 10, 12);
    let in_collar = in_rect(x, y, cx - 4, 11, cx + 4, 13);
    if in_shoulders || in_collar {
        return true;
    }
    if y < 13 || y > 25 {
        return false;
    }
    let coat_hw: i32 = if y <= 20 {
        8
    } else {
        8 + (y - 20) / 3
    };
    x >= cx - coat_hw && x <= cx + coat_hw
}

/// The pixel of an idle frame at `(x, y)`; `eyes_open` picks the frame with
/// green eyes over the blink.
pub fn idle_pixel(x: i32, y: i32, eyes_open: bool) -> (px: u16)
    ensures
        px == idle_color(x as int, y as int, eyes_open),
        !idle_covered(x as int, y as int) ==> px == BLACK,
{
    let cx: i32 = 16;
    let in_head = in_ellipse(x, y, cx, 6, 6, 6);
    let in_hair = in_head && y <= 4;
    let in_face = in_head && y > 4;
    let in_left_eye = y == 5 && (x == cx - 4 || x == cx - 3);
    let in_right_eye = y == 5 && (x == cx + 3 || x == cx + 4);
    let in_eyes = in_left_eye || in_right_eye;
    let in_neck = in_rect(x, y, cx - 2, 9, cx + 2, 10);
    let in_left_leg = in_rect(x, y, cx - 7, 26, cx - 3, 31);
    let in_right_leg = in_rect(x, y, cx + 3, 26, cx + 7, 31);
    let in_coat_hem = in_rect(x, y, cx - 2, 26, cx + 2, 29);

    if in_hair {
        HAIR
    } else if in_face {
        if in_eyes {
            if eyes_open {
                MATRIX_GREEN
            } else {
                GREEN_DIM
            }
        } else {
            SKIN
        }
    } else if in_neck {
        SKIN
    } else if in_torso(x, y) {
        coat_color(x)
    } else if in_left_leg || in_right_leg || in_coat_hem {
        COAT_DK
    } else {
        BLACK
    }
}

/// The pixel at `(x, y)` of the walking frame `step`: 0 leads with the left
/// foot, 2 with the right, and every other step is level.
pub fn walk_pixel(x: i32, y: i32, step: u8) -> (px: u16)
    ensures
        px == walk_color(x as int, y as int, step),
        !walk_covered(x as int, y as int, step) ==> px == BLACK,
{
    let cx: i32 = 16;
    let in_head = in_ellipse(x, y, cx, 6, 6, 6);
    let in_hair = in_head && y <= 4;
    let in_face = in_head && y > 4;
    let in_left_eye = y == 5 && (x == cx - 4 || x == cx - 3);
    let in_right_eye = y == 5 && (x == cx + 3 || x == cx + 4);
    let in_eyes = in_left_eye || in_right_eye;
    let in_neck = in_rect(x, y, cx - 2, 9, cx + 2, 10);

    let (ll_y_off, rl_y_off, ll_x_off, rl_x_off): (i32, i32, i32, i32) = match step {
        0 => (-1, 1, -1, 1),
        1 => (0, 0, 0, 0),
        2 => (1, -1, 1, -1),
        _ => (0, 0, 0, 0),
    };

    // The legs lie inside the frame, so a column outside it holds neither;
    // leaving it out first keeps the shifted coordinate in range.
    let in_band = y >= 26 && y <= 31 && x >= 0 && x < CHAR_W;
    let in_left_leg = in_band && in_rect(x - ll_x_off, y + ll_y_off, cx - 7, 26, cx - 3, 31);
    let in_right_leg = in_band && in_rect(x - rl_x_off, y + rl_y_off, cx + 3, 26, cx + 7, 31);
    let in_coat_hem = in_rect(x, y, cx - 2, 26, cx + 2, 29);

    if in_hair {
        HAIR
    } else if in_face {
        if in_eyes {
            MATRIX_GREEN
        } else {
            SKIN
        }
    } else if in_neck {
        SKIN
    } else if in_torso(x, y) {
        coat_color(x)
    } else if in_left_leg || in_right_leg || in_coat_hem {
        COAT_DK
    } else {
        BLACK
    }
}

/// What a frame holds: the pixel of `(x, y)` stands at `y * 32 + x`.
pub open spec fn is_idle_frame(p: Seq<u16>, eyes_open: bool) -> bool {
    &&& p.len() == FRAME_LEN
    &&& forall|x: int, y: int|
        0 <= x < CHAR_W && 0 <= y < CHAR_H ==> #[trigger] p[y * CHAR_W + x] == idle_color(
            x,
            y,
            eyes_open,
        )
}

/// What a walking frame holds, row by row.
pub open spec fn is_walk_frame(p: Seq<u16>, step: u8) -> bool {
    &&& p.len() == FRAME_LEN
    &&& forall|x: int, y: int|
        0 <= x < CHAR_W && 0 <= y < CHAR_H ==> #[trigger] p[y * CHAR_W + x] == walk_color(
            x,
            y,
            step,
        )
}

/// Renders one idle frame, row by row.
pub fn make_idle_frame(eyes_open: bool) -> (p: [u16; 1024])
    ensures
        is_idle_frame(p@, eyes_open),
{
    let mut p = [BLACK; 1024];
    let mut y: i32 = 0;
    while y < CHAR_H
        invariant
            0 <= y <= CHAR_H,
            forall|k: int| 0 <= k < y * CHAR_W ==> #[trigger] p@[k] == idle_color(k % 32, k / 32, eyes_open),
        decreases CHAR_H - y,
    {
        let mut x: i32 = 0;
        while x < CHAR_W
            invariant
                0 <= y < CHAR_H,
                0 <= x <= CHAR_W,
                forall|k: int| 0 <= k < y * CHAR_W + x ==> #[trigger] p@[k] == idle_color(k % 32, k / 32, eyes_open),
            decreases CHAR_W - x,
        {
            p[(y * CHAR_W + x) as usize] = idle_pixel(x, y, eyes_open);
            x += 1;
        }
        y += 1;
    }
    assert forall|x: int, y: int| 0 <= x < CHAR_W && 0 <= y < CHAR_H implies #[trigger] p@[y * CHAR_W + x]
        == idle_color(x, y, eyes_open) by {
        let k = y * CHAR_W + x;
        assert(k % 32 == x && k / 32 == y);
    }
    p
}

/// Renders one walking frame, row by row.
pub fn make_walk_frame(step: u8) -> (p: [u16; 1024])
    ensures
        is_walk_frame(p@, step),
{
    let mut p = [BLACK; 1024];
    let mut y: i32 = 0;
    while y < CHAR_H
        invariant
            0 <= y <= CHAR_H,
            forall|k: int| 0 <= k < y * CHAR_W ==> #[trigger] p@[k] == walk_color(k % 32, k / 32, step),
        decreases CHAR_H - y,
    {
        let mut x: i32 = 0;
        while x < CHAR_W
            invariant
                0 <= y < CHAR_H,
                0 <= x <= CHAR_W,
                forall|k: int| 0 <= k < y * CHAR_W + x ==> #[trigger] p@[k] == walk_color(k % 32, k / 32, step),
            decreases CHAR_W - x,
        {
            p[(y * CHAR_W + x) as usize] = walk_pixel(x, y, step);
            x += 1;
        }
        y += 1;
    }
    assert forall|x: int, y: int| 0 <= x < CHAR_W && 0 <= y < CHAR_H implies #[trigger] p@[y * CHAR_W + x]
        == walk_color(x, y, step) by {
        let k = y * CHAR_W + x;
        assert(k % 32 == x && k / 32 == y);
    }
    p
}

/// The head as a region.
fn head_shape() -> (s: Shape)
    ensures
        forall|x: int, y: int| #[trigger] shape_holds(s, x, y) == head(x, y),
{
    Shape::ellipse(16, 6, 6, 6)
}

/// Shoulders, collar and coat body as one region; the flare of the coat is
/// a second, wider rectangle over its last three rows.
fn torso_shape() -> (s: Shape)
    ensures
        forall|x: int, y: int| #[trigger] shape_holds(s, x, y) == torso(x, y),
{
    let shoulders = Shape::rect(6, 11, 26, 12);
    let collar = Shape::rect(12, 11, 20, 13);
    let coat = Shape::rect(8, 13, 24, 22);
    let flare = Shape::rect(7, 23, 25, 25);
    shoulders.union(collar).union(coat.union(flare))
}

/// The figure as a list of regions, front to back, over black: hair, eyes,
/// face, neck, the coat in its three shades, the two legs and the hem. The
/// legs are kept to their band and tested at coordinates shifted by
/// `(dx, dy)` and its opposite. Within the frame, the list gives every point
/// the colour of the figure.
pub fn figure_regions(eye: u16, dx: i32, dy: i32) -> (set: RegionSet)
    requires
        dx > i32::MIN,
        dy > i32::MIN,
    ensures
        set.background == BLACK,
        set.regions@.len() == 10,
        forall|x: int, y: int|
            0 <= x < CHAR_W && 0 <= y < CHAR_H ==> #[trigger] set.color_at(x, y) == figure_color(
                x,
                y,
                eye,
                dx as int,
                dy as int,
            ),
{
    let mut set = RegionSet::new(BLACK);
    set.push(head_shape().intersection(Shape::rect(0, 0, 31, 4)), HAIR);
    set.push(
        head_shape().intersection(Shape::rect(12, 5, 13, 5).union(Shape::rect(19, 5, 20, 5))),
        eye,
    );
    set.push(head_shape(), SKIN);
    set.push(Shape::rect(14, 9, 18, 10), SKIN);
    set.push(torso_shape().intersection(Shape::rect(16, 0, 16, 31)), COAT_HL);
    set.push(torso_shape().intersection(Shape::rect(14, 0, 18, 31)), COAT_MID);
    set.push(torso_shape(), COAT_DK);
    let band = Shape::rect(0, 26, 31, 31);
    set.push(
        band.intersection(
            Shape::offset(dx, -dy, Primitive::Rect { x1: 9, y1: 26, x2: 13, y2: 31 }),
        ),
        COAT_DK,
    );
    let band = Shape::rect(0, 26, 31, 31);
    set.push(
        band.intersection(
            Shape::offset(-dx, dy, Primitive::Rect { x1: 19, y1: 26, x2: 23, y2: 31 }),
        ),
        COAT_DK,
    );
    set.push(Shape::rect(14, 26, 18, 29), COAT_DK);
    proof {
        reveal_with_fuel(color_from, 11);
        assert forall|x: int, y: int| 0 <= x < CHAR_W && 0 <= y < CHAR_H implies #[trigger] set.color_at(
            x,
            y,
        ) == figure_color(x, y, eye, dx as int, dy as int) by {
            let r = set.regions@;
            assert(shape_holds(r[0].shape, x, y) == hair(x, y));
            assert(shape_holds(r[1].shape, x, y) == (head(x, y) && eyes(x, y)));
            assert(shape_holds(r[2].shape, x, y) == head(x, y));
            assert(shape_holds(r[3].shape, x, y) == neck(x, y));
            assert(shape_holds(r[4].shape, x, y) == (torso(x, y) && x == 16));
            assert(shape_holds(r[5].shape, x, y) == (torso(x, y) && 14 <= x <= 18));
            assert(shape_holds(r[6].shape, x, y) == torso(x, y));
            assert(shape_holds(r[7].shape, x, y) == left_leg(x, y, dx as int, dy as int));
            assert(shape_holds(r[8].shape, x, y) == right_leg(x, y, -dx as int, -dy as int));
            assert(shape_holds(r[9].shape, x, y) == coat_hem(x, y));
        }
    }
    set
}

/// The regions of an idle frame.
pub fn idle_regions(eyes_open: bool) -> (set: RegionSet)
    ensures
        set.background == BLACK,
        forall|x: int, y: int|
            0 <= x < CHAR_W && 0 <= y < CHAR_H ==> #[trigger] set.color_at(x, y) == idle_color(
                x,
                y,
                eyes_open,
            ),
{
    figure_regions(
        if eyes_open {
            MATRIX_GREEN
        } else {
            GREEN_DIM
        },
        0,
        0,
    )
}

/// The regions of the walking frame `step`.
pub fn walk_regions(step: u8) -> (set: RegionSet)
    ensures
        set.background == BLACK,
        forall|x: int, y: int|
            0 <= x < CHAR_W && 0 <= y < CHAR_H ==> #[trigger] set.color_at(x, y) == walk_color(
                x,
                y,
                step,
            ),
{
    let (dx, dy): (i32, i32) = match step {
        0 => (-1, -1),
        2 => (1, 1),
        _ => (0, 0),
    };
    figure_regions(MATRIX_GREEN, dx, dy)
}

/// The rasteriser and the frame builders agree: the rendering of the
/// regions of a frame holds what the frame holds.
pub proof fn lemma_rendering_is_idle_frame(b: Bitmap, set: RegionSet, eyes_open: bool)
    requires
        is_rendering(b, 32, 32, set),
        forall|x: int, y: int|
            0 <= x < CHAR_W && 0 <= y < CHAR_H ==> #[trigger] set.color_at(x, y) == idle_color(
                x,
                y,
                eyes_open,
            ),
    ensures
        is_idle_frame(b@, eyes_open),
{
    assert forall|x: int, y: int| 0 <= x < CHAR_W && 0 <= y < CHAR_H implies #[trigger] b@[y
        * CHAR_W + x] == idle_color(x, y, eyes_open) by {
        assert(b.at(x, y) == set.color_at(x, y));
    }
}

/// The rendering of the regions of a walking frame holds what the frame
/// holds.
pub proof fn lemma_rendering_is_walk_frame(b: Bitmap, set: RegionSet, step: u8)
    requires
        is_rendering(b, 32, 32, set),
        forall|x: int, y: int|
            0 <= x < CHAR_W && 0 <= y < CHAR_H ==> #[trigger] set.color_at(x, y) == walk_color(
                x,
                y,
                step,
            ),
    ensures
        is_walk_frame(b@, step),
{
    assert forall|x: int, y: int| 0 <= x < CHAR_W && 0 <= y < CHAR_H implies #[trigger] b@[y
        * CHAR_W + x] == walk_color(x, y, step) by {
        assert(b.at(x, y) == set.color_at(x, y));
    }
}

/// Renders an idle frame from its regions.
pub fn render_idle_frame(eyes_open: bool) -> (b: Bitmap)
    ensures
        b.cols() == 32,
        b.rows() == 32,
        is_idle_frame(b@, eyes_open),
{
    let set = idle_regions(eyes_open);
    let b = render(32, 32, &set);
    proof {
        lemma_rendering_is_idle_frame(b, set, eyes_open);
    }
    b
}

/// Renders the walking frame `step` from its regions.
pub fn render_walk_frame(step: u8) -> (b: Bitmap)
    ensures
        b.cols() == 32,
        b.rows() == 32,
        is_walk_frame(b@, step),
{
    let set = walk_regions(step);
    let b = render(32, 32, &set);
    proof {
        lemma_rendering_is_walk_frame(b, set, step);
    }
    b
}

} // verus!
