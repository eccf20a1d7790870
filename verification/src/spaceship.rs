//! The background of the bridge scene: a 466x466 bitmap with a back wall,
//! two windows onto the stars, four consoles and a floor grid.
//!
//! The regions are listed from front to back; a pixel takes the colour of
//! the first one that holds it, and the colour of the floor where none does.

use vstd::prelude::*;
use crate::geometry::{lemma_product_bound, rect_contains};

verus! {

/// Width and height of the scene in pixels.
pub const SCENE_SIDE: i32 = 466;

/// Floor, and space behind the windows: the encoding of (0x1A, 0x20, 0x40).
pub const BG_DARK: u16 = 0x0819;

/// Walls and floor grid: the encoding of (0x2A, 0x34, 0x60).
pub const WALL: u16 = 0xAC29;

/// Console body: the encoding of (0x1C, 0x2E, 0x3A).
pub const CONSOLE: u16 = 0x6719;

/// Monitor: the encoding of (0x00, 0xC8, 0xFF).
pub const SCREEN_BLU: u16 = 0x5F06;

/// Readout: the encoding of (0x00, 0xFF, 0x88).
pub const SCREEN_GRN: u16 = 0xF107;

/// Metal trim: the encoding of (0x50, 0x60, 0xA0).
pub const METAL: u16 = 0x1453;

/// Stars: the encoding of (0xFF, 0xFF, 0xFF).
pub const STAR_WHT: u16 = 0xFFFF;

/// The palette holds the panel encodings of the colours it is named after.
pub proof fn lemma_palette_encoded()
    ensures
        BG_DARK == crate::color::encoded(0x1A, 0x20, 0x40),
        WALL == crate::color::encoded(0x2A, 0x34, 0x60),
        CONSOLE == crate::color::encoded(0x1C, 0x2E, 0x3A),
        SCREEN_BLU == crate::color::encoded(0x00, 0xC8, 0xFF),
        SCREEN_GRN == crate::color::encoded(0x00, 0xFF, 0x88),
        METAL == crate::color::encoded(0x50, 0x60, 0xA0),
        STAR_WHT == crate::color::encoded(0xFF, 0xFF, 0xFF),
{
}

/// A console: its body, the monitor inside it, and up to two readout strips
/// beside the monitor, on the monitor's rows. A strip with `from > to` is
/// absent.
pub struct Console {
    pub x1: int,
    pub y1: int,
    pub x2: int,
    pub y2: int,
    pub screen_x1: int,
    pub screen_y1: int,
    pub screen_x2: int,
    pub screen_y2: int,
    pub strip_a_from: int,
    pub strip_a_to: int,
    pub strip_b_from: int,
    pub strip_b_to: int,
}

/// The console against the back wall.
pub open spec fn back_console() -> Console {
    Console {
        x1: 150,
        y1: 15,
        x2: 316,
        y2: 120,
        screen_x1: 183,
        screen_y1: 30,
        screen_x2: 283,
        screen_y2: 95,
        strip_a_from: 155,
        strip_a_to: 178,
        strip_b_from: 288,
        strip_b_to: 311,
    }
}

/// The console on the left.
pub open spec fn left_console() -> Console {
    Console {
        x1: 15,
        y1: 195,
        x2: 165,
        y2: 295,
        screen_x1: 40,
        screen_y1: 210,
        screen_x2: 140,
        screen_y2: 270,
        strip_a_from: 145,
        strip_a_to: 162,
        strip_b_from: 1,
        strip_b_to: 0,
    }
}

/// The console on the right.
pub open spec fn right_console() -> Console {
    Console {
        x1: 301,
        y1: 195,
        x2: 451,
        y2: 295,
        screen_x1: 326,
        screen_y1: 210,
        screen_x2: 426,
        screen_y2: 270,
        strip_a_from: 304,
        strip_a_to: 321,
        strip_b_from: 1,
        strip_b_to: 0,
    }
}

/// The commander's console in front.
pub open spec fn commander_console() -> Console {
    Console {
        x1: 130,
        y1: 370,
        x2: 336,
        y2: 445,
        screen_x1: 163,
        screen_y1: 385,
        screen_x2: 303,
        screen_y2: 430,
        strip_a_from: 135,
        strip_a_to: 158,
        strip_b_from: 308,
        strip_b_to: 331,
    }
}

/// The body of a console.
pub open spec fn console_body(c: Console, x: int, y: int) -> bool {
    rect_contains(x, y, c.x1, c.y1, c.x2, c.y2)
}

/// The colour that a console gives a point, if it holds the point: the
/// monitor, then the readouts, then the two-pixel trim along the edge of the
/// body, then the body.
pub open spec fn console_color(c: Console, x: int, y: int) -> Option<u16> {
    if rect_contains(x, y, c.screen_x1, c.screen_y1, c.screen_x2, c.screen_y2) {
        Some(SCREEN_BLU)
    } else if rect_contains(x, y, c.strip_a_from, c.screen_y1, c.strip_a_to, c.screen_y2)
        || rect_contains(x, y, c.strip_b_from, c.screen_y1, c.strip_b_to, c.screen_y2) {
        Some(SCREEN_GRN)
    } else if console_body(c, x, y) {
        if x <= c.x1 + 1 || x >= c.x2 - 1 || y <= c.y1 + 1 || y >= c.y2 - 1 {
            Some(METAL)
        } else {
            Some(CONSOLE)
        }
    } else {
        None
    }
}

/// The two windows.
pub open spec fn window(x: int, y: int) -> bool {
    rect_contains(x, y, 20, 10, 140, 145) || rect_contains(x, y, 326, 10, 446, 145)
}

/// The stars: a fixed scatter over the windows.
pub open spec fn star(x: int, y: int) -> bool {
    window(x, y) && (x * 7 + y * 13 + x * y / 3) % 31 == 0
}

/// The frame of the windows.
pub open spec fn window_frame(x: int, y: int) -> bool {
    window(x, y) && (x == 20 || x == 140 || x == 326 || x == 446 || y == 10 || y == 145)
}

/// The lines of the floor grid, which the three consoles on the floor cover.
pub open spec fn floor_grid(x: int, y: int) -> bool {
    y >= 145 && !console_body(left_console(), x, y) && !console_body(right_console(), x, y)
        && !console_body(commander_console(), x, y) && (x % 46 == 0 || y % 46 == 0)
}

/// The back wall.
pub open spec fn back_wall(y: int) -> bool {
    y < 150
}

/// Whether any region of the scene holds `(x, y)`; the rest is bare floor.
pub open spec fn scene_covered(x: int, y: int) -> bool {
    console_color(back_console(), x, y) is Some || console_color(left_console(), x, y) is Some
        || console_color(right_console(), x, y) is Some || console_color(
        commander_console(),
        x,
        y,
    ) is Some || window(x, y) || floor_grid(x, y) || back_wall(y)
}

/// The colour of the scene at `(x, y)`.
pub open spec fn scene_color(x: int, y: int) -> u16 {
    if console_color(back_console(), x, y) is Some {
        console_color(back_console(), x, y)->0
    } else if console_color(left_console(), x, y) is Some {
        console_color(left_console(), x, y)->0
    } else if console_color(right_console(), x, y) is Some {
        console_color(right_console(), x, y)->0
    } else if console_color(commander_console(), x, y) is Some {
        console_color(commander_console(), x, y)->0
    } else if star(x, y) {
        STAR_WHT
    } else if window_frame(x, y) {
        METAL
    } else if window(x, y) {
        BG_DARK
    } else if floor_grid(x, y) || back_wall(y) {
        WALL
    } else {
        BG_DARK
    }
}

/// The bare floor shows wherever no region of the scene is declared.
pub proof fn lemma_scene_background(x: int, y: int)
    requires
        !scene_covered(x, y),
    ensures
        scene_color(x, y) == BG_DARK,
{
}

/// The pixel that a console gives `(x, y)`, if it holds the point.
fn console_pixel(
    x: i32,
    y: i32,
    body: (i32, i32, i32, i32),
    screen: (i32, i32, i32, i32),
    strip_a: (i32, i32),
    strip_b: (i32, i32),
    Ghost(c): Ghost<Console>,
) -> (px: Option<u16>)
    requires
        0 <= x < SCENE_SIDE,
        0 <= y < SCENE_SIDE,
        0 <= body.0 <= body.2 < SCENE_SIDE,
        0 <= body.1 <= body.3 < SCENE_SIDE,
        c == (Console {
            x1: body.0 as int,
            y1: body.1 as int,
            x2: body.2 as int,
            y2: body.3 as int,
            screen_x1: screen.0 as int,
            screen_y1: screen.1 as int,
            screen_x2: screen.2 as int,
            screen_y2: screen.3 as int,
            strip_a_from: strip_a.0 as int,
            strip_a_to: strip_a.1 as int,
            strip_b_from: strip_b.0 as int,
            strip_b_to: strip_b.1 as int,
        }),
    ensures
        px == console_color(c, x as int, y as int),
{
    let in_con = x >= body.0 && x <= body.2 && y >= body.1 && y <= body.3;
    let in_scr = x >= screen.0 && x <= screen.2 && y >= screen.1 && y <= screen.3;
    let in_rows = y >= screen.1 && y <= screen.3;
    let in_grn = in_rows && ((x >= strip_a.0 && x <= strip_a.1) || (x >= strip_b.0 && x
        <= strip_b.1));
    let on_border = in_con && !in_scr && (x == body.0 || x == body.2 || y == body.1 || y == body.3
        || x == body.0 + 1 || x == body.2 - 1 || y == body.1 + 1 || y == body.3 - 1);
    if in_scr {
        Some(SCREEN_BLU)
    } else if in_grn {
        Some(SCREEN_GRN)
    } else if on_border {
        Some(METAL)
    } else if in_con {
        Some(CONSOLE)
    } else {
        None
    }
}

/// The pixel of a point that no console holds: stars, window, grid, wall or
/// bare floor.
fn floor_pixel(x: i32, y: i32) -> (px: u16)
    requires
        0 <= x < SCENE_SIDE,
        0 <= y < SCENE_SIDE,
        console_color(back_console(), x as int, y as int) is None,
        console_color(left_console(), x as int, y as int) is None,
        console_color(right_console(), x as int, y as int) is None,
        console_color(commander_console(), x as int, y as int) is None,
    ensures
        px == scene_color(x as int, y as int),
{
    let in_back_wall = y < 150;
    let in_left_win = x >= 20 && x <= 140 && y >= 10 && y <= 145;
    let in_right_win = x >= 326 && x <= 446 && y >= 10 && y <= 145;
    let in_window = in_left_win || in_right_win;
    proof {
        lemma_product_bound(x as int, y as int, 465, 465);
    }
    let is_star = in_window && ((x * 7 + y * 13 + x * y / 3) % 31 == 0);
    let on_win_border = in_window && (x == 20 || x == 140 || x == 326 || x == 446 || y == 10 || y
        == 145);
    let in_left_con = x >= 15 && x <= 165 && y >= 195 && y <= 295;
    let in_right_con = x >= 301 && x <= 451 && y >= 195 && y <= 295;
    let in_cmd_con = x >= 130 && x <= 336 && y >= 370 && y <= 445;
    let on_floor_grid = y >= 145 && !in_left_con && !in_right_con && !in_cmd_con && (x % 46 == 0
        || y % 46 == 0);
    if is_star {
        STAR_WHT
    } else if on_win_border {
        METAL
    } else if in_window {
        BG_DARK
    } else if on_floor_grid {
        WALL
    } else if in_back_wall {
        WALL
    } else {
        BG_DARK
    }
}

/// The pixel of the scene at `(x, y)`.
pub fn pixel_bg(x: i32, y: i32) -> (px: u16)
    requires
        0 <= x < SCENE_SIDE,
        0 <= y < SCENE_SIDE,
    ensures
        px == scene_color(x as int, y as int),
        !scene_covered(x as int, y as int) ==> px == BG_DARK,
{
    let back = console_pixel(
        x,
        y,
        (150, 15, 316, 120),
        (183, 30, 283, 95),
        (155, 178),
        (288, 311),
        Ghost(back_console()),
    );
    if let Some(px) = back {
        return px;
    }
    let left = console_pixel(
        x,
        y,
        (15, 195, 165, 295),
        (40, 210, 140, 270),
        (145, 162),
        (1, 0),
        Ghost(left_console()),
    );
    if let Some(px) = left {
        return px;
    }
    let right = console_pixel(
        x,
        y,
        (301, 195, 451, 295),
        (326, 210, 426, 270),
        (304, 321),
        (1, 0),
        Ghost(right_console()),
    );
    if let Some(px) = right {
        return px;
    }
    let commander = console_pixel(
        x,
        y,
        (130, 370, 336, 445),
        (163, 385, 303, 430),
        (135, 158),
        (308, 331),
        Ghost(commander_console()),
    );
    if let Some(px) = commander {
        return px;
    }
    floor_pixel(x, y)
}

/// What the scene's bitmap holds: the pixel of `(x, y)` stands at
/// `y * 466 + x`.
pub open spec fn is_scene(p: Seq<u16>) -> bool {
    &&& p.len() == SCENE_SIDE * SCENE_SIDE
    &&& forall|x: int, y: int|
        0 <= x < SCENE_SIDE && 0 <= y < SCENE_SIDE ==> #[trigger] p[y * SCENE_SIDE + x]
            == scene_color(x, y)
}

/// Renders the scene, row by row.
pub fn make_bg_frame() -> (p: Vec<u16>)
    ensures
        is_scene(p@),
{
    let mut p: Vec<u16> = Vec::new();
    let mut y: i32 = 0;
    while y < SCENE_SIDE
        invariant
            0 <= y <= SCENE_SIDE,
            p@.len() == y * 466,
            forall|k: int| 0 <= k < p@.len() ==> #[trigger] p@[k] == scene_color(k % 466, k / 466),
        decreases SCENE_SIDE - y,
    {
        let mut x: i32 = 0;
        while x < SCENE_SIDE
            invariant
                0 <= y < SCENE_SIDE,
                0 <= x <= SCENE_SIDE,
                p@.len() == y * 466 + x,
                forall|k: int|
                    0 <= k < p@.len() ==> #[trigger] p@[k] == scene_color(k % 466, k / 466),
            decreases SCENE_SIDE - x,
        {
            let px = pixel_bg(x, y);
            assert((y * 466 + x) % 466 == x && (y * 466 + x) / 466 == y);
            p.push(px);
            x += 1;
        }
        y += 1;
    }
    assert forall|x: int, y: int| 0 <= x < SCENE_SIDE && 0 <= y < SCENE_SIDE implies #[trigger] p@[y
        * SCENE_SIDE + x] == scene_color(x, y) by {
        let k = y * SCENE_SIDE + x;
        assert(k % 466 == x && k / 466 == y);
    }
    p
}

} // verus!
