use round_display::cycle::{
    FrameCycle, BLINK_FRAMES, BLINK_PERIOD_MS, COMMANDER_FRAMES, COMMANDER_PERIOD_MS, CREW_FRAMES,
    CREW_PERIOD_MS,
};
use round_display::gesture::{screen_after_swipe, Screen, Slide, Swipe, SLIDE_MS};
use round_display::spaceship::{
    make_bg_frame, pixel_bg, BG_DARK, CONSOLE, METAL, SCREEN_BLU, SCREEN_GRN, STAR_WHT, WALL,
};

#[test]
fn scene_consoles() {
    assert_eq!(pixel_bg(233, 60), SCREEN_BLU);
    assert_eq!(pixel_bg(160, 60), SCREEN_GRN);
    assert_eq!(pixel_bg(300, 60), SCREEN_GRN);
    assert_eq!(pixel_bg(150, 15), METAL);
    assert_eq!(pixel_bg(151, 16), METAL);
    assert_eq!(pixel_bg(152, 17), CONSOLE);
    assert_eq!(pixel_bg(180, 20), CONSOLE);
    assert_eq!(pixel_bg(316, 120), METAL);
    assert_eq!(pixel_bg(90, 240), SCREEN_BLU);
    assert_eq!(pixel_bg(150, 240), SCREEN_GRN);
    assert_eq!(pixel_bg(15, 195), METAL);
    assert_eq!(pixel_bg(17, 197), CONSOLE);
    assert_eq!(pixel_bg(163, 250), CONSOLE);
    assert_eq!(pixel_bg(164, 250), METAL);
    assert_eq!(pixel_bg(376, 240), SCREEN_BLU);
    assert_eq!(pixel_bg(310, 240), SCREEN_GRN);
    assert_eq!(pixel_bg(303, 290), CONSOLE);
    assert_eq!(pixel_bg(233, 400), SCREEN_BLU);
    assert_eq!(pixel_bg(140, 400), SCREEN_GRN);
    assert_eq!(pixel_bg(320, 400), SCREEN_GRN);
    assert_eq!(pixel_bg(132, 372), CONSOLE);
    assert_eq!(pixel_bg(130, 445), METAL);
}

#[test]
fn scene_windows_and_stars() {
    assert_eq!(pixel_bg(20, 10), METAL);
    assert_eq!(pixel_bg(140, 145), METAL);
    assert_eq!(pixel_bg(21, 11), BG_DARK);
    assert_eq!(pixel_bg(80, 80), BG_DARK);
    assert_eq!(pixel_bg(400, 100), BG_DARK);
    // 36 * 7 + 11 * 13 + 36 * 11 / 3 = 527 = 17 * 31.
    assert_eq!(pixel_bg(36, 11), STAR_WHT);
    assert_eq!(pixel_bg(68, 11), STAR_WHT);
    assert_eq!(pixel_bg(45, 12), STAR_WHT);
    assert_eq!(pixel_bg(37, 11), BG_DARK);
}

#[test]
fn scene_walls_and_floor() {
    assert_eq!(pixel_bg(0, 0), WALL);
    assert_eq!(pixel_bg(200, 149), WALL);
    assert_eq!(pixel_bg(200, 150), BG_DARK);
    assert_eq!(pixel_bg(46, 150), WALL);
    assert_eq!(pixel_bg(47, 151), BG_DARK);
    assert_eq!(pixel_bg(233, 184), WALL);
    assert_eq!(pixel_bg(233, 200), BG_DARK);
    assert_eq!(pixel_bg(0, 200), WALL);
    // The consoles on the floor cover the grid.
    assert_eq!(pixel_bg(46, 200), CONSOLE);
    assert_eq!(pixel_bg(184, 368), WALL);
    assert_eq!(pixel_bg(92, 300), WALL);
    assert_eq!(pixel_bg(465, 465), BG_DARK);
}

#[test]
fn scene_bitmap_is_row_major() {
    let frame = make_bg_frame();
    assert_eq!(frame.len(), 466 * 466);
    let mut y = 0;
    while y < 466 {
        let mut x = 0;
        while x < 466 {
            assert_eq!(frame[(y * 466 + x) as usize], pixel_bg(x, y));
            x += 3;
        }
        y += 5;
    }
    assert_eq!(frame[60 * 466 + 233], SCREEN_BLU);
    assert_eq!(frame[11 * 466 + 36], STAR_WHT);
    let count = |c: u16| frame.iter().filter(|p| **p == c).count();
    assert_eq!(count(STAR_WHT), 1015);
    assert_eq!(count(METAL), 5172);
    assert_eq!(count(SCREEN_BLU), 25474);
    assert_eq!(count(SCREEN_GRN), 7572);
    assert_eq!(count(CONSOLE), 26714);
    assert_eq!(count(WALL), 24167);
    assert_eq!(count(BG_DARK), 127042);
}

#[test]
fn panel_cadences() {
    assert_eq!((CREW_PERIOD_MS, CREW_FRAMES), (600, 2));
    assert_eq!((COMMANDER_PERIOD_MS, COMMANDER_FRAMES), (800, 3));
    assert_eq!((BLINK_PERIOD_MS, BLINK_FRAMES), (1200, 2));
}

#[test]
fn two_frames_alternate() {
    let mut c = FrameCycle::new(2);
    assert_eq!(c.frame(), 0);
    assert_eq!(c.advance(), 1);
    assert_eq!(c.frame(), 1);
    assert_eq!(c.advance(), 0);
    assert_eq!(c.advance(), 1);
}

#[test]
fn three_frames_go_round() {
    let mut c = FrameCycle::new(3);
    let shown: Vec<u8> = (0..7).map(|_| c.advance()).collect();
    assert_eq!(shown, vec![1, 2, 0, 1, 2, 0, 1]);
}

#[test]
fn longest_cycle_wraps_without_overflow() {
    let mut c = FrameCycle::new(255);
    for expected in 1..255u8 {
        assert_eq!(c.advance(), expected);
    }
    assert_eq!(c.advance(), 0);
    let mut single = FrameCycle::new(1);
    assert_eq!(single.advance(), 0);
    assert_eq!(single.frame(), 0);
}

#[test]
fn swipes_change_the_screen() {
    assert_eq!(SLIDE_MS, 150);
    assert_eq!(screen_after_swipe(Screen::First, Swipe::Left), Some((Screen::Second, Slide::MoveLeft)));
    assert_eq!(screen_after_swipe(Screen::Second, Swipe::Right), Some((Screen::First, Slide::MoveRight)));
    assert_eq!(screen_after_swipe(Screen::First, Swipe::Right), None);
    assert_eq!(screen_after_swipe(Screen::Second, Swipe::Left), None);
    for screen in [Screen::First, Screen::Second] {
        assert_eq!(screen_after_swipe(screen, Swipe::Up), None);
        assert_eq!(screen_after_swipe(screen, Swipe::Down), None);
    }
}
