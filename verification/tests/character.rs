use round_display::character::CharacterSprite;
use round_display::matrix_character::{
    AnimState, MatrixCharacter, IDLE_FRAME_MS, WALK_FRAME_MS, WALK_SPEED,
};
use round_display::matrix_frames::{make_idle_frame, make_walk_frame};

#[test]
fn new_character_rests_on_its_first_frame() {
    let c = MatrixCharacter::new(200, 200);
    assert!(c.is_idle());
    assert_eq!(c.position(), (200, 200));
    assert_eq!(c.frame_index(), 0);
    assert_eq!(c.frame_elapsed_ms(), 0);
    assert_eq!(c.state(), AnimState::Idle);
    assert_eq!(c.frame_pixels(), make_idle_frame(true));
}

#[test]
fn constants_of_the_animation() {
    assert_eq!(IDLE_FRAME_MS, 500);
    assert_eq!(WALK_FRAME_MS, 150);
    assert_eq!(WALK_SPEED, 2);
}

#[test]
fn walk_to_current_position_changes_nothing() {
    let mut c = MatrixCharacter::new(40, 50);
    c.update(620);
    assert_eq!(c.frame_index(), 1);
    assert_eq!(c.frame_elapsed_ms(), 120);
    c.walk_to(40, 50);
    assert!(c.is_idle());
    assert_eq!(c.frame_index(), 1);
    assert_eq!(c.frame_elapsed_ms(), 120);
    assert_eq!(c.position(), (40, 50));
}

#[test]
fn walk_to_current_position_while_walking_keeps_the_walk() {
    let mut c = MatrixCharacter::new(0, 0);
    c.walk_to(100, 0);
    c.update(160);
    assert_eq!(c.position(), (2, 0));
    assert_eq!(c.frame_index(), 1);
    c.walk_to(2, 0);
    assert_eq!(c.state(), AnimState::Walking { target_x: 100, target_y: 0 });
    assert_eq!(c.frame_index(), 1);
    assert_eq!(c.frame_elapsed_ms(), 10);
}

#[test]
fn walk_to_elsewhere_starts_the_walk_from_frame_zero() {
    let mut c = MatrixCharacter::new(40, 50);
    c.update(620);
    c.walk_to(41, 50);
    assert!(!c.is_idle());
    assert_eq!(c.state(), AnimState::Walking { target_x: 41, target_y: 50 });
    assert_eq!(c.frame_index(), 0);
    assert_eq!(c.frame_elapsed_ms(), 0);
    assert_eq!(c.position(), (40, 50));
    assert_eq!(c.frame_pixels(), make_walk_frame(0));
}

#[test]
fn idle_frames_alternate_every_half_second() {
    let mut c = MatrixCharacter::new(0, 0);
    c.update(499);
    assert_eq!((c.frame_index(), c.frame_elapsed_ms()), (0, 499));
    c.update(1);
    assert_eq!((c.frame_index(), c.frame_elapsed_ms()), (1, 0));
    assert_eq!(c.frame_pixels(), make_idle_frame(false));
    c.update(500);
    assert_eq!((c.frame_index(), c.frame_elapsed_ms()), (0, 0));
    c.update(1250);
    assert_eq!((c.frame_index(), c.frame_elapsed_ms()), (0, 250));
    c.update(u32::MAX);
    // 250 + 4294967295 = 8589935 * 500 + 45: an odd number of frames.
    assert_eq!((c.frame_index(), c.frame_elapsed_ms()), (1, 45));
    assert_eq!(c.position(), (0, 0));
    assert!(c.is_idle());
}

#[test]
fn cadence_does_not_drift() {
    let mut cut = MatrixCharacter::new(0, 0);
    cut.walk_to(10_000, 10_000);
    let mut whole = MatrixCharacter::new(0, 0);
    whole.walk_to(10_000, 10_000);
    for _ in 0..7 {
        cut.update(21);
    }
    whole.update(147);
    assert_eq!(cut.frame_index(), whole.frame_index());
    assert_eq!(cut.frame_elapsed_ms(), whole.frame_elapsed_ms());
    assert_eq!((cut.frame_index(), cut.frame_elapsed_ms()), (0, 147));
    cut.update(3);
    assert_eq!((cut.frame_index(), cut.frame_elapsed_ms()), (1, 0));
}

#[test]
fn one_walking_period_is_one_frame() {
    let mut c = MatrixCharacter::new(0, 0);
    c.walk_to(10_000, 0);
    c.update(100);
    assert_eq!((c.frame_index(), c.frame_elapsed_ms()), (0, 100));
    // 30 updates of 5 ms: one period of 150 ms.
    for _ in 0..30 {
        c.update(5);
    }
    assert_eq!((c.frame_index(), c.frame_elapsed_ms()), (1, 100));
    for _ in 0..3 {
        for _ in 0..6 {
            c.update(25);
        }
    }
    assert_eq!((c.frame_index(), c.frame_elapsed_ms()), (0, 100));
    assert_eq!(c.frame_pixels(), make_walk_frame(0));
}

#[test]
fn walking_frames_cycle_through_four() {
    let mut c = MatrixCharacter::new(0, 0);
    c.walk_to(10_000, 0);
    let mut seen = Vec::new();
    for _ in 0..5 {
        seen.push(c.frame_index());
        c.update(150);
    }
    assert_eq!(seen, vec![0, 1, 2, 3, 0]);
    c.update(700);
    // 4 periods and 100 ms later.
    assert_eq!((c.frame_index(), c.frame_elapsed_ms()), (1, 100));
}

#[test]
fn walk_reaches_its_target_exactly() {
    let mut c = MatrixCharacter::new(200, 200);
    c.walk_to(100, 350);
    let mut updates = 0;
    let (mut px, mut py) = c.position();
    while !c.is_idle() {
        c.update(5);
        updates += 1;
        let (x, y) = c.position();
        assert!(x <= px && x >= 100);
        assert!(y >= py && y <= 350);
        assert!(px - x <= 2 && y - py <= 2);
        px = x;
        py = y;
        assert!(updates <= 75);
    }
    assert_eq!(updates, 75);
    assert_eq!(c.position(), (100, 350));
    assert!(c.is_idle());
    assert_eq!(c.frame_index(), 0);
    assert_eq!(c.frame_elapsed_ms(), 0);
    c.update(5);
    assert_eq!(c.position(), (100, 350));
    assert!(c.is_idle());
}

#[test]
fn axes_step_independently() {
    let mut c = MatrixCharacter::new(200, 200);
    c.walk_to(100, 350);
    for _ in 0..50 {
        c.update(5);
    }
    // The shorter axis has arrived, the longer one goes on alone.
    assert_eq!(c.position(), (100, 300));
    assert!(!c.is_idle());
    c.update(5);
    assert_eq!(c.position(), (100, 302));
}

#[test]
fn odd_distance_does_not_overshoot() {
    let mut c = MatrixCharacter::new(0, 0);
    c.walk_to(3, -5);
    c.update(5);
    assert_eq!(c.position(), (2, -2));
    c.update(5);
    assert_eq!(c.position(), (3, -4));
    assert!(!c.is_idle());
    c.update(5);
    assert_eq!(c.position(), (3, -5));
    assert!(c.is_idle());
}

#[test]
fn walk_across_the_whole_range() {
    let mut c = MatrixCharacter::new(i32::MIN, i32::MAX);
    c.walk_to(i32::MAX, i32::MIN);
    c.update(u32::MAX);
    assert_eq!(c.position(), (i32::MIN + 2, i32::MAX - 2));
    let mut d = MatrixCharacter::new(i32::MAX - 1, i32::MIN + 1);
    d.walk_to(i32::MAX, i32::MIN);
    d.update(1);
    assert_eq!(d.position(), (i32::MAX, i32::MIN));
    assert!(d.is_idle());
}

#[test]
fn new_target_while_walking_restarts_the_stride() {
    let mut c = MatrixCharacter::new(0, 0);
    c.walk_to(100, 0);
    c.update(200);
    assert_eq!((c.frame_index(), c.frame_elapsed_ms()), (1, 50));
    c.walk_to(0, 100);
    assert_eq!(c.state(), AnimState::Walking { target_x: 0, target_y: 100 });
    assert_eq!((c.frame_index(), c.frame_elapsed_ms()), (0, 0));
    assert_eq!(c.position(), (2, 0));
    c.update(5);
    assert_eq!(c.position(), (0, 2));
}
