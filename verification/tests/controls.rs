use raymarch_camera::controls::{dead_zone, offset, Controls, Event, Key, DEAD_ZONE};
use raymarch_camera::fixed::UNIT;

fn key(key: Key, pressed: bool) -> Event {
    Event::KeyboardInput { key, pressed }
}

#[test]
fn new_holds_no_key_and_no_offset() {
    let c = Controls::new(1024, 768);
    assert!(!c.left && !c.right && !c.up && !c.down);
    assert_eq!((c.width, c.height), (1024, 768));
    assert_eq!((c.mouse_dx, c.mouse_dy), (0, 0));
}

#[test]
fn each_movement_key_sets_its_flag() {
    let mut c = Controls::new(800, 600);
    c.update(&key(Key::A, true));
    assert_eq!((c.left, c.right, c.up, c.down), (true, false, false, false));
    c.update(&key(Key::D, true));
    assert_eq!((c.left, c.right, c.up, c.down), (true, true, false, false));
    c.update(&key(Key::W, true));
    assert_eq!((c.left, c.right, c.up, c.down), (true, true, true, false));
    c.update(&key(Key::S, true));
    assert_eq!((c.left, c.right, c.up, c.down), (true, true, true, true));
}

#[test]
fn releasing_a_key_clears_its_flag() {
    let mut c = Controls::new(800, 600);
    for k in [Key::A, Key::D, Key::W, Key::S] {
        c.update(&key(k, true));
    }
    c.update(&key(Key::A, false));
    assert_eq!((c.left, c.right, c.up, c.down), (false, true, true, true));
    c.update(&key(Key::W, false));
    assert_eq!((c.left, c.right, c.up, c.down), (false, true, false, true));
    c.update(&key(Key::D, false));
    c.update(&key(Key::S, false));
    assert_eq!(c, Controls::new(800, 600));
}

#[test]
fn other_keys_change_nothing() {
    let mut c = Controls::new(800, 600);
    c.update(&key(Key::W, true));
    let before = c;
    c.update(&key(Key::Other, true));
    c.update(&key(Key::Other, false));
    c.update(&key(Key::Escape, true));
    c.update(&key(Key::Escape, false));
    assert_eq!(c, before);
}

#[test]
fn other_events_change_nothing() {
    let mut c = Controls::new(800, 600);
    c.update(&Event::CursorMoved { x: 800, y: 0 });
    c.update(&key(Key::S, true));
    let before = c;
    c.update(&Event::CloseRequested);
    c.update(&Event::Other);
    assert_eq!(c, before);
}

#[test]
fn keys_leave_the_cursor_and_the_viewport_alone() {
    let mut c = Controls::new(800, 600);
    c.update(&Event::CursorMoved { x: 800, y: 150 });
    c.update(&key(Key::A, true));
    assert_eq!((c.mouse_dx, c.mouse_dy), (UNIT, -UNIT / 2));
    assert_eq!((c.width, c.height), (800, 600));
}

#[test]
fn resize_then_cursor_at_the_far_corner() {
    let mut c = Controls::new(1024, 768);
    c.update(&Event::Resized { width: 800, height: 600 });
    assert_eq!((c.width, c.height), (800, 600));
    c.update(&Event::CursorMoved { x: 800, y: 600 });
    assert_eq!(c.mouse_dx, UNIT);
    assert_eq!(c.mouse_dy, UNIT);
}

#[test]
fn resize_does_not_reset_the_offsets() {
    let mut c = Controls::new(800, 600);
    c.update(&Event::CursorMoved { x: 0, y: 600 });
    assert_eq!((c.mouse_dx, c.mouse_dy), (-UNIT, UNIT));
    c.update(&Event::Resized { width: 1920, height: 1080 });
    assert_eq!((c.width, c.height), (1920, 1080));
    assert_eq!((c.mouse_dx, c.mouse_dy), (-UNIT, UNIT));
}

#[test]
fn cursor_at_the_centre_gives_no_offset() {
    let mut c = Controls::new(800, 600);
    c.update(&Event::CursorMoved { x: 0, y: 0 });
    c.update(&Event::CursorMoved { x: 400, y: 300 });
    assert_eq!((c.mouse_dx, c.mouse_dy), (0, 0));
}

#[test]
fn cursor_at_the_near_corner_gives_minus_one() {
    let mut c = Controls::new(800, 600);
    c.update(&Event::CursorMoved { x: 0, y: 0 });
    assert_eq!((c.mouse_dx, c.mouse_dy), (-UNIT, -UNIT));
}

#[test]
fn each_axis_has_its_own_dead_zone() {
    let mut c = Controls::new(800, 600);
    // x is 0.1 from the centre, y is 0.5 from it.
    c.update(&Event::CursorMoved { x: 440, y: 450 });
    assert_eq!((c.mouse_dx, c.mouse_dy), (0, 500_000));
    // x is -0.5 from the centre, y is -0.1 from it.
    c.update(&Event::CursorMoved { x: 200, y: 270 });
    assert_eq!((c.mouse_dx, c.mouse_dy), (-500_000, 0));
}

#[test]
fn offsets_keep_their_value_until_the_next_move() {
    let mut c = Controls::new(800, 600);
    c.update(&Event::CursorMoved { x: 700, y: 100 });
    let held = (c.mouse_dx, c.mouse_dy);
    assert_eq!(held, (750_000, -666_666));
    c.update(&key(Key::W, true));
    c.update(&Event::Other);
    c.update(&key(Key::W, false));
    assert_eq!((c.mouse_dx, c.mouse_dy), held);
    c.update(&Event::CursorMoved { x: 400, y: 300 });
    assert_eq!((c.mouse_dx, c.mouse_dy), (0, 0));
}

#[test]
fn cursor_outside_the_viewport_gives_more_than_one() {
    let mut c = Controls::new(800, 600);
    c.update(&Event::CursorMoved { x: 1200, y: -300 });
    assert_eq!((c.mouse_dx, c.mouse_dy), (2 * UNIT, -2 * UNIT));
}

#[test]
fn a_viewport_without_size_gives_no_offset() {
    let mut c = Controls::new(800, 600);
    c.update(&Event::CursorMoved { x: 800, y: 600 });
    c.update(&Event::Resized { width: 0, height: 0 });
    c.update(&Event::CursorMoved { x: 5, y: 5 });
    assert_eq!((c.mouse_dx, c.mouse_dy), (0, 0));
    c.update(&Event::Resized { width: 0, height: 600 });
    c.update(&Event::CursorMoved { x: 5, y: 600 });
    assert_eq!((c.mouse_dx, c.mouse_dy), (0, UNIT));
}

#[test]
fn dead_zone_swallows_small_offsets() {
    for d in [0, 1, -1, 100_000, -100_000, 199_999, -199_999] {
        assert_eq!(dead_zone(d), 0);
    }
}

#[test]
fn dead_zone_passes_large_offsets() {
    for d in [200_000, -200_000, 200_001, -200_001, UNIT, -UNIT, 5 * UNIT, i64::MAX, i64::MIN] {
        assert_eq!(dead_zone(d), d);
    }
    assert_eq!(DEAD_ZONE, UNIT / 5);
}

#[test]
fn offset_follows_the_formula() {
    // at / (size / 2) - 1
    assert_eq!(offset(0, 1024), -UNIT);
    assert_eq!(offset(512, 1024), 0);
    assert_eq!(offset(1024, 1024), UNIT);
    assert_eq!(offset(768, 1024), 500_000);
    assert_eq!(offset(256, 1024), -500_000);
    assert_eq!(offset(100, 300), -333_333);
    assert_eq!(offset(200, 300), 333_333);
    assert_eq!(offset(1, 3), -333_333);
}

#[test]
fn offset_of_extreme_inputs() {
    assert_eq!(offset(i32::MAX, 1), (2 * (i32::MAX as i64) - 1) * UNIT);
    assert_eq!(offset(i32::MIN, 1), (2 * (i32::MIN as i64) - 1) * UNIT);
    assert_eq!(offset(i32::MAX, u32::MAX), 0);
    assert_eq!(offset(i32::MIN, u32::MAX), -2 * UNIT);
    assert_eq!(offset(0, u32::MAX), -UNIT);
    assert_eq!(offset(7, 0), 0);
}

#[test]
fn dead_zone_cuts_at_a_fifth_of_the_half_side() {
    // On a side of 1000 pixels the zone is the open range from 400 to 600.
    let mut c = Controls::new(1000, 1000);
    for x in 401..600 {
        c.update(&Event::CursorMoved { x, y: 0 });
        assert_eq!(c.mouse_dx, 0);
    }
    c.update(&Event::CursorMoved { x: 400, y: 0 });
    assert_eq!(c.mouse_dx, -200_000);
    c.update(&Event::CursorMoved { x: 600, y: 0 });
    assert_eq!(c.mouse_dx, 200_000);
}

#[test]
fn is_exit_knows_close_and_escape() {
    assert!(Event::CloseRequested.is_exit());
    assert!(key(Key::Escape, true).is_exit());
    assert!(key(Key::Escape, false).is_exit());
}

#[test]
fn is_exit_refuses_everything_else() {
    for k in [Key::A, Key::D, Key::W, Key::S, Key::Other] {
        assert!(!key(k, true).is_exit());
        assert!(!key(k, false).is_exit());
    }
    assert!(!Event::CursorMoved { x: 0, y: 0 }.is_exit());
    assert!(!Event::Resized { width: 1, height: 1 }.is_exit());
    assert!(!Event::Other.is_exit());
}
