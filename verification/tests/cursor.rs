use scrap_wayland::cursor::{compare_left_up_corner, mouse_move_to_, MoveStep};

fn frame(w: usize, h: usize) -> Vec<u8> {
    vec![0u8; w * h * 4]
}

fn paint(data: &mut [u8], w: usize, x: usize, y: usize) {
    data[(y * w + x) * 4 + 1] = 255;
}

#[test]
fn same_frames_do_not_differ() {
    let a = frame(50, 50);
    assert!(!compare_left_up_corner(50, &a, &a));
}

#[test]
fn comparison_is_symmetric() {
    let a = frame(40, 40);
    let mut b = frame(40, 40);
    for x in 0..36 {
        for y in 0..10 {
            paint(&mut b, 40, x, y);
        }
    }
    assert!(compare_left_up_corner(40, &a, &b));
    assert!(compare_left_up_corner(40, &b, &a));
}

#[test]
fn threshold_is_an_eighth_of_the_corner() {
    // 36 * 36 / 8 = 162 pixels.
    let w = 100;
    let a = frame(w, 100);
    let mut b = frame(w, 100);
    for i in 0..161 {
        paint(&mut b, w, i % 36, i / 36);
    }
    assert!(!compare_left_up_corner(w, &a, &b));
    paint(&mut b, w, 161 % 36, 161 / 36);
    assert!(compare_left_up_corner(w, &a, &b));
}

#[test]
fn at_least_eight_pixels_have_to_differ() {
    let a = frame(4, 4);
    let mut b = frame(4, 4);
    for i in 0..7 {
        paint(&mut b, 4, i % 4, i / 4);
    }
    assert!(!compare_left_up_corner(4, &a, &b));
    paint(&mut b, 4, 3, 3);
    assert!(compare_left_up_corner(4, &a, &b));
}

#[test]
fn pixels_outside_the_corner_do_not_count() {
    let a = frame(100, 100);
    let mut b = frame(100, 100);
    for y in 0..100 {
        for x in 0..100 {
            if x >= 36 || y >= 36 {
                paint(&mut b, 100, x, y);
            }
        }
    }
    assert!(!compare_left_up_corner(100, &a, &b));
}

#[test]
fn frames_that_cannot_be_compared() {
    let a = frame(10, 10);
    let b = vec![255u8; 400];
    assert!(compare_left_up_corner(10, &a, &b));
    assert!(!compare_left_up_corner(0, &a, &b));
    assert!(!compare_left_up_corner(10, &a, &b[..396]));
    assert!(!compare_left_up_corner(101, &a, &b));
    assert!(!compare_left_up_corner(usize::MAX, &a, &b));
}

#[test]
fn pointer_is_moved_until_it_arrives() {
    assert_eq!(mouse_move_to_(0, None, 5, 6), MoveStep::Move);
    assert_eq!(mouse_move_to_(149, Some((5, 7)), 5, 6), MoveStep::Move);
    assert_eq!(mouse_move_to_(20, Some((5, 6)), 5, 6), MoveStep::Reached);
    assert_eq!(mouse_move_to_(170, Some((5, 6)), 5, 6), MoveStep::Reached);
    assert_eq!(mouse_move_to_(150, Some((6, 5)), 5, 6), MoveStep::GaveUp);
    assert_eq!(mouse_move_to_(150, None, 5, 6), MoveStep::GaveUp);
}
