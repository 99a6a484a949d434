use teyvat_nav::geom::Rect;
use teyvat_nav::navigate::pointer::{count_leading_black, largest_box, midpoint, pointer_direction};

fn dark(w: i32, h: i32) -> Vec<u8> {
    vec![0u8; (w * h) as usize]
}

fn set_white(mask: &mut Vec<u8>, w: i32, x: i32, y: i32) {
    mask[(y * w + x) as usize] = 255;
}

fn rect(x: i32, y: i32, width: i32, height: i32) -> Rect {
    Rect { x, y, width, height }
}

#[test]
fn midpoint_halves_toward_zero() {
    assert_eq!(midpoint((1, 2), (4, -3)), (2, 0));
    assert_eq!(midpoint((-3, -5), (0, 0)), (-1, -2));
    assert_eq!(midpoint((i32::MAX, i32::MIN), (i32::MAX, i32::MIN)), (i32::MAX, i32::MIN));
}

#[test]
fn walk_counts_dark_pixels_until_white() {
    let mut mask = dark(5, 5);
    assert_eq!(count_leading_black(&mask, 5, 5, (0, 0), (4, 4)), 5);
    assert_eq!(count_leading_black(&mask, 5, 5, (0, 0), (4, 1)), 5);
    assert_eq!(count_leading_black(&mask, 5, 5, (3, 3), (3, 3)), 1);
    set_white(&mut mask, 5, 2, 2);
    assert_eq!(count_leading_black(&mask, 5, 5, (0, 0), (4, 4)), 2);
    assert_eq!(count_leading_black(&mask, 5, 5, (2, 2), (4, 4)), 0);
}

#[test]
fn walk_stops_at_the_mask_edge() {
    let mask = dark(4, 3);
    assert_eq!(count_leading_black(&mask, 4, 3, (-1, 0), (3, 0)), 0);
    assert_eq!(count_leading_black(&mask, 4, 3, (0, 1), (9, 1)), 4);
    assert_eq!(count_leading_black(&mask, 4, 3, (3, 2), (3, -5)), 3);
}

#[test]
fn largest_box_takes_the_first_largest() {
    let boxes = vec![rect(0, 0, 2, 2), rect(5, 5, 3, 3), rect(1, 1, 3, 3)];
    assert_eq!(largest_box(&boxes), (1, rect(5, 5, 3, 3)));
    assert_eq!(largest_box(&Vec::new()), (0, rect(0, 0, 0, 0)));
    assert_eq!(largest_box(&vec![rect(4, 4, 0, 7)]), (0, rect(0, 0, 0, 0)));
}

#[test]
fn pointer_direction_takes_the_first_dark_edge() {
    let corners = vec![(10, 20), (14, 20), (12, 24)];
    let mut mask = dark(5, 5);
    assert_eq!(pointer_direction(&mask, 5, 5, &corners, (10, 20)), Some(((12, 20), (12, 24))));
    set_white(&mut mask, 5, 2, 0);
    assert_eq!(pointer_direction(&mask, 5, 5, &corners, (10, 20)), Some(((13, 22), (10, 20))));
}

#[test]
fn pointer_direction_needs_a_triangle_and_dark_pixels() {
    let mask = dark(5, 5);
    assert_eq!(pointer_direction(&mask, 5, 5, &vec![(0, 0), (4, 0)], (0, 0)), None);
    let white = vec![255u8; 25];
    assert_eq!(pointer_direction(&white, 5, 5, &vec![(0, 0), (4, 0), (2, 4)], (0, 0)), None);
}
