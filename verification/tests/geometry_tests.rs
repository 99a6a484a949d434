use teyvat_nav::geom::{bounding_rect, clip_rect, intersect, rect_contains, Rect};
use teyvat_nav::navigate::map::splits::SplitGrid;
use teyvat_nav::navigate::orient::{angle_from_peaks, shift};
use teyvat_nav::task::choose_talk_option::{find_option, lowest_hit, ocr_region_center, select_option_lines, OcrLine};
use teyvat_nav::task::common_jobs::{dial_click_positions, normalize_time};

fn r(x: i32, y: i32, width: i32, height: i32) -> Rect {
    Rect { x, y, width, height }
}

fn line(text: &str, x: u32, y: u32) -> OcrLine {
    OcrLine { text: text.to_string(), x, y, width: 100, height: 20 }
}

#[test]
fn rectangles() {
    assert!(rect_contains(r(0, 0, 10, 10), r(2, 2, 8, 8)));
    assert!(!rect_contains(r(0, 0, 10, 10), r(2, 2, 9, 8)));
    assert_eq!(bounding_rect(&vec![]), None);
    assert_eq!(bounding_rect(&vec![r(5, 5, 10, 10), r(-3, 8, 2, 20)]), Some(r(-3, 5, 18, 23)));
    assert_eq!(clip_rect(r(-5, -5, 20, 20), 10, 10), r(0, 0, 10, 10));
    assert_eq!(clip_rect(r(2, 3, 4, 5), 10, 10), r(2, 3, 4, 5));
    assert_eq!(intersect(r(0, 0, 10, 10), r(5, 5, 10, 10)), r(5, 5, 5, 5));
    assert_eq!(intersect(r(0, 0, 10, 10), r(10, 0, 10, 10)), r(0, 0, 0, 0));
}

#[test]
fn grid_split_puts_each_point_in_one_block() {
    let pts = [(0, 0), (99, 0), (100, 0), (199, 199), (250, -5), (50, 150)];
    let g = SplitGrid::split(200, 200, 2, 2, &pts);
    assert_eq!(g.blocks.len(), 4);
    assert_eq!(g.at(0, 0).unwrap().indices, vec![0, 1]);
    assert_eq!(g.at(0, 1).unwrap().indices, vec![2, 4]);
    assert_eq!(g.at(1, 0).unwrap().indices, vec![5]);
    assert_eq!(g.at(1, 1).unwrap().indices, vec![3]);
    assert!(g.at(2, 0).is_none());
    assert!(g.at(0, -1).is_none());
    let total: usize = g.blocks.iter().map(|b| b.indices.len()).sum();
    assert_eq!(total, pts.len());
    assert_eq!(g.merge_neighbors(0, 0, 1), vec![0, 1, 2, 4, 5, 3]);
    assert_eq!(g.merge_neighbors(1, 1, 0), vec![3]);
}

#[test]
fn rotation_and_angles() {
    assert_eq!(shift(&[1, 2, 3, 4], 1), vec![4, 1, 2, 3]);
    assert_eq!(shift(&[1, 2, 3, 4], -1), vec![2, 3, 4, 1]);
    assert_eq!(shift(&[1, 2, 3, 4], 6), vec![3, 4, 1, 2]);
    assert_eq!(shift(&[], 3), Vec::<i32>::new());
    let angle = angle_from_peaks(&vec![10, 370], &vec![100]);
    assert_eq!(angle, 55);
    // one degree off a quarter turn still scores, with weight 2
    assert_eq!(angle_from_peaks(&vec![10], &vec![101]), 55);
    assert_eq!(angle_from_peaks(&vec![10], &vec![98]), 55);
    // three degrees off does not: every score is zero and the last degree wins
    assert_eq!(angle_from_peaks(&vec![10], &vec![103]), 44);
    // smoothing: neighbouring products add up at the degree between them
    assert_eq!(angle_from_peaks(&vec![200, 202], &vec![290, 292]), 247);
}

#[test]
fn clock_arithmetic() {
    assert_eq!(normalize_time(18, 0), (18, 0));
    assert_eq!(normalize_time(23, 90), (0, 30));
    assert_eq!(normalize_time(0, -30), (23, 30));
    assert_eq!(normalize_time(-1, 0), (23, 0));
    assert_eq!(dial_click_positions(18, 0), vec![460, 940, 1420]);
}

#[test]
fn dialogue_options() {
    let lines = vec![line("继续", 10, 300), line("ok", 10, 100), line("我想钓鱼", 10, 200), line("", 10, 250)];
    let kept = select_option_lines(&lines, 0, 0);
    let texts: Vec<&str> = kept.iter().map(|l| l.text.as_str()).collect();
    assert_eq!(texts, vec!["我想钓鱼", "继续"]);
    let far = vec![line("第一项", 0, 100), line("第二项", 0, 400)];
    let kept_far = select_option_lines(&far, 5, 7);
    assert_eq!(kept_far.len(), 1);
    assert_eq!(kept_far[0].text, "第二项");
    assert_eq!((kept_far[0].x, kept_far[0].y), (5, 407));
    assert_eq!(find_option(&lines, "钓鱼"), Some(2));
    assert_eq!(find_option(&lines, "离开"), None);
    assert_eq!(ocr_region_center(&line("x", 10, 300)), (60, 310));
    let hits = vec![r(0, 100, 10, 10), r(5, 300, 10, 10), r(9, 300, 10, 10), r(0, 50, 10, 10)];
    assert_eq!(lowest_hit(&hits), Some(2));
    assert_eq!(lowest_hit(&vec![]), None);
}
