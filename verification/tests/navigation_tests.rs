use teyvat_nav::geom::Rect;
use teyvat_nav::navigate::bv::{
    revive_button_point, skill_icon_roi, suppression_rect, template_search_region, SkillSlot,
};
use teyvat_nav::navigate::locate::{
    eq_ignore_ascii_case, first_floor_of_scene, locate_step, search_order, FloorMatch, LocateStep,
};
use teyvat_nav::navigate::map::cache::{
    cache_matches_floor, check_layer_cache, decode_keypoints, CacheProblem, KeyPointBits,
    RaggedKeypointFile,
};
use teyvat_nav::navigate::movement::{
    close_in_falls_back_when_unrecognized, frame_position, handles_kind, move_falls_back_when_unrecognized,
    move_mode_step, next_escape_move, too_far_uses_previous_point, EscapeMove, ModeStep, MoveTracker,
};
use teyvat_nav::navigate::path::MoveMode;
use teyvat_nav::navigate::route::Misidentification;
use teyvat_nav::navigate::scene::{all_scenes, scene_by_name, SceneGeom, SiftSource};
use teyvat_nav::navigate::tp::{
    area_for_map, choose_area_click, is_isolated_map, normalize_area_name, on_map_reading, option_label,
    option_strip, plan_map_drag, scene_description, strip_click, AreaSwitch,
};
use teyvat_nav::task::choose_talk_option::OcrLine;

fn line(text: &str, x: u32, y: u32, width: u32, height: u32) -> OcrLine {
    OcrLine { text: text.to_string(), x, y, width, height }
}

fn mis(kinds: &[&str], mode: &str) -> Misidentification {
    Misidentification {
        kinds: kinds.iter().map(|k| k.to_string()).collect(),
        handling_mode: mode.to_string(),
        arrival_time: 0,
    }
}

#[test]
fn misidentification_handling() {
    let m = mis(&["unrecognized", "pathTooFar"], "previousDetectedPoint");
    assert!(handles_kind(&m, "pathTooFar"));
    assert!(!handles_kind(&m, "other"));
    assert!(move_falls_back_when_unrecognized(&m));
    assert!(close_in_falls_back_when_unrecognized(&m));
    assert!(too_far_uses_previous_point(&m));
    let n = mis(&["unrecognized"], "stay");
    assert!(move_falls_back_when_unrecognized(&n));
    assert!(!close_in_falls_back_when_unrecognized(&n));
    assert!(!too_far_uses_previous_point(&n));
    assert_eq!(frame_position(Some(3), false, Some(1)), Some(3));
    assert_eq!(frame_position(None, true, Some(1)), Some(1));
    assert_eq!(frame_position::<i32>(None, false, Some(1)), None);
}

#[test]
fn too_far_frames_give_up_past_the_limit() {
    let mut t = MoveTracker::new(3, 1);
    let mut steps = Vec::new();
    for _ in 0..4 {
        steps.push(t.on_too_far());
    }
    assert!(!steps[0].give_up && !steps[2].give_up);
    assert!(steps[3].give_up);
    let mut u = MoveTracker::with_default_limits();
    for k in 1..=10u32 {
        let s = u.on_too_far();
        assert_eq!(s.reset_position, k == 10);
        assert!(!s.give_up);
    }
    let mut v = MoveTracker::new(5, 1);
    assert!(!v.on_stuck());
    assert!(v.on_stuck());
}

#[test]
fn realign_after_eleven_frames_beyond_tolerance() {
    let mut t = MoveTracker::with_default_limits();
    for _ in 0..20 {
        assert!(!t.on_steered_frame(true));
    }
    for _ in 0..10 {
        assert!(!t.on_steered_frame(true));
    }
    assert!(t.on_steered_frame(true));
    assert!(!t.on_steered_frame(true));
    assert!(!t.on_steered_frame(false));
}

#[test]
fn movement_mode_presses() {
    let fly = move_mode_step(MoveMode::Fly, false, Some(false), false, false, false, false, false);
    assert_eq!(fly, ModeStep { press_space: true, mark_takeoff: true, sprint_hold: None, sprint_click: false, wait_ms: 300 });
    let gliding = move_mode_step(MoveMode::Fly, false, None, true, false, false, false, false);
    assert!(!gliding.press_space);
    assert_eq!(gliding.wait_ms, 100);
    assert_eq!(move_mode_step(MoveMode::Run, true, None, false, false, false, false, false).sprint_hold, Some(true));
    assert_eq!(move_mode_step(MoveMode::Run, false, None, false, true, false, false, false).sprint_hold, Some(false));
    assert_eq!(move_mode_step(MoveMode::Run, true, None, false, true, false, false, false).sprint_hold, None);
    assert!(move_mode_step(MoveMode::Dash, true, None, false, false, true, false, false).sprint_click);
    assert!(!move_mode_step(MoveMode::Dash, true, None, false, false, false, false, false).sprint_click);
    assert!(move_mode_step(MoveMode::Walk, true, None, false, false, false, true, true).sprint_click);
    assert_eq!(move_mode_step(MoveMode::Jump, false, None, false, false, false, false, false).wait_ms, 200);
}

#[test]
fn escape_moves_rotate() {
    assert_eq!(next_escape_move(5, true), (0, EscapeMove::Backward { hold_ms: 1000 }));
    assert_eq!(next_escape_move(0, false), (1, EscapeMove::Left { hold_ms: 1700 }));
    assert_eq!(next_escape_move(1, false), (2, EscapeMove::Right { hold_ms: 2700 }));
    assert_eq!(next_escape_move(2, false), (3, EscapeMove::Backward { hold_ms: 4000 }));
    assert_eq!(next_escape_move(-3, false), (-2, EscapeMove::Left { hold_ms: -1300 }));
}

#[test]
fn area_names_and_maps() {
    assert_eq!(scene_description("Enkanomiya"), Some("渊下宫"));
    assert_eq!(scene_description("Teyvat"), Some("提瓦特大陆"));
    assert_eq!(scene_description("Nowhere"), None);
    assert!(is_isolated_map("渊下宫"));
    assert!(!is_isolated_map("提瓦特大陆"));
    assert_eq!(normalize_area_name("渊下宮"), "渊下宫");
    assert_eq!(normalize_area_name("abc"), "abc");
    assert_eq!(area_for_map("Teyvat"), None);
    assert_eq!(area_for_map("TheChasm"), Some("层岩巨渊"));
    assert_eq!(area_for_map("Nowhere"), None);
}

#[test]
fn area_click_picks_the_lowest_matching_line() {
    let lines = vec![
        line("蒙德", 10, 100, 40, 20),
        line("渊下宮", 10, 300, 60, 20),
        line("渊下宫 入口", 20, 300, 80, 20),
        line("璃月", 10, 500, 40, 20),
    ];
    assert_eq!(choose_area_click(&lines, "渊下宫", 1280), AreaSwitch::Click { x: 1280 + 10 + 30, y: 310 });
    assert_eq!(choose_area_click(&lines, "层岩巨渊", 1280), AreaSwitch::Fail);
    assert_eq!(choose_area_click(&lines, "稻妻", 1280), AreaSwitch::Skip);
}

#[test]
fn map_drags_move_towards_the_centre() {
    assert_eq!(plan_map_drag(960, 540), None);
    assert_eq!(plan_map_drag(1100, 600), None);
    let d = plan_map_drag(3000, 100).expect("far target");
    assert!((960 - 320..=960 + 320).contains(&d.from_x));
    assert!((540 - 180..=540 + 180).contains(&d.from_y));
    assert_eq!(d.from_x - d.to_x, 700);
    assert_eq!(d.from_y - d.to_y, -440);
    let mut misses = 5u32;
    assert!(on_map_reading(&mut misses, false));
    assert_eq!(misses, 6);
    let mut fresh = 3u32;
    assert!(!on_map_reading(&mut fresh, true));
    assert_eq!(fresh, 0);
}

#[test]
fn option_strips_and_labels() {
    let icon = Rect { x: 100, y: 200, width: 30, height: 30 };
    assert_eq!(option_strip(icon, 1920, 1080), Some(Rect { x: 130, y: 192, width: 200, height: 46 }));
    assert_eq!(option_strip(icon, 130, 1080), None);
    assert_eq!(option_strip(Rect { x: 1800, y: 1070, width: 30, height: 30 }, 1920, 1080), Some(Rect { x: 1830, y: 1062, width: 90, height: 18 }));
    assert_eq!(strip_click(Rect { x: 130, y: 192, width: 200, height: 46 }), (230, 215));
    let lines = vec![line(">", 0, 0, 1, 1), line("蒙德城>", 0, 0, 1, 1)];
    assert_eq!(option_label(&lines), "蒙德城");
    assert_eq!(option_label(&vec![line("a", 0, 0, 1, 1)]), "");
}

#[test]
fn scene_table() {
    let scenes = all_scenes();
    assert_eq!(scenes.len(), 5);
    assert_eq!(scenes[0].name, "Teyvat");
    assert_eq!(scenes[0].geom, SceneGeom::new(15, 22, 7, 15, 2048, 30, 44));
    assert_eq!(scenes[0].geom.map_w, 45056);
    assert_eq!(scenes[0].geom.origin_x, 32768);
    assert_eq!(scenes[0].geom.origin_y, 16384);
    let sea = scene_by_name("SeaOfBygoneEras").expect("known map");
    assert_eq!(sea.desc, "旧日之海");
    assert_eq!(sea.floors.len(), 3);
    assert_eq!(sea.floors[2].floor, -2);
    assert!(matches!(sea.floors[1].source, SiftSource::RawImage { path } if path == "SeaOfBygoneEras_-1_1024.webp"));
    assert!(matches!(scenes[0].floors[0].source, SiftSource::BgiPrebuilt { kp, .. } if kp == "Teyvat_0_2048_SIFT.kp.bin"));
    assert!(scene_by_name("TempleOfSpace").is_none());
}

#[test]
fn locator_search() {
    assert_eq!(search_order(4, None), vec![0, 1, 2, 3]);
    assert_eq!(search_order(4, Some(2)), vec![2, 0, 1, 3]);
    assert_eq!(locate_step(None, 1, 9, true, Some(1)), LocateStep::Accept(1));
    assert_eq!(locate_step(None, 1, 9, true, Some(0)), LocateStep::Continue(Some(FloorMatch { floor: 1, good: 9 })));
    let best = Some(FloorMatch { floor: 0, good: 12 });
    assert_eq!(locate_step(best, 2, 12, false, None), LocateStep::Continue(best));
    assert_eq!(locate_step(best, 2, 13, false, None), LocateStep::Continue(Some(FloorMatch { floor: 2, good: 13 })));
    assert!(eq_ignore_ascii_case("TheChasm", "thechasm"));
    assert!(!eq_ignore_ascii_case("TheChasm", "TheChasm0"));
    let floors = vec!["Teyvat".to_string(), "SeaOfBygoneEras".to_string(), "seaofbygoneeras".to_string()];
    assert_eq!(first_floor_of_scene(&floors, "SEAOFBYGONEERAS"), Some(1));
    assert_eq!(first_floor_of_scene(&floors, "Enkanomiya"), None);
}

#[test]
fn cache_checks() {
    assert_eq!(check_layer_cache(2, 3, 128, 384), Ok(()));
    assert_eq!(check_layer_cache(1, 3, 128, 384), Err(CacheProblem::VersionMismatch { got: 1 }));
    assert_eq!(check_layer_cache(2, 3, 128, 383), Err(CacheProblem::DescriptorLength));
    assert!(cache_matches_floor("Teyvat", 0, "Teyvat", 0));
    assert!(!cache_matches_floor("Teyvat", -1, "Teyvat", 0));
    let mut bytes = Vec::new();
    for w in [1u32, 2, 3, 4, 5, 0xffff_ffff, 7] {
        bytes.extend_from_slice(&w.to_le_bytes());
    }
    let kps = decode_keypoints(&bytes).expect("whole records");
    assert_eq!(kps, vec![KeyPointBits { x: 1, y: 2, size: 3, angle: 4, response: 5, octave: -1, class_id: 7 }]);
    assert_eq!(f32::from_bits(1.5f32.to_bits()), 1.5);
    assert_eq!(decode_keypoints(&bytes[..27]), Err(RaggedKeypointFile { len: 27 }));
    assert_eq!(decode_keypoints(&[]), Ok(vec![]));
}

#[test]
fn screen_regions() {
    assert_eq!(skill_icon_roi(SkillSlot::Elemental, 1920, 1080), Some(Rect { x: 1688, y: 988, width: 22, height: 12 }));
    assert_eq!(skill_icon_roi(SkillSlot::Burst, 2560, 1440), Some(Rect { x: 2412, y: 1290, width: 40, height: 20 }));
    assert_eq!(skill_icon_roi(SkillSlot::Burst, 0, 1080), None);
    let roi = Rect { x: 0, y: 540, width: 1920, height: 540 };
    assert_eq!(template_search_region(roi, 1920, 1080, 100, 50), Some(roi));
    assert_eq!(template_search_region(roi, 1920, 600, 100, 60), None);
    assert_eq!(suppression_rect(10, 100, 40, 30), Rect { x: 0, y: 85, width: 40, height: 30 });
    let lines = vec![line("自动", 5, 5, 10, 10), line("点击复苏", 100, 40, 60, 20)];
    assert_eq!(revive_button_point(&lines, 1080), Some((130, 810 + 40 + 10)));
    assert_eq!(revive_button_point(&vec![line("自动", 5, 5, 10, 10)], 1080), None);
}

#[test]
fn map_drag_starts_vary() {
    let mut starts = std::collections::HashSet::new();
    for _ in 0..50 {
        let d = plan_map_drag(3000, 2000).expect("far target");
        starts.insert((d.from_x, d.from_y));
    }
    assert!(starts.len() > 1);
}
