use teyvat_nav::geom::Rect;
use teyvat_nav::task::fishing::{
    big_fish_types, choose_bait_target, is_target_fish, random_mouse_offset, AutoFishingConfig, BaitChoice,
    BaitType, BigFishType, FishingTimePolicy,
};
use teyvat_nav::task::fishing_steps::{
    bar_boxes, bite_words_box, classify_detection, DetectionKind, fish_box_from_bars, interact_text_roi, nearest_fish, next_round_step, pond_aim, prompt_starts_fishing, reel_held, sorted_bars,
    BarKey, Blackboard, CastTracker, OneFish, PondAim, RoundMove, RoundStep,
};

fn fish(name: &str, x: i32, y: i32) -> OneFish {
    OneFish {
        fish_type: BigFishType::from_name(name).expect("known fish"),
        rect: Rect { x, y, width: 20, height: 10 },
    }
}

#[test]
fn bait_names_round_trip() {
    for b in [
        BaitType::FruitPasteBait,
        BaitType::RedrotBait,
        BaitType::FalseWormBait,
        BaitType::FakeFlyBait,
        BaitType::SugardewBait,
        BaitType::SourBait,
        BaitType::FlashingMaintenanceMekBait,
        BaitType::SpinelgrainBait,
        BaitType::EmberglowBait,
        BaitType::BerryBait,
        BaitType::RefreshingLakkaBait,
    ] {
        assert_eq!(BaitType::from_chinese_name(b.chinese_name()), Some(b));
    }
    assert_eq!(BaitType::from_chinese_name("果酿饵"), Some(BaitType::FruitPasteBait));
    assert_eq!(BaitType::from_chinese_name("鱼"), None);
}

#[test]
fn fish_lookup() {
    let table = big_fish_types();
    assert_eq!(table.len(), 21);
    for f in &table {
        assert_eq!(BigFishType::from_name(f.name), Some(*f));
    }
    let large = BigFishType::from_name("large_medaka").expect("underscores read as spaces");
    assert_eq!(large.chinese_name, "大花鳉");
    assert_eq!(large.bait, BaitType::FruitPasteBait);
    assert_eq!(BigFishType::from_name("koi head").map(|f| f.net_index), Some(3));
    assert!(BigFishType::from_name("whale").is_none());
}

#[test]
fn time_policies() {
    assert_eq!(FishingTimePolicy::DontChange.hours(), &[] as &[i32]);
    assert_eq!(FishingTimePolicy::Daytime.hours(), &[7]);
    assert_eq!(FishingTimePolicy::Nighttime.hours(), &[19]);
    assert_eq!(FishingTimePolicy::Both.hours(), &[7, 19]);
}

#[test]
fn whitelists() {
    let mut cfg = AutoFishingConfig::new(Some(BaitType::RedrotBait));
    assert_eq!(cfg.whole_process_timeout_secs, 600);
    assert_eq!(cfg.throw_rod_timeout_secs, 18);
    assert!(cfg.bait_allowed(BaitType::SourBait));
    cfg.bait_whitelist = Some(vec![BaitType::FruitPasteBait]);
    assert!(cfg.bait_allowed(BaitType::FruitPasteBait));
    assert!(!cfg.bait_allowed(BaitType::SourBait));
    cfg.bait_whitelist = Some(vec![]);
    assert!(cfg.bait_allowed(BaitType::SourBait));
    cfg.fish_whitelist = Some(vec!["medaka"]);
    assert!(cfg.fish_allowed("medaka"));
    assert!(!cfg.fish_allowed("koi"));
    let medaka = BigFishType::from_name("medaka").unwrap();
    let koi = BigFishType::from_name("koi").unwrap();
    assert!(is_target_fish(&cfg, &medaka));
    assert!(!is_target_fish(&cfg, &koi));
}

#[test]
fn bait_choice() {
    let cfg = AutoFishingConfig::new(None);
    let pond = vec![
        BigFishType::from_name("medaka").unwrap(),
        BigFishType::from_name("koi").unwrap(),
        BigFishType::from_name("ray").unwrap(),
    ];
    assert_eq!(choose_bait_target(&cfg, None, None, &vec![]), BaitChoice::Keep);
    assert_eq!(choose_bait_target(&cfg, Some(&vec![]), None, &vec![]), BaitChoice::Keep);
    assert_eq!(choose_bait_target(&cfg, Some(&pond), Some(BaitType::FruitPasteBait), &vec![]), BaitChoice::Keep);
    assert_eq!(choose_bait_target(&cfg, Some(&pond), None, &vec![]), BaitChoice::Switch(BaitType::FakeFlyBait));
    let failed = vec![BaitType::FakeFlyBait, BaitType::FakeFlyBait];
    assert_eq!(choose_bait_target(&cfg, Some(&pond), Some(BaitType::SourBait), &failed), BaitChoice::Switch(BaitType::FruitPasteBait));
    let mut only_medaka = AutoFishingConfig::new(None);
    only_medaka.fish_whitelist = Some(vec!["axehead"]);
    assert_eq!(choose_bait_target(&only_medaka, Some(&pond), None, &vec![]), BaitChoice::Skip);
}

#[test]
fn random_offsets_stay_near_the_centre() {
    let mut s: u64 = 0x12345;
    let (dx, dy) = random_mouse_offset(&mut s, 1920, 1080);
    assert_ne!(s, 0x12345);
    assert!((-50..=50).contains(&dx));
    assert!((-50..=50).contains(&dy));
    let mut t: u64 = 0x12345;
    assert_eq!(random_mouse_offset(&mut t, 1920, 1080), (dx, dy));
}

#[test]
fn pond_aiming() {
    assert_eq!(pond_aim(Rect { x: 1500, y: 0, width: 100, height: 100 }, 1920), PondAim::TurnRight);
    assert_eq!(pond_aim(Rect { x: 100, y: 0, width: 200, height: 100 }, 1920), PondAim::TurnLeft);
    assert_eq!(pond_aim(Rect { x: 100, y: 0, width: 400, height: 100 }, 1920), PondAim::Centered);
    assert_eq!(pond_aim(Rect { x: 1440, y: 0, width: 10, height: 10 }, 1920), PondAim::Centered);
}

#[test]
fn prompt_text_region() {
    let prompt = Rect { x: 1100, y: 500, width: 40, height: 40 };
    assert_eq!(interact_text_roi(prompt, 1920, 1080), Some(Rect { x: 1215, y: 500, width: 285, height: 40 }));
    assert_eq!(interact_text_roi(Rect { x: 1800, y: 1070, width: 40, height: 40 }, 1920, 1080), Some(Rect { x: 1915, y: 1070, width: 5, height: 10 }));
    assert_eq!(interact_text_roi(Rect { x: 0, y: 0, width: 40, height: 0 }, 1920, 1080), None);
}

#[test]
fn tension_bar_box() {
    let cursor = Rect { x: 600, y: 100, width: 10, height: 40 };
    let bar = Rect { x: 750, y: 100, width: 200, height: 40 };
    assert_eq!(fish_box_from_bars(cursor, bar, 1920, 1920, 1080), Some(Rect { x: 560, y: 90, width: 800, height: 60 }));
    assert_eq!(fish_box_from_bars(bar, cursor, 1920, 1920, 1080), Some(Rect { x: 560, y: 90, width: 800, height: 60 }));
    let tall = Rect { x: 750, y: 100, width: 200, height: 60 };
    assert_eq!(fish_box_from_bars(cursor, tall, 1920, 1920, 1080), None);
    let left_of_cursor = Rect { x: 500, y: 100, width: 200, height: 40 };
    assert_eq!(fish_box_from_bars(cursor, left_of_cursor, 1920, 1920, 1080), None);
    let edge = Rect { x: 20, y: 5, width: 10, height: 40 };
    let edge_bar = Rect { x: 100, y: 5, width: 40, height: 40 };
    assert_eq!(fish_box_from_bars(edge, edge_bar, 1920, 1920, 1080), Some(Rect { x: 0, y: 0, width: 1920, height: 55 }));
}

#[test]
fn reeling() {
    let cursor = Rect { x: 100, y: 0, width: 5, height: 30 };
    let target = Rect { x: 200, y: 0, width: 60, height: 30 };
    assert!(reel_held(&vec![cursor, target], false));
    assert!(!reel_held(&vec![Rect { x: 300, ..cursor }, target], true));
    let narrow_target = Rect { x: 200, y: 0, width: 40, height: 30 };
    assert!(reel_held(&vec![cursor, narrow_target], true));
    assert!(!reel_held(&vec![cursor, narrow_target], false));
    let left = Rect { x: 100, y: 0, width: 10, height: 20 };
    let mid = Rect { x: 150, y: 0, width: 10, height: 30 };
    let right = Rect { x: 400, y: 0, width: 20, height: 20 };
    assert!(reel_held(&vec![right, left, mid], false));
    let near_right = Rect { x: 170, y: 0, width: 20, height: 20 };
    assert!(!reel_held(&vec![near_right, left, mid], true));
    let small = Rect { x: 0, y: 0, width: 1, height: 1 };
    assert!(reel_held(&vec![right, small, left, mid], false));
    assert!(reel_held(&vec![], true));
    assert!(!reel_held(&vec![cursor], false));
}

#[test]
fn bar_sorting_is_stable() {
    let a = Rect { x: 3, y: 0, width: 1, height: 5 };
    let b = Rect { x: 1, y: 1, width: 1, height: 9 };
    let c = Rect { x: 2, y: 2, width: 1, height: 5 };
    assert_eq!(sorted_bars(&vec![a, b, c], BarKey::HeightDescending), vec![b, a, c]);
    assert_eq!(sorted_bars(&vec![a, b, c], BarKey::X), vec![b, c, a]);
}

#[test]
fn nearest_fish_for_the_bait() {
    let landing = Rect { x: 100, y: 100, width: 20, height: 10 };
    let fishes = vec![fish("koi", 300, 100), fish("medaka", 150, 100), fish("ray", 120, 100), fish("medaka", 50, 100)];
    assert_eq!(nearest_fish(&fishes, None, landing), Some(2));
    assert_eq!(nearest_fish(&fishes, Some(BaitType::FruitPasteBait), landing), Some(1));
    assert_eq!(nearest_fish(&fishes, Some(BaitType::SourBait), landing), None);
}

#[test]
fn cast_and_round_counters() {
    let mut t = CastTracker::new();
    for _ in 0..25 {
        assert!(!t.on_lost_landing());
    }
    assert!(t.on_lost_landing());
    for _ in 0..10 {
        assert!(!t.on_no_bait_fish());
    }
    assert!(t.on_no_bait_fish());

    let mut bb = Blackboard::default();
    assert!(!bb.pitch_reset);
    bb.record_no_landing();
    bb.record_no_landing();
    assert!(!bb.abort);
    bb.record_no_landing();
    assert!(bb.abort);
    bb.selected_bait = Some(BaitType::SourBait);
    assert!(!bb.record_bait_not_found(BaitType::SourBait));
    assert!(bb.selected_bait.is_none());
    assert!(bb.record_bait_not_found(BaitType::SourBait));
    bb.record_no_bait_fish(Some(BaitType::BerryBait));
    bb.record_no_bait_fish(None);
    assert_eq!(bb.throw_rod_no_bait_fish_failures, vec![BaitType::BerryBait]);
    bb.reset();
    assert!(bb.pitch_reset && !bb.abort);
    assert_eq!(bb.throw_rod_no_target_times, 0);
    assert!(bb.choose_bait_failures.is_empty());
}

#[test]
fn round_steps() {
    assert_eq!(next_round_step(RoundStep::Prepare, true, false).next, RoundStep::SeekPond);
    assert_eq!(next_round_step(RoundStep::SeekPond, false, false), RoundMove { next: RoundStep::Quit, set_abort: true });
    assert_eq!(next_round_step(RoundStep::EnterMode, false, false).next, RoundStep::Done);
    assert_eq!(next_round_step(RoundStep::ThrowRod, true, true).next, RoundStep::Quit);
    assert_eq!(next_round_step(RoundStep::ThrowRod, false, false).next, RoundStep::AdjustView);
    assert_eq!(next_round_step(RoundStep::ThrowRod, true, false).next, RoundStep::CheckThrow);
    assert_eq!(next_round_step(RoundStep::FindFishBox, true, false).next, RoundStep::Pull);
    assert_eq!(next_round_step(RoundStep::Pull, true, false).next, RoundStep::AdjustView);
    assert_eq!(next_round_step(RoundStep::Quit, true, false).next, RoundStep::Done);
}

#[test]
fn detection_labels() {
    assert_eq!(classify_detection("rod", false), DetectionKind::LandingSpot);
    assert_eq!(classify_detection("err_rod", true), DetectionKind::LandingSpot);
    assert_eq!(classify_detection("koi", true), DetectionKind::Ignored);
    assert_eq!(classify_detection("koi", false), DetectionKind::Fish(BigFishType::from_name("koi").unwrap()));
    assert_eq!(classify_detection("koi_head", true), DetectionKind::Fish(BigFishType::from_name("koi head").unwrap()));
    assert_eq!(classify_detection("whale", false), DetectionKind::Unknown);
}

#[test]
fn bar_and_prompt_boxes() {
    let wide = Rect { x: 300, y: 100, width: 200, height: 20 };
    let cursor = Rect { x: 320, y: 101, width: 6, height: 19 };
    let off_level = Rect { x: 10, y: 200, width: 50, height: 20 };
    let thin = Rect { x: 350, y: 100, width: 5, height: 20 };
    assert_eq!(bar_boxes(&vec![cursor, wide, off_level, thin]), vec![cursor, wide]);
    assert_eq!(bar_boxes(&vec![]), vec![]);
    let text = Rect { x: 250, y: 40, width: 90, height: 20 };
    let small = Rect { x: 0, y: 0, width: 10, height: 5 };
    assert_eq!(bite_words_box(&vec![small, text], 540, 640), Some(text));
    assert_eq!(bite_words_box(&vec![small, text], 540, 200), None);
    assert_eq!(bite_words_box(&vec![Rect { x: 150, y: 40, width: 50, height: 20 }], 540, 640), None);
    assert_eq!(bite_words_box(&vec![], 540, 640), None);
}

#[test]
fn fishing_prompt_text() {
    assert!(prompt_starts_fishing("钓鱼"));
    assert!(prompt_starts_fishing("开始钓鱼吧"));
    assert!(!prompt_starts_fishing("钓"));
    assert!(!prompt_starts_fishing("调查"));
    assert!(!prompt_starts_fishing(""));
}
