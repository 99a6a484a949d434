use teyvat_nav::navigate::action::{
    matches_phase, parse_set_time_params, read_set_time_params, ActionPhase, CollectMove, ElementalCollectHandler, ElementalType,
    FightHandler, LeafAction, LeafSweep, MiningHandler, NahidaCollectHandler, PickAroundHandler,
    PickUpCollectHandler, SetTimeParamError, StopFlyingHandler,
};
use teyvat_nav::navigate::bv::{
    get_motion_status, is_in_big_map_ui, is_in_main_ui, is_low_hp_pixel, pixel_is_white, which_game_ui,
    GameUiCategory, MotionStatus, MultiGameStatus,
};
use teyvat_nav::navigate::error::NavigateError;
use teyvat_nav::navigate::executor::settle_action_result;
use teyvat_nav::navigate::path::ActionCode;
use teyvat_nav::task::chores::{finish_step, relogin_steps, wonderland_steps, ChoreAction, ChoreKey, WaitFor};
use teyvat_nav::task::common_jobs::CommonJobError;
use teyvat_nav::utils::sort::{compare_names, normalize_for_sort, sorted_name_order, NameOrder};

#[test]
fn set_time_parameters() {
    assert_eq!(read_set_time_params(None), Ok((18, 0, true)));
    assert_eq!(read_set_time_params(Some("  ")), Ok((18, 0, true)));
    assert_eq!(read_set_time_params(Some("h=7,m=30")), Ok((7, 30, true)));
    assert_eq!(read_set_time_params(Some(" H = 23 , m=5, skip=No ,")), Ok((23, 5, false)));
    assert_eq!(read_set_time_params(Some("h=7,m=30,skip_animation=1")), Ok((7, 30, true)));
    assert_eq!(read_set_time_params(Some("h7")), Err(SetTimeParamError::MalformedPair));
    assert_eq!(read_set_time_params(Some("h=24,m=0")), Err(SetTimeParamError::InvalidHour));
    assert_eq!(read_set_time_params(Some("h=x,m=0")), Err(SetTimeParamError::InvalidHour));
    assert_eq!(read_set_time_params(Some("h=1,m=60")), Err(SetTimeParamError::InvalidMinute));
    assert_eq!(read_set_time_params(Some("h=1,m=0,skip=maybe")), Err(SetTimeParamError::InvalidSkip));
    assert_eq!(read_set_time_params(Some("h=1,s=0")), Err(SetTimeParamError::UnsupportedKey("s".to_string())));
    assert_eq!(read_set_time_params(Some("m=0")), Err(SetTimeParamError::MissingHour));
    assert_eq!(read_set_time_params(Some("h=0")), Err(SetTimeParamError::MissingMinute));
}

fn message(r: Result<(i32, i32, bool), NavigateError>) -> String {
    match r {
        Err(NavigateError::Unsupported(m)) => m,
        other => panic!("expected an unsupported action, got {:?}", other),
    }
}

#[test]
fn set_time_refusals_are_unsupported_actions() {
    assert!(matches!(parse_set_time_params(Some("h=7,m=30")), Ok((7, 30, true))));
    assert!(matches!(parse_set_time_params(None), Ok((18, 0, true))));
    assert_eq!(
        message(parse_set_time_params(Some("h7"))),
        "set_time 参数格式错误，应为: h=<0-23>,m=<0-59>[,skip=true|false]"
    );
    assert_eq!(message(parse_set_time_params(Some("h=24,m=0"))), "set_time: h 必须是 0-23 的整数");
    assert_eq!(message(parse_set_time_params(Some("h=1,m=60"))), "set_time: m 必须是 0-59 的整数");
    assert_eq!(message(parse_set_time_params(Some("h=1,m=0,skip=x"))), "set_time: skip 必须是 true/false（或 1/0）");
    assert_eq!(message(parse_set_time_params(Some("h=1,S=0"))), "set_time: 不支持的参数 `s`，仅支持 h,m,skip");
    assert_eq!(message(parse_set_time_params(Some("m=0"))), "set_time: 缺少参数 h，应为 0-23 的整数");
    assert_eq!(message(parse_set_time_params(Some("h=0"))), "set_time: 缺少参数 m，应为 0-59 的整数");
    // the route skips such an action instead of failing
    assert!(settle_action_result(parse_set_time_params(Some("h7")).map(|_| ())).is_ok());
}

#[test]
fn action_phases() {
    assert!(matches_phase(&ActionCode::UpDownGrabLeaf, ActionPhase::BeforeMoveToTarget));
    assert!(matches_phase(&ActionCode::StopFlying, ActionPhase::BeforeMoveCloseToTarget));
    assert!(matches_phase(&ActionCode::Mining, ActionPhase::AfterMoveToTarget));
    assert!(!matches_phase(&ActionCode::Mining, ActionPhase::BeforeMoveToTarget));
    assert!(!matches_phase(&ActionCode::ForceTp, ActionPhase::AfterMoveToTarget));
    assert!(!matches_phase(&ActionCode::NoAction, ActionPhase::AfterMoveToTarget));
}

#[test]
fn handler_parameters() {
    assert_eq!(MiningHandler::press_count(None), 6);
    assert_eq!(MiningHandler::press_count(Some("3")), 3);
    assert_eq!(MiningHandler::press_count(Some("x")), 6);
    assert_eq!(PickUpCollectHandler::press_count(None), 8);
    assert_eq!(PickAroundHandler::plan(None), (8, 128));
    assert_eq!(PickAroundHandler::plan(Some("32")), (32, 60));
    assert!(PickAroundHandler::steps_forward(0));
    assert!(!PickAroundHandler::steps_forward(1));
    assert_eq!(StopFlyingHandler::glide_ms(Some("1500")), Some(1500));
    assert_eq!(StopFlyingHandler::glide_ms(Some("soon")), None);
    assert_eq!(FightHandler::<()>::script_name(Some(" boss ")), Some("boss".to_string()));
    assert_eq!(FightHandler::<()>::script_name(Some("根据队伍自动选择")), None);
    assert_eq!(FightHandler::<()>::script_name(None), None);
    let moves = NahidaCollectHandler::sweep_moves();
    assert_eq!(moves.len(), 75);
    assert_eq!(moves[0], (400, 500));
    assert_eq!(moves[15], (400, -30));
    assert_eq!(moves[34], (400, -50));
}

#[test]
fn leaf_sweep() {
    let mut s = LeafSweep::start(Some("down"));
    assert_eq!(s.vertical_movement, -1000);
    assert!(s.begin_round());
    assert_eq!(s.vertical_movement, 1000);
    assert_eq!(s.on_screenshot(false), LeafAction::Move(1000));
    assert_eq!(s.remaining_cycles, 39);
    assert!(s.begin_round());
    assert_eq!(s.on_screenshot(true), LeafAction::Recheck);
    assert_eq!(s.on_screenshot(true), LeafAction::Grab);
    assert_eq!(LeafSweep::start(None).vertical_movement, 1000);
    assert_eq!(LeafSweep::start(Some("up")).vertical_movement, 1000);
}

#[test]
fn collectors_by_element() {
    let hydro = ElementalCollectHandler { element: ElementalType::Hydro };
    let team = vec!["行秋".to_string(), "芭芭拉".to_string()];
    assert_eq!(hydro.choose_collector(&team), Some((0, CollectMove::ElementalSkill)));
    let team2 = vec!["胡桃".to_string(), "芭芭拉".to_string()];
    assert_eq!(hydro.choose_collector(&team2), Some((1, CollectMove::NormalAttack)));
    let pyro = ElementalCollectHandler { element: ElementalType::Pyro };
    assert_eq!(pyro.choose_collector(&vec!["行秋".to_string()]), None);
    assert_eq!(ElementalType::Anemo.to_chinese(), "风");
}

#[test]
fn screen_state_rules() {
    assert_eq!(which_game_ui(true, true, false, true), GameUiCategory::Talk);
    assert_eq!(which_game_ui(false, false, true, true), GameUiCategory::BigMap);
    assert_eq!(which_game_ui(false, false, false, true), GameUiCategory::Main);
    assert_eq!(which_game_ui(false, false, false, false), GameUiCategory::Unknown);
    assert!(is_in_big_map_ui(false, true));
    assert!(!is_in_big_map_ui(false, false));
    assert_eq!(get_motion_status(false, true), MotionStatus::Normal);
    assert_eq!(get_motion_status(true, true), MotionStatus::Climb);
    assert_eq!(get_motion_status(true, false), MotionStatus::Fly);
    assert!(pixel_is_white(240, 255, 250));
    assert!(!pixel_is_white(239, 255, 255));
    assert!(is_low_hp_pixel(90, 90, 255));
    assert!(!is_low_hp_pixel(90, 91, 255));
    assert!(is_in_main_ui(true, false));
    assert!(!is_in_main_ui(false, false));
    assert!(!is_in_main_ui(true, true));
    assert!(!is_in_main_ui(false, true));
    let single = MultiGameStatus::single_player();
    assert_eq!(single.max_control_avatar_count(), 4);
    assert!(single.multi_key().is_none());
}

#[test]
fn chore_scripts() {
    let relogin = relogin_steps();
    assert_eq!(relogin.len(), 6);
    assert_eq!(relogin[0].element, "MenuBag");
    assert!(matches!(relogin[0].action, ChoreAction::Press(ChoreKey::Esc)));
    assert_eq!(relogin[4].wait_for, WaitFor::Disappear);
    assert!(matches!(relogin[4].action, ChoreAction::ClickAt { x: 955, y: 666 }));
    assert_eq!(relogin[5].failure, None);
    let wonder = wonderland_steps();
    assert_eq!(wonder.len(), 8);
    assert_eq!(wonder[1].failure, Some("BtnBlackConfirm<进入>"));
    assert!(matches!(wonder[5].action, ChoreAction::ClickElement("BtnBackTeyvat")));
    assert!(finish_step(&relogin[0], true).is_ok());
    assert!(matches!(finish_step(&relogin[0], false), Err(CommonJobError::ElementAppearTimeout("MenuBag"))));
    assert!(matches!(finish_step(&relogin[2], false), Err(CommonJobError::ElementDisappearTimeout("AutoWoodConfirm"))));
    assert!(finish_step(&relogin[5], false).is_ok());
}

#[test]
fn file_name_order() {
    assert_eq!(normalize_for_sort("B-拼音2"), "b-pin yin 2");
    assert_eq!(normalize_for_sort("AB"), "ab");
    assert_eq!(compare_names("file2", "file10"), NameOrder::Less);
    assert_eq!(compare_names("File10", "file2"), NameOrder::Greater);
    assert_eq!(compare_names("a", "a"), NameOrder::Equal);
    let names: Vec<String> = ["路线10", "路线2", "Alpha", "啊"].iter().map(|s| s.to_string()).collect();
    let order = sorted_name_order(&names);
    let sorted: Vec<&str> = order.iter().map(|&i| names[i].as_str()).collect();
    assert_eq!(sorted, vec!["啊", "Alpha", "路线2", "路线10"]);
}

#[test]
fn equal_names_keep_their_order() {
    assert_eq!(compare_names("A", "a"), NameOrder::Equal);
    let names: Vec<String> = ["b", "A", "c", "a"].iter().map(|s| s.to_string()).collect();
    assert_eq!(sorted_name_order(&names), vec![1, 3, 0, 2]);
    let swapped: Vec<String> = ["b", "a", "c", "A"].iter().map(|s| s.to_string()).collect();
    assert_eq!(sorted_name_order(&swapped), vec![1, 3, 0, 2]);
}
