use maple_utils::filter::{FilterKeys, FilterPreset};
use maple_utils::settings::apply_filter_on;
use maple_utils::focus::{
    first_failure, remember_child_ex_styles, restore_focus_target_window, unique_hwnds,
    window_selection, FocusTarget, WindowExStyleSnapshot, WindowProbe,
};
use maple_utils::settings::Settings;
use maple_utils::state::{require_foreground_window, RuntimeState, WindowObservation};
use maple_utils::windows::WindowInfo;

const OWN: u32 = 100;

fn info(hwnd: isize, pid: u32) -> WindowInfo {
    WindowInfo { hwnd, title: format!("window {}", hwnd), pid }
}

fn snap(hwnd: isize, ex_style: isize) -> WindowExStyleSnapshot {
    WindowExStyleSnapshot { hwnd, ex_style }
}

fn probe(hwnd: isize, pid: u32, ex_style: isize, children: Vec<WindowExStyleSnapshot>) -> WindowProbe {
    WindowProbe { info: info(hwnd, pid), ex_style, child_ex_styles: children }
}

fn target_hwnds(s: &RuntimeState) -> Vec<isize> {
    s.focus_targets.iter().map(|t| t.info.hwnd).collect()
}

fn exception_hwnds(s: &RuntimeState) -> Vec<isize> {
    s.focus_exceptions.iter().map(|w| w.hwnd).collect()
}

#[test]
fn new_state_is_empty() {
    let s = RuntimeState::new(Settings::default());
    assert!(s.game.is_none());
    assert!(s.game_original_topmost.is_none());
    assert!(s.focus_targets.is_empty());
    assert!(s.focus_exceptions.is_empty());
}

#[test]
fn apply_focus_target_adds_then_refreshes() {
    let mut s = RuntimeState::new(Settings::default());
    let r = s.apply_focus_target_in_state(probe(10, 1, 0x100, vec![snap(11, 1), snap(12, 2)]), OWN);
    assert_eq!(r, Ok(()));
    assert_eq!(target_hwnds(&s), vec![10]);
    assert_eq!(s.focus_targets[0].original_ex_style, 0x100);
    let mut again = probe(10, 1, 0x8000100, vec![snap(12, 99), snap(13, 3)]);
    again.info.title = "renamed".to_string();
    assert_eq!(s.apply_focus_target_in_state(again, OWN), Ok(()));
    assert_eq!(target_hwnds(&s), vec![10]);
    let t = &s.focus_targets[0];
    assert_eq!(t.info.title, "renamed");
    assert_eq!(t.original_ex_style, 0x100);
    assert_eq!(t.original_child_ex_styles, vec![snap(11, 1), snap(12, 2), snap(13, 3)]);
}

#[test]
fn apply_focus_target_refusals() {
    let mut s = RuntimeState::new(Settings::default());
    assert_eq!(
        s.apply_focus_target_in_state(probe(5, OWN, 0, vec![]), OWN),
        Err("Maple Utils 창은 대상에 추가할 수 없습니다.".to_string())
    );
    s.game = Some(info(7, 2));
    assert_eq!(
        s.apply_focus_target_in_state(probe(7, 2, 0, vec![]), OWN),
        Err("게임 창은 포커스 차단 대상이 아닙니다. Firefox 같은 보조 창을 선택하세요.".to_string())
    );
    assert_eq!(s.add_focus_exception_in_state(info(8, 3), OWN, Ok(())), Ok(()));
    assert_eq!(
        s.apply_focus_target_in_state(probe(8, 3, 0, vec![]), OWN),
        Err("입력 허용 예외로 등록된 창입니다. 먼저 예외에서 제거하세요.".to_string())
    );
    assert!(s.focus_targets.is_empty());
}

#[test]
fn exception_replaces_target() {
    let mut s = RuntimeState::new(Settings::default());
    s.apply_focus_target_in_state(probe(10, 1, 0, vec![]), OWN).unwrap();
    s.apply_focus_target_in_state(probe(20, 1, 0, vec![]), OWN).unwrap();
    assert_eq!(s.add_focus_exception_in_state(info(10, 1), OWN, Ok(())), Ok(()));
    assert_eq!(target_hwnds(&s), vec![20]);
    assert_eq!(exception_hwnds(&s), vec![10]);
    let mut renamed = info(10, 1);
    renamed.title = "new".to_string();
    assert_eq!(s.add_focus_exception_in_state(renamed, OWN, Ok(())), Ok(()));
    assert_eq!(exception_hwnds(&s), vec![10]);
    assert_eq!(s.focus_exceptions[0].title, "new");
}

#[test]
fn exception_with_failed_restore() {
    let mut s = RuntimeState::new(Settings::default());
    s.apply_focus_target_in_state(probe(10, 1, 0, vec![]), OWN).unwrap();
    let r = s.add_focus_exception_in_state(info(10, 1), OWN, Err("style".to_string()));
    assert_eq!(r, Err("style".to_string()));
    assert!(s.focus_targets.is_empty());
    assert!(s.focus_exceptions.is_empty());
}

#[test]
fn exception_refusals() {
    let mut s = RuntimeState::new(Settings::default());
    assert_eq!(
        s.add_focus_exception_in_state(info(1, OWN), OWN, Ok(())),
        Err("Maple Utils 창은 예외로 등록할 필요가 없습니다.".to_string())
    );
    s.game = Some(info(2, 5));
    assert_eq!(
        s.add_focus_exception_in_state(info(2, 5), OWN, Ok(())),
        Err("게임 창은 항상 예외입니다.".to_string())
    );
}

#[test]
fn remove_and_clear_exceptions() {
    let mut s = RuntimeState::new(Settings::default());
    s.add_focus_exception_in_state(info(1, 1), OWN, Ok(())).unwrap();
    s.add_focus_exception_in_state(info(2, 1), OWN, Ok(())).unwrap();
    s.remove_focus_exception(1);
    assert_eq!(exception_hwnds(&s), vec![2]);
    s.remove_focus_exception(42);
    assert_eq!(exception_hwnds(&s), vec![2]);
    s.clear_focus_exceptions();
    assert!(s.focus_exceptions.is_empty());
}

#[test]
fn select_game_window_clears_its_roles() {
    let mut s = RuntimeState::new(Settings::default());
    s.apply_focus_target_in_state(probe(10, 1, 0, vec![]), OWN).unwrap();
    s.add_focus_exception_in_state(info(20, 1), OWN, Ok(())).unwrap();
    assert_eq!(s.select_game_window_in_state(info(10, 1), OWN, Ok(()), true), Ok(()));
    assert!(s.focus_targets.is_empty());
    assert_eq!(s.game.as_ref().map(|g| g.hwnd), Some(10));
    assert_eq!(s.game_original_topmost, Some(true));
    assert_eq!(s.select_game_window_in_state(info(20, 1), OWN, Ok(()), false), Ok(()));
    assert!(s.focus_exceptions.is_empty());
    assert_eq!(s.game.as_ref().map(|g| g.hwnd), Some(20));
    assert_eq!(s.game_original_topmost, Some(false));
    assert_eq!(
        s.select_game_window_in_state(info(30, OWN), OWN, Ok(()), false),
        Err("Maple Utils 창은 키 입력 받을 창으로 지정할 수 없습니다.".to_string())
    );
}

#[test]
fn select_game_window_with_failed_restore() {
    let mut s = RuntimeState::new(Settings::default());
    s.apply_focus_target_in_state(probe(10, 1, 0, vec![]), OWN).unwrap();
    let r = s.select_game_window_in_state(info(10, 1), OWN, Err("style".to_string()), true);
    assert_eq!(r, Err("style".to_string()));
    assert!(s.focus_targets.is_empty());
    assert!(s.game.is_none());
}

#[test]
fn select_foreground_game() {
    let mut s = RuntimeState::new(Settings::default());
    assert_eq!(require_foreground_window(0), Err("현재 활성 창을 찾지 못했습니다.".to_string()));
    assert_eq!(require_foreground_window(3), Ok(()));
    assert_eq!(
        s.select_foreground_game(info(3, OWN), OWN, false),
        Err("보조 창이 선택되었습니다. 설정 모드를 끄고 게임 창을 활성화한 뒤 다시 선택하세요.".to_string())
    );
    assert_eq!(s.select_foreground_game(info(3, 4), OWN, true), Ok(()));
    assert_eq!(s.game.as_ref().map(|g| g.hwnd), Some(3));
    assert_eq!(s.game_original_topmost, Some(true));
}

#[test]
fn take_and_restore_all_targets() {
    let mut s = RuntimeState::new(Settings::default());
    s.apply_focus_target_in_state(probe(10, 1, 1, vec![]), OWN).unwrap();
    s.apply_focus_target_in_state(probe(20, 1, 2, vec![]), OWN).unwrap();
    s.apply_focus_target_in_state(probe(30, 1, 3, vec![]), OWN).unwrap();
    let t = s.take_focus_target(20).unwrap();
    assert_eq!(t.original_ex_style, 2);
    assert!(s.take_focus_target(20).is_none());
    let all = s.restore_all_focus_targets();
    assert_eq!(all.iter().map(|t| t.info.hwnd).collect::<Vec<_>>(), vec![10, 30]);
    assert!(s.focus_targets.is_empty());
}

#[test]
fn focus_all_non_game() {
    let mut s = RuntimeState::new(Settings::default());
    let obs = |hwnd: isize, pid: u32, ok: bool| WindowObservation {
        probe: probe(hwnd, pid, hwnd * 10, vec![snap(hwnd + 1, 5)]),
        noactivate_applied: ok,
    };
    assert_eq!(
        s.apply_focus_all_non_game(OWN, vec![obs(1, 1, true)]),
        Err("먼저 게임 창을 지정하세요.".to_string())
    );
    assert!(s.focus_targets.is_empty());
    s.game = Some(info(50, 9));
    s.add_focus_exception_in_state(info(60, 1), OWN, Ok(())).unwrap();
    s.apply_focus_target_in_state(probe(70, 1, 7, vec![]), OWN).unwrap();
    assert!(s.focus_all_skips(50, OWN, &info(50, 9)));
    assert!(s.focus_all_skips(50, OWN, &info(61, OWN)));
    assert!(s.focus_all_skips(50, OWN, &info(60, 1)));
    assert!(!s.focus_all_skips(50, OWN, &info(80, 1)));
    let observations = vec![
        obs(50, 9, true),
        obs(60, 1, true),
        obs(61, OWN, true),
        obs(70, 1, true),
        obs(80, 1, true),
        obs(90, 1, false),
    ];
    assert_eq!(s.apply_focus_all_non_game(OWN, observations), Ok(()));
    assert_eq!(target_hwnds(&s), vec![70, 80]);
    assert_eq!(s.focus_targets[0].original_ex_style, 7);
    assert_eq!(s.focus_targets[0].original_child_ex_styles, vec![snap(71, 5)]);
    assert_eq!(s.focus_targets[1].original_ex_style, 800);
}

#[test]
fn focus_guard_picks_the_first_target_sharing_a_root() {
    let mut s = RuntimeState::new(Settings::default());
    s.apply_focus_target_in_state(probe(10, 1, 0, vec![]), OWN).unwrap();
    s.apply_focus_target_in_state(probe(20, 1, 0, vec![]), OWN).unwrap();
    let ancestors = vec![0, 0];
    assert_eq!(s.focus_guard_game_to_restore(20, 0, true, 0, &ancestors), None);
    s.game = Some(info(50, 9));
    assert_eq!(s.focus_guard_game_to_restore(20, 0, true, 0, &ancestors), Some((50, 1)));
    assert_eq!(s.focus_guard_game_to_restore(21, 20, true, 0, &ancestors), Some((50, 1)));
    assert_eq!(s.focus_guard_game_to_restore(30, 0, true, 0, &ancestors), None);
    assert_eq!(s.focus_guard_game_to_restore(20, 0, false, 0, &ancestors), None);
    assert_eq!(s.focus_guard_game_to_restore(51, 50, true, 0, &ancestors), None);
    s.settings.settings_mode = true;
    assert_eq!(s.focus_guard_game_to_restore(20, 0, true, 0, &ancestors), None);
}

#[test]
fn refresh_records_new_children_only() {
    let mut s = RuntimeState::new(Settings::default());
    s.apply_focus_target_in_state(probe(10, 1, 0, vec![snap(11, 1)]), OWN).unwrap();
    s.refresh_focus_target(0, vec![snap(11, 9), snap(12, 2), snap(12, 3)]);
    assert_eq!(s.focus_targets[0].original_child_ex_styles, vec![snap(11, 1), snap(12, 2)]);
}

#[test]
fn game_topmost_changes() {
    let mut s = RuntimeState::new(Settings::default());
    assert_eq!(s.topmost_game_hwnd(), Err("먼저 게임 창을 선택하세요.".to_string()));
    assert_eq!(s.focus_all_game_hwnd(), Err("먼저 게임 창을 지정하세요.".to_string()));
    assert_eq!(
        s.set_game_topmost(true, false, Ok(())),
        Err("먼저 게임 창을 선택하세요.".to_string())
    );
    s.game = Some(info(50, 9));
    assert_eq!(s.topmost_game_hwnd(), Ok(50));
    assert_eq!(s.set_game_topmost(true, false, Err("pos".to_string())), Err("pos".to_string()));
    assert_eq!(s.game_original_topmost, Some(false));
    assert!(!s.settings.game_topmost);
    assert_eq!(s.set_game_topmost(true, true, Ok(())), Ok(()));
    assert_eq!(s.game_original_topmost, Some(false));
    assert!(s.settings.game_topmost);
}

#[test]
fn game_to_foreground_follows_the_guard() {
    let mut s = RuntimeState::new(Settings::default());
    assert_eq!(s.game_to_foreground(true), None);
    s.game = Some(info(50, 9));
    assert_eq!(s.game_to_foreground(true), Some(50));
    assert_eq!(s.game_to_foreground(false), None);
    s.settings.helper_noactivate = false;
    assert_eq!(s.game_to_foreground(true), None);
}

#[test]
fn restore_filter_needs_a_backup() {
    let mut s = RuntimeState::new(Settings::default());
    assert_eq!(s.restore_filter_from_state(), Err("복원할 필터키 백업이 없습니다.".to_string()));
    s.settings.filter_backup.valid = true;
    s.settings.filter_backup.wait = 1;
    s.settings.filter_backup.delay = 2;
    s.settings.filter_backup.repeat = 3;
    s.settings.filter_backup.flags = 4;
    assert_eq!(
        s.restore_filter_from_state(),
        Ok(FilterKeys {
            cb_size: 24,
            dw_flags: 4,
            i_wait_msec: 1,
            i_delay_msec: 2,
            i_repeat_msec: 3,
            i_bounce_msec: 0
        })
    );
}

#[test]
fn cleanup_plan() {
    let mut s = RuntimeState::new(Settings::default());
    s.apply_focus_target_in_state(probe(10, 1, 0, vec![]), OWN).unwrap();
    s.game = Some(info(50, 9));
    s.game_original_topmost = Some(false);
    s.settings.game_topmost = true;
    s.settings.filter_backup.valid = true;
    let plan = s.cleanup();
    assert!(plan.filter_restore.is_some());
    assert_eq!(plan.untopmost_game, Some(50));
    assert_eq!(plan.targets.len(), 1);
    assert!(s.focus_targets.is_empty());
    s.settings.restore_filter_on_exit = false;
    s.game_original_topmost = Some(true);
    let plan = s.cleanup();
    assert!(plan.filter_restore.is_none());
    assert_eq!(plan.untopmost_game, None);
    assert!(plan.targets.is_empty());
}

#[test]
fn remember_keeps_first_recorded_styles() {
    let mut t = FocusTarget { info: info(1, 1), original_ex_style: 5, original_child_ex_styles: vec![snap(2, 20)] };
    remember_child_ex_styles(&mut t, vec![snap(2, 99), snap(3, 30), snap(3, 31)]);
    assert_eq!(t.original_child_ex_styles, vec![snap(2, 20), snap(3, 30)]);
    assert_eq!(t.original_ex_style, 5);
}

#[test]
fn restore_plan_puts_children_first() {
    let t = FocusTarget { info: info(1, 1), original_ex_style: 5, original_child_ex_styles: vec![snap(2, 20), snap(3, 30)] };
    assert_eq!(restore_focus_target_window(&t), vec![snap(2, 20), snap(3, 30), snap(1, 5)]);
}

#[test]
fn first_failure_reports_the_first_error() {
    assert_eq!(first_failure(vec![]), Ok(()));
    assert_eq!(first_failure(vec![Ok(()), Ok(())]), Ok(()));
    assert_eq!(
        first_failure(vec![Ok(()), Err("a".to_string()), Err("b".to_string())]),
        Err("a".to_string())
    );
}

#[test]
fn unique_hwnds_keeps_first_occurrences() {
    assert_eq!(unique_hwnds(vec![3, 0, 1, 3, 2, 1, 0]), vec![3, 1, 2]);
    assert_eq!(unique_hwnds(vec![]), Vec::<isize>::new());
    let once = unique_hwnds(vec![5, 5, 0, 6]);
    assert_eq!(unique_hwnds(once.clone()), once);
}

#[test]
fn selections_must_not_be_empty() {
    assert_eq!(
        window_selection(vec![], "차단할 창을 선택하세요."),
        Err("차단할 창을 선택하세요.".to_string())
    );
    assert_eq!(window_selection(vec![4, 4, 0, 2], "x"), Ok(vec![4, 2]));
}

#[test]
fn restore_writes_back_the_values_read_before_the_first_apply() {
    let mut s = RuntimeState::new(Settings::default());
    let before = FilterKeys { cb_size: 24, dw_flags: 126, i_wait_msec: 1000, i_delay_msec: 500, i_repeat_msec: 33, i_bounce_msec: 9 };
    let first = FilterPreset { accept_delay: 0, repeat_delay: 150, repeat_rate: 1, filter_flags: 27 };
    apply_filter_on(&mut s.settings, first, Ok(before), Ok(())).unwrap();
    let later = FilterPreset { accept_delay: 5, repeat_delay: 5, repeat_rate: 5, filter_flags: 5 };
    let read_again = FilterKeys { cb_size: 24, dw_flags: 27, i_wait_msec: 0, i_delay_msec: 150, i_repeat_msec: 1, i_bounce_msec: 0 };
    apply_filter_on(&mut s.settings, later, Ok(read_again), Ok(())).unwrap();
    assert_eq!(
        s.restore_filter_from_state(),
        Ok(FilterKeys { cb_size: 24, dw_flags: 126, i_wait_msec: 1000, i_delay_msec: 500, i_repeat_msec: 33, i_bounce_msec: 0 })
    );
}

#[test]
fn a_window_is_never_both_target_and_exempted() {
    let mut s = RuntimeState::new(Settings::default());
    s.apply_focus_target_in_state(probe(1, 1, 0, vec![]), OWN).unwrap();
    s.add_focus_exception_in_state(info(1, 1), OWN, Ok(())).unwrap();
    assert!(s.apply_focus_target_in_state(probe(1, 1, 0, vec![]), OWN).is_err());
    s.remove_focus_exception(1);
    s.apply_focus_target_in_state(probe(1, 1, 0, vec![]), OWN).unwrap();
    s.apply_focus_target_in_state(probe(1, 1, 0, vec![]), OWN).unwrap();
    assert_eq!(target_hwnds(&s), vec![1]);
    assert!(exception_hwnds(&s).is_empty());
}

#[test]
fn check_focus_target_refusals() {
    let mut s = RuntimeState::new(Settings::default());
    assert_eq!(s.check_focus_target(&info(1, 1), OWN), Ok(()));
    assert_eq!(
        s.check_focus_target(&info(1, OWN), OWN),
        Err("Maple Utils 창은 대상에 추가할 수 없습니다.".to_string())
    );
    s.game = Some(info(2, 1));
    assert_eq!(
        s.check_focus_target(&info(2, 1), OWN),
        Err("게임 창은 포커스 차단 대상이 아닙니다. Firefox 같은 보조 창을 선택하세요.".to_string())
    );
    s.add_focus_exception_in_state(info(3, 1), OWN, Ok(())).unwrap();
    assert_eq!(
        s.check_focus_target(&info(3, 1), OWN),
        Err("입력 허용 예외로 등록된 창입니다. 먼저 예외에서 제거하세요.".to_string())
    );
}
