use maple_utils::filter::FilterSnapshot;
use maple_utils::focus::WindowProbe;
use maple_utils::settings::Settings;
use maple_utils::snapshot::snapshot;
use maple_utils::state::RuntimeState;
use maple_utils::windows::WindowInfo;

fn info(hwnd: isize) -> WindowInfo {
    WindowInfo { hwnd, title: format!("w{}", hwnd), pid: 2 }
}

#[test]
fn snapshot_shows_live_windows_only() {
    let mut s = RuntimeState::new(Settings::default());
    for h in [10, 20, 30] {
        s.apply_focus_target_in_state(
            WindowProbe { info: info(h), ex_style: 0, child_ex_styles: vec![] },
            1,
        )
        .unwrap();
    }
    s.add_focus_exception_in_state(info(40), 1, Ok(())).unwrap();
    s.add_focus_exception_in_state(info(50), 1, Ok(())).unwrap();
    s.game = Some(info(60));
    let live = vec![10, 30, 50, 60];
    let filter = FilterSnapshot { wait: 1, delay: 2, repeat: 3, flags: 4 };
    let snap = snapshot(&s, &live, vec![info(70)], filter);
    assert_eq!(snap.game.as_ref().map(|g| g.hwnd), Some(60));
    let targets: Vec<(isize, &str)> = snap.focus_targets.iter().map(|t| (t.hwnd, t.title.as_str())).collect();
    assert_eq!(targets, vec![(10, "w10"), (30, "w30")]);
    let exceptions: Vec<isize> = snap.focus_exceptions.iter().map(|w| w.hwnd).collect();
    assert_eq!(exceptions, vec![50]);
    assert_eq!(snap.available_windows.len(), 1);
    assert_eq!(snap.filter_current, filter);
    assert_eq!(snap.settings.focus_guard_poll_ms, 75);
    let gone = snapshot(&s, &vec![], vec![], filter);
    assert!(gone.game.is_none());
    assert!(gone.focus_targets.is_empty());
    assert!(gone.focus_exceptions.is_empty());
}
