use maple_utils::filter::{FilterBackup, FilterKeys, FilterPreset};
use maple_utils::presets::NamedFilterPreset;
use maple_utils::settings::{
    apply_filter_on, default_focus_guard_poll_ms, sanitize_focus_guard_poll_ms,
    save_filter_preset, set_focus_guard_poll_ms, settle_loaded_settings, Settings,
};

fn preset(a: u32, d: u32, r: u32, f: u32) -> FilterPreset {
    FilterPreset { accept_delay: a, repeat_delay: d, repeat_rate: r, filter_flags: f }
}

fn keys(wait: u32, delay: u32, repeat: u32, flags: u32) -> FilterKeys {
    FilterKeys {
        cb_size: 24,
        dw_flags: flags,
        i_wait_msec: wait,
        i_delay_msec: delay,
        i_repeat_msec: repeat,
        i_bounce_msec: 0,
    }
}

#[test]
fn default_settings() {
    let s = Settings::default();
    assert!(s.helper_noactivate);
    assert!(s.helper_topmost);
    assert!(!s.settings_mode);
    assert!(!s.game_topmost);
    assert_eq!(s.focus_guard_poll_ms, 75);
    assert!(s.restore_filter_on_exit);
    assert_eq!(s.filter_on_preset, FilterPreset::default());
    assert_eq!(s.filter_presets.len(), 1);
    assert_eq!(s.filter_presets[0].name, "기본");
    assert_eq!(s.filter_presets[0].preset, FilterPreset::default());
    assert!(!s.filter_backup.valid);
    assert!(s.helper_noactivate_active());
}

#[test]
fn poll_interval_options() {
    assert_eq!(default_focus_guard_poll_ms(), 75);
    assert_eq!(sanitize_focus_guard_poll_ms(30), 30);
    assert_eq!(sanitize_focus_guard_poll_ms(16), 16);
    assert_eq!(sanitize_focus_guard_poll_ms(75), 75);
    assert_eq!(sanitize_focus_guard_poll_ms(0), 75);
    assert_eq!(sanitize_focus_guard_poll_ms(31), 75);
}

#[test]
fn set_poll_interval() {
    let mut s = Settings::default();
    assert_eq!(set_focus_guard_poll_ms(&mut s, 16), Ok(()));
    assert_eq!(s.focus_guard_poll_ms, 16);
    assert_eq!(
        set_focus_guard_poll_ms(&mut s, 50),
        Err("지원하는 감시 주기는 75ms, 30ms, 16ms입니다.".to_string())
    );
    assert_eq!(s.focus_guard_poll_ms, 16);
}

#[test]
fn guard_follows_settings_mode_and_noactivate() {
    let mut s = Settings::default();
    s.settings_mode = true;
    assert!(!s.helper_noactivate_active());
    s.settings_mode = false;
    s.helper_noactivate = false;
    assert!(!s.helper_noactivate_active());
}

#[test]
fn save_preset_checks_ranges() {
    let mut s = Settings::default();
    assert_eq!(save_filter_preset(&mut s, preset(1, 2, 3, 4)), Ok(()));
    assert_eq!(s.filter_on_preset, preset(1, 2, 3, 4));
    assert_eq!(
        save_filter_preset(&mut s, preset(1, 2, 3, 70_000)),
        Err("Flags는 0~65535 사이여야 합니다.".to_string())
    );
    assert_eq!(s.filter_on_preset, preset(1, 2, 3, 4));
}

#[test]
fn apply_filter_takes_backup_once() {
    let mut s = Settings::default();
    let r = apply_filter_on(&mut s, preset(0, 200, 5, 27), Ok(keys(1, 2, 3, 4)), Ok(()));
    assert_eq!(r, Ok(()));
    assert_eq!(s.filter_backup, FilterBackup { valid: true, wait: 1, delay: 2, repeat: 3, flags: 4 });
    assert_eq!(s.filter_on_preset, preset(0, 200, 5, 27));
    let r = apply_filter_on(&mut s, preset(0, 300, 5, 27), Ok(keys(9, 9, 9, 9)), Ok(()));
    assert_eq!(r, Ok(()));
    assert_eq!(s.filter_backup, FilterBackup { valid: true, wait: 1, delay: 2, repeat: 3, flags: 4 });
    assert_eq!(s.filter_on_preset, preset(0, 300, 5, 27));
}

#[test]
fn apply_filter_failures() {
    let mut s = Settings::default();
    let r = apply_filter_on(&mut s, preset(20_000, 0, 0, 0), Ok(keys(1, 2, 3, 4)), Ok(()));
    assert_eq!(r, Err("Wait는 0~10000 사이여야 합니다.".to_string()));
    assert!(!s.filter_backup.valid);
    let r = apply_filter_on(&mut s, preset(0, 0, 0, 0), Err("read".to_string()), Ok(()));
    assert_eq!(r, Err("read".to_string()));
    assert!(!s.filter_backup.valid);
    let r = apply_filter_on(&mut s, preset(0, 0, 0, 0), Ok(keys(1, 2, 3, 4)), Err("write".to_string()));
    assert_eq!(r, Err("write".to_string()));
    assert!(s.filter_backup.valid);
    assert_eq!(s.filter_on_preset, FilterPreset::default());
}

#[test]
fn settle_replaces_legacy_and_sanitizes() {
    let mut s = Settings::default();
    s.filter_on_preset = preset(0, 90, 14, 35);
    s.focus_guard_poll_ms = 10;
    s.filter_presets.clear();
    let r = settle_loaded_settings(s, true);
    assert_eq!(r.filter_on_preset, FilterPreset::default());
    assert_eq!(r.focus_guard_poll_ms, 75);
    assert_eq!(r.filter_presets.len(), 1);
    assert_eq!(r.filter_presets[0].name, "기본");
    assert_eq!(r.filter_presets[0].preset, FilterPreset::default());
}

#[test]
fn settle_keeps_an_emptied_list() {
    let mut s = Settings::default();
    s.filter_presets.clear();
    s.focus_guard_poll_ms = 30;
    s.filter_on_preset = preset(1, 2, 3, 4);
    let r = settle_loaded_settings(s, false);
    assert!(r.filter_presets.is_empty());
    assert_eq!(r.focus_guard_poll_ms, 30);
    assert_eq!(r.filter_on_preset, preset(1, 2, 3, 4));
}

#[test]
fn duplicate_copies_everything() {
    let mut s = Settings::default();
    s.filter_presets.push(NamedFilterPreset { name: "raid".to_string(), preset: preset(1, 1, 1, 1) });
    let d = s.duplicate();
    assert_eq!(d.filter_presets.len(), 2);
    assert_eq!(d.filter_presets[1].name, "raid");
    assert_eq!(d.filter_on_preset, s.filter_on_preset);
}

#[test]
fn helper_setters() {
    let mut s = Settings::default();
    s.set_helper_noactivate(false);
    s.set_helper_topmost(false);
    s.set_settings_mode(true);
    assert!(!s.helper_noactivate);
    assert!(!s.helper_topmost);
    assert!(s.settings_mode);
    assert_eq!(s.focus_guard_poll_ms, 75);
}

#[test]
fn poll_interval_check() {
    assert_eq!(maple_utils::settings::check_focus_guard_poll_ms(30), Ok(()));
    assert_eq!(
        maple_utils::settings::check_focus_guard_poll_ms(29),
        Err("지원하는 감시 주기는 75ms, 30ms, 16ms입니다.".to_string())
    );
}

#[test]
fn backup_survives_many_applications() {
    let mut s = Settings::default();
    apply_filter_on(&mut s, preset(0, 100, 1, 27), Ok(keys(7, 8, 9, 10)), Ok(())).unwrap();
    for i in 0..5 {
        apply_filter_on(&mut s, preset(i, 100 + i, 1, 27), Ok(keys(i, i, i, i)), Ok(())).unwrap();
        let _ = apply_filter_on(&mut s, preset(i, 0, 0, 0), Err("read".to_string()), Err("write".to_string()));
    }
    assert_eq!(s.filter_backup, FilterBackup { valid: true, wait: 7, delay: 8, repeat: 9, flags: 10 });
}
