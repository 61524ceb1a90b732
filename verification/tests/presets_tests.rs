use maple_utils::filter::FilterPreset;
use maple_utils::presets::{
    delete_named_filter_preset, find_named_preset, load_named_filter_preset,
    normalize_preset_name, save_named_filter_preset, NamedFilterPreset,
};
use maple_utils::settings::Settings;

fn preset(a: u32, d: u32, r: u32, f: u32) -> FilterPreset {
    FilterPreset { accept_delay: a, repeat_delay: d, repeat_rate: r, filter_flags: f }
}

#[test]
fn normalize_trims_and_checks_length() {
    assert_eq!(normalize_preset_name("  Raid  ".to_string()), Ok("Raid".to_string()));
    assert_eq!(
        normalize_preset_name(" \t ".to_string()),
        Err("프리셋 이름을 입력하세요.".to_string())
    );
    let long: String = std::iter::repeat('가').take(33).collect();
    assert_eq!(
        normalize_preset_name(long),
        Err("프리셋 이름은 32자 이하로 입력하세요.".to_string())
    );
    let max: String = std::iter::repeat('가').take(32).collect();
    assert_eq!(normalize_preset_name(format!(" {} ", max)), Ok(max));
}

#[test]
fn normalize_is_idempotent() {
    let once = normalize_preset_name("\u{3000} 보스 \n".to_string()).unwrap();
    let twice = normalize_preset_name(once.clone()).unwrap();
    assert_eq!(once, twice);
}

#[test]
fn save_then_load_finds_the_preset() {
    let mut s = Settings::default();
    assert_eq!(save_named_filter_preset(&mut s, " Boss ".to_string(), preset(1, 2, 3, 4)), Ok(()));
    assert_eq!(s.filter_presets.len(), 2);
    assert_eq!(s.filter_presets[1].name, "Boss");
    assert_eq!(s.filter_on_preset, preset(1, 2, 3, 4));
    s.filter_on_preset = FilterPreset::default();
    assert_eq!(load_named_filter_preset(&mut s, "boss".to_string()), Ok(()));
    assert_eq!(s.filter_on_preset, preset(1, 2, 3, 4));
}

#[test]
fn save_replaces_case_insensitively() {
    let mut s = Settings::default();
    save_named_filter_preset(&mut s, "Boss".to_string(), preset(1, 2, 3, 4)).unwrap();
    save_named_filter_preset(&mut s, "BOSS".to_string(), preset(5, 6, 7, 8)).unwrap();
    assert_eq!(s.filter_presets.len(), 2);
    assert_eq!(s.filter_presets[1].name, "BOSS");
    assert_eq!(s.filter_presets[1].preset, preset(5, 6, 7, 8));
    assert_eq!(s.filter_presets[0].name, "기본");
}

#[test]
fn save_rejects_bad_input() {
    let mut s = Settings::default();
    assert_eq!(
        save_named_filter_preset(&mut s, "x".to_string(), preset(0, 0, 10_001, 0)),
        Err("Repeat는 0~10000 사이여야 합니다.".to_string())
    );
    assert_eq!(
        save_named_filter_preset(&mut s, "".to_string(), preset(0, 0, 0, 0)),
        Err("프리셋 이름을 입력하세요.".to_string())
    );
    assert_eq!(s.filter_presets.len(), 1);
}

#[test]
fn load_missing_preset() {
    let mut s = Settings::default();
    assert_eq!(
        load_named_filter_preset(&mut s, "none".to_string()),
        Err("프리셋을 찾지 못했습니다.".to_string())
    );
    assert_eq!(
        load_named_filter_preset(&mut s, "   ".to_string()),
        Err("프리셋 이름을 입력하세요.".to_string())
    );
}

#[test]
fn delete_removes_every_match() {
    let mut s = Settings::default();
    s.filter_presets.push(NamedFilterPreset { name: "raid".to_string(), preset: preset(1, 1, 1, 1) });
    s.filter_presets.push(NamedFilterPreset { name: "keep".to_string(), preset: preset(2, 2, 2, 2) });
    s.filter_presets.push(NamedFilterPreset { name: "RAID".to_string(), preset: preset(3, 3, 3, 3) });
    assert_eq!(delete_named_filter_preset(&mut s, " Raid".to_string()), Ok(()));
    let names: Vec<&str> = s.filter_presets.iter().map(|p| p.name.as_str()).collect();
    assert_eq!(names, vec!["기본", "keep"]);
    assert_eq!(
        delete_named_filter_preset(&mut s, "raid".to_string()),
        Err("삭제할 프리셋을 찾지 못했습니다.".to_string())
    );
    assert_eq!(
        load_named_filter_preset(&mut s, "raid".to_string()),
        Err("프리셋을 찾지 못했습니다.".to_string())
    );
}

#[test]
fn find_gives_first_match() {
    let presets = vec![
        NamedFilterPreset { name: "a".to_string(), preset: preset(1, 1, 1, 1) },
        NamedFilterPreset { name: "B".to_string(), preset: preset(2, 2, 2, 2) },
        NamedFilterPreset { name: "b".to_string(), preset: preset(3, 3, 3, 3) },
    ];
    assert_eq!(find_named_preset(&presets, "b"), Some(1));
    assert_eq!(find_named_preset(&presets, "c"), None);
}
