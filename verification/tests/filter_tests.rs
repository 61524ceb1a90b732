use maple_utils::filter::{
    backup_from_keys, filter_keys_for_preset, filter_snapshot, validate_preset, FilterBackup,
    FilterKeys, FilterPreset, FILTER_KEYS_SIZE,
};

fn preset(a: u32, d: u32, r: u32, f: u32) -> FilterPreset {
    FilterPreset { accept_delay: a, repeat_delay: d, repeat_rate: r, filter_flags: f }
}

#[test]
fn default_preset_values() {
    let p = FilterPreset::default();
    assert_eq!(p, preset(0, 150, 1, 27));
    assert!(validate_preset(&p).is_ok());
    assert!(!p.is_legacy_default());
}

#[test]
fn legacy_default_is_recognized() {
    assert!(preset(0, 90, 14, 35).is_legacy_default());
    assert!(!preset(1, 90, 14, 35).is_legacy_default());
    assert!(validate_preset(&preset(0, 90, 14, 35)).is_ok());
}

#[test]
fn validate_reports_first_field_out_of_range() {
    assert_eq!(
        validate_preset(&preset(10_001, 10_001, 0, 0)),
        Err("Wait는 0~10000 사이여야 합니다.".to_string())
    );
    assert_eq!(
        validate_preset(&preset(0, 10_001, 10_001, 0)),
        Err("Delay는 0~10000 사이여야 합니다.".to_string())
    );
    assert_eq!(
        validate_preset(&preset(0, 0, 10_001, 70_000)),
        Err("Repeat는 0~10000 사이여야 합니다.".to_string())
    );
    assert_eq!(
        validate_preset(&preset(0, 0, 0, 65_536)),
        Err("Flags는 0~65535 사이여야 합니다.".to_string())
    );
    assert_eq!(validate_preset(&preset(10_000, 10_000, 10_000, 65_535)), Ok(()));
}

#[test]
fn keys_for_preset_layout() {
    let k = filter_keys_for_preset(&preset(5, 150, 1, 27));
    assert_eq!(
        k,
        FilterKeys {
            cb_size: FILTER_KEYS_SIZE,
            dw_flags: 27,
            i_wait_msec: 5,
            i_delay_msec: 150,
            i_repeat_msec: 1,
            i_bounce_msec: 0
        }
    );
    assert_eq!(FILTER_KEYS_SIZE, 24);
}

#[test]
fn backup_round_trip() {
    let current = FilterKeys {
        cb_size: 24,
        dw_flags: 126,
        i_wait_msec: 1000,
        i_delay_msec: 500,
        i_repeat_msec: 33,
        i_bounce_msec: 7,
    };
    let b = backup_from_keys(&current);
    assert_eq!(b, FilterBackup { valid: true, wait: 1000, delay: 500, repeat: 33, flags: 126 });
    let s = filter_snapshot(&current);
    assert_eq!((s.wait, s.delay, s.repeat, s.flags), (1000, 500, 33, 126));
    assert_eq!(
        FilterBackup::default(),
        FilterBackup { valid: false, wait: 0, delay: 0, repeat: 0, flags: 0 }
    );
}
