//! Filter Keys presets: their ranges, their defaults, and the raw values
//! handed to and read from the system.
use vstd::prelude::*;
use vstd::string::StringExecFns;
use crate::text::err_is;

verus! {

/// Byte size of the system's Filter Keys record: six 32-bit fields.
pub const FILTER_KEYS_SIZE: u32 = 24;

/// The largest accepted wait, delay and repeat time, in milliseconds.
pub const MAX_FILTER_MSEC: u32 = 10000;

/// The largest accepted flags value.
pub const MAX_FILTER_FLAGS: u32 = 65535;

/// A Filter Keys setting the user can apply.
#[derive(Clone, Copy, Debug, PartialEq, Eq)]
pub struct FilterPreset {
    pub accept_delay: u32,
    pub repeat_delay: u32,
    pub repeat_rate: u32,
    pub filter_flags: u32,
}

/// The preset used when none was saved.
pub open spec fn default_filter_preset() -> FilterPreset {
    FilterPreset { accept_delay: 0, repeat_delay: 150, repeat_rate: 1, filter_flags: 27 }
}

/// The default preset of earlier releases, which loading replaces.
pub open spec fn is_legacy_default_spec(p: FilterPreset) -> bool {
    p.accept_delay == 0 && p.repeat_delay == 90 && p.repeat_rate == 14 && p.filter_flags == 35
}

impl Default for FilterPreset {
    fn default() -> (r: Self)
        ensures
            r == default_filter_preset(),
    {
        FilterPreset { accept_delay: 0, repeat_delay: 150, repeat_rate: 1, filter_flags: 27 }
    }
}

impl FilterPreset {
    /// Whether this is the default preset of earlier releases.
    pub fn is_legacy_default(&self) -> (b: bool)
        ensures
            b == is_legacy_default_spec(*self),
    {
        self.accept_delay == 0 && self.repeat_delay == 90 && self.repeat_rate == 14
            && self.filter_flags == 35
    }
}

/// Whether every field of `p` lies in its accepted range.
pub open spec fn preset_in_range(p: FilterPreset) -> bool {
    &&& p.accept_delay <= MAX_FILTER_MSEC
    &&& p.repeat_delay <= MAX_FILTER_MSEC
    &&& p.repeat_rate <= MAX_FILTER_MSEC
    &&& p.filter_flags <= MAX_FILTER_FLAGS
}

/// The message that names the first field of `p` out of its range.
pub open spec fn preset_error_message(p: FilterPreset) -> Seq<char> {
    if p.accept_delay > MAX_FILTER_MSEC {
        "Wait는 0~10000 사이여야 합니다."@
    } else if p.repeat_delay > MAX_FILTER_MSEC {
        "Delay는 0~10000 사이여야 합니다."@
    } else if p.repeat_rate > MAX_FILTER_MSEC {
        "Repeat는 0~10000 사이여야 합니다."@
    } else {
        "Flags는 0~65535 사이여야 합니다."@
    }
}

/// Checks the ranges of a preset; the first field out of range names the error.
pub fn validate_preset(preset: &FilterPreset) -> (r: Result<(), String>)
    ensures
        r is Ok <==> preset_in_range(*preset),
        !preset_in_range(*preset) ==> err_is(r, preset_error_message(*preset)),
{
    if preset.accept_delay > MAX_FILTER_MSEC {
        return Err(String::from_str("Wait는 0~10000 사이여야 합니다."));
    }
    if preset.repeat_delay > MAX_FILTER_MSEC {
        return Err(String::from_str("Delay는 0~10000 사이여야 합니다."));
    }
    if preset.repeat_rate > MAX_FILTER_MSEC {
        return Err(String::from_str("Repeat는 0~10000 사이여야 합니다."));
    }
    if preset.filter_flags > MAX_FILTER_FLAGS {
        return Err(String::from_str("Flags는 0~65535 사이여야 합니다."));
    }
    Ok(())
}

/// The default preset and the legacy default both pass validation.
pub proof fn lemma_builtin_presets_in_range()
    ensures
        preset_in_range(default_filter_preset()),
        forall|p: FilterPreset| is_legacy_default_spec(p) ==> preset_in_range(p),
{
}

/// The Filter Keys values saved before the first preset was applied.
#[derive(Clone, Copy, Debug, PartialEq, Eq)]
pub struct FilterBackup {
    pub valid: bool,
    pub wait: u32,
    pub delay: u32,
    pub repeat: u32,
    pub flags: u32,
}

impl Default for FilterBackup {
    fn default() -> (r: Self)
        ensures
            r == (FilterBackup { valid: false, wait: 0, delay: 0, repeat: 0, flags: 0 }),
    {
        FilterBackup { valid: false, wait: 0, delay: 0, repeat: 0, flags: 0 }
    }
}

/// The system's Filter Keys record.
#[derive(Clone, Copy, Debug, PartialEq, Eq)]
pub struct FilterKeys {
    pub cb_size: u32,
    pub dw_flags: u32,
    pub i_wait_msec: u32,
    pub i_delay_msec: u32,
    pub i_repeat_msec: u32,
    pub i_bounce_msec: u32,
}

/// The record that applies `preset`.
pub open spec fn keys_for_preset(preset: FilterPreset) -> FilterKeys {
    FilterKeys {
        cb_size: FILTER_KEYS_SIZE,
        dw_flags: preset.filter_flags,
        i_wait_msec: preset.accept_delay,
        i_delay_msec: preset.repeat_delay,
        i_repeat_msec: preset.repeat_rate,
        i_bounce_msec: 0,
    }
}

/// The record that applies `preset`.
pub fn filter_keys_for_preset(preset: &FilterPreset) -> (r: FilterKeys)
    ensures
        r == keys_for_preset(*preset),
{
    FilterKeys {
        cb_size: FILTER_KEYS_SIZE,
        dw_flags: preset.filter_flags,
        i_wait_msec: preset.accept_delay,
        i_delay_msec: preset.repeat_delay,
        i_repeat_msec: preset.repeat_rate,
        i_bounce_msec: 0,
    }
}

/// The record that puts back the values kept in `backup`.
pub open spec fn keys_for_backup(backup: FilterBackup) -> FilterKeys {
    FilterKeys {
        cb_size: FILTER_KEYS_SIZE,
        dw_flags: backup.flags,
        i_wait_msec: backup.wait,
        i_delay_msec: backup.delay,
        i_repeat_msec: backup.repeat,
        i_bounce_msec: 0,
    }
}

/// The backup that keeps the values of `current`.
pub open spec fn backup_of_keys(current: FilterKeys) -> FilterBackup {
    FilterBackup {
        valid: true,
        wait: current.i_wait_msec,
        delay: current.i_delay_msec,
        repeat: current.i_repeat_msec,
        flags: current.dw_flags,
    }
}

/// The backup that keeps the values of `current`.
pub fn backup_from_keys(current: &FilterKeys) -> (r: FilterBackup)
    ensures
        r == backup_of_keys(*current),
{
    FilterBackup {
        valid: true,
        wait: current.i_wait_msec,
        delay: current.i_delay_msec,
        repeat: current.i_repeat_msec,
        flags: current.dw_flags,
    }
}

/// Restoring a backup taken of `current` writes back the values read:
/// every field but the size and the bounce time, which the record sets itself.
pub proof fn lemma_backup_round_trip(current: FilterKeys)
    ensures
        keys_for_backup(backup_of_keys(current)) == (FilterKeys {
            cb_size: FILTER_KEYS_SIZE,
            i_bounce_msec: 0,
            ..current
        }),
{
}

/// The current Filter Keys values as the user interface shows them.
#[derive(Clone, Copy, Debug, PartialEq, Eq)]
pub struct FilterSnapshot {
    pub wait: u32,
    pub delay: u32,
    pub repeat: u32,
    pub flags: u32,
}

/// The values of `current` as the user interface shows them.
pub fn filter_snapshot(current: &FilterKeys) -> (r: FilterSnapshot)
    ensures
        r == (FilterSnapshot {
            wait: current.i_wait_msec,
            delay: current.i_delay_msec,
            repeat: current.i_repeat_msec,
            flags: current.dw_flags,
        }),
{
    FilterSnapshot {
        wait: current.i_wait_msec,
        delay: current.i_delay_msec,
        repeat: current.i_repeat_msec,
        flags: current.dw_flags,
    }
}

} // verus!
