//! The persisted settings of the helper and the operations that change them
//! without touching any window.
use vstd::prelude::*;
use vstd::string::StringExecFns;
use crate::filter::{
    FilterPreset, FilterBackup, FilterKeys, default_filter_preset, is_legacy_default_spec,
    preset_in_range, preset_error_message, validate_preset, backup_of_keys, backup_from_keys,
    keys_for_backup, FILTER_KEYS_SIZE,
};
use crate::presets::NamedFilterPreset;
use crate::text::err_is;

verus! {

/// The focus guard poll interval, in milliseconds, used when no other one was chosen.
pub const DEFAULT_FOCUS_GUARD_POLL_MS: u64 = 75;

/// Whether `ms` is one of the poll intervals the focus guard offers.
pub open spec fn is_poll_option(ms: u64) -> bool {
    ms == 75 || ms == 30 || ms == 16
}

/// Returns the default focus guard poll interval.
pub fn default_focus_guard_poll_ms() -> (ms: u64)
    ensures
        ms == DEFAULT_FOCUS_GUARD_POLL_MS,
{
    DEFAULT_FOCUS_GUARD_POLL_MS
}

/// Keeps `value` when it is an offered poll interval, else gives the default.
pub fn sanitize_focus_guard_poll_ms(value: u64) -> (ms: u64)
    ensures
        ms == (if is_poll_option(value) {
            value
        } else {
            DEFAULT_FOCUS_GUARD_POLL_MS
        }),
        is_poll_option(ms),
{
    if value == 75 || value == 30 || value == 16 {
        value
    } else {
        DEFAULT_FOCUS_GUARD_POLL_MS
    }
}

/// The settings that are saved between runs.
#[derive(Debug)]
pub struct Settings {
    pub helper_noactivate: bool,
    pub helper_topmost: bool,
    pub settings_mode: bool,
    pub game_topmost: bool,
    pub focus_guard_poll_ms: u64,
    pub restore_filter_on_exit: bool,
    pub filter_on_preset: FilterPreset,
    pub filter_presets: Vec<NamedFilterPreset>,
    pub filter_backup: FilterBackup,
}

/// Whether `s` holds the settings of a first run.
pub open spec fn is_default_settings(s: Settings) -> bool {
    &&& s.helper_noactivate
    &&& s.helper_topmost
    &&& !s.settings_mode
    &&& !s.game_topmost
    &&& s.focus_guard_poll_ms == DEFAULT_FOCUS_GUARD_POLL_MS
    &&& s.restore_filter_on_exit
    &&& s.filter_on_preset == default_filter_preset()
    &&& s.filter_presets@.len() == 1
    &&& s.filter_presets@[0].name@ == "기본"@
    &&& s.filter_presets@[0].preset == default_filter_preset()
    &&& s.filter_backup == (FilterBackup { valid: false, wait: 0, delay: 0, repeat: 0, flags: 0 })
}

impl Default for Settings {
    fn default() -> (r: Self)
        ensures
            is_default_settings(r),
    {
        let mut presets: Vec<NamedFilterPreset> = Vec::new();
        presets.push(
            NamedFilterPreset { name: String::from_str("기본"), preset: FilterPreset::default() },
        );
        Settings {
            helper_noactivate: true,
            helper_topmost: true,
            settings_mode: false,
            game_topmost: false,
            focus_guard_poll_ms: DEFAULT_FOCUS_GUARD_POLL_MS,
            restore_filter_on_exit: true,
            filter_on_preset: FilterPreset::default(),
            filter_presets: presets,
            filter_backup: FilterBackup::default(),
        }
    }
}

/// Whether the helper window refuses activation and the focus guard is on:
/// both hold exactly when settings mode is off and no-activate is chosen.
pub open spec fn guard_active(s: Settings) -> bool {
    !s.settings_mode && s.helper_noactivate
}

/// The focus guard is on exactly when settings mode is off and the helper
/// window refuses activation: settings mode turns it off whatever else is
/// chosen, and so does a helper window that may take focus.
pub proof fn lemma_guard_active_exactly(s: Settings)
    ensures
        guard_active(s) <==> (!s.settings_mode && s.helper_noactivate),
        s.settings_mode ==> !guard_active(s),
        !s.helper_noactivate ==> !guard_active(s),
{
}

/// Settings `b` equal `a` except, possibly, in the listed presets' strings,
/// which are equal by their text.
pub open spec fn same_settings(a: Settings, b: Settings) -> bool {
    &&& a.helper_noactivate == b.helper_noactivate
    &&& a.helper_topmost == b.helper_topmost
    &&& a.settings_mode == b.settings_mode
    &&& a.game_topmost == b.game_topmost
    &&& a.focus_guard_poll_ms == b.focus_guard_poll_ms
    &&& a.restore_filter_on_exit == b.restore_filter_on_exit
    &&& a.filter_on_preset == b.filter_on_preset
    &&& a.filter_backup == b.filter_backup
    &&& a.filter_presets@ == b.filter_presets@
}

impl Settings {
    /// Chooses whether the helper window refuses activation.
    pub fn set_helper_noactivate(&mut self, enabled: bool)
        ensures
            *final(self) == (Settings { helper_noactivate: enabled, ..*old(self) }),
    {
        self.helper_noactivate = enabled;
    }

    /// Chooses whether the helper window stays topmost.
    pub fn set_helper_topmost(&mut self, enabled: bool)
        ensures
            *final(self) == (Settings { helper_topmost: enabled, ..*old(self) }),
    {
        self.helper_topmost = enabled;
    }

    /// Turns settings mode on or off; in settings mode the helper window can
    /// take focus and the focus guard rests.
    pub fn set_settings_mode(&mut self, enabled: bool)
        ensures
            *final(self) == (Settings { settings_mode: enabled, ..*old(self) }),
    {
        self.settings_mode = enabled;
    }

    /// Whether the helper window refuses activation, which also turns the focus guard on.
    pub fn helper_noactivate_active(&self) -> (b: bool)
        ensures
            b == guard_active(*self),
            b <==> (!self.settings_mode && self.helper_noactivate),
            self.settings_mode ==> !b,
    {
        !self.settings_mode && self.helper_noactivate
    }

    /// A copy of these settings.
    pub fn duplicate(&self) -> (r: Settings)
        ensures
            same_settings(r, *self),
    {
        let mut presets: Vec<NamedFilterPreset> = Vec::new();
        let mut i: usize = 0;
        while i < self.filter_presets.len()
            invariant
                i <= self.filter_presets@.len(),
                presets@ == self.filter_presets@.take(i as int),
            decreases self.filter_presets.len() - i,
        {
            presets.push(self.filter_presets[i].duplicate());
            proof {
                assert(self.filter_presets@.take(i + 1) =~= self.filter_presets@.take(i as int).push(
                    self.filter_presets@[i as int],
                ));
            }
            i = i + 1;
        }
        assert(self.filter_presets@.take(i as int) =~= self.filter_presets@);
        let r = Settings {
            helper_noactivate: self.helper_noactivate,
            helper_topmost: self.helper_topmost,
            settings_mode: self.settings_mode,
            game_topmost: self.game_topmost,
            focus_guard_poll_ms: self.focus_guard_poll_ms,
            restore_filter_on_exit: self.restore_filter_on_exit,
            filter_on_preset: self.filter_on_preset,
            filter_presets: presets,
            filter_backup: self.filter_backup,
        };
        r
    }
}

/// Refuses a poll interval the focus guard does not offer.
pub fn check_focus_guard_poll_ms(poll_ms: u64) -> (r: Result<(), String>)
    ensures
        r is Ok <==> is_poll_option(poll_ms),
        r is Err ==> err_is(r, "지원하는 감시 주기는 75ms, 30ms, 16ms입니다."@),
{
    if !(poll_ms == 75 || poll_ms == 30 || poll_ms == 16) {
        return Err(String::from_str("지원하는 감시 주기는 75ms, 30ms, 16ms입니다."));
    }
    Ok(())
}

/// Sets the focus guard poll interval; only the offered intervals are accepted.
pub fn set_focus_guard_poll_ms(settings: &mut Settings, poll_ms: u64) -> (r: Result<(), String>)
    ensures
        r is Ok <==> is_poll_option(poll_ms),
        r is Ok ==> *final(settings) == (Settings { focus_guard_poll_ms: poll_ms, ..*old(settings) }),
        r is Err ==> *final(settings) == *old(settings) && err_is(
            r,
            "지원하는 감시 주기는 75ms, 30ms, 16ms입니다."@,
        ),
{
    let checked = check_focus_guard_poll_ms(poll_ms);
    if checked.is_err() {
        return checked;
    }
    settings.focus_guard_poll_ms = poll_ms;
    Ok(())
}

/// Makes `preset` the active preset after checking its ranges.
pub fn save_filter_preset(settings: &mut Settings, preset: FilterPreset) -> (r: Result<(), String>)
    ensures
        r is Ok <==> preset_in_range(preset),
        r is Ok ==> *final(settings) == (Settings { filter_on_preset: preset, ..*old(settings) }),
        r is Err ==> *final(settings) == *old(settings) && err_is(r, preset_error_message(preset)),
{
    let checked = validate_preset(&preset);
    match checked {
        Err(e) => Err(e),
        Ok(()) => {
            settings.filter_on_preset = preset;
            Ok(())
        },
    }
}

/// Applies `preset` to the system's Filter Keys.
///
/// `current` is what reading the system's values gave, `applied` what writing
/// the preset's record gave. Before the first application the values read are
/// kept as the backup; a failed read stops there, and a failed write stops
/// after the backup was taken.
pub fn apply_filter_on(
    settings: &mut Settings,
    preset: FilterPreset,
    current: Result<FilterKeys, String>,
    applied: Result<(), String>,
) -> (r: Result<(), String>)
    ensures
        !preset_in_range(preset) ==> *final(settings) == *old(settings) && err_is(
            r,
            preset_error_message(preset),
        ),
        preset_in_range(preset) && !old(settings).filter_backup.valid && current is Err
            ==> *final(settings) == *old(settings) && r is Err && r->Err_0 == current->Err_0,
        preset_in_range(preset) && (old(settings).filter_backup.valid || current is Ok) ==> r
            == applied,
        preset_in_range(preset) && (old(settings).filter_backup.valid || current is Ok) ==> (
        *final(settings) == (Settings {
            filter_backup: if old(settings).filter_backup.valid {
                old(settings).filter_backup
            } else {
                backup_of_keys(current->Ok_0)
            },
            filter_on_preset: if applied is Ok {
                preset
            } else {
                old(settings).filter_on_preset
            },
            ..*old(settings)
        })),
        final(settings).filter_backup == backup_after_apply(old(settings).filter_backup, preset, current),
{
    let checked = validate_preset(&preset);
    if let Err(e) = checked {
        return Err(e);
    }
    if !settings.filter_backup.valid {
        match current {
            Err(e) => {
                return Err(e);
            },
            Ok(keys) => {
                settings.filter_backup = backup_from_keys(&keys);
            },
        }
    }
    if applied.is_ok() {
        settings.filter_on_preset = preset;
    }
    applied
}

/// The backup after one application of `preset` with `current` read: only
/// an application of a valid preset with no backup yet and a successful read
/// takes one.
pub open spec fn backup_after_apply(
    backup: FilterBackup,
    preset: FilterPreset,
    current: Result<FilterKeys, String>,
) -> FilterBackup {
    if preset_in_range(preset) && !backup.valid && current is Ok {
        backup_of_keys(current->Ok_0)
    } else {
        backup
    }
}

/// The backup after a sequence of applications, each a preset and what
/// reading the system's values gave.
pub open spec fn backup_after_applies(
    backup: FilterBackup,
    steps: Seq<(FilterPreset, Result<FilterKeys, String>)>,
) -> FilterBackup
    decreases steps.len(),
{
    if steps.len() == 0 {
        backup
    } else {
        backup_after_apply(
            backup_after_applies(backup, steps.drop_last()),
            steps.last().0,
            steps.last().1,
        )
    }
}

/// However many presets are applied, once the first one succeeded without a
/// backup, restoring writes back the values read before that first one:
/// every field but the size and the bounce time, which the record sets itself.
pub proof fn lemma_restore_after_applies(
    backup: FilterBackup,
    steps: Seq<(FilterPreset, Result<FilterKeys, String>)>,
    first_read: FilterKeys,
)
    requires
        !backup.valid,
        steps.len() >= 1,
        preset_in_range(steps[0].0),
        steps[0].1 == Ok::<FilterKeys, String>(first_read),
    ensures
        backup_after_applies(backup, steps) == backup_of_keys(first_read),
        keys_for_backup(backup_after_applies(backup, steps)) == (FilterKeys {
            cb_size: FILTER_KEYS_SIZE,
            i_bounce_msec: 0,
            ..first_read
        }),
    decreases steps.len(),
{
    let d = steps.drop_last();
    if steps.len() == 1 {
        assert(backup_after_applies(backup, d) == backup);
        assert(steps.last() == steps[0]);
    } else {
        assert(d[0] == steps[0]);
        lemma_restore_after_applies(backup, d, first_read);
        assert(backup_after_applies(backup, d).valid);
    }
}

/// Completes settings read from disk: the legacy default preset becomes the
/// current default, the poll interval is brought into the offered ones, and a
/// document that had no preset list gets one preset named "기본" holding the
/// active preset.
pub fn settle_loaded_settings(settings: Settings, missing_named_presets: bool) -> (r: Settings)
    ensures
        r.filter_on_preset == (if is_legacy_default_spec(settings.filter_on_preset) {
            default_filter_preset()
        } else {
            settings.filter_on_preset
        }),
        r.focus_guard_poll_ms == (if is_poll_option(settings.focus_guard_poll_ms) {
            settings.focus_guard_poll_ms
        } else {
            DEFAULT_FOCUS_GUARD_POLL_MS
        }),
        missing_named_presets && settings.filter_presets@.len() == 0 ==> {
            &&& r.filter_presets@.len() == 1
            &&& r.filter_presets@[0].name@ == "기본"@
            &&& r.filter_presets@[0].preset == r.filter_on_preset
        },
        !(missing_named_presets && settings.filter_presets@.len() == 0) ==> r.filter_presets
            == settings.filter_presets,
        r.helper_noactivate == settings.helper_noactivate,
        r.helper_topmost == settings.helper_topmost,
        r.settings_mode == settings.settings_mode,
        r.game_topmost == settings.game_topmost,
        r.restore_filter_on_exit == settings.restore_filter_on_exit,
        r.filter_backup == settings.filter_backup,
        is_poll_option(r.focus_guard_poll_ms),
        !is_legacy_default_spec(r.filter_on_preset),
{
    let mut settings = settings;
    if settings.filter_on_preset.is_legacy_default() {
        settings.filter_on_preset = FilterPreset::default();
    }
    settings.focus_guard_poll_ms = sanitize_focus_guard_poll_ms(settings.focus_guard_poll_ms);
    if missing_named_presets && settings.filter_presets.len() == 0 {
        settings.filter_presets.push(
            NamedFilterPreset { name: String::from_str("기본"), preset: settings.filter_on_preset },
        );
    }
    settings
}

} // verus!
