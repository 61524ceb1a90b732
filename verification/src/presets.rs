//! Named Filter Keys presets: names are trimmed, at most 32 characters long,
//! and looked up without regard to ASCII case.
use vstd::prelude::*;
use vstd::string::StrSliceExecFns;
use vstd::string::StringExecFns;
use crate::filter::{
    FilterPreset, FilterBackup, FilterKeys, default_filter_preset, is_legacy_default_spec,
    preset_in_range, preset_error_message, validate_preset, backup_of_keys, backup_from_keys,
};
use crate::seqs::{first_index, lemma_first_index, lemma_first_index_props};
use crate::settings::Settings;
use crate::text::{
    chars_of, err_is, eq_ignore_ascii_case, eq_ignore_ascii_case_spec,
    lemma_eq_ignore_ascii_case_equivalence, lemma_trim_idempotent,
    trim_bounds, trim_spec,
};

verus! {

/// The longest accepted preset name, in characters.
pub const MAX_PRESET_NAME_CHARS: usize = 32;

/// A preset saved under a name.
#[derive(Debug)]
pub struct NamedFilterPreset {
    pub name: String,
    pub preset: FilterPreset,
}

impl NamedFilterPreset {
    /// A copy of this named preset.
    pub fn duplicate(&self) -> (r: NamedFilterPreset)
        ensures
            r == *self,
    {
        NamedFilterPreset { name: self.name.clone(), preset: self.preset }
    }
}

/// The predicate that a saved preset answers to `name`.
pub open spec fn answers_to(name: Seq<char>) -> spec_fn(NamedFilterPreset) -> bool {
    |p: NamedFilterPreset| eq_ignore_ascii_case_spec(p.name@, name)
}

/// The preset that a lookup of `name` finds: the first one that answers to it.
pub open spec fn lookup_preset(presets: Seq<NamedFilterPreset>, name: Seq<char>) -> Option<
    FilterPreset,
> {
    match first_index(presets, answers_to(name)) {
        Some(i) => Some(presets[i].preset),
        None => None,
    }
}

/// `new` is `old` after saving `preset` under `name`: the first preset that
/// answers to `name` is replaced, or, when none does, one is added at the end.
pub open spec fn upserted(
    old: Seq<NamedFilterPreset>,
    new: Seq<NamedFilterPreset>,
    name: Seq<char>,
    preset: FilterPreset,
) -> bool {
    match first_index(old, answers_to(name)) {
        Some(i) => {
            &&& new.len() == old.len()
            &&& new[i].name@ == name
            &&& new[i].preset == preset
            &&& forall|j: int| 0 <= j < old.len() && j != i ==> new[j] == old[j]
        },
        None => {
            &&& new.len() == old.len() + 1
            &&& new.drop_last() == old
            &&& new.last().name@ == name
            &&& new.last().preset == preset
        },
    }
}

/// What a preset name becomes: `Ok` with the trimmed name when it holds
/// 1 to 32 characters.
pub open spec fn normalized_name_ok(name: Seq<char>) -> bool {
    0 < trim_spec(name).len() <= MAX_PRESET_NAME_CHARS
}

/// Trims a preset name and checks its length.
pub fn normalize_preset_name(name: String) -> (r: Result<String, String>)
    ensures
        trim_spec(name@).len() == 0 ==> err_is(r, "프리셋 이름을 입력하세요."@),
        trim_spec(name@).len() > MAX_PRESET_NAME_CHARS ==> err_is(
            r,
            "프리셋 이름은 32자 이하로 입력하세요."@,
        ),
        normalized_name_ok(name@) ==> (r matches Ok(n) && n@ == trim_spec(name@)),
{
    let s = name.as_str();
    let chars = chars_of(s);
    let (a, b) = trim_bounds(&chars);
    if a == b {
        return Err(String::from_str("프리셋 이름을 입력하세요."));
    }
    if b - a > MAX_PRESET_NAME_CHARS {
        return Err(String::from_str("프리셋 이름은 32자 이하로 입력하세요."));
    }
    Ok(String::from_str(s.substring_char(a, b)))
}

/// Normalizing a normalized name gives it back.
pub proof fn lemma_normalize_idempotent(name: Seq<char>)
    requires
        normalized_name_ok(name),
    ensures
        normalized_name_ok(trim_spec(name)),
        trim_spec(trim_spec(name)) == trim_spec(name),
{
    lemma_trim_idempotent(name);
}

/// The position of the first preset that answers to `name`.
pub fn find_named_preset(presets: &Vec<NamedFilterPreset>, name: &str) -> (r: Option<usize>)
    ensures
        r matches Some(i) ==> i < presets@.len() && first_index(presets@, answers_to(name@)) == Some(
            i as int,
        ),
        r is None ==> first_index(presets@, answers_to(name@)) is None,
{
    let mut i: usize = 0;
    while i < presets.len()
        invariant
            i <= presets@.len(),
            forall|j: int| 0 <= j < i ==> !(#[trigger] answers_to(name@)(presets@[j])),
        decreases presets.len() - i,
    {
        if eq_ignore_ascii_case(presets[i].name.as_str(), name) {
            proof {
                lemma_first_index(presets@, answers_to(name@), i as int);
            }
            return Some(i);
        }
        i = i + 1;
    }
    proof {
        lemma_first_index(presets@, answers_to(name@), i as int);
    }
    None
}

/// Saves `preset` under `name` and makes it the active preset.
pub fn save_named_filter_preset(settings: &mut Settings, name: String, preset: FilterPreset) -> (r:
    Result<(), String>)
    ensures
        !preset_in_range(preset) ==> *final(settings) == *old(settings) && err_is(
            r,
            preset_error_message(preset),
        ),
        preset_in_range(preset) && trim_spec(name@).len() == 0 ==> *final(settings) == *old(
            settings,
        ) && err_is(r, "프리셋 이름을 입력하세요."@),
        preset_in_range(preset) && trim_spec(name@).len() > MAX_PRESET_NAME_CHARS
            ==> *final(settings) == *old(settings) && err_is(
            r,
            "프리셋 이름은 32자 이하로 입력하세요."@,
        ),
        preset_in_range(preset) && normalized_name_ok(name@) ==> {
            &&& r is Ok
            &&& upserted(
                old(settings).filter_presets@,
                final(settings).filter_presets@,
                trim_spec(name@),
                preset,
            )
            &&& final(settings).filter_on_preset == preset
            &&& final(settings).helper_noactivate == old(settings).helper_noactivate
            &&& final(settings).helper_topmost == old(settings).helper_topmost
            &&& final(settings).settings_mode == old(settings).settings_mode
            &&& final(settings).game_topmost == old(settings).game_topmost
            &&& final(settings).focus_guard_poll_ms == old(settings).focus_guard_poll_ms
            &&& final(settings).restore_filter_on_exit == old(settings).restore_filter_on_exit
            &&& final(settings).filter_backup == old(settings).filter_backup
        },
{
    let checked = validate_preset(&preset);
    if let Err(e) = checked {
        return Err(e);
    }
    let normalized = normalize_preset_name(name);
    let name = match normalized {
        Err(e) => {
            return Err(e);
        },
        Ok(n) => n,
    };
    let found = find_named_preset(&settings.filter_presets, name.as_str());
    match found {
        Some(i) => {
            settings.filter_presets.set(i, NamedFilterPreset { name, preset });
        },
        None => {
            settings.filter_presets.push(NamedFilterPreset { name, preset });
            assert(settings.filter_presets@.drop_last() =~= old(settings).filter_presets@);
        },
    }
    settings.filter_on_preset = preset;
    Ok(())
}

/// Makes the preset saved under `name` the active one.
pub fn load_named_filter_preset(settings: &mut Settings, name: String) -> (r: Result<(), String>)
    ensures
        trim_spec(name@).len() == 0 ==> *final(settings) == *old(settings) && err_is(
            r,
            "프리셋 이름을 입력하세요."@,
        ),
        trim_spec(name@).len() > MAX_PRESET_NAME_CHARS ==> *final(settings) == *old(settings)
            && err_is(r, "프리셋 이름은 32자 이하로 입력하세요."@),
        normalized_name_ok(name@) && lookup_preset(old(settings).filter_presets@, trim_spec(name@))
            is None ==> *final(settings) == *old(settings) && err_is(
            r,
            "프리셋을 찾지 못했습니다."@,
        ),
        normalized_name_ok(name@) && lookup_preset(old(settings).filter_presets@, trim_spec(name@))
            is Some ==> r is Ok && *final(settings) == (Settings {
            filter_on_preset: lookup_preset(old(settings).filter_presets@, trim_spec(name@))->0,
            ..*old(settings)
        }),
{
    let normalized = normalize_preset_name(name);
    let name = match normalized {
        Err(e) => {
            return Err(e);
        },
        Ok(n) => n,
    };
    let found = find_named_preset(&settings.filter_presets, name.as_str());
    match found {
        None => Err(String::from_str("프리셋을 찾지 못했습니다.")),
        Some(i) => {
            settings.filter_on_preset = settings.filter_presets[i].preset;
            Ok(())
        },
    }
}

/// Removes every saved preset that answers to `name`; it is an error when none does.
pub fn delete_named_filter_preset(settings: &mut Settings, name: String) -> (r: Result<(), String>)
    ensures
        trim_spec(name@).len() == 0 ==> *final(settings) == *old(settings) && err_is(
            r,
            "프리셋 이름을 입력하세요."@,
        ),
        trim_spec(name@).len() > MAX_PRESET_NAME_CHARS ==> *final(settings) == *old(settings)
            && err_is(r, "프리셋 이름은 32자 이하로 입력하세요."@),
        normalized_name_ok(name@) && lookup_preset(old(settings).filter_presets@, trim_spec(name@))
            is None ==> *final(settings) == *old(settings) && err_is(
            r,
            "삭제할 프리셋을 찾지 못했습니다."@,
        ),
        normalized_name_ok(name@) && lookup_preset(old(settings).filter_presets@, trim_spec(name@))
            is Some ==> r is Ok && *final(settings) == (Settings {
            filter_presets: final(settings).filter_presets,
            ..*old(settings)
        }) && final(settings).filter_presets@ == old(settings).filter_presets@.filter(
            |p: NamedFilterPreset| !answers_to(trim_spec(name@))(p),
        ),
{
    let normalized = normalize_preset_name(name);
    let name = match normalized {
        Err(e) => {
            return Err(e);
        },
        Ok(n) => n,
    };
    let ghost keep = |p: NamedFilterPreset| !answers_to(name@)(p);
    let mut kept: Vec<NamedFilterPreset> = Vec::new();
    let mut i: usize = 0;
    while i < settings.filter_presets.len()
        invariant
            i <= settings.filter_presets@.len(),
            keep == (|p: NamedFilterPreset| !answers_to(name@)(p)),
            kept@ == settings.filter_presets@.take(i as int).filter(keep),
        decreases settings.filter_presets.len() - i,
    {
        let matched = eq_ignore_ascii_case(settings.filter_presets[i].name.as_str(), name.as_str());
        proof {
            let s = settings.filter_presets@;
            assert(s.take(i + 1).drop_last() =~= s.take(i as int));
            reveal_with_fuel(Seq::filter, 1);
        }
        if !matched {
            kept.push(settings.filter_presets[i].duplicate());
        }
        i = i + 1;
    }
    assert(settings.filter_presets@.take(i as int) =~= settings.filter_presets@);
    proof {
        lemma_first_index_props(settings.filter_presets@, answers_to(name@));
        broadcast use vstd::seq_lib::group_filter_ensures;

        if first_index(settings.filter_presets@, answers_to(name@)) is Some {
            let k = first_index(settings.filter_presets@, answers_to(name@))->0;
            let s = settings.filter_presets@;
            if s.filter(keep).len() == s.len() {
                lemma_filter_full(s, keep);
                assert(keep(s[k]));
            }
        } else {
            lemma_filter_none_removed(settings.filter_presets@, keep);
        }
    }
    if kept.len() == settings.filter_presets.len() {
        return Err(String::from_str("삭제할 프리셋을 찾지 못했습니다."));
    }
    settings.filter_presets = kept;
    Ok(())
}

proof fn lemma_filter_full<A>(s: Seq<A>, p: spec_fn(A) -> bool)
    requires
        s.filter(p).len() == s.len(),
    ensures
        forall|i: int| 0 <= i < s.len() ==> p(#[trigger] s[i]),
    decreases s.len(),
{
    reveal_with_fuel(Seq::filter, 1);
    if s.len() > 0 {
        broadcast use vstd::seq_lib::group_filter_ensures;

        if !p(s.last()) {
            assert(s.filter(p) == s.drop_last().filter(p));
        }
        lemma_filter_full(s.drop_last(), p);
        assert forall|i: int| 0 <= i < s.len() implies p(#[trigger] s[i]) by {
            if i < s.len() - 1 {
                assert(s[i] == s.drop_last()[i]);
            }
        }
    }
}

proof fn lemma_filter_none_removed<A>(s: Seq<A>, p: spec_fn(A) -> bool)
    requires
        forall|i: int| 0 <= i < s.len() ==> p(#[trigger] s[i]),
    ensures
        s.filter(p) == s,
    decreases s.len(),
{
    reveal_with_fuel(Seq::filter, 1);
    if s.len() > 0 {
        assert forall|i: int| 0 <= i < s.len() - 1 implies p(#[trigger] s.drop_last()[i]) by {
            assert(s.drop_last()[i] == s[i]);
        }
        lemma_filter_none_removed(s.drop_last(), p);
        assert(p(s.last()));
        assert(s.drop_last().push(s.last()) =~= s);
    }
}

/// No two saved presets answer to each other's names.
pub open spec fn distinct_names(s: Seq<NamedFilterPreset>) -> bool {
    forall|i: int, j: int|
        0 <= i < s.len() && 0 <= j < s.len() && i != j ==> !eq_ignore_ascii_case_spec(
            #[trigger] s[i].name@,
            #[trigger] s[j].name@,
        )
}

/// After a preset is saved under a name, looking that name up finds it.
pub proof fn lemma_lookup_after_save(
    old: Seq<NamedFilterPreset>,
    new: Seq<NamedFilterPreset>,
    name: Seq<char>,
    preset: FilterPreset,
)
    requires
        upserted(old, new, name, preset),
    ensures
        lookup_preset(new, name) == Some(preset),
{
    let p = answers_to(name);
    lemma_first_index_props(old, p);
    lemma_eq_ignore_ascii_case_equivalence(name, name, name);
    match first_index(old, p) {
        Some(i) => {
            assert forall|j: int| 0 <= j < i implies !p(#[trigger] new[j]) by {
                assert(new[j] == old[j]);
            }
            lemma_first_index(new, p, i);
        },
        None => {
            assert forall|j: int| 0 <= j < new.len() - 1 implies !p(#[trigger] new[j]) by {
                assert(new[j] == new.drop_last()[j]);
            }
            lemma_first_index(new, p, new.len() - 1);
        },
    }
}

/// After the presets that answer to a name are deleted, looking it up finds nothing.
pub proof fn lemma_lookup_after_delete(s: Seq<NamedFilterPreset>, name: Seq<char>)
    ensures
        lookup_preset(s.filter(|p: NamedFilterPreset| !answers_to(name)(p)), name) is None,
{
    let keep = |p: NamedFilterPreset| !answers_to(name)(p);
    let t = s.filter(keep);
    broadcast use vstd::seq_lib::group_filter_ensures;

    assert forall|j: int| 0 <= j < t.len() implies !answers_to(name)(#[trigger] t[j]) by {
        assert(keep(t[j]));
    }
    lemma_first_index(t, answers_to(name), t.len() as int);
}

/// Saving keeps the saved names distinct up to ASCII case.
pub proof fn lemma_save_keeps_names_distinct(
    old: Seq<NamedFilterPreset>,
    new: Seq<NamedFilterPreset>,
    name: Seq<char>,
    preset: FilterPreset,
)
    requires
        distinct_names(old),
        upserted(old, new, name, preset),
    ensures
        distinct_names(new),
{
    let p = answers_to(name);
    lemma_first_index_props(old, p);
    match first_index(old, p) {
        Some(i) => {
            assert forall|a: int, b: int|
                0 <= a < new.len() && 0 <= b < new.len() && a != b implies !eq_ignore_ascii_case_spec(
                #[trigger] new[a].name@,
                #[trigger] new[b].name@,
            ) by {
                if a == i {
                    lemma_eq_ignore_ascii_case_equivalence(old[i].name@, name, old[b].name@);
                    lemma_eq_ignore_ascii_case_equivalence(name, old[b].name@, old[i].name@);
                    lemma_eq_ignore_ascii_case_equivalence(old[b].name@, old[i].name@, name);
                    assert(new[b] == old[b]);
                    assert(!eq_ignore_ascii_case_spec(old[i].name@, old[b].name@));
                } else if b == i {
                    lemma_eq_ignore_ascii_case_equivalence(old[i].name@, name, old[a].name@);
                    lemma_eq_ignore_ascii_case_equivalence(old[a].name@, name, old[i].name@);
                    lemma_eq_ignore_ascii_case_equivalence(name, old[i].name@, old[a].name@);
                    assert(new[a] == old[a]);
                    assert(!eq_ignore_ascii_case_spec(old[a].name@, old[i].name@));
                } else {
                    assert(new[a] == old[a]);
                    assert(new[b] == old[b]);
                }
            }
        },
        None => {
            let n = old.len() as int;
            assert forall|a: int, b: int|
                0 <= a < new.len() && 0 <= b < new.len() && a != b implies !eq_ignore_ascii_case_spec(
                #[trigger] new[a].name@,
                #[trigger] new[b].name@,
            ) by {
                if a < n {
                    assert(new[a] == old[a]);
                }
                if b < n {
                    assert(new[b] == old[b]);
                }
                if a == n {
                    assert(!p(old[b]));
                } else if b == n {
                    assert(!p(old[a]));
                    lemma_eq_ignore_ascii_case_equivalence(old[a].name@, name, name);
                }
            }
        },
    }
}

/// Looking up two names that are equal up to ASCII case finds the same preset.
pub proof fn lemma_lookup_ignores_ascii_case(s: Seq<NamedFilterPreset>, a: Seq<char>, b: Seq<char>)
    requires
        eq_ignore_ascii_case_spec(a, b),
    ensures
        lookup_preset(s, a) == lookup_preset(s, b),
{
    assert forall|x: NamedFilterPreset| #[trigger] answers_to(a)(x) == answers_to(b)(x) by {
        lemma_eq_ignore_ascii_case_equivalence(x.name@, a, b);
        lemma_eq_ignore_ascii_case_equivalence(x.name@, b, a);
        lemma_eq_ignore_ascii_case_equivalence(a, b, b);
    }
    assert(answers_to(a) =~= answers_to(b));
}

} // verus!
