//! What the user interface is shown of the runtime state.
use vstd::prelude::*;
use crate::filter::FilterSnapshot;
use crate::focus::FocusTargetView;
use crate::settings::{Settings, same_settings};
use crate::state::RuntimeState;
use crate::windows::WindowInfo;

verus! {

/// A focus target as the user interface shows it.
#[derive(Debug)]
pub struct FocusTargetSnapshot {
    pub hwnd: isize,
    pub title: String,
    pub pid: u32,
}

/// Everything the user interface shows.
#[derive(Debug)]
pub struct AppSnapshot {
    pub settings: Settings,
    pub game: Option<WindowInfo>,
    pub available_windows: Vec<WindowInfo>,
    pub focus_targets: Vec<FocusTargetSnapshot>,
    pub focus_exceptions: Vec<WindowInfo>,
    pub filter_current: FilterSnapshot,
}

/// The predicate that a focus target's window still exists.
pub open spec fn target_alive(live: Seq<isize>) -> spec_fn(FocusTargetView) -> bool {
    |t: FocusTargetView| live.contains(t.info.hwnd)
}

/// The predicate that a window still exists.
pub open spec fn window_alive(live: Seq<isize>) -> spec_fn(WindowInfo) -> bool {
    |w: WindowInfo| live.contains(w.hwnd)
}

/// How a focus target is shown.
pub open spec fn shown_target(t: FocusTargetView) -> FocusTargetSnapshot {
    FocusTargetSnapshot { hwnd: t.info.hwnd, title: t.info.title, pid: t.info.pid }
}

fn contains_hwnd(live: &Vec<isize>, hwnd: isize) -> (b: bool)
    ensures
        b == live@.contains(hwnd),
{
    let mut i: usize = 0;
    while i < live.len()
        invariant
            i <= live@.len(),
            forall|j: int| 0 <= j < i ==> live@[j] != hwnd,
        decreases live.len() - i,
    {
        if live[i] == hwnd {
            assert(live@[i as int] == hwnd);
            return true;
        }
        i = i + 1;
    }
    false
}

/// What the user interface is shown of `state`: its settings, the game window
/// and the focus targets and exemptions whose windows still exist (`live`
/// lists the windows that do), the windows that can be chosen, and the
/// current Filter Keys values.
pub fn snapshot(
    state: &RuntimeState,
    live: &Vec<isize>,
    available_windows: Vec<WindowInfo>,
    filter_current: FilterSnapshot,
) -> (r: AppSnapshot)
    ensures
        same_settings(r.settings, state.settings),
        r.game == (match state.game {
            Some(g) => if live@.contains(g.hwnd) {
                Some(g)
            } else {
                None
            },
            None => None,
        }),
        r.available_windows == available_windows,
        r.focus_targets@ == state.targets().filter(target_alive(live@)).map_values(
            |t: FocusTargetView| shown_target(t),
        ),
        r.focus_exceptions@ == state.focus_exceptions@.filter(window_alive(live@)),
        r.filter_current == filter_current,
{
    let settings = state.settings.duplicate();
    let game = match &state.game {
        Some(g) => if contains_hwnd(live, g.hwnd) {
            Some(g.duplicate())
        } else {
            None
        },
        None => None,
    };
    let ghost tv = state.targets();
    let ghost alive_t = target_alive(live@);
    let mut targets: Vec<FocusTargetSnapshot> = Vec::new();
    let mut i: usize = 0;
    while i < state.focus_targets.len()
        invariant
            i <= state.focus_targets@.len(),
            tv == state.targets(),
            alive_t == target_alive(live@),
            targets@ == tv.take(i as int).filter(alive_t).map_values(
                |t: FocusTargetView| shown_target(t),
            ),
        decreases state.focus_targets.len() - i,
    {
        let t = &state.focus_targets[i];
        proof {
            assert(tv.take(i + 1) =~= tv.take(i as int).push(tv[i as int]));
            tv.take(i as int).lemma_filter_push(tv[i as int], alive_t);
        }
        if contains_hwnd(live, t.info.hwnd) {
            targets.push(
                FocusTargetSnapshot { hwnd: t.info.hwnd, title: t.info.title.clone(), pid: t.info.pid },
            );
            proof {
                let f = tv.take(i as int).filter(alive_t);
                assert(f.push(tv[i as int]).map_values(|t: FocusTargetView| shown_target(t))
                    =~= f.map_values(|t: FocusTargetView| shown_target(t)).push(
                    shown_target(tv[i as int]),
                ));
            }
        }
        i = i + 1;
    }
    assert(tv.take(i as int) =~= tv);
    let ghost ex = state.focus_exceptions@;
    let ghost alive_w = window_alive(live@);
    let mut exceptions: Vec<WindowInfo> = Vec::new();
    let mut j: usize = 0;
    while j < state.focus_exceptions.len()
        invariant
            j <= state.focus_exceptions@.len(),
            ex == state.focus_exceptions@,
            alive_w == window_alive(live@),
            exceptions@ == ex.take(j as int).filter(alive_w),
        decreases state.focus_exceptions.len() - j,
    {
        let w = &state.focus_exceptions[j];
        proof {
            assert(ex.take(j + 1) =~= ex.take(j as int).push(ex[j as int]));
            ex.take(j as int).lemma_filter_push(ex[j as int], alive_w);
        }
        if contains_hwnd(live, w.hwnd) {
            exceptions.push(w.duplicate());
        }
        j = j + 1;
    }
    assert(ex.take(j as int) =~= ex);
    AppSnapshot {
        settings,
        game,
        available_windows,
        focus_targets: targets,
        focus_exceptions: exceptions,
        filter_current,
    }
}

} // verus!
