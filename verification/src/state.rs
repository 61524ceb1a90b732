//! The helper's runtime state: the game window, the windows kept from taking
//! focus, and the windows exempted from that. Every operation keeps a window
//! in at most one of the two lists, and at most once in it.
use vstd::prelude::*;
use vstd::string::StringExecFns;
use crate::filter::{FilterKeys, keys_for_backup};
use crate::focus::{
    FocusTarget, FocusTargetView, WindowExStyleSnapshot, WindowProbe, merged_snapshots,
    remember_child_ex_styles, target_from_probe,
};
use crate::seqs::{first_index, lemma_first_index, lemma_first_index_props, lemma_first_index_push};
use crate::settings::{Settings, guard_active};
use crate::text::err_is;
use crate::windows::{WindowInfo, same_root_spec, same_root_window};

verus! {

/// The state the helper keeps while it runs.
#[derive(Debug)]
pub struct RuntimeState {
    pub settings: Settings,
    pub game: Option<WindowInfo>,
    pub game_original_topmost: Option<bool>,
    pub focus_targets: Vec<FocusTarget>,
    pub focus_exceptions: Vec<WindowInfo>,
}

/// The focus targets as values.
pub open spec fn targets_view(targets: Seq<FocusTarget>) -> Seq<FocusTargetView> {
    targets.map_values(|t: FocusTarget| t@)
}

/// The predicate that a focus target is of window `hwnd`.
pub open spec fn target_of(hwnd: isize) -> spec_fn(FocusTargetView) -> bool {
    |t: FocusTargetView| t.info.hwnd == hwnd
}

/// The predicate that an exempted window is `hwnd`.
pub open spec fn window_of(hwnd: isize) -> spec_fn(WindowInfo) -> bool {
    |w: WindowInfo| w.hwnd == hwnd
}

/// Where the focus target of `hwnd` stands, if there is one.
pub open spec fn target_position(targets: Seq<FocusTargetView>, hwnd: isize) -> Option<int> {
    first_index(targets, target_of(hwnd))
}

/// Where the exemption of `hwnd` stands, if there is one.
pub open spec fn exception_position(exceptions: Seq<WindowInfo>, hwnd: isize) -> Option<int> {
    first_index(exceptions, window_of(hwnd))
}

/// Whether `hwnd` is the game window.
pub open spec fn is_game(game: Option<WindowInfo>, hwnd: isize) -> bool {
    match game {
        Some(g) => g.hwnd == hwnd,
        None => false,
    }
}

/// Each window is a focus target at most once and exempted at most once,
/// and never both.
pub open spec fn lists_wf(targets: Seq<FocusTargetView>, exceptions: Seq<WindowInfo>) -> bool {
    &&& forall|i: int, j: int|
        0 <= i < j < targets.len() ==> #[trigger] targets[i].info.hwnd
            != #[trigger] targets[j].info.hwnd
    &&& forall|i: int, j: int|
        0 <= i < j < exceptions.len() ==> #[trigger] exceptions[i].hwnd
            != #[trigger] exceptions[j].hwnd
    &&& forall|i: int, j: int|
        0 <= i < targets.len() && 0 <= j < exceptions.len() ==> #[trigger] targets[i].info.hwnd
            != #[trigger] exceptions[j].hwnd
}

/// `targets` after a probe of a window that is to be kept from focus: an
/// existing target of that window takes the new record and the styles of new
/// child windows, keeping every style recorded before; otherwise the probe
/// becomes a new target at the end.
pub open spec fn targeted(targets: Seq<FocusTargetView>, probe: WindowProbe) -> Seq<FocusTargetView> {
    match target_position(targets, probe.info.hwnd) {
        Some(i) => targets.update(
            i,
            FocusTargetView {
                info: probe.info,
                original_ex_style: targets[i].original_ex_style,
                original_child_ex_styles: merged_snapshots(
                    targets[i].original_child_ex_styles,
                    probe.child_ex_styles@,
                ),
            },
        ),
        None => targets.push(target_from_probe(probe)),
    }
}

/// `targets` without the target of `hwnd`.
pub open spec fn without_target(targets: Seq<FocusTargetView>, hwnd: isize) -> Seq<FocusTargetView> {
    match target_position(targets, hwnd) {
        Some(i) => targets.remove(i),
        None => targets,
    }
}

/// `exceptions` with `info` in place of the entry of its window, or added at the end.
pub open spec fn upsert_exception(exceptions: Seq<WindowInfo>, info: WindowInfo) -> Seq<WindowInfo> {
    match exception_position(exceptions, info.hwnd) {
        Some(j) => exceptions.update(j, info),
        None => exceptions.push(info),
    }
}

impl RuntimeState {
    /// The focus targets as values.
    pub open spec fn targets(&self) -> Seq<FocusTargetView> {
        targets_view(self.focus_targets@)
    }

    /// The state's invariant.
    pub open spec fn wf(&self) -> bool {
        lists_wf(self.targets(), self.focus_exceptions@)
    }

    /// The state at start-up: the given settings, no game, no targets, no exemptions.
    pub fn new(settings: Settings) -> (s: RuntimeState)
        ensures
            s.wf(),
            s.settings == settings,
            s.game is None,
            s.game_original_topmost is None,
            s.focus_targets@.len() == 0,
            s.focus_exceptions@.len() == 0,
    {
        RuntimeState {
            settings,
            game: None,
            game_original_topmost: None,
            focus_targets: Vec::new(),
            focus_exceptions: Vec::new(),
        }
    }

    /// Where the focus target of `hwnd` stands.
    pub fn focus_target_index(&self, hwnd: isize) -> (r: Option<usize>)
        ensures
            r matches Some(i) ==> i < self.focus_targets@.len() && target_position(
                self.targets(),
                hwnd,
            ) == Some(i as int),
            r is None ==> target_position(self.targets(), hwnd) is None,
    {
        let mut i: usize = 0;
        while i < self.focus_targets.len()
            invariant
                i <= self.focus_targets@.len(),
                forall|j: int| 0 <= j < i ==> !(#[trigger] target_of(hwnd)(self.targets()[j])),
            decreases self.focus_targets.len() - i,
        {
            if self.focus_targets[i].info.hwnd == hwnd {
                proof {
                    lemma_first_index(self.targets(), target_of(hwnd), i as int);
                }
                return Some(i);
            }
            i = i + 1;
        }
        proof {
            lemma_first_index(self.targets(), target_of(hwnd), i as int);
        }
        None
    }

    /// Where the exemption of `hwnd` stands.
    pub fn exception_index(&self, hwnd: isize) -> (r: Option<usize>)
        ensures
            r matches Some(i) ==> i < self.focus_exceptions@.len() && exception_position(
                self.focus_exceptions@,
                hwnd,
            ) == Some(i as int),
            r is None ==> exception_position(self.focus_exceptions@, hwnd) is None,
    {
        let mut i: usize = 0;
        while i < self.focus_exceptions.len()
            invariant
                i <= self.focus_exceptions@.len(),
                forall|j: int|
                    0 <= j < i ==> !(#[trigger] window_of(hwnd)(self.focus_exceptions@[j])),
            decreases self.focus_exceptions.len() - i,
        {
            if self.focus_exceptions[i].hwnd == hwnd {
                proof {
                    lemma_first_index(self.focus_exceptions@, window_of(hwnd), i as int);
                }
                return Some(i);
            }
            i = i + 1;
        }
        proof {
            lemma_first_index(self.focus_exceptions@, window_of(hwnd), i as int);
        }
        None
    }

    /// Whether `hwnd` is the game window.
    pub fn is_game_window(&self, hwnd: isize) -> (b: bool)
        ensures
            b == is_game(self.game, hwnd),
    {
        match &self.game {
            Some(g) => g.hwnd == hwnd,
            None => false,
        }
    }

    /// Removes and returns the focus target of `hwnd`, if there is one.
    pub fn take_focus_target(&mut self, hwnd: isize) -> (r: Option<FocusTarget>)
        requires
            old(self).wf(),
        ensures
            final(self).wf(),
            final(self).targets() == without_target(old(self).targets(), hwnd),
            r is Some <==> target_position(old(self).targets(), hwnd) is Some,
            r matches Some(t) ==> t@ == old(self).targets()[target_position(
                old(self).targets(),
                hwnd,
            )->0],
            final(self).settings == old(self).settings,
            final(self).game == old(self).game,
            final(self).game_original_topmost == old(self).game_original_topmost,
            final(self).focus_exceptions == old(self).focus_exceptions,
            forall|x: FocusTargetView| #[trigger] old(self).targets().contains(x) && x.info.hwnd != hwnd
                ==> final(self).targets().contains(x),
            final(self).targets().len() == old(self).targets().len() - (if r is Some {
                1int
            } else {
                0int
            }),
    {
        proof {
            lemma_without_target_spares_others(old(self).targets(), hwnd);
            lemma_first_index_props(old(self).targets(), target_of(hwnd));
        }
        let found = self.focus_target_index(hwnd);
        match found {
            None => None,
            Some(i) => {
                let t = self.focus_targets.remove(i);
                proof {
                    assert(self.targets() =~= old(self).targets().remove(i as int));
                    lemma_remove_keeps_wf(old(self).targets(), self.focus_exceptions@, i as int);
                }
                Some(t)
            },
        }
    }

    /// Refuses to keep from focus the helper's own windows, the game window
    /// and exempted windows, in that order.
    pub fn check_focus_target(&self, info: &WindowInfo, own_pid: u32) -> (r: Result<(), String>)
        ensures
            r is Ok <==> (info.pid != own_pid && !is_game(self.game, info.hwnd)
                && exception_position(self.focus_exceptions@, info.hwnd) is None),
            info.pid == own_pid ==> err_is(r, "Maple Utils 창은 대상에 추가할 수 없습니다."@),
            info.pid != own_pid && is_game(self.game, info.hwnd) ==> err_is(
                r,
                "게임 창은 포커스 차단 대상이 아닙니다. Firefox 같은 보조 창을 선택하세요."@,
            ),
            info.pid != own_pid && !is_game(self.game, info.hwnd) && exception_position(
                self.focus_exceptions@,
                info.hwnd,
            ) is Some ==> err_is(
                r,
                "입력 허용 예외로 등록된 창입니다. 먼저 예외에서 제거하세요."@,
            ),
    {
        if info.pid == own_pid {
            return Err(String::from_str("Maple Utils 창은 대상에 추가할 수 없습니다."));
        }
        if self.is_game_window(info.hwnd) {
            return Err(
                String::from_str(
                    "게임 창은 포커스 차단 대상이 아닙니다. Firefox 같은 보조 창을 선택하세요.",
                ),
            );
        }
        if self.exception_index(info.hwnd).is_some() {
            return Err(
                String::from_str("입력 허용 예외로 등록된 창입니다. 먼저 예외에서 제거하세요."),
            );
        }
        Ok(())
    }

    /// Keeps the probed window from taking focus.
    ///
    /// The helper's own windows, the game window and exempted windows are
    /// refused, in that order; otherwise the window becomes a focus target, or,
    /// when it is one already, its record and child styles are brought up to date.
    pub fn apply_focus_target_in_state(&mut self, probe: WindowProbe, own_pid: u32) -> (r: Result<
        (),
        String,
    >)
        requires
            old(self).wf(),
        ensures
            final(self).wf(),
            probe.info.pid == own_pid ==> *final(self) == *old(self) && err_is(
                r,
                "Maple Utils 창은 대상에 추가할 수 없습니다."@,
            ),
            probe.info.pid != own_pid && is_game(old(self).game, probe.info.hwnd) ==> *final(self)
                == *old(self) && err_is(
                r,
                "게임 창은 포커스 차단 대상이 아닙니다. Firefox 같은 보조 창을 선택하세요."@,
            ),
            probe.info.pid != own_pid && !is_game(old(self).game, probe.info.hwnd)
                && exception_position(old(self).focus_exceptions@, probe.info.hwnd) is Some
                ==> *final(self) == *old(self) && err_is(
                r,
                "입력 허용 예외로 등록된 창입니다. 먼저 예외에서 제거하세요."@,
            ),
            probe.info.pid != own_pid && !is_game(old(self).game, probe.info.hwnd)
                && exception_position(old(self).focus_exceptions@, probe.info.hwnd) is None ==> {
                &&& r is Ok
                &&& final(self).targets() == targeted(old(self).targets(), probe)
                &&& (exists|k: int|
                    0 <= k < old(self).targets().len() && #[trigger] old(self).targets()[k].info.hwnd
                        == probe.info.hwnd) ==> final(self).targets().len()
                    == old(self).targets().len()
                &&& (forall|k: int|
                    0 <= k < old(self).targets().len() ==> #[trigger] old(self).targets()[k].info.hwnd
                        != probe.info.hwnd) ==> final(self).targets().len()
                    == old(self).targets().len() + 1
                &&& forall|j: int|
                    0 <= j < old(self).targets().len() && old(self).targets()[j].info.hwnd
                        != probe.info.hwnd ==> #[trigger] final(self).targets()[j]
                        == old(self).targets()[j]
                &&& final(self).settings == old(self).settings
                &&& final(self).game == old(self).game
                &&& final(self).game_original_topmost == old(self).game_original_topmost
                &&& final(self).focus_exceptions == old(self).focus_exceptions
            },
    {
        let hwnd = probe.info.hwnd;
        let checked = self.check_focus_target(&probe.info, own_pid);
        if checked.is_err() {
            return checked;
        }
        let ghost before = self.targets();
        let found = self.focus_target_index(hwnd);
        proof {
            lemma_first_index_props(self.focus_exceptions@, window_of(hwnd));
            lemma_first_index_props(before, target_of(hwnd));
        }
        proof {
            lemma_targeted_spares_others(before, probe);
        }
        match found {
            Some(i) => {
                let WindowProbe { info, ex_style: _, child_ex_styles } = probe;
                let mut target = self.focus_targets.remove(i);
                target.info = info;
                remember_child_ex_styles(&mut target, child_ex_styles);
                self.focus_targets.insert(i, target);
                proof {
                    assert(self.targets() =~= targeted(before, probe));
                    lemma_update_keeps_wf(
                        before,
                        self.focus_exceptions@,
                        i as int,
                        self.targets()[i as int],
                    );
                }
            },
            None => {
                let WindowProbe { info, ex_style, child_ex_styles } = probe;
                self.focus_targets.push(
                    FocusTarget {
                        info,
                        original_ex_style: ex_style,
                        original_child_ex_styles: child_ex_styles,
                    },
                );
                proof {
                    assert(self.targets() =~= targeted(before, probe));
                    lemma_push_keeps_wf(before, self.focus_exceptions@, self.targets().last());
                }
            },
        }
        Ok(())
    }
}


impl RuntimeState {
    /// Refuses to exempt the helper's own windows and the game window.
    pub fn check_focus_exception(&self, info: &WindowInfo, own_pid: u32) -> (r: Result<(), String>)
        ensures
            r is Ok <==> (info.pid != own_pid && !is_game(self.game, info.hwnd)),
            info.pid == own_pid ==> err_is(r, "Maple Utils 창은 예외로 등록할 필요가 없습니다."@),
            info.pid != own_pid && is_game(self.game, info.hwnd) ==> err_is(
                r,
                "게임 창은 항상 예외입니다."@,
            ),
    {
        if info.pid == own_pid {
            return Err(String::from_str("Maple Utils 창은 예외로 등록할 필요가 없습니다."));
        }
        if self.is_game_window(info.hwnd) {
            return Err(String::from_str("게임 창은 항상 예외입니다."));
        }
        Ok(())
    }

    /// Exempts a window from the focus guard.
    ///
    /// A focus target of the window stops being one; `restored` is what putting
    /// its windows' styles back gave, and when that failed the window is not
    /// exempted. The exemption takes the place of an earlier one of the window.
    pub fn add_focus_exception_in_state(
        &mut self,
        info: WindowInfo,
        own_pid: u32,
        restored: Result<(), String>,
    ) -> (r: Result<(), String>)
        requires
            old(self).wf(),
        ensures
            final(self).wf(),
            info.pid == own_pid ==> *final(self) == *old(self) && err_is(
                r,
                "Maple Utils 창은 예외로 등록할 필요가 없습니다."@,
            ),
            info.pid != own_pid && is_game(old(self).game, info.hwnd) ==> *final(self) == *old(self)
                && err_is(r, "게임 창은 항상 예외입니다."@),
            info.pid != own_pid && !is_game(old(self).game, info.hwnd) ==> {
                let removed = target_position(old(self).targets(), info.hwnd) is Some;
                &&& final(self).targets() == without_target(old(self).targets(), info.hwnd)
                &&& removed && restored is Err ==> r == restored && final(self).focus_exceptions
                    == old(self).focus_exceptions
                &&& !(removed && restored is Err) ==> r is Ok && final(self).focus_exceptions@
                    == upsert_exception(old(self).focus_exceptions@, info)
                &&& !(removed && restored is Err) ==> final(self).focus_exceptions@.contains(info)
                &&& !(removed && restored is Err) ==> forall|j: int|
                    0 <= j < old(self).focus_exceptions@.len() && old(self).focus_exceptions@[j].hwnd
                        != info.hwnd ==> #[trigger] final(self).focus_exceptions@[j]
                        == old(self).focus_exceptions@[j]
                &&& !(removed && restored is Err) ==> final(self).focus_exceptions@.len()
                    == old(self).focus_exceptions@.len() + (if exists|k: int|
                    0 <= k < old(self).focus_exceptions@.len()
                        && #[trigger] old(self).focus_exceptions@[k].hwnd == info.hwnd {
                    0int
                } else {
                    1int
                })
                &&& final(self).settings == old(self).settings
                &&& final(self).game == old(self).game
                &&& final(self).game_original_topmost == old(self).game_original_topmost
            },
    {
        let checked = self.check_focus_exception(&info, own_pid);
        if checked.is_err() {
            return checked;
        }
        let taken = self.take_focus_target(info.hwnd);
        if taken.is_some() && restored.is_err() {
            return restored;
        }
        let ghost mid = self.targets();
        let found = self.exception_index(info.hwnd);
        proof {
            lemma_upsert_spares_others(old(self).focus_exceptions@, info);
            lemma_first_index_props(self.focus_exceptions@, window_of(info.hwnd));
            lemma_first_index_props(mid, target_of(info.hwnd));
            lemma_without_target_absent(old(self).targets(), old(self).focus_exceptions@, info.hwnd);
        }
        match found {
            Some(j) => {
                self.focus_exceptions.set(j, info);
                proof {
                    lemma_exception_update_keeps_wf(mid, old(self).focus_exceptions@, j as int, self.focus_exceptions@[j as int]);
                }
            },
            None => {
                self.focus_exceptions.push(info);
                proof {
                    lemma_exception_push_keeps_wf(mid, old(self).focus_exceptions@, self.focus_exceptions@.last());
                }
            },
        }
        Ok(())
    }

    /// Removes the exemption of `hwnd`, if there is one.
    pub fn remove_focus_exception(&mut self, hwnd: isize)
        requires
            old(self).wf(),
        ensures
            final(self).wf(),
            final(self).focus_exceptions@ == without_exception(old(self).focus_exceptions@, hwnd),
            final(self).settings == old(self).settings,
            final(self).game == old(self).game,
            final(self).game_original_topmost == old(self).game_original_topmost,
            final(self).focus_targets == old(self).focus_targets,
            forall|w: WindowInfo| #[trigger] old(self).focus_exceptions@.contains(w) && w.hwnd != hwnd
                ==> final(self).focus_exceptions@.contains(w),
    {
        proof {
            lemma_without_exception_spares_others(old(self).focus_exceptions@, hwnd);
        }
        let found = self.exception_index(hwnd);
        if let Some(j) = found {
            self.focus_exceptions.remove(j);
            proof {
                lemma_exception_remove_keeps_wf(old(self).targets(), old(self).focus_exceptions@, j as int);
            }
        }
    }

    /// Removes every exemption.
    pub fn clear_focus_exceptions(&mut self)
        requires
            old(self).wf(),
        ensures
            final(self).wf(),
            final(self).focus_exceptions@.len() == 0,
            final(self).settings == old(self).settings,
            final(self).game == old(self).game,
            final(self).game_original_topmost == old(self).game_original_topmost,
            final(self).focus_targets == old(self).focus_targets,
    {
        self.focus_exceptions.clear();
    }

    /// Removes and returns every focus target, in order, so that their
    /// windows can be put back.
    pub fn restore_all_focus_targets(&mut self) -> (targets: Vec<FocusTarget>)
        requires
            old(self).wf(),
        ensures
            final(self).wf(),
            targets_view(targets@) == old(self).targets(),
            final(self).focus_targets@.len() == 0,
            final(self).settings == old(self).settings,
            final(self).game == old(self).game,
            final(self).game_original_topmost == old(self).game_original_topmost,
            final(self).focus_exceptions == old(self).focus_exceptions,
    {
        let mut targets: Vec<FocusTarget> = Vec::new();
        std::mem::swap(&mut targets, &mut self.focus_targets);
        proof {
            assert(self.targets() =~= Seq::<FocusTargetView>::empty());
        }
        targets
    }
}

impl RuntimeState {
    /// Refuses the helper's own windows as the game window.
    pub fn check_game_window(&self, info: &WindowInfo, own_pid: u32) -> (r: Result<(), String>)
        ensures
            r is Ok <==> info.pid != own_pid,
            info.pid == own_pid ==> err_is(
                r,
                "Maple Utils 창은 키 입력 받을 창으로 지정할 수 없습니다."@,
            ),
    {
        if info.pid == own_pid {
            return Err(String::from_str("Maple Utils 창은 키 입력 받을 창으로 지정할 수 없습니다."));
        }
        Ok(())
    }

    /// Makes a window the game window.
    ///
    /// A focus target of the window stops being one; `restored` is what putting
    /// its windows' styles back gave, and when that failed nothing else changes.
    /// Otherwise the window loses any exemption, `topmost` (whether it was
    /// topmost) is remembered, and it becomes the game window.
    pub fn select_game_window_in_state(
        &mut self,
        info: WindowInfo,
        own_pid: u32,
        restored: Result<(), String>,
        topmost: bool,
    ) -> (r: Result<(), String>)
        requires
            old(self).wf(),
        ensures
            final(self).wf(),
            info.pid == own_pid ==> *final(self) == *old(self) && err_is(
                r,
                "Maple Utils 창은 키 입력 받을 창으로 지정할 수 없습니다."@,
            ),
            info.pid != own_pid ==> {
                let removed = target_position(old(self).targets(), info.hwnd) is Some;
                &&& final(self).targets() == without_target(old(self).targets(), info.hwnd)
                &&& final(self).settings == old(self).settings
                &&& removed && restored is Err ==> {
                    &&& r == restored
                    &&& final(self).focus_exceptions == old(self).focus_exceptions
                    &&& final(self).game == old(self).game
                    &&& final(self).game_original_topmost == old(self).game_original_topmost
                }
                &&& !(removed && restored is Err) ==> {
                    &&& r is Ok
                    &&& final(self).focus_exceptions@ == without_exception(
                        old(self).focus_exceptions@,
                        info.hwnd,
                    )
                    &&& final(self).game == Some(info)
                    &&& final(self).game_original_topmost == Some(topmost)
                    &&& target_position(final(self).targets(), info.hwnd) is None
                    &&& exception_position(final(self).focus_exceptions@, info.hwnd) is None
                }
            },
    {
        let checked = self.check_game_window(&info, own_pid);
        if checked.is_err() {
            return checked;
        }
        let taken = self.take_focus_target(info.hwnd);
        if taken.is_some() && restored.is_err() {
            return restored;
        }
        proof {
            lemma_without_target_absent(old(self).targets(), old(self).focus_exceptions@, info.hwnd);
        }
        self.remove_focus_exception(info.hwnd);
        proof {
            lemma_without_exception_absent(old(self).focus_exceptions@, info.hwnd);
        }
        self.game_original_topmost = Some(topmost);
        self.game = Some(info);
        Ok(())
    }

    /// Makes the foreground window the game window, remembering whether it was
    /// topmost; the helper's own windows are refused.
    pub fn select_foreground_game(&mut self, info: WindowInfo, own_pid: u32, topmost: bool) -> (r:
        Result<(), String>)
        requires
            old(self).wf(),
        ensures
            final(self).wf(),
            info.pid == own_pid ==> *final(self) == *old(self) && err_is(
                r,
                "보조 창이 선택되었습니다. 설정 모드를 끄고 게임 창을 활성화한 뒤 다시 선택하세요."@,
            ),
            info.pid != own_pid ==> r is Ok && *final(self) == (RuntimeState {
                game: Some(info),
                game_original_topmost: Some(topmost),
                ..*old(self)
            }),
    {
        if info.pid == own_pid {
            return Err(
                String::from_str(
                    "보조 창이 선택되었습니다. 설정 모드를 끄고 게임 창을 활성화한 뒤 다시 선택하세요.",
                ),
            );
        }
        self.game_original_topmost = Some(topmost);
        self.game = Some(info);
        Ok(())
    }

    /// The game window, which applying the focus guard to all other windows needs.
    pub fn focus_all_game_hwnd(&self) -> (r: Result<isize, String>)
        ensures
            self.game matches Some(g) ==> r == Ok::<isize, String>(g.hwnd),
            self.game is None ==> err_is(r, "먼저 게임 창을 지정하세요."@),
    {
        match &self.game {
            Some(g) => Ok(g.hwnd),
            None => Err(String::from_str("먼저 게임 창을 지정하세요.")),
        }
    }

    /// The game window, which changing its topmost state needs.
    pub fn topmost_game_hwnd(&self) -> (r: Result<isize, String>)
        ensures
            self.game matches Some(g) ==> r == Ok::<isize, String>(g.hwnd),
            self.game is None ==> err_is(r, "먼저 게임 창을 선택하세요."@),
    {
        match &self.game {
            Some(g) => Ok(g.hwnd),
            None => Err(String::from_str("먼저 게임 창을 선택하세요.")),
        }
    }

    /// Records a change of the game window's topmost state.
    ///
    /// `topmost_now` is whether the game window is topmost before the change;
    /// it is remembered when nothing was remembered yet. `applied` is what
    /// making the change gave; the setting follows only a change that was made.
    pub fn set_game_topmost(&mut self, enabled: bool, topmost_now: bool, applied: Result<(), String>) -> (r:
        Result<(), String>)
        requires
            old(self).wf(),
        ensures
            final(self).wf(),
            old(self).game is None ==> *final(self) == *old(self) && err_is(
                r,
                "먼저 게임 창을 선택하세요."@,
            ),
            old(self).game is Some ==> {
                &&& r == applied
                &&& final(self).game_original_topmost == (match old(self).game_original_topmost {
                    Some(t) => Some(t),
                    None => Some(topmost_now),
                })
                &&& final(self).settings.game_topmost == (if applied is Ok {
                    enabled
                } else {
                    old(self).settings.game_topmost
                })
                &&& final(self).game == old(self).game
                &&& final(self).focus_targets == old(self).focus_targets
                &&& final(self).focus_exceptions == old(self).focus_exceptions
                &&& final(self).settings.filter_presets == old(self).settings.filter_presets
                &&& final(self).settings.helper_noactivate == old(self).settings.helper_noactivate
                &&& final(self).settings.helper_topmost == old(self).settings.helper_topmost
                &&& final(self).settings.settings_mode == old(self).settings.settings_mode
                &&& final(self).settings.focus_guard_poll_ms == old(self).settings.focus_guard_poll_ms
                &&& final(self).settings.restore_filter_on_exit
                    == old(self).settings.restore_filter_on_exit
                &&& final(self).settings.filter_on_preset == old(self).settings.filter_on_preset
                &&& final(self).settings.filter_backup == old(self).settings.filter_backup
            },
    {
        let required = self.topmost_game_hwnd();
        if let Err(e) = required {
            return Err(e);
        }
        if self.game_original_topmost.is_none() {
            self.game_original_topmost = Some(topmost_now);
        }
        if applied.is_ok() {
            self.settings.game_topmost = enabled;
        }
        applied
    }

    /// The game window to bring to the foreground: there is one only while the
    /// focus guard is on and the game window still exists.
    pub fn game_to_foreground(&self, game_alive: bool) -> (r: Option<isize>)
        ensures
            r == (if guard_active(self.settings) && self.game is Some && game_alive {
                Some(self.game->0.hwnd)
            } else {
                None::<isize>
            }),
            self.settings.settings_mode || !self.settings.helper_noactivate ==> r is None,
            !self.settings.settings_mode && self.settings.helper_noactivate && game_alive
                ==> r == (match self.game {
                Some(g) => Some(g.hwnd),
                None => None::<isize>,
            }),
    {
        if !self.settings.helper_noactivate_active() {
            return None;
        }
        match &self.game {
            Some(g) => if game_alive {
                Some(g.hwnd)
            } else {
                None
            },
            None => None,
        }
    }

    /// The Filter Keys record that puts back the saved values; it is an error
    /// when none were saved.
    pub fn restore_filter_from_state(&self) -> (r: Result<FilterKeys, String>)
        ensures
            self.settings.filter_backup.valid ==> r == Ok::<FilterKeys, String>(
                keys_for_backup(self.settings.filter_backup),
            ),
            !self.settings.filter_backup.valid ==> err_is(r, "복원할 필터키 백업이 없습니다."@),
    {
        if !self.settings.filter_backup.valid {
            return Err(String::from_str("복원할 필터키 백업이 없습니다."));
        }
        let backup = self.settings.filter_backup;
        Ok(
            FilterKeys {
                cb_size: crate::filter::FILTER_KEYS_SIZE,
                dw_flags: backup.flags,
                i_wait_msec: backup.wait,
                i_delay_msec: backup.delay,
                i_repeat_msec: backup.repeat,
                i_bounce_msec: 0,
            },
        )
    }

    /// What to undo when the helper exits, with the focus targets handed over
    /// (and removed) so that their windows can be put back.
    pub fn cleanup(&mut self) -> (plan: CleanupPlan)
        requires
            old(self).wf(),
        ensures
            final(self).wf(),
            plan.filter_restore == (if old(self).settings.restore_filter_on_exit
                && old(self).settings.filter_backup.valid {
                Some(keys_for_backup(old(self).settings.filter_backup))
            } else {
                None::<FilterKeys>
            }),
            plan.untopmost_game == (if old(self).game is Some && old(self).settings.game_topmost
                && old(self).game_original_topmost == Some(false) {
                Some(old(self).game->0.hwnd)
            } else {
                None::<isize>
            }),
            targets_view(plan.targets@) == old(self).targets(),
            final(self).focus_targets@.len() == 0,
            final(self).settings == old(self).settings,
            final(self).game == old(self).game,
            final(self).game_original_topmost == old(self).game_original_topmost,
            final(self).focus_exceptions == old(self).focus_exceptions,
    {
        let filter_restore = if self.settings.restore_filter_on_exit {
            match self.restore_filter_from_state() {
                Ok(keys) => Some(keys),
                Err(_) => None,
            }
        } else {
            None
        };
        let untopmost_game = match &self.game {
            Some(g) => if self.settings.game_topmost && self.game_original_topmost == Some(false) {
                Some(g.hwnd)
            } else {
                None
            },
            None => None,
        };
        let targets = self.restore_all_focus_targets();
        CleanupPlan { filter_restore, untopmost_game, targets }
    }
}

/// What probing one listed window gave while the focus guard was being
/// applied to all windows, and whether making it refuse activation worked.
#[derive(Debug)]
pub struct WindowObservation {
    pub probe: WindowProbe,
    pub noactivate_applied: bool,
}

/// Whether applying the focus guard to all windows leaves `info` alone: the
/// game window, the helper's own windows and exempted windows.
pub open spec fn focus_all_skips(
    exceptions: Seq<WindowInfo>,
    game_hwnd: isize,
    own_pid: u32,
    info: WindowInfo,
) -> bool {
    info.hwnd == game_hwnd || info.pid == own_pid || exception_position(exceptions, info.hwnd) is Some
}

/// `t` with the target at `i` recording the styles of new child windows.
pub open spec fn refreshed(
    t: Seq<FocusTargetView>,
    i: int,
    captured: Seq<WindowExStyleSnapshot>,
) -> Seq<FocusTargetView> {
    t.update(
        i,
        FocusTargetView {
            original_child_ex_styles: merged_snapshots(t[i].original_child_ex_styles, captured),
            ..t[i]
        },
    )
}

/// The focus targets after one listed window was handled: skipped windows
/// change nothing, an existing target records new child styles, and another
/// window becomes a target when making it refuse activation worked.
pub open spec fn focus_all_step(
    t: Seq<FocusTargetView>,
    exceptions: Seq<WindowInfo>,
    game_hwnd: isize,
    own_pid: u32,
    obs: WindowObservation,
) -> Seq<FocusTargetView> {
    if focus_all_skips(exceptions, game_hwnd, own_pid, obs.probe.info) {
        t
    } else {
        match target_position(t, obs.probe.info.hwnd) {
            Some(i) => refreshed(t, i, obs.probe.child_ex_styles@),
            None => if obs.noactivate_applied {
                t.push(target_from_probe(obs.probe))
            } else {
                t
            },
        }
    }
}

/// The focus targets after every listed window was handled in turn.
pub open spec fn focus_all_fold(
    t: Seq<FocusTargetView>,
    exceptions: Seq<WindowInfo>,
    game_hwnd: isize,
    own_pid: u32,
    observations: Seq<WindowObservation>,
) -> Seq<FocusTargetView>
    decreases observations.len(),
{
    if observations.len() == 0 {
        t
    } else {
        focus_all_step(
            focus_all_fold(t, exceptions, game_hwnd, own_pid, observations.drop_last()),
            exceptions,
            game_hwnd,
            own_pid,
            observations.last(),
        )
    }
}

/// The first focus target that shares a root window with the foreground window.
pub open spec fn first_shared_root(
    t: Seq<FocusTargetView>,
    foreground: isize,
    foreground_ancestor: isize,
    target_ancestors: Seq<isize>,
) -> Option<int> {
    first_index(
        Seq::new(
            t.len(),
            |i: int|
                same_root_spec(
                    foreground,
                    t[i].info.hwnd,
                    foreground_ancestor,
                    target_ancestors[i],
                ),
        ),
        |b: bool| b,
    )
}

impl RuntimeState {
    /// Whether applying the focus guard to all windows leaves `info` alone.
    pub fn focus_all_skips(&self, game_hwnd: isize, own_pid: u32, info: &WindowInfo) -> (b: bool)
        ensures
            b == focus_all_skips(self.focus_exceptions@, game_hwnd, own_pid, *info),
    {
        info.hwnd == game_hwnd || info.pid == own_pid || self.exception_index(info.hwnd).is_some()
    }

    /// Records the styles of new child windows of the focus target at `index`.
    pub fn refresh_focus_target(&mut self, index: usize, captured: Vec<WindowExStyleSnapshot>)
        requires
            old(self).wf(),
            index < old(self).focus_targets@.len(),
        ensures
            final(self).wf(),
            final(self).targets() == refreshed(old(self).targets(), index as int, captured@),
            final(self).settings == old(self).settings,
            final(self).game == old(self).game,
            final(self).game_original_topmost == old(self).game_original_topmost,
            final(self).focus_exceptions == old(self).focus_exceptions,
    {
        let ghost before = self.targets();
        let mut target = self.focus_targets.remove(index);
        remember_child_ex_styles(&mut target, captured);
        self.focus_targets.insert(index, target);
        proof {
            assert(self.targets() =~= refreshed(before, index as int, captured@));
            lemma_update_keeps_wf(
                before,
                self.focus_exceptions@,
                index as int,
                self.targets()[index as int],
            );
        }
    }

    /// Keeps every listed window but the game window, the helper's own
    /// windows and exempted ones from taking focus; it is an error when no
    /// game window was chosen. `observations` holds, in order, what probing
    /// each listed window gave.
    pub fn apply_focus_all_non_game(&mut self, own_pid: u32, observations: Vec<WindowObservation>) -> (r:
        Result<(), String>)
        requires
            old(self).wf(),
        ensures
            final(self).wf(),
            old(self).game is None ==> *final(self) == *old(self) && err_is(
                r,
                "먼저 게임 창을 지정하세요."@,
            ),
            old(self).game is Some ==> {
                &&& r is Ok
                &&& final(self).targets() == focus_all_fold(
                    old(self).targets(),
                    old(self).focus_exceptions@,
                    old(self).game->0.hwnd,
                    own_pid,
                    observations@,
                )
                &&& final(self).settings == old(self).settings
                &&& final(self).game == old(self).game
                &&& final(self).game_original_topmost == old(self).game_original_topmost
                &&& final(self).focus_exceptions == old(self).focus_exceptions
            },
    {
        let game_hwnd = match self.focus_all_game_hwnd() {
            Ok(h) => h,
            Err(e) => {
                return Err(e);
            },
        };
        let ghost start = self.targets();
        let ghost all = observations@;
        let mut i: usize = 0;
        for obs in it: observations.into_iter()
            invariant
                it.seq() == all,
                0 <= it.index() <= all.len(),
                self.wf(),
                self.targets() == focus_all_fold(
                    start,
                    self.focus_exceptions@,
                    game_hwnd,
                    own_pid,
                    all.take(it.index() as int),
                ),
                self.settings == old(self).settings,
                self.game == old(self).game,
                game_hwnd == old(self).game->0.hwnd,
                self.game_original_topmost == old(self).game_original_topmost,
                self.focus_exceptions == old(self).focus_exceptions,
                start == old(self).targets(),
        {
            let ghost k = it.index();
            proof {
                assert(all.take(k + 1).drop_last() =~= all.take(k));
            }
            self.apply_focus_all_step(game_hwnd, own_pid, obs);
        }
        proof {
            assert(all.take(all.len() as int) =~= all);
        }
        Ok(())
    }

    fn apply_focus_all_step(&mut self, game_hwnd: isize, own_pid: u32, obs: WindowObservation)
        requires
            old(self).wf(),
        ensures
            final(self).wf(),
            final(self).targets() == focus_all_step(
                old(self).targets(),
                old(self).focus_exceptions@,
                game_hwnd,
                own_pid,
                obs,
            ),
            final(self).settings == old(self).settings,
            final(self).game == old(self).game,
            final(self).game_original_topmost == old(self).game_original_topmost,
            final(self).focus_exceptions == old(self).focus_exceptions,
    {
        if self.focus_all_skips(game_hwnd, own_pid, &obs.probe.info) {
            return;
        }
        let ghost before = self.targets();
        let found = self.focus_target_index(obs.probe.info.hwnd);
        match found {
            Some(i) => {
                let WindowObservation { probe, noactivate_applied: _ } = obs;
                let WindowProbe { info: _, ex_style: _, child_ex_styles } = probe;
                self.refresh_focus_target(i, child_ex_styles);
            },
            None => {
                if obs.noactivate_applied {
                    proof {
                        lemma_first_index_props(self.focus_exceptions@, window_of(obs.probe.info.hwnd));
                    }
                    let WindowObservation { probe, noactivate_applied: _ } = obs;
                    let WindowProbe { info, ex_style, child_ex_styles } = probe;
                    self.focus_targets.push(
                        FocusTarget {
                            info,
                            original_ex_style: ex_style,
                            original_child_ex_styles: child_ex_styles,
                        },
                    );
                    proof {
                        assert(self.targets() =~= before.push(self.targets().last()));
                        lemma_push_keeps_wf(before, self.focus_exceptions@, self.targets().last());
                    }
                }
            },
        }
    }

    /// The game window the focus guard brings back when the foreground window
    /// shares a root window with a focus target, together with the position
    /// of the first such target.
    ///
    /// Nothing is brought back while the guard is off, without a game window,
    /// when the game window no longer exists, or when the foreground window
    /// shares a root with the game window. The ancestors are what the system
    /// reports as the root ancestor of the foreground window, of the game
    /// window and of each focus target, in order.
    pub fn focus_guard_game_to_restore(
        &self,
        foreground: isize,
        foreground_ancestor: isize,
        game_alive: bool,
        game_ancestor: isize,
        target_ancestors: &Vec<isize>,
    ) -> (r: Option<(isize, usize)>)
        requires
            target_ancestors@.len() == self.focus_targets@.len(),
        ensures
            !(guard_active(self.settings) && self.game is Some && game_alive && !same_root_spec(
                foreground,
                self.game->0.hwnd,
                foreground_ancestor,
                game_ancestor,
            )) ==> r is None,
            guard_active(self.settings) && self.game is Some && game_alive && !same_root_spec(
                foreground,
                self.game->0.hwnd,
                foreground_ancestor,
                game_ancestor,
            ) ==> r == (match first_shared_root(
                self.targets(),
                foreground,
                foreground_ancestor,
                target_ancestors@,
            ) {
                Some(i) => Some((self.game->0.hwnd, i as usize)),
                None => None::<(isize, usize)>,
            }),
            r matches Some(p) ==> p.1 < self.focus_targets@.len(),
            self.settings.settings_mode || !self.settings.helper_noactivate ==> r is None,
    {
        if !self.settings.helper_noactivate_active() {
            return None;
        }
        let game_hwnd = match &self.game {
            Some(g) => g.hwnd,
            None => {
                return None;
            },
        };
        if !game_alive || same_root_window(foreground, game_hwnd, foreground_ancestor, game_ancestor) {
            return None;
        }
        let ghost shared = Seq::new(
            self.targets().len(),
            |i: int|
                same_root_spec(
                    foreground,
                    self.targets()[i].info.hwnd,
                    foreground_ancestor,
                    target_ancestors@[i],
                ),
        );
        let mut i: usize = 0;
        while i < self.focus_targets.len()
            invariant
                i <= self.focus_targets@.len(),
                target_ancestors@.len() == self.focus_targets@.len(),
                shared.len() == self.focus_targets@.len(),
                shared == Seq::new(
                    self.targets().len(),
                    |i: int|
                        same_root_spec(
                            foreground,
                            self.targets()[i].info.hwnd,
                            foreground_ancestor,
                            target_ancestors@[i],
                        ),
                ),
                forall|j: int| 0 <= j < i ==> !(#[trigger] shared[j]),
                guard_active(self.settings),
                self.game is Some,
                game_hwnd == self.game->0.hwnd,
                game_alive,
                !same_root_spec(foreground, game_hwnd, foreground_ancestor, game_ancestor),
            decreases self.focus_targets.len() - i,
        {
            if same_root_window(
                foreground,
                self.focus_targets[i].info.hwnd,
                foreground_ancestor,
                target_ancestors[i],
            ) {
                proof {
                    lemma_first_index(shared, |b: bool| b, i as int);
                }
                return Some((game_hwnd, i));
            }
            i = i + 1;
        }
        proof {
            lemma_first_index(shared, |b: bool| b, i as int);
        }
        None
    }
}

/// What to undo when the helper exits: the Filter Keys record to write back,
/// the game window to make non-topmost again, and the focus targets whose
/// windows to put back.
#[derive(Debug)]
pub struct CleanupPlan {
    pub filter_restore: Option<FilterKeys>,
    pub untopmost_game: Option<isize>,
    pub targets: Vec<FocusTarget>,
}

/// Fails when there is no foreground window.
pub fn require_foreground_window(hwnd: isize) -> (r: Result<(), String>)
    ensures
        r is Ok <==> hwnd != 0,
        hwnd == 0 ==> err_is(r, "현재 활성 창을 찾지 못했습니다."@),
{
    if hwnd == 0 {
        return Err(String::from_str("현재 활성 창을 찾지 못했습니다."));
    }
    Ok(())
}

proof fn lemma_without_exception_absent(e: Seq<WindowInfo>, hwnd: isize)
    requires
        forall|i: int, j: int| 0 <= i < j < e.len() ==> #[trigger] e[i].hwnd != #[trigger] e[j].hwnd,
    ensures
        exception_position(without_exception(e, hwnd), hwnd) is None,
{
    lemma_first_index_props(e, window_of(hwnd));
    let r = without_exception(e, hwnd);
    if exception_position(e, hwnd) is Some {
        let i = exception_position(e, hwnd)->0;
        assert forall|a: int| 0 <= a < r.len() implies !(#[trigger] window_of(hwnd)(r[a])) by {
            let a2 = if a < i { a } else { a + 1 };
            assert(r[a] == e[a2]);
            assert(e[a2].hwnd != e[i].hwnd);
        }
    }
    lemma_first_index(r, window_of(hwnd), r.len() as int);
}

/// `exceptions` without the exemption of `hwnd`.
pub open spec fn without_exception(exceptions: Seq<WindowInfo>, hwnd: isize) -> Seq<WindowInfo> {
    match exception_position(exceptions, hwnd) {
        Some(j) => exceptions.remove(j),
        None => exceptions,
    }
}

proof fn lemma_without_target_absent(t: Seq<FocusTargetView>, e: Seq<WindowInfo>, hwnd: isize)
    requires
        lists_wf(t, e),
    ensures
        target_position(without_target(t, hwnd), hwnd) is None,
        lists_wf(without_target(t, hwnd), e),
{
    lemma_first_index_props(t, target_of(hwnd));
    let r = without_target(t, hwnd);
    match target_position(t, hwnd) {
        Some(i) => {
            lemma_remove_keeps_wf(t, e, i);
            assert forall|a: int| 0 <= a < r.len() implies !(#[trigger] target_of(hwnd)(r[a])) by {
                let a2 = if a < i { a } else { a + 1 };
                assert(r[a] == t[a2]);
                assert(t[a2].info.hwnd != t[i].info.hwnd);
            }
        },
        None => {},
    }
    lemma_first_index(r, target_of(hwnd), r.len() as int);
}

proof fn lemma_exception_update_keeps_wf(t: Seq<FocusTargetView>, e: Seq<WindowInfo>, j: int, x: WindowInfo)
    requires
        lists_wf(t, e),
        0 <= j < e.len(),
        x.hwnd == e[j].hwnd,
    ensures
        lists_wf(t, e.update(j, x)),
{
    let r = e.update(j, x);
    assert forall|a: int, b: int| 0 <= a < b < r.len() implies #[trigger] r[a].hwnd != #[trigger] r[b].hwnd by {
        assert(r[a].hwnd == e[a].hwnd && r[b].hwnd == e[b].hwnd);
    }
    assert forall|a: int, b: int| 0 <= a < t.len() && 0 <= b < r.len() implies #[trigger] t[a].info.hwnd
        != #[trigger] r[b].hwnd by {
        assert(r[b].hwnd == e[b].hwnd);
    }
}

proof fn lemma_exception_push_keeps_wf(t: Seq<FocusTargetView>, e: Seq<WindowInfo>, x: WindowInfo)
    requires
        lists_wf(t, e),
        target_position(t, x.hwnd) is None,
        exception_position(e, x.hwnd) is None,
    ensures
        lists_wf(t, e.push(x)),
{
    lemma_first_index_props(t, target_of(x.hwnd));
    lemma_first_index_props(e, window_of(x.hwnd));
    let r = e.push(x);
    assert forall|a: int, b: int| 0 <= a < b < r.len() implies #[trigger] r[a].hwnd != #[trigger] r[b].hwnd by {
        if b == e.len() {
            assert(!window_of(x.hwnd)(e[a]));
        } else {
            assert(r[a] == e[a] && r[b] == e[b]);
        }
    }
    assert forall|a: int, b: int| 0 <= a < t.len() && 0 <= b < r.len() implies #[trigger] t[a].info.hwnd
        != #[trigger] r[b].hwnd by {
        if b == e.len() {
            assert(!target_of(x.hwnd)(t[a]));
        } else {
            assert(r[b] == e[b]);
        }
    }
}

proof fn lemma_exception_remove_keeps_wf(t: Seq<FocusTargetView>, e: Seq<WindowInfo>, j: int)
    requires
        lists_wf(t, e),
        0 <= j < e.len(),
    ensures
        lists_wf(t, e.remove(j)),
{
    let r = e.remove(j);
    assert forall|a: int, b: int| 0 <= a < b < r.len() implies #[trigger] r[a].hwnd != #[trigger] r[b].hwnd by {
        let a2 = if a < j { a } else { a + 1 };
        let b2 = if b < j { b } else { b + 1 };
        assert(r[a] == e[a2] && r[b] == e[b2]);
    }
    assert forall|a: int, b: int| 0 <= a < t.len() && 0 <= b < r.len() implies #[trigger] t[a].info.hwnd
        != #[trigger] r[b].hwnd by {
        let b2 = if b < j { b } else { b + 1 };
        assert(r[b] == e[b2]);
    }
}

proof fn lemma_remove_keeps_wf(t: Seq<FocusTargetView>, e: Seq<WindowInfo>, i: int)
    requires
        lists_wf(t, e),
        0 <= i < t.len(),
    ensures
        lists_wf(t.remove(i), e),
{
    let r = t.remove(i);
    assert forall|a: int, b: int| 0 <= a < b < r.len() implies #[trigger] r[a].info.hwnd
        != #[trigger] r[b].info.hwnd by {
        let a2 = if a < i { a } else { a + 1 };
        let b2 = if b < i { b } else { b + 1 };
        assert(r[a] == t[a2] && r[b] == t[b2]);
    }
    assert forall|a: int, b: int| 0 <= a < r.len() && 0 <= b < e.len() implies #[trigger] r[a].info.hwnd
        != #[trigger] e[b].hwnd by {
        let a2 = if a < i { a } else { a + 1 };
        assert(r[a] == t[a2]);
    }
}

proof fn lemma_update_keeps_wf(t: Seq<FocusTargetView>, e: Seq<WindowInfo>, i: int, x: FocusTargetView)
    requires
        lists_wf(t, e),
        0 <= i < t.len(),
        x.info.hwnd == t[i].info.hwnd,
    ensures
        lists_wf(t.update(i, x), e),
{
    let r = t.update(i, x);
    assert forall|a: int, b: int| 0 <= a < b < r.len() implies #[trigger] r[a].info.hwnd
        != #[trigger] r[b].info.hwnd by {
        assert(r[a].info.hwnd == t[a].info.hwnd && r[b].info.hwnd == t[b].info.hwnd);
    }
    assert forall|a: int, b: int| 0 <= a < r.len() && 0 <= b < e.len() implies #[trigger] r[a].info.hwnd
        != #[trigger] e[b].hwnd by {
        assert(r[a].info.hwnd == t[a].info.hwnd);
    }
}

proof fn lemma_push_keeps_wf(t: Seq<FocusTargetView>, e: Seq<WindowInfo>, x: FocusTargetView)
    requires
        lists_wf(t, e),
        target_position(t, x.info.hwnd) is None,
        exception_position(e, x.info.hwnd) is None,
    ensures
        lists_wf(t.push(x), e),
{
    lemma_first_index_props(t, target_of(x.info.hwnd));
    lemma_first_index_props(e, window_of(x.info.hwnd));
    let r = t.push(x);
    assert forall|a: int, b: int| 0 <= a < b < r.len() implies #[trigger] r[a].info.hwnd
        != #[trigger] r[b].info.hwnd by {
        if b == t.len() {
            assert(!target_of(x.info.hwnd)(t[a]));
        } else {
            assert(r[a] == t[a] && r[b] == t[b]);
        }
    }
    assert forall|a: int, b: int| 0 <= a < r.len() && 0 <= b < e.len() implies #[trigger] r[a].info.hwnd
        != #[trigger] e[b].hwnd by {
        if a == t.len() {
            assert(!window_of(x.info.hwnd)(e[b]));
        } else {
            assert(r[a] == t[a]);
        }
    }
}

/// Keeping a window from focus makes it a focus target; when it was one
/// already, the style it had before the helper first changed it, and every
/// child style recorded before, stay as they were.
pub proof fn lemma_targeted_keeps_originals(t: Seq<FocusTargetView>, probe: WindowProbe)
    ensures
        target_position(targeted(t, probe), probe.info.hwnd) is Some,
        target_position(t, probe.info.hwnd) matches Some(i) ==> {
            &&& targeted(t, probe)[i].original_ex_style == t[i].original_ex_style
            &&& targeted(t, probe)[i].original_child_ex_styles.take(
                t[i].original_child_ex_styles.len() as int,
            ) == t[i].original_child_ex_styles
        },
{
    let h = probe.info.hwnd;
    lemma_first_index_props(t, target_of(h));
    let r = targeted(t, probe);
    match target_position(t, h) {
        Some(i) => {
            crate::focus::lemma_merge_keeps_recorded(
                t[i].original_child_ex_styles,
                probe.child_ex_styles@,
            );
            assert forall|j: int| 0 <= j < i implies !(#[trigger] target_of(h)(r[j])) by {
                assert(r[j] == t[j]);
            }
            lemma_first_index(r, target_of(h), i);
        },
        None => {
            lemma_first_index_push(t, target_of(h), target_from_probe(probe));
        },
    }
}

/// Keeping a window from focus changes no other focus target: the list keeps
/// its length when the window was a target already and otherwise grows by the
/// probed window at the end, and every target of another window stays where it
/// was, unchanged.
pub proof fn lemma_targeted_spares_others(t: Seq<FocusTargetView>, probe: WindowProbe)
    ensures
        (exists|k: int| 0 <= k < t.len() && #[trigger] t[k].info.hwnd == probe.info.hwnd)
            ==> targeted(t, probe).len() == t.len(),
        (forall|k: int| 0 <= k < t.len() ==> #[trigger] t[k].info.hwnd != probe.info.hwnd) ==> {
            &&& targeted(t, probe).len() == t.len() + 1
            &&& targeted(t, probe).last() == target_from_probe(probe)
        },
        forall|j: int|
            0 <= j < t.len() && t[j].info.hwnd != probe.info.hwnd ==> #[trigger] targeted(t, probe)[j]
                == t[j],
{
    let h = probe.info.hwnd;
    lemma_first_index_props(t, target_of(h));
    match target_position(t, h) {
        Some(i) => {
            assert(target_of(h)(t[i]));
            assert(t[i].info.hwnd == h);
        },
        None => {
            assert forall|k: int| 0 <= k < t.len() implies #[trigger] t[k].info.hwnd != h by {
                assert(!target_of(h)(t[k]));
            }
        },
    }
}

/// Exempting a window keeps every exemption of another window where it was,
/// unchanged; the window's exemption becomes `info`, in place of its earlier
/// one, or at the end when it had none.
pub proof fn lemma_upsert_spares_others(e: Seq<WindowInfo>, info: WindowInfo)
    ensures
        upsert_exception(e, info).contains(info),
        (exists|k: int| 0 <= k < e.len() && #[trigger] e[k].hwnd == info.hwnd)
            ==> upsert_exception(e, info).len() == e.len(),
        (forall|k: int| 0 <= k < e.len() ==> #[trigger] e[k].hwnd != info.hwnd) ==> {
            &&& upsert_exception(e, info).len() == e.len() + 1
            &&& upsert_exception(e, info).last() == info
        },
        forall|j: int|
            0 <= j < e.len() && e[j].hwnd != info.hwnd ==> #[trigger] upsert_exception(e, info)[j]
                == e[j],
        forall|w: WindowInfo| #[trigger] e.contains(w) && w.hwnd != info.hwnd ==> upsert_exception(
            e,
            info,
        ).contains(w),
{
    let h = info.hwnd;
    let r = upsert_exception(e, info);
    lemma_first_index_props(e, window_of(h));
    match exception_position(e, h) {
        Some(j) => {
            assert(window_of(h)(e[j]));
            assert(r[j] == info);
        },
        None => {
            assert forall|k: int| 0 <= k < e.len() implies #[trigger] e[k].hwnd != h by {
                assert(!window_of(h)(e[k]));
            }
            assert(r[e.len() as int] == info);
        },
    }
    assert forall|w: WindowInfo| #[trigger] e.contains(w) && w.hwnd != h implies r.contains(w) by {
        let k = choose|k: int| 0 <= k < e.len() && e[k] == w;
        assert(r[k] == e[k]);
    }
}

/// Taking away the focus target of a window keeps every target of another
/// window, in order, and adds none: the list loses one entry when the window
/// was a target and stays as it was otherwise.
pub proof fn lemma_without_target_spares_others(t: Seq<FocusTargetView>, hwnd: isize)
    ensures
        forall|x: FocusTargetView| #[trigger] t.contains(x) && x.info.hwnd != hwnd
            ==> without_target(t, hwnd).contains(x),
        forall|x: FocusTargetView| #[trigger] without_target(t, hwnd).contains(x) ==> t.contains(x),
        (exists|k: int| 0 <= k < t.len() && #[trigger] t[k].info.hwnd == hwnd)
            ==> without_target(t, hwnd).len() == t.len() - 1,
        (forall|k: int| 0 <= k < t.len() ==> #[trigger] t[k].info.hwnd != hwnd) ==> without_target(
            t,
            hwnd,
        ) == t,
{
    lemma_first_index_props(t, target_of(hwnd));
    let r = without_target(t, hwnd);
    match target_position(t, hwnd) {
        Some(i) => {
            assert(target_of(hwnd)(t[i]));
            assert forall|x: FocusTargetView| #[trigger] t.contains(x) && x.info.hwnd != hwnd implies r.contains(x) by {
                let k = choose|k: int| 0 <= k < t.len() && t[k] == x;
                assert(k != i);
                let k2 = if k < i { k } else { k - 1 };
                assert(r[k2] == t[k]);
            }
            assert forall|x: FocusTargetView| #[trigger] r.contains(x) implies t.contains(x) by {
                let a = choose|a: int| 0 <= a < r.len() && r[a] == x;
                let a2 = if a < i { a } else { a + 1 };
                assert(r[a] == t[a2]);
            }
        },
        None => {
            assert forall|k: int| 0 <= k < t.len() implies #[trigger] t[k].info.hwnd != hwnd by {
                assert(!target_of(hwnd)(t[k]));
            }
        },
    }
}

/// Taking away the exemption of a window keeps every exemption of another
/// window, in order, and adds none: the list loses one entry when the window
/// was exempted and stays as it was otherwise.
pub proof fn lemma_without_exception_spares_others(e: Seq<WindowInfo>, hwnd: isize)
    ensures
        forall|w: WindowInfo| #[trigger] e.contains(w) && w.hwnd != hwnd ==> without_exception(
            e,
            hwnd,
        ).contains(w),
        forall|w: WindowInfo| #[trigger] without_exception(e, hwnd).contains(w) ==> e.contains(w),
        (exists|k: int| 0 <= k < e.len() && #[trigger] e[k].hwnd == hwnd)
            ==> without_exception(e, hwnd).len() == e.len() - 1,
        (forall|k: int| 0 <= k < e.len() ==> #[trigger] e[k].hwnd != hwnd) ==> without_exception(
            e,
            hwnd,
        ) == e,
{
    lemma_first_index_props(e, window_of(hwnd));
    let r = without_exception(e, hwnd);
    match exception_position(e, hwnd) {
        Some(i) => {
            assert(window_of(hwnd)(e[i]));
            assert forall|w: WindowInfo| #[trigger] e.contains(w) && w.hwnd != hwnd implies r.contains(w) by {
                let k = choose|k: int| 0 <= k < e.len() && e[k] == w;
                assert(k != i);
                let k2 = if k < i { k } else { k - 1 };
                assert(r[k2] == e[k]);
            }
            assert forall|w: WindowInfo| #[trigger] r.contains(w) implies e.contains(w) by {
                let a = choose|a: int| 0 <= a < r.len() && r[a] == w;
                let a2 = if a < i { a } else { a + 1 };
                assert(r[a] == e[a2]);
            }
        },
        None => {
            assert forall|k: int| 0 <= k < e.len() implies #[trigger] e[k].hwnd != hwnd by {
                assert(!window_of(hwnd)(e[k]));
            }
        },
    }
}

/// Exempting a window leaves it exempted and no longer a focus target.
pub proof fn lemma_exempted_not_target(
    t: Seq<FocusTargetView>,
    e: Seq<WindowInfo>,
    info: WindowInfo,
)
    requires
        lists_wf(t, e),
    ensures
        exception_position(upsert_exception(e, info), info.hwnd) is Some,
        target_position(without_target(t, info.hwnd), info.hwnd) is None,
{
    lemma_without_target_absent(t, e, info.hwnd);
    lemma_first_index_props(e, window_of(info.hwnd));
    match exception_position(e, info.hwnd) {
        Some(j) => {
            let r = e.update(j, info);
            assert forall|k: int| 0 <= k < j implies !(#[trigger] window_of(info.hwnd)(r[k])) by {
                assert(r[k] == e[k]);
            }
            lemma_first_index(r, window_of(info.hwnd), j);
        },
        None => {
            lemma_first_index_push(e, window_of(info.hwnd), info);
        },
    }
}

proof fn lemma_refreshed_same_windows(t: Seq<FocusTargetView>, i: int, captured: Seq<WindowExStyleSnapshot>, h: isize)
    requires
        0 <= i < t.len(),
        target_position(t, h) is None,
    ensures
        target_position(refreshed(t, i, captured), h) is None,
{
    lemma_first_index_props(t, target_of(h));
    let r = refreshed(t, i, captured);
    assert forall|k: int| 0 <= k < r.len() implies !(#[trigger] target_of(h)(r[k])) by {
        assert(r[k].info == t[k].info);
    }
    lemma_first_index(r, target_of(h), r.len() as int);
}

/// Applying the focus guard to all windows never makes the game window or an
/// exempted window a focus target.
pub proof fn lemma_focus_all_spares(
    t: Seq<FocusTargetView>,
    e: Seq<WindowInfo>,
    game_hwnd: isize,
    own_pid: u32,
    observations: Seq<WindowObservation>,
    hwnd: isize,
)
    requires
        hwnd == game_hwnd || exception_position(e, hwnd) is Some,
        target_position(t, hwnd) is None,
    ensures
        target_position(focus_all_fold(t, e, game_hwnd, own_pid, observations), hwnd) is None,
    decreases observations.len(),
{
    if observations.len() > 0 {
        let d = observations.drop_last();
        lemma_focus_all_spares(t, e, game_hwnd, own_pid, d, hwnd);
        let m = focus_all_fold(t, e, game_hwnd, own_pid, d);
        let obs = observations.last();
        if !focus_all_skips(e, game_hwnd, own_pid, obs.probe.info) {
            lemma_first_index_props(m, target_of(obs.probe.info.hwnd));
            match target_position(m, obs.probe.info.hwnd) {
                Some(i) => {
                    lemma_refreshed_same_windows(m, i, obs.probe.child_ex_styles@, hwnd);
                },
                None => {
                    if obs.noactivate_applied {
                        assert(obs.probe.info.hwnd != hwnd);
                        lemma_first_index_push(m, target_of(hwnd), target_from_probe(obs.probe));
                    }
                },
            }
        }
    }
}

/// Applying the focus guard to all windows keeps each window a focus target
/// at most once and never both a target and exempted.
pub proof fn lemma_focus_all_keeps_wf(
    t: Seq<FocusTargetView>,
    e: Seq<WindowInfo>,
    game_hwnd: isize,
    own_pid: u32,
    observations: Seq<WindowObservation>,
)
    requires
        lists_wf(t, e),
    ensures
        lists_wf(focus_all_fold(t, e, game_hwnd, own_pid, observations), e),
    decreases observations.len(),
{
    if observations.len() > 0 {
        let d = observations.drop_last();
        lemma_focus_all_keeps_wf(t, e, game_hwnd, own_pid, d);
        let m = focus_all_fold(t, e, game_hwnd, own_pid, d);
        let obs = observations.last();
        if !focus_all_skips(e, game_hwnd, own_pid, obs.probe.info) {
            lemma_first_index_props(m, target_of(obs.probe.info.hwnd));
            match target_position(m, obs.probe.info.hwnd) {
                Some(i) => {
                    lemma_update_keeps_wf(m, e, i, refreshed(m, i, obs.probe.child_ex_styles@)[i]);
                    assert(refreshed(m, i, obs.probe.child_ex_styles@) == m.update(
                        i,
                        refreshed(m, i, obs.probe.child_ex_styles@)[i],
                    ));
                },
                None => {
                    if obs.noactivate_applied {
                        lemma_push_keeps_wf(m, e, target_from_probe(obs.probe));
                    }
                },
            }
        }
    }
}

} // verus!
