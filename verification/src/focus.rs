//! Focus targets: windows the helper keeps from taking focus, with the
//! extended styles they had before, so that they can be put back.
use vstd::prelude::*;
use vstd::string::StringExecFns;
use crate::seqs::{first_index, lemma_first_index, lemma_first_index_props};
use crate::text::err_is;
use crate::windows::WindowInfo;

verus! {

/// The extended style a window had when it was first seen.
#[derive(Clone, Copy, Debug, PartialEq, Eq)]
pub struct WindowExStyleSnapshot {
    pub hwnd: isize,
    pub ex_style: isize,
}

/// A window kept from taking focus, with the extended styles of it and of its
/// child windows from before the helper changed them.
#[derive(Debug)]
pub struct FocusTarget {
    pub info: WindowInfo,
    pub original_ex_style: isize,
    pub original_child_ex_styles: Vec<WindowExStyleSnapshot>,
}

/// A focus target as a value.
pub struct FocusTargetView {
    pub info: WindowInfo,
    pub original_ex_style: isize,
    pub original_child_ex_styles: Seq<WindowExStyleSnapshot>,
}

impl View for FocusTarget {
    type V = FocusTargetView;

    open spec fn view(&self) -> FocusTargetView {
        FocusTargetView {
            info: self.info,
            original_ex_style: self.original_ex_style,
            original_child_ex_styles: self.original_child_ex_styles@,
        }
    }
}

/// What reading a window gave: its record, its current extended style and
/// the current extended styles of its child windows.
#[derive(Debug)]
pub struct WindowProbe {
    pub info: WindowInfo,
    pub ex_style: isize,
    pub child_ex_styles: Vec<WindowExStyleSnapshot>,
}

/// The focus target that a first probe of a window records.
pub open spec fn target_from_probe(probe: WindowProbe) -> FocusTargetView {
    FocusTargetView {
        info: probe.info,
        original_ex_style: probe.ex_style,
        original_child_ex_styles: probe.child_ex_styles@,
    }
}

/// The predicate that a snapshot is of window `hwnd`.
pub open spec fn snapshot_of(hwnd: isize) -> spec_fn(WindowExStyleSnapshot) -> bool {
    |s: WindowExStyleSnapshot| s.hwnd == hwnd
}

/// The snapshots `kept` after each of `captured`, in order, is added unless a
/// snapshot of the same window is already there.
pub open spec fn merged_snapshots(
    kept: Seq<WindowExStyleSnapshot>,
    captured: Seq<WindowExStyleSnapshot>,
) -> Seq<WindowExStyleSnapshot>
    decreases captured.len(),
{
    if captured.len() == 0 {
        kept
    } else {
        let m = merged_snapshots(kept, captured.drop_last());
        let c = captured.last();
        if first_index(m, snapshot_of(c.hwnd)) is Some {
            m
        } else {
            m.push(c)
        }
    }
}

/// No two snapshots are of the same window.
pub open spec fn distinct_snapshots(s: Seq<WindowExStyleSnapshot>) -> bool {
    forall|i: int, j: int| 0 <= i < j < s.len() ==> #[trigger] s[i].hwnd != #[trigger] s[j].hwnd
}

fn has_snapshot_of(snapshots: &Vec<WindowExStyleSnapshot>, hwnd: isize) -> (b: bool)
    ensures
        b == first_index(snapshots@, snapshot_of(hwnd)) is Some,
{
    let mut i: usize = 0;
    while i < snapshots.len()
        invariant
            i <= snapshots@.len(),
            forall|j: int| 0 <= j < i ==> !(#[trigger] snapshot_of(hwnd)(snapshots@[j])),
        decreases snapshots.len() - i,
    {
        if snapshots[i].hwnd == hwnd {
            proof {
                lemma_first_index(snapshots@, snapshot_of(hwnd), i as int);
            }
            return true;
        }
        i = i + 1;
    }
    proof {
        lemma_first_index(snapshots@, snapshot_of(hwnd), i as int);
    }
    false
}

/// Adds the captured child styles of windows not seen before; a style already
/// recorded for a window is kept.
pub fn remember_child_ex_styles(target: &mut FocusTarget, captured: Vec<WindowExStyleSnapshot>)
    ensures
        final(target)@ == (FocusTargetView {
            original_child_ex_styles: merged_snapshots(
                old(target)@.original_child_ex_styles,
                captured@,
            ),
            ..old(target)@
        }),
{
    let mut i: usize = 0;
    while i < captured.len()
        invariant
            i <= captured@.len(),
            target.info == old(target).info,
            target.original_ex_style == old(target).original_ex_style,
            target.original_child_ex_styles@ == merged_snapshots(
                old(target)@.original_child_ex_styles,
                captured@.take(i as int),
            ),
        decreases captured.len() - i,
    {
        let snapshot = captured[i];
        proof {
            assert(captured@.take(i + 1).drop_last() =~= captured@.take(i as int));
        }
        if !has_snapshot_of(&target.original_child_ex_styles, snapshot.hwnd) {
            target.original_child_ex_styles.push(snapshot);
        }
        i = i + 1;
    }
    assert(captured@.take(i as int) =~= captured@);
}

/// Merging never changes or drops a style already recorded: the recorded
/// snapshots stay, in order, at the front.
pub proof fn lemma_merge_keeps_recorded(
    kept: Seq<WindowExStyleSnapshot>,
    captured: Seq<WindowExStyleSnapshot>,
)
    ensures
        kept.len() <= merged_snapshots(kept, captured).len(),
        merged_snapshots(kept, captured).take(kept.len() as int) == kept,
    decreases captured.len(),
{
    if captured.len() > 0 {
        lemma_merge_keeps_recorded(kept, captured.drop_last());
        let m = merged_snapshots(kept, captured.drop_last());
        assert(m.push(captured.last()).take(kept.len() as int) =~= m.take(kept.len() as int));
    }
}

/// After merging, every captured window has a recorded style, and every
/// recorded style was recorded before or captured now.
pub proof fn lemma_merge_covers(
    kept: Seq<WindowExStyleSnapshot>,
    captured: Seq<WindowExStyleSnapshot>,
)
    ensures
        forall|i: int|
            0 <= i < captured.len() ==> first_index(
                merged_snapshots(kept, captured),
                snapshot_of(#[trigger] captured[i].hwnd),
            ) is Some,
        forall|k: int|
            0 <= k < merged_snapshots(kept, captured).len() ==> kept.contains(
                #[trigger] merged_snapshots(kept, captured)[k],
            ) || captured.contains(merged_snapshots(kept, captured)[k]),
    decreases captured.len(),
{
    if captured.len() > 0 {
        let d = captured.drop_last();
        lemma_merge_covers(kept, d);
        let m = merged_snapshots(kept, d);
        let c = captured.last();
        let r = merged_snapshots(kept, captured);
        lemma_first_index_props(m, snapshot_of(c.hwnd));
        assert forall|i: int| 0 <= i < captured.len() implies first_index(
            r,
            snapshot_of(#[trigger] captured[i].hwnd),
        ) is Some by {
            let h = captured[i].hwnd;
            if i < captured.len() - 1 {
                assert(d[i] == captured[i]);
                lemma_first_index_props(m, snapshot_of(h));
                let j = first_index(m, snapshot_of(h))->0;
                if r != m {
                    assert(r[j] == m[j]);
                }
                lemma_first_index_props(r, snapshot_of(h));
                assert(snapshot_of(h)(r[j]));
            } else {
                lemma_first_index_props(r, snapshot_of(h));
                if r == m {
                    let j = first_index(m, snapshot_of(h))->0;
                    assert(snapshot_of(h)(r[j]));
                } else {
                    assert(snapshot_of(h)(r[r.len() - 1]));
                }
            }
        }
        assert forall|k: int| 0 <= k < r.len() implies kept.contains(#[trigger] r[k])
            || captured.contains(r[k]) by {
            if k < m.len() {
                assert(r[k] == m[k]);
                if d.contains(m[k]) {
                    let q = choose|q: int| 0 <= q < d.len() && d[q] == m[k];
                    assert(captured[q] == d[q]);
                }
            } else {
                assert(r[k] == c);
                assert(captured[captured.len() - 1] == c);
            }
        }
    }
}

/// Merging keeps the recorded styles one per window.
pub proof fn lemma_merge_distinct(kept: Seq<WindowExStyleSnapshot>, captured: Seq<WindowExStyleSnapshot>)
    requires
        distinct_snapshots(kept),
    ensures
        distinct_snapshots(merged_snapshots(kept, captured)),
    decreases captured.len(),
{
    if captured.len() > 0 {
        lemma_merge_distinct(kept, captured.drop_last());
        let m = merged_snapshots(kept, captured.drop_last());
        let c = captured.last();
        lemma_first_index_props(m, snapshot_of(c.hwnd));
        if first_index(m, snapshot_of(c.hwnd)) is None {
            let r = m.push(c);
            assert forall|i: int, j: int| 0 <= i < j < r.len() implies #[trigger] r[i].hwnd
                != #[trigger] r[j].hwnd by {
                if j == r.len() - 1 {
                    assert(!snapshot_of(c.hwnd)(m[i]));
                } else {
                    assert(r[i] == m[i] && r[j] == m[j]);
                }
            }
        }
    }
}

/// The styles to write back to put a target's windows as they were: those
/// of its child windows in the order they were recorded, then its own.
pub open spec fn restore_steps(target: FocusTargetView) -> Seq<WindowExStyleSnapshot> {
    target.original_child_ex_styles.push(
        WindowExStyleSnapshot { hwnd: target.info.hwnd, ex_style: target.original_ex_style },
    )
}

/// The styles to write back to put a target's windows as they were.
pub fn restore_focus_target_window(target: &FocusTarget) -> (steps: Vec<WindowExStyleSnapshot>)
    ensures
        steps@ == restore_steps(target@),
{
    let mut steps: Vec<WindowExStyleSnapshot> = Vec::new();
    let mut i: usize = 0;
    while i < target.original_child_ex_styles.len()
        invariant
            i <= target.original_child_ex_styles@.len(),
            steps@ == target.original_child_ex_styles@.take(i as int),
        decreases target.original_child_ex_styles.len() - i,
    {
        steps.push(target.original_child_ex_styles[i]);
        proof {
            assert(target.original_child_ex_styles@.take(i + 1) =~= target.original_child_ex_styles@.take(
                i as int,
            ).push(target.original_child_ex_styles@[i as int]));
        }
        i = i + 1;
    }
    assert(target.original_child_ex_styles@.take(i as int) =~= target.original_child_ex_styles@);
    steps.push(WindowExStyleSnapshot { hwnd: target.info.hwnd, ex_style: target.original_ex_style });
    steps
}

/// The predicate that an outcome is a failure.
pub open spec fn is_failure() -> spec_fn(Result<(), String>) -> bool {
    |o: Result<(), String>| o is Err
}

/// The first failure among the outcomes of a sequence of steps, or success.
pub open spec fn first_failure_spec(outcomes: Seq<Result<(), String>>) -> Result<(), String> {
    match first_index(outcomes, is_failure()) {
        Some(i) => outcomes[i],
        None => Ok(()),
    }
}

/// The first failure among the outcomes of a sequence of steps, or success:
/// every step is tried, and the first error is the one reported.
pub fn first_failure(outcomes: Vec<Result<(), String>>) -> (r: Result<(), String>)
    ensures
        r == first_failure_spec(outcomes@),
{
    let ghost p = is_failure();
    let mut i: usize = 0;
    while i < outcomes.len()
        invariant
            i <= outcomes@.len(),
            forall|j: int| 0 <= j < i ==> !p(#[trigger] outcomes@[j]),
            p == is_failure(),
        decreases outcomes.len() - i,
    {
        if outcomes[i].is_err() {
            proof {
                lemma_first_index(outcomes@, p, i as int);
            }
            let mut rest = outcomes;
            let o = rest.swap_remove(i);
            assert(o == first_failure_spec(outcomes@));
            return o;
        }
        i = i + 1;
    }
    proof {
        lemma_first_index(outcomes@, p, i as int);
    }
    Ok(())
}

/// The distinct non-null window handles of `hwnds`, each where it first occurs.
pub open spec fn unique_hwnds_spec(hwnds: Seq<isize>) -> Seq<isize>
    decreases hwnds.len(),
{
    if hwnds.len() == 0 {
        Seq::empty()
    } else {
        let u = unique_hwnds_spec(hwnds.drop_last());
        let h = hwnds.last();
        if h != 0 && !u.contains(h) {
            u.push(h)
        } else {
            u
        }
    }
}

/// The distinct non-null window handles of `hwnds`, each where it first occurs.
pub fn unique_hwnds(hwnds: Vec<isize>) -> (unique: Vec<isize>)
    ensures
        unique@ == unique_hwnds_spec(hwnds@),
{
    let mut unique: Vec<isize> = Vec::new();
    let mut i: usize = 0;
    while i < hwnds.len()
        invariant
            i <= hwnds@.len(),
            unique@ == unique_hwnds_spec(hwnds@.take(i as int)),
        decreases hwnds.len() - i,
    {
        let hwnd = hwnds[i];
        proof {
            assert(hwnds@.take(i + 1).drop_last() =~= hwnds@.take(i as int));
        }
        let mut seen = false;
        let mut j: usize = 0;
        while j < unique.len()
            invariant
                j <= unique@.len(),
                seen == exists|k: int| 0 <= k < j && unique@[k] == hwnd,
            decreases unique.len() - j,
        {
            if unique[j] == hwnd {
                seen = true;
            }
            j = j + 1;
        }
        if hwnd != 0 && !seen {
            unique.push(hwnd);
        }
        i = i + 1;
    }
    assert(hwnds@.take(i as int) =~= hwnds@);
    unique
}

/// The handles `unique_hwnds` gives are distinct, none is null, and they are
/// exactly the non-null handles given.
pub proof fn lemma_unique_hwnds(hwnds: Seq<isize>)
    ensures
        forall|i: int, j: int|
            0 <= i < j < unique_hwnds_spec(hwnds).len() ==> #[trigger] unique_hwnds_spec(hwnds)[i]
                != #[trigger] unique_hwnds_spec(hwnds)[j],
        forall|h: isize| #[trigger] unique_hwnds_spec(hwnds).contains(h) <==> (h != 0 && hwnds.contains(h)),
    decreases hwnds.len(),
{
    if hwnds.len() > 0 {
        let d = hwnds.drop_last();
        lemma_unique_hwnds(d);
        let u = unique_hwnds_spec(d);
        let x = hwnds.last();
        let r = unique_hwnds_spec(hwnds);
        assert forall|h: isize| #[trigger] r.contains(h) <==> (h != 0 && hwnds.contains(h)) by {
            if hwnds.contains(h) && h != 0 {
                let k = choose|k: int| 0 <= k < hwnds.len() && hwnds[k] == h;
                if k < hwnds.len() - 1 {
                    assert(d[k] == h);
                    assert(u.contains(h));
                    let q = choose|q: int| 0 <= q < u.len() && u[q] == h;
                    assert(r[q] == h);
                } else if !u.contains(h) {
                    assert(r[r.len() - 1] == h);
                }
            }
            if r.contains(h) {
                let q = choose|q: int| 0 <= q < r.len() && r[q] == h;
                if q < u.len() {
                    assert(u[q] == h);
                    assert(u.contains(h));
                    let k = choose|k: int| 0 <= k < d.len() && d[k] == h;
                    assert(hwnds[k] == h);
                } else {
                    assert(hwnds[hwnds.len() - 1] == h);
                }
            }
        }
    }
}

/// Taking the distinct handles of distinct handles changes nothing.
pub proof fn lemma_unique_hwnds_idempotent(hwnds: Seq<isize>)
    ensures
        unique_hwnds_spec(unique_hwnds_spec(hwnds)) == unique_hwnds_spec(hwnds),
{
    lemma_unique_hwnds(hwnds);
    let u = unique_hwnds_spec(hwnds);
    assert forall|i: int| 0 <= i < u.len() implies #[trigger] u[i] != 0 by {
        assert(u.contains(u[i]));
    }
    lemma_unique_of_distinct(u);
}

proof fn lemma_unique_of_distinct(s: Seq<isize>)
    requires
        forall|i: int, j: int| 0 <= i < j < s.len() ==> #[trigger] s[i] != #[trigger] s[j],
        forall|i: int| 0 <= i < s.len() ==> #[trigger] s[i] != 0,
    ensures
        unique_hwnds_spec(s) == s,
    decreases s.len(),
{
    if s.len() > 0 {
        let d = s.drop_last();
        assert forall|i: int, j: int| 0 <= i < j < d.len() implies #[trigger] d[i] != #[trigger] d[j] by {
            assert(d[i] == s[i] && d[j] == s[j]);
        }
        assert forall|i: int| 0 <= i < d.len() implies #[trigger] d[i] != 0 by {
            assert(d[i] == s[i]);
        }
        lemma_unique_of_distinct(d);
        if d.contains(s.last()) {
            let k = choose|k: int| 0 <= k < d.len() && d[k] == s.last();
            assert(s[k] == s[s.len() - 1]);
        }
        assert(s[s.len() - 1] != 0);
        assert(d.push(s.last()) =~= s);
    }
}

/// The handles a multi-window request works on: it is an error to select none.
pub fn window_selection(hwnds: Vec<isize>, empty_message: &str) -> (r: Result<Vec<isize>, String>)
    ensures
        hwnds@.len() == 0 ==> err_is(r, empty_message@),
        hwnds@.len() > 0 ==> (r matches Ok(u) && u@ == unique_hwnds_spec(hwnds@)),
{
    if hwnds.len() == 0 {
        return Err(String::from_str(empty_message));
    }
    Ok(unique_hwnds(hwnds))
}

/// Putting back a target made from a probe writes back exactly the styles the
/// probe read: those of the child windows, then the window's own.
pub proof fn lemma_restore_undoes_probe(probe: WindowProbe)
    ensures
        restore_steps(target_from_probe(probe)) == probe.child_ex_styles@.push(
            WindowExStyleSnapshot { hwnd: probe.info.hwnd, ex_style: probe.ex_style },
        ),
{
}

/// However often a target's child styles are brought up to date, putting it
/// back still writes the styles recorded first, before any recorded later,
/// and ends with the window's own first-recorded style.
pub proof fn lemma_restore_after_remember(target: FocusTargetView, captured: Seq<WindowExStyleSnapshot>)
    ensures
        ({
            let later = FocusTargetView {
                original_child_ex_styles: merged_snapshots(target.original_child_ex_styles, captured),
                ..target
            };
            &&& restore_steps(later).take(target.original_child_ex_styles.len() as int)
                == target.original_child_ex_styles
            &&& restore_steps(later).last() == restore_steps(target).last()
        }),
{
    lemma_merge_keeps_recorded(target.original_child_ex_styles, captured);
    let m = merged_snapshots(target.original_child_ex_styles, captured);
    let n = target.original_child_ex_styles.len() as int;
    assert(m.push(WindowExStyleSnapshot { hwnd: target.info.hwnd, ex_style: target.original_ex_style }).take(n)
        =~= m.take(n));
}

} // verus!
