//! Top-level windows as the helper sees them: their identity, their screen
//! rectangle, their titles and the style bits it reads and writes.
use vstd::prelude::*;
use vstd::string::StringExecFns;
use crate::text::{err_is, is_blank, str_equal, trim_spec};

verus! {

/// Extended window style bit: the window stays above non-topmost windows.
pub const WS_EX_TOPMOST: isize = 0x00000008;

/// Extended window style bit: the window is not activated when clicked.
pub const WS_EX_NOACTIVATE: isize = 0x08000000;

/// The `insert after` handle that makes a window topmost.
pub const HWND_TOPMOST: isize = -1;

/// The `insert after` handle that makes a window non-topmost.
pub const HWND_NOTOPMOST: isize = -2;

/// Windows narrower or lower than this many pixels cannot be picked.
pub const MIN_PICK_SIZE: i32 = 32;

/// A window: its handle, its title and the process that owns it.
#[derive(Debug)]
pub struct WindowInfo {
    pub hwnd: isize,
    pub title: String,
    pub pid: u32,
}

impl WindowInfo {
    /// A copy of this window record.
    pub fn duplicate(&self) -> (r: WindowInfo)
        ensures
            r == *self,
    {
        WindowInfo { hwnd: self.hwnd, title: self.title.clone(), pid: self.pid }
    }
}

/// A window's position and size on the screen.
#[derive(Clone, Copy, Debug, PartialEq, Eq)]
pub struct WindowRect {
    pub left: i32,
    pub top: i32,
    pub width: i32,
    pub height: i32,
}

/// Whether the right and bottom edges of `r` are representable coordinates.
pub open spec fn rect_fits(r: WindowRect) -> bool {
    &&& i32::MIN <= r.left + r.width <= i32::MAX
    &&& i32::MIN <= r.top + r.height <= i32::MAX
}

/// A window that can be picked, with the rectangle it covers.
#[derive(Debug)]
pub struct WindowPick {
    pub info: WindowInfo,
    pub rect: WindowRect,
}

/// Whether the point `(x, y)` lies in `rect`; the right and bottom edges are outside.
pub open spec fn rect_contains_spec(rect: WindowRect, x: i32, y: i32) -> bool {
    x >= rect.left && y >= rect.top && x < rect.left + rect.width && y < rect.top + rect.height
}

/// Whether the point `(x, y)` lies in `rect`.
pub fn rect_contains(rect: &WindowRect, x: i32, y: i32) -> (b: bool)
    requires
        rect_fits(*rect),
    ensures
        b == rect_contains_spec(*rect, x, y),
{
    x >= rect.left && y >= rect.top && x < rect.left + rect.width && y < rect.top + rect.height
}

/// The rectangle with the given edges, unless it is smaller than 32 pixels
/// in either direction.
pub fn rect_from_bounds(left: i32, top: i32, right: i32, bottom: i32) -> (r: Option<WindowRect>)
    requires
        i32::MIN <= right - left <= i32::MAX,
        i32::MIN <= bottom - top <= i32::MAX,
    ensures
        r is None <==> (right - left < MIN_PICK_SIZE || bottom - top < MIN_PICK_SIZE),
        r matches Some(rect) ==> rect == (WindowRect {
            left,
            top,
            width: (right - left) as i32,
            height: (bottom - top) as i32,
        }),
        r matches Some(rect) ==> rect_fits(rect),
{
    let width = right - left;
    let height = bottom - top;
    if width < MIN_PICK_SIZE || height < MIN_PICK_SIZE {
        return None;
    }
    Some(WindowRect { left, top, width, height })
}

/// The title given to a window whose title cannot be read.
pub open spec fn untitled_title() -> Seq<char> {
    "제목 없는 창"@
}

/// The title of the helper's own window picker.
pub open spec fn picker_title() -> Seq<char> {
    "키 입력 받을 창 선택"@
}

/// The title given to a window whose title cannot be read.
pub fn untitled_window_title() -> (s: String)
    ensures
        s@ == untitled_title(),
{
    String::from_str("제목 없는 창")
}

/// The title of the helper's window picker.
pub fn window_picker_title() -> (s: String)
    ensures
        s@ == picker_title(),
{
    String::from_str("키 입력 받을 창 선택")
}

/// Whether a window with this title is left out of every list and pick:
/// untitled windows, the picker itself, and blank titles.
pub open spec fn unselectable_title(title: Seq<char>) -> bool {
    title == untitled_title() || title == picker_title() || trim_spec(title).len() == 0
}

/// A window title is left out only when it is the title of an untitled
/// window, the picker's own title, or blank: any other title is selectable,
/// whatever its length or content.
pub proof fn lemma_unselectable_only_special_or_blank(title: Seq<char>)
    ensures
        unselectable_title(title) <==> (title == "제목 없는 창"@ || title == "키 입력 받을 창 선택"@
            || trim_spec(title).len() == 0),
        title != "제목 없는 창"@ && title != "키 입력 받을 창 선택"@ && trim_spec(title).len() > 0
            ==> !unselectable_title(title),
{
}

/// Whether a window with this title is left out of every list and pick.
pub fn is_unselectable_window_title(title: &str) -> (b: bool)
    ensures
        b == unselectable_title(title@),
        b <==> (title@ == "제목 없는 창"@ || title@ == "키 입력 받을 창 선택"@ || trim_spec(
            title@,
        ).len() == 0),
{
    str_equal(title, "제목 없는 창") || str_equal(title, "키 입력 받을 창 선택") || is_blank(title)
}

/// Fails when the window no longer exists.
pub fn ensure_window(alive: bool) -> (r: Result<(), String>)
    ensures
        r is Ok <==> alive,
        !alive ==> err_is(r, "대상 창이 더 이상 존재하지 않습니다."@),
{
    if alive {
        Ok(())
    } else {
        Err(String::from_str("대상 창이 더 이상 존재하지 않습니다."))
    }
}

/// The root of a window given what the system reports as its root ancestor:
/// no window has no root, and a window without an ancestor is its own root.
pub open spec fn root_of(hwnd: isize, ancestor: isize) -> isize {
    if hwnd == 0 {
        0
    } else if ancestor == 0 {
        hwnd
    } else {
        ancestor
    }
}

/// The root of a window given its reported root ancestor.
pub fn root_window(hwnd: isize, ancestor: isize) -> (r: isize)
    ensures
        r == root_of(hwnd, ancestor),
{
    if hwnd == 0 {
        return 0;
    }
    if ancestor == 0 {
        hwnd
    } else {
        ancestor
    }
}

/// Whether two windows share a root, given their reported root ancestors.
pub open spec fn same_root_spec(left: isize, right: isize, left_ancestor: isize, right_ancestor: isize) -> bool {
    left != 0 && right != 0 && root_of(left, left_ancestor) == root_of(right, right_ancestor)
}

/// Whether two windows share a root, given their reported root ancestors.
pub fn same_root_window(left: isize, right: isize, left_ancestor: isize, right_ancestor: isize) -> (b:
    bool)
    ensures
        b == same_root_spec(left, right, left_ancestor, right_ancestor),
{
    left != 0 && right != 0 && root_window(left, left_ancestor) == root_window(right, right_ancestor)
}

/// The extended style `current` with the no-activate bit set or cleared.
pub fn noactivate_style(current: isize, enabled: bool) -> (r: isize)
    ensures
        r == (if enabled {
            current | WS_EX_NOACTIVATE
        } else {
            current & !WS_EX_NOACTIVATE
        }),
        (r & WS_EX_NOACTIVATE != 0) == enabled,
        r & !WS_EX_NOACTIVATE == current & !WS_EX_NOACTIVATE,
{
    let r = if enabled {
        current | WS_EX_NOACTIVATE
    } else {
        current & !WS_EX_NOACTIVATE
    };
    assert((current | 0x08000000isize) & 0x08000000isize != 0) by (bit_vector);
    assert((current & !0x08000000isize) & 0x08000000isize == 0) by (bit_vector);
    assert((current | 0x08000000isize) & !0x08000000isize == current & !0x08000000isize)
        by (bit_vector);
    assert((current & !0x08000000isize) & !0x08000000isize == current & !0x08000000isize)
        by (bit_vector);
    r
}

/// Whether an extended style holds the topmost bit.
pub fn has_topmost_style(style: isize) -> (b: bool)
    ensures
        b == (style & WS_EX_TOPMOST != 0),
{
    style & WS_EX_TOPMOST != 0
}

/// The `insert after` handle that turns topmost on or off.
pub fn topmost_insert_after(enabled: bool) -> (h: isize)
    ensures
        h == (if enabled {
            HWND_TOPMOST
        } else {
            HWND_NOTOPMOST
        }),
{
    if enabled {
        HWND_TOPMOST
    } else {
        HWND_NOTOPMOST
    }
}

/// Whether a key state reports the key as held down: its high bit is set.
pub fn key_is_down(state: i16) -> (b: bool)
    ensures
        b == ((state as u16) & 0x8000u16 != 0),
        b == (state < 0),
{
    let b = (state as u16) & 0x8000u16 != 0;
    assert(((state as u16) & 0x8000u16 != 0) == (state < 0)) by (bit_vector);
    b
}

/// Whether a key state reports the key as held down or pressed since the last query.
pub fn key_pressed_or_down(state: i16) -> (b: bool)
    ensures
        b == ((state as u16) & 0x8001u16 != 0),
        b == (state < 0 || (state as u16) & 1u16 != 0),
{
    let b = (state as u16) & 0x8001u16 != 0;
    assert(((state as u16) & 0x8001u16 != 0) == (state < 0 || (state as u16) & 1u16 != 0))
        by (bit_vector);
    b
}

/// Which input queues to join before bringing a window forward: that of the
/// target window's thread and that of the foreground window's thread, each
/// only when it exists and is not the calling thread.
pub fn foreground_attach_plan(current_thread: u32, target_thread: u32, foreground_thread: u32) -> (r: (
    bool,
    bool,
))
    ensures
        r.0 == (target_thread != 0 && target_thread != current_thread),
        r.1 == (foreground_thread != 0 && foreground_thread != current_thread),
{
    (
        target_thread != 0 && target_thread != current_thread,
        foreground_thread != 0 && foreground_thread != current_thread,
    )
}

/// Whether a window belongs in the list of windows offered to the user:
/// visible, owned by another process, and with a selectable title.
pub fn listable_window(visible: bool, pid: u32, own_pid: u32, title: &str) -> (b: bool)
    ensures
        b == (visible && pid != own_pid && !unselectable_title(title@)),
        visible && pid != own_pid && title@ != "제목 없는 창"@ && title@ != "키 입력 받을 창 선택"@
            && trim_spec(title@).len() > 0 ==> b,
{
    if !visible {
        return false;
    }
    if pid == own_pid {
        return false;
    }
    !is_unselectable_window_title(title)
}

/// Whether a window is the one searched for: visible, owned by `wanted_pid`,
/// and, when a title is expected, carrying exactly that title.
pub fn process_window_matches(
    visible: bool,
    pid: u32,
    wanted_pid: u32,
    expected_title: Option<&str>,
    title: &str,
) -> (b: bool)
    ensures
        b == (visible && pid == wanted_pid && match expected_title {
            Some(t) => title@ == t@,
            None => true,
        }),
{
    if !visible {
        return false;
    }
    if pid != wanted_pid {
        return false;
    }
    match expected_title {
        Some(t) => str_equal(title, t),
        None => true,
    }
}

/// The window that a point picks, if the window qualifies: a visible window
/// of another process, at least 32 pixels wide and high, covering the point,
/// with a selectable title.
pub fn selectable_window_pick(
    hwnd: isize,
    visible: bool,
    pid: u32,
    own_pid: u32,
    rect: Option<WindowRect>,
    x: i32,
    y: i32,
    title: String,
) -> (r: Option<WindowPick>)
    requires
        rect matches Some(rc) ==> rect_fits(rc),
    ensures
        r is Some <==> (hwnd != 0 && visible && pid != own_pid && rect is Some && rect_contains_spec(
            rect->0,
            x,
            y,
        ) && !unselectable_title(title@)),
        r matches Some(p) ==> p.info == (WindowInfo { hwnd, title, pid }) && p.rect == rect->0,
{
    if hwnd == 0 || !visible {
        return None;
    }
    if pid == own_pid {
        return None;
    }
    let rect = match rect {
        Some(rc) => rc,
        None => {
            return None;
        },
    };
    if !rect_contains(&rect, x, y) {
        return None;
    }
    if is_unselectable_window_title(title.as_str()) {
        return None;
    }
    Some(WindowPick { info: WindowInfo { hwnd, title, pid }, rect })
}

} // verus!
