//! The window picker: the mouse events it listens for, the outline it draws
//! around the window under the cursor, and what each poll decides.
use vstd::prelude::*;
use vstd::string::StringExecFns;
use crate::text::err_is;
use crate::windows::WindowRect;

verus! {

/// Message code of a left mouse button press.
pub const WM_LBUTTONDOWN: u32 = 0x0201;

/// Message code of a right mouse button press.
pub const WM_RBUTTONDOWN: u32 = 0x0204;

/// Width of the outline drawn around the hovered window, in pixels.
pub const HOVER_BORDER_SIZE: i32 = 4;

/// Milliseconds between two polls of the picker.
pub const PICKER_POLL_MS: u64 = 8;

/// Polls after which the picker gives up.
pub const PICKER_TIMEOUT_TICKS: usize = 3750;

/// A mouse press seen while picking.
#[derive(Clone, Copy, Debug, PartialEq, Eq)]
pub enum PickerMouseEvent {
    Left { x: i32, y: i32 },
    Right,
}

/// The code a low-level mouse hook records for a message: 1 for a left
/// press, 2 for a right press, 0 for anything else or a message it may not
/// read (negative hook code, no event data).
pub fn picker_click_code(hook_code: i32, w_param: usize, has_data: bool) -> (code: i32)
    ensures
        code == (if hook_code >= 0 && has_data && w_param as u32 == WM_LBUTTONDOWN {
            1i32
        } else if hook_code >= 0 && has_data && w_param as u32 == WM_RBUTTONDOWN {
            2i32
        } else {
            0i32
        }),
{
    if hook_code < 0 || !has_data {
        return 0;
    }
    let event = w_param as u32;
    if event == WM_LBUTTONDOWN {
        1
    } else if event == WM_RBUTTONDOWN {
        2
    } else {
        0
    }
}

/// The mouse press a recorded code stands for, with the recorded position
/// for a left press.
pub fn take_picker_mouse_event(code: i32, x: i32, y: i32) -> (r: Option<PickerMouseEvent>)
    ensures
        r == (if code == 1 {
            Some(PickerMouseEvent::Left { x, y })
        } else if code == 2 {
            Some(PickerMouseEvent::Right)
        } else {
            None::<PickerMouseEvent>
        }),
{
    match code {
        1 => Some(PickerMouseEvent::Left { x, y }),
        2 => Some(PickerMouseEvent::Right),
        _ => None,
    }
}

/// What to do with the hover outline.
#[derive(Clone, Copy, Debug, PartialEq, Eq)]
pub enum OutlineAction {
    Keep,
    Show(WindowRect),
    Hide,
}

/// The outline drawn around the window under the cursor: the four border
/// windows and the rectangle it currently surrounds.
#[derive(Debug)]
pub struct HoverOutline {
    pub windows: [isize; 4],
    pub current: Option<WindowRect>,
}

fn same_rect(a: &Option<WindowRect>, b: &Option<WindowRect>) -> (r: bool)
    ensures
        r == (*a == *b),
{
    match (a, b) {
        (Some(x), Some(y)) => x.left == y.left && x.top == y.top && x.width == y.width && x.height
            == y.height,
        (None, None) => true,
        _ => false,
    }
}

impl HoverOutline {
    /// An outline made of the given border windows, surrounding nothing yet.
    pub fn new(windows: [isize; 4]) -> (o: HoverOutline)
        ensures
            o.windows == windows,
            o.current is None,
    {
        HoverOutline { windows, current: None }
    }

    /// Moves the outline to `next`: nothing changes when it already surrounds
    /// it; otherwise it is shown around the new rectangle, or hidden.
    pub fn update(&mut self, next: Option<WindowRect>) -> (action: OutlineAction)
        ensures
            final(self).windows == old(self).windows,
            old(self).current == next ==> action == OutlineAction::Keep && final(self).current
                == old(self).current,
            old(self).current != next ==> final(self).current == next && action == (match next {
                Some(rect) => OutlineAction::Show(rect),
                None => OutlineAction::Hide,
            }),
    {
        if same_rect(&self.current, &next) {
            return OutlineAction::Keep;
        }
        match next {
            Some(rect) => {
                self.current = Some(rect);
                OutlineAction::Show(rect)
            },
            None => {
                self.conceal();
                OutlineAction::Hide
            },
        }
    }

    /// Records that the outline is hidden.
    pub fn conceal(&mut self)
        ensures
            final(self).windows == old(self).windows,
            final(self).current is None,
    {
        self.current = None;
    }
}

/// One border window's placement.
#[derive(Clone, Copy, Debug, PartialEq, Eq)]
pub struct OutlineSegment {
    pub x: i32,
    pub y: i32,
    pub width: i32,
    pub height: i32,
}

/// Whether the outline of `rect` has representable coordinates.
pub open spec fn outline_fits(rect: WindowRect) -> bool {
    &&& rect.left - HOVER_BORDER_SIZE >= i32::MIN
    &&& rect.top - HOVER_BORDER_SIZE >= i32::MIN
    &&& rect.width + 2 * HOVER_BORDER_SIZE <= i32::MAX
    &&& i32::MIN <= rect.left + rect.width <= i32::MAX
    &&& i32::MIN <= rect.top + rect.height <= i32::MAX
}

/// `v`, or 1 when it is smaller.
pub open spec fn at_least_one(v: int) -> int {
    if v < 1 {
        1
    } else {
        v
    }
}

/// The four border windows' placements around `rect`: above, below, left and
/// right of it, each at least one pixel wide and high.
pub fn outline_segments(rect: &WindowRect) -> (segments: Vec<OutlineSegment>)
    requires
        outline_fits(*rect),
    ensures
        segments@.len() == 4,
        segments@[0] == (OutlineSegment {
            x: (rect.left - HOVER_BORDER_SIZE) as i32,
            y: (rect.top - HOVER_BORDER_SIZE) as i32,
            width: at_least_one(rect.width + 2 * HOVER_BORDER_SIZE) as i32,
            height: HOVER_BORDER_SIZE,
        }),
        segments@[1] == (OutlineSegment {
            x: (rect.left - HOVER_BORDER_SIZE) as i32,
            y: (rect.top + rect.height) as i32,
            width: at_least_one(rect.width + 2 * HOVER_BORDER_SIZE) as i32,
            height: HOVER_BORDER_SIZE,
        }),
        segments@[2] == (OutlineSegment {
            x: (rect.left - HOVER_BORDER_SIZE) as i32,
            y: rect.top,
            width: HOVER_BORDER_SIZE,
            height: at_least_one(rect.height as int) as i32,
        }),
        segments@[3] == (OutlineSegment {
            x: (rect.left + rect.width) as i32,
            y: rect.top,
            width: HOVER_BORDER_SIZE,
            height: at_least_one(rect.height as int) as i32,
        }),
{
    let border = HOVER_BORDER_SIZE;
    let wide = rect.width + border * 2;
    let wide = if wide < 1 {
        1
    } else {
        wide
    };
    let high = if rect.height < 1 {
        1
    } else {
        rect.height
    };
    let mut segments: Vec<OutlineSegment> = Vec::new();
    segments.push(
        OutlineSegment { x: rect.left - border, y: rect.top - border, width: wide, height: border },
    );
    segments.push(
        OutlineSegment {
            x: rect.left - border,
            y: rect.top + rect.height,
            width: wide,
            height: border,
        },
    );
    segments.push(OutlineSegment { x: rect.left - border, y: rect.top, width: border, height: high });
    segments.push(
        OutlineSegment { x: rect.left + rect.width, y: rect.top, width: border, height: high },
    );
    segments
}

/// The keys the picker reads on each poll; a key not read counts as up.
#[derive(Clone, Copy, Debug, PartialEq, Eq)]
pub struct PickerKeys {
    pub escape: bool,
    pub right_button: bool,
    pub enter: bool,
    pub space: bool,
    pub left_button: bool,
}

/// The message when picking is cancelled.
pub open spec fn cancel_message() -> Seq<char> {
    "창 선택을 취소했습니다."@
}

/// The message when nothing can be picked where the user clicked.
pub open spec fn nothing_clicked_message() -> Seq<char> {
    "클릭한 위치에서 선택 가능한 창을 찾지 못했습니다."@
}

/// The message when a key confirms while no window is hovered.
pub open spec fn nothing_hovered_message() -> Seq<char> {
    "마우스를 선택할 창 위에 올려두세요."@
}

/// Whether `r` picks `pick`, or fails with `msg` when there is none.
pub open spec fn picks_or(r: Result<isize, String>, pick: Option<isize>, msg: Seq<char>) -> bool {
    match pick {
        Some(h) => r == Ok::<isize, String>(h),
        None => err_is(r, msg),
    }
}

/// The first of two optional picks that there is.
pub open spec fn either(a: Option<isize>, b: Option<isize>) -> Option<isize> {
    match a {
        Some(h) => Some(h),
        None => b,
    }
}

/// What one poll of the picker decides, `None` meaning that picking goes on.
///
/// `hover` is the window under the cursor, `click_pick` the window at the
/// position of a recorded left press, and `cursor_pick` the window at the
/// cursor when the left button is down. In order: a recorded left press picks
/// the window where it happened or else the hovered one; a recorded right
/// press, Escape or the right button cancel; Enter or Space pick the hovered
/// window; the left button picks the hovered window or else the one under the
/// cursor.
pub fn picker_step(
    click: Option<PickerMouseEvent>,
    keys: PickerKeys,
    hover: Option<isize>,
    click_pick: Option<isize>,
    cursor_pick: Option<isize>,
) -> (r: Option<Result<isize, String>>)
    ensures
        click matches Some(PickerMouseEvent::Left { .. }) ==> r is Some && picks_or(
            r->0,
            either(click_pick, hover),
            nothing_clicked_message(),
        ),
        click matches Some(PickerMouseEvent::Right) ==> r is Some && err_is(r->0, cancel_message()),
        click is None && (keys.escape || keys.right_button) ==> r is Some && err_is(
            r->0,
            cancel_message(),
        ),
        click is None && !(keys.escape || keys.right_button) && (keys.enter || keys.space) ==> r is Some
            && picks_or(r->0, hover, nothing_hovered_message()),
        click is None && !(keys.escape || keys.right_button) && !(keys.enter || keys.space)
            && keys.left_button ==> r is Some && picks_or(
            r->0,
            either(hover, cursor_pick),
            nothing_clicked_message(),
        ),
        click is None && !(keys.escape || keys.right_button || keys.enter || keys.space
            || keys.left_button) ==> r is None,
{
    if let Some(event) = click {
        return match event {
            PickerMouseEvent::Left { .. } => {
                let pick = match click_pick {
                    Some(h) => Some(h),
                    None => hover,
                };
                match pick {
                    Some(h) => Some(Ok(h)),
                    None => Some(
                        Err(String::from_str("클릭한 위치에서 선택 가능한 창을 찾지 못했습니다.")),
                    ),
                }
            },
            PickerMouseEvent::Right => Some(Err(String::from_str("창 선택을 취소했습니다."))),
        };
    }
    if keys.escape || keys.right_button {
        return Some(Err(String::from_str("창 선택을 취소했습니다.")));
    }
    if keys.enter || keys.space {
        return match hover {
            Some(h) => Some(Ok(h)),
            None => Some(Err(String::from_str("마우스를 선택할 창 위에 올려두세요."))),
        };
    }
    if keys.left_button {
        let pick = match hover {
            Some(h) => Some(h),
            None => cursor_pick,
        };
        return match pick {
            Some(h) => Some(Ok(h)),
            None => Some(Err(String::from_str("클릭한 위치에서 선택 가능한 창을 찾지 못했습니다."))),
        };
    }
    None
}

/// What picking gives once `ticks_done` polls found nothing: after
/// `PICKER_TIMEOUT_TICKS` polls it gives up, otherwise it goes on (`None`).
pub fn picker_deadline(ticks_done: usize) -> (r: Option<Result<isize, String>>)
    ensures
        ticks_done < PICKER_TIMEOUT_TICKS ==> r is None,
        ticks_done >= PICKER_TIMEOUT_TICKS ==> r is Some && err_is(
            r->0,
            "창 선택 시간이 초과되었습니다."@,
        ),
{
    if ticks_done < PICKER_TIMEOUT_TICKS {
        return None;
    }
    Some(Err(String::from_str("창 선택 시간이 초과되었습니다.")))
}

} // verus!
