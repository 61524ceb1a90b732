use maple_utils::picker::{
    outline_segments, picker_click_code, picker_deadline, picker_step, take_picker_mouse_event,
    HoverOutline, OutlineAction, OutlineSegment, PickerKeys, PickerMouseEvent,
};
use maple_utils::windows::WindowRect;

fn keys(escape: bool, right: bool, enter: bool, space: bool, left: bool) -> PickerKeys {
    PickerKeys { escape, right_button: right, enter, space, left_button: left }
}

fn none() -> PickerKeys {
    keys(false, false, false, false, false)
}

#[test]
fn hook_codes() {
    assert_eq!(picker_click_code(0, 0x0201, true), 1);
    assert_eq!(picker_click_code(0, 0x0204, true), 2);
    assert_eq!(picker_click_code(0, 0x0200, true), 0);
    assert_eq!(picker_click_code(-1, 0x0201, true), 0);
    assert_eq!(picker_click_code(0, 0x0201, false), 0);
    assert_eq!(picker_click_code(0, 0x1_0000_0201usize, true), 1);
}

#[test]
fn recorded_events() {
    assert_eq!(take_picker_mouse_event(1, 3, 4), Some(PickerMouseEvent::Left { x: 3, y: 4 }));
    assert_eq!(take_picker_mouse_event(2, 3, 4), Some(PickerMouseEvent::Right));
    assert_eq!(take_picker_mouse_event(0, 3, 4), None);
    assert_eq!(take_picker_mouse_event(7, 3, 4), None);
}

#[test]
fn outline_updates() {
    let mut o = HoverOutline::new([1, 2, 3, 4]);
    let r = WindowRect { left: 1, top: 2, width: 40, height: 50 };
    assert_eq!(o.update(Some(r)), OutlineAction::Show(r));
    assert_eq!(o.current, Some(r));
    assert_eq!(o.update(Some(r)), OutlineAction::Keep);
    assert_eq!(o.update(None), OutlineAction::Hide);
    assert_eq!(o.current, None);
    assert_eq!(o.update(None), OutlineAction::Keep);
    o.update(Some(r));
    o.conceal();
    assert_eq!(o.current, None);
    assert_eq!(o.windows, [1, 2, 3, 4]);
}

#[test]
fn outline_geometry() {
    let r = WindowRect { left: 100, top: 200, width: 300, height: 150 };
    assert_eq!(
        outline_segments(&r),
        vec![
            OutlineSegment { x: 96, y: 196, width: 308, height: 4 },
            OutlineSegment { x: 96, y: 350, width: 308, height: 4 },
            OutlineSegment { x: 96, y: 200, width: 4, height: 150 },
            OutlineSegment { x: 400, y: 200, width: 4, height: 150 },
        ]
    );
    let tiny = WindowRect { left: 0, top: 0, width: -20, height: 0 };
    let s = outline_segments(&tiny);
    assert_eq!(s[0].width, 1);
    assert_eq!(s[2].height, 1);
}

#[test]
fn picker_decisions() {
    let left = Some(PickerMouseEvent::Left { x: 1, y: 2 });
    assert_eq!(picker_step(left, none(), Some(5), Some(6), None), Some(Ok(6)));
    assert_eq!(picker_step(left, none(), Some(5), None, None), Some(Ok(5)));
    assert_eq!(
        picker_step(left, none(), None, None, Some(9)),
        Some(Err("클릭한 위치에서 선택 가능한 창을 찾지 못했습니다.".to_string()))
    );
    assert_eq!(
        picker_step(Some(PickerMouseEvent::Right), none(), Some(5), None, None),
        Some(Err("창 선택을 취소했습니다.".to_string()))
    );
    assert_eq!(
        picker_step(None, keys(true, false, true, false, false), Some(5), None, None),
        Some(Err("창 선택을 취소했습니다.".to_string()))
    );
    assert_eq!(
        picker_step(None, keys(false, true, false, false, false), Some(5), None, None),
        Some(Err("창 선택을 취소했습니다.".to_string()))
    );
    assert_eq!(picker_step(None, keys(false, false, true, false, true), Some(5), None, None), Some(Ok(5)));
    assert_eq!(
        picker_step(None, keys(false, false, false, true, false), None, None, Some(8)),
        Some(Err("마우스를 선택할 창 위에 올려두세요.".to_string()))
    );
    assert_eq!(picker_step(None, keys(false, false, false, false, true), None, None, Some(8)), Some(Ok(8)));
    assert_eq!(picker_step(None, keys(false, false, false, false, true), Some(4), None, Some(8)), Some(Ok(4)));
    assert_eq!(
        picker_step(None, keys(false, false, false, false, true), None, None, None),
        Some(Err("클릭한 위치에서 선택 가능한 창을 찾지 못했습니다.".to_string()))
    );
    assert_eq!(picker_step(None, none(), Some(4), None, None), None);
    assert_eq!(picker_deadline(0), None);
    assert_eq!(picker_deadline(3749), None);
    assert_eq!(picker_deadline(3750), Some(Err("창 선택 시간이 초과되었습니다.".to_string())));
}
