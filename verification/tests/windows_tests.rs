use maple_utils::window_list::{sort_windows_by_title, title_le_chars};
use maple_utils::windows::{
    ensure_window, foreground_attach_plan, has_topmost_style, is_unselectable_window_title,
    key_is_down, key_pressed_or_down, listable_window, noactivate_style, process_window_matches,
    rect_contains, rect_from_bounds, root_window, same_root_window, selectable_window_pick,
    topmost_insert_after, untitled_window_title, window_picker_title, WindowInfo, WindowRect,
};

fn info(hwnd: isize, title: &str) -> WindowInfo {
    WindowInfo { hwnd, title: title.to_string(), pid: 1 }
}

#[test]
fn rect_from_bounds_filters_small_windows() {
    assert_eq!(
        rect_from_bounds(10, 20, 110, 70),
        Some(WindowRect { left: 10, top: 20, width: 100, height: 50 })
    );
    assert_eq!(rect_from_bounds(0, 0, 31, 100), None);
    assert_eq!(rect_from_bounds(0, 0, 100, 31), None);
    assert_eq!(rect_from_bounds(-40, -40, -8, -8), Some(WindowRect { left: -40, top: -40, width: 32, height: 32 }));
}

#[test]
fn rect_contains_excludes_far_edges() {
    let r = WindowRect { left: 10, top: 20, width: 100, height: 50 };
    assert!(rect_contains(&r, 10, 20));
    assert!(rect_contains(&r, 109, 69));
    assert!(!rect_contains(&r, 110, 20));
    assert!(!rect_contains(&r, 10, 70));
    assert!(!rect_contains(&r, 9, 30));
}

#[test]
fn unselectable_titles() {
    assert!(is_unselectable_window_title("제목 없는 창"));
    assert!(is_unselectable_window_title("키 입력 받을 창 선택"));
    assert!(is_unselectable_window_title("  \t"));
    assert!(is_unselectable_window_title(""));
    assert!(!is_unselectable_window_title("MapleStory"));
    assert!(!is_unselectable_window_title(" 제목 없는 창 "));
    assert_eq!(untitled_window_title(), "제목 없는 창");
    assert_eq!(window_picker_title(), "키 입력 받을 창 선택");
}

#[test]
fn ensure_window_error() {
    assert_eq!(ensure_window(true), Ok(()));
    assert_eq!(ensure_window(false), Err("대상 창이 더 이상 존재하지 않습니다.".to_string()));
}

#[test]
fn roots() {
    assert_eq!(root_window(0, 5), 0);
    assert_eq!(root_window(7, 0), 7);
    assert_eq!(root_window(7, 3), 3);
    assert!(same_root_window(7, 8, 3, 3));
    assert!(same_root_window(3, 8, 0, 3));
    assert!(!same_root_window(0, 8, 0, 0));
    assert!(!same_root_window(7, 8, 0, 0));
}

#[test]
fn style_bits() {
    assert_eq!(noactivate_style(0x100, true), 0x08000100);
    assert_eq!(noactivate_style(0x08000100, false), 0x100);
    assert_eq!(noactivate_style(-1, false), !0x08000000isize);
    assert!(has_topmost_style(0x8));
    assert!(!has_topmost_style(0x10));
    assert_eq!(topmost_insert_after(true), -1);
    assert_eq!(topmost_insert_after(false), -2);
}

#[test]
fn key_states() {
    assert!(key_is_down(i16::MIN));
    assert!(key_is_down(-1));
    assert!(!key_is_down(1));
    assert!(key_pressed_or_down(1));
    assert!(key_pressed_or_down(-32768));
    assert!(!key_pressed_or_down(2));
    assert!(!key_pressed_or_down(0));
}

#[test]
fn attach_plan() {
    assert_eq!(foreground_attach_plan(1, 2, 3), (true, true));
    assert_eq!(foreground_attach_plan(1, 1, 0), (false, false));
    assert_eq!(foreground_attach_plan(1, 0, 1), (false, false));
}

#[test]
fn list_filters() {
    assert!(listable_window(true, 5, 1, "Notepad"));
    assert!(!listable_window(false, 5, 1, "Notepad"));
    assert!(!listable_window(true, 1, 1, "Notepad"));
    assert!(!listable_window(true, 5, 1, "제목 없는 창"));
    assert!(process_window_matches(true, 4, 4, Some("Maple Utils"), "Maple Utils"));
    assert!(!process_window_matches(true, 4, 4, Some("Maple Utils"), "Maple"));
    assert!(process_window_matches(true, 4, 4, None, "anything"));
    assert!(!process_window_matches(true, 3, 4, None, "anything"));
    assert!(!process_window_matches(false, 4, 4, None, "anything"));
}

#[test]
fn pick_needs_a_covering_selectable_window() {
    let rect = Some(WindowRect { left: 0, top: 0, width: 100, height: 100 });
    let p = selectable_window_pick(9, true, 5, 1, rect, 50, 50, "Game".to_string()).unwrap();
    assert_eq!((p.info.hwnd, p.info.pid, p.info.title.as_str()), (9, 5, "Game"));
    assert_eq!(p.rect, rect.unwrap());
    assert!(selectable_window_pick(0, true, 5, 1, rect, 50, 50, "Game".to_string()).is_none());
    assert!(selectable_window_pick(9, false, 5, 1, rect, 50, 50, "Game".to_string()).is_none());
    assert!(selectable_window_pick(9, true, 1, 1, rect, 50, 50, "Game".to_string()).is_none());
    assert!(selectable_window_pick(9, true, 5, 1, None, 50, 50, "Game".to_string()).is_none());
    assert!(selectable_window_pick(9, true, 5, 1, rect, 150, 50, "Game".to_string()).is_none());
    assert!(selectable_window_pick(9, true, 5, 1, rect, 50, 50, " ".to_string()).is_none());
}

#[test]
fn title_order_is_string_order() {
    let words = ["", "a", "ab", "b", "B", "가", "가나", "Z", "é", "😀"];
    for x in words {
        for y in words {
            let cx: Vec<char> = x.chars().collect();
            let cy: Vec<char> = y.chars().collect();
            assert_eq!(title_le_chars(&cx, &cy), x <= y, "{} {}", x, y);
        }
    }
}

#[test]
fn sort_is_stable_by_title() {
    let windows = vec![
        info(1, "b"),
        info(2, "a"),
        info(3, "b"),
        info(4, "가"),
        info(5, "A"),
        info(6, "a"),
    ];
    let sorted = sort_windows_by_title(windows);
    let order: Vec<isize> = sorted.iter().map(|w| w.hwnd).collect();
    assert_eq!(order, vec![5, 2, 6, 1, 3, 4]);
    assert!(sort_windows_by_title(vec![]).is_empty());
}
