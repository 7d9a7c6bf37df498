use codex_quota_bar::layout::{
    aligned_x, covers_primary_screen, effective_layout, fallback_geometry, geometry, is_animating,
    lyricify_scan_due, lyricify_to_avoid, lyricify_window, menu_position, place_widget, popup_position, should_hide_widget, task_buttons,
    windows_generation, ChildWindow, ExternalWindow, Foreground, FrameActions, Point, ProcessEntry, Rect, Reposition, ScaledLayout,
    TaskbarGeometry, WidgetTarget, WindowEntry, ZOrderAction,
};
use codex_quota_bar::settings::TaskbarSide;

#[test]
fn aligns_widget_within_selected_region() {
    assert_eq!(aligned_x(0, 800, 200, 6, TaskbarSide::Left), 6);
    assert_eq!(aligned_x(0, 800, 200, 6, TaskbarSide::Right), 594);
}

#[test]
fn narrow_region_never_places_widget_before_its_start() {
    assert_eq!(aligned_x(500, 600, 200, 6, TaskbarSide::Right), 506);
}

#[test]
fn windows_10_forces_tray_left_while_windows_11_keeps_preferences() {
    assert_eq!(
        effective_layout(false, TaskbarSide::Left, TaskbarSide::Left),
        (TaskbarSide::Right, TaskbarSide::Right)
    );
    assert_eq!(
        effective_layout(true, TaskbarSide::Left, TaskbarSide::Right),
        (TaskbarSide::Left, TaskbarSide::Right)
    );
}

#[test]
fn detects_primary_fullscreen_bounds() {
    assert!(covers_primary_screen(
        Rect {
            left: 0,
            top: 0,
            right: 1920,
            bottom: 1080,
        },
        1920,
        1080
    ));
    assert!(!covers_primary_screen(
        Rect {
            left: 0,
            top: 0,
            right: 1600,
            bottom: 900,
        },
        1920,
        1080
    ));
}

fn bar() -> Rect {
    Rect { left: 0, top: 1032, right: 1920, bottom: 1080 }
}

fn scaled(region: TaskbarSide, alignment: TaskbarSide) -> ScaledLayout {
    ScaledLayout {
        width: 218,
        requested_height: 42,
        gap: 6,
        tray_reserve: 190,
        horizontal_offset: 0,
        vertical_offset: 0,
        region,
        alignment,
    }
}

#[test]
fn places_widget_left_of_the_tray() {
    let g = TaskbarGeometry {
        taskbar: bar(),
        tray: Some(Rect { left: 1700, top: 1032, right: 1920, bottom: 1080 }),
        task_buttons: None,
        windows_11: false,
    };
    let p = place_widget(g, scaled(TaskbarSide::Left, TaskbarSide::Left), None, true);
    // Windows 10: right region ends at the tray, aligned right: 1700 - 218 - 6
    assert_eq!(p.target, WidgetTarget { x: 1476, y: 1035, width: 218, height: 42 });
    assert!(p.lyricify_to.is_none());

    let tall = ScaledLayout { requested_height: 80, ..scaled(TaskbarSide::Right, TaskbarSide::Right) };
    assert_eq!(place_widget(g, tall, None, false).target.height, 48);
    let no_tray = TaskbarGeometry { tray: None, ..g };
    assert_eq!(place_widget(no_tray, scaled(TaskbarSide::Right, TaskbarSide::Right), None, false).target.x, 1920 - 190 - 218 - 6);
}

#[test]
fn windows_11_left_region_puts_lyricify_first() {
    let g = TaskbarGeometry {
        taskbar: bar(),
        tray: Some(Rect { left: 1700, top: 1032, right: 1920, bottom: 1080 }),
        task_buttons: Some(Rect { left: 800, top: 1032, right: 1100, bottom: 1080 }),
        windows_11: true,
    };
    let lyricify = Rect { left: 0, top: 0, right: 300, bottom: 40 };
    let p = place_widget(g, scaled(TaskbarSide::Left, TaskbarSide::Left), Some(lyricify), true);
    assert_eq!(p.lyricify_to, Some(Point { x: 6, y: 1036 }));
    assert_eq!(p.target.x, 6 + 300 + 6);
    let right = place_widget(g, scaled(TaskbarSide::Right, TaskbarSide::Left), Some(lyricify), true);
    assert_eq!(right.target.x, 1106);
    assert_eq!(right.lyricify_to, Some(Point { x: 1106 - 300 - 6, y: 1036 }));
    assert!(place_widget(g, scaled(TaskbarSide::Right, TaskbarSide::Left), Some(lyricify), false).lyricify_to.is_none());
}

#[test]
fn vertical_taskbar_centres_above_tray() {
    let g = TaskbarGeometry {
        taskbar: Rect { left: 0, top: 0, right: 60, bottom: 1080 },
        tray: Some(Rect { left: 0, top: 900, right: 60, bottom: 1080 }),
        task_buttons: None,
        windows_11: true,
    };
    let m = ScaledLayout { width: 50, horizontal_offset: 3, vertical_offset: -2, ..scaled(TaskbarSide::Right, TaskbarSide::Right) };
    let p = place_widget(g, m, None, true);
    assert_eq!(p.target, WidgetTarget { x: 5 + 3, y: 900 - 42 - 4 - 2, width: 50, height: 42 });
}

#[test]
fn geometry_from_os_reports() {
    assert!(geometry(None, None, None, Some(22_631)).is_none());
    let g = geometry(Some(bar()), Some(Rect { left: 5, top: 5, right: 5, bottom: 9 }), None, Some(22_000)).unwrap();
    assert!(g.tray.is_none());
    assert!(g.windows_11);
    assert!(!geometry(Some(bar()), None, None, Some(19_045)).unwrap().windows_11);
    assert!(!geometry(Some(bar()), None, None, None).unwrap().windows_11);
    assert_eq!(windows_generation(Some(g)), "windows11");
    assert_eq!(windows_generation(None), "windows10");
    let f = fallback_geometry(1920, 1080);
    assert_eq!(f.taskbar, Rect { left: 0, top: 1032, right: 1920, bottom: 1080 });
    assert!(!f.windows_11);
}

#[test]
fn task_list_wins_over_switcher() {
    let r1 = Rect { left: 1, top: 1, right: 2, bottom: 2 };
    let r2 = Rect { left: 3, top: 3, right: 4, bottom: 4 };
    let r3 = Rect { left: 5, top: 5, right: 6, bottom: 6 };
    let children = vec![
        ChildWindow { class_name: "MSTaskSwWClass".into(), rect: Some(r1) },
        ChildWindow { class_name: "MSTaskListWClass".into(), rect: Some(r2) },
        ChildWindow { class_name: "MSTaskSwWClass".into(), rect: Some(r3) },
    ];
    assert_eq!(task_buttons(&children), Some(r2));
    let only_switch = vec![ChildWindow { class_name: "MSTaskSwWClass".into(), rect: Some(r1) }, ChildWindow { class_name: "Other".into(), rect: Some(r3) }];
    assert_eq!(task_buttons(&only_switch), Some(r1));
}

#[test]
fn hides_for_fullscreen_windows_only() {
    let covering = Foreground::Window { class_name: "Chrome_WidgetWin_1".into(), rect: Some(Rect { left: 0, top: 0, right: 1920, bottom: 1080 }) };
    assert!(should_hide_widget(Some(bar()), 1920, 1080, &covering));
    let desktop = Foreground::Window { class_name: "WorkerW".into(), rect: Some(Rect { left: 0, top: 0, right: 1920, bottom: 1080 }) };
    assert!(!should_hide_widget(Some(bar()), 1920, 1080, &desktop));
    assert!(!should_hide_widget(Some(bar()), 1920, 1080, &Foreground::Taskbar));
    assert!(should_hide_widget(None, 1920, 1080, &Foreground::Nothing));
    let thin = Rect { left: 0, top: 1075, right: 1920, bottom: 1080 };
    assert!(should_hide_widget(Some(thin), 1920, 1080, &Foreground::Nothing));
    let off = Rect { left: 0, top: 1080, right: 1920, bottom: 1128 };
    assert!(should_hide_widget(Some(off), 1920, 1080, &Foreground::Nothing));
}

#[test]
fn finds_rightmost_lyricify_bar() {
    let processes = vec![
        ProcessEntry { name: "explorer.exe".into(), pid: 1 },
        ProcessEntry { name: "Lyricify Lite.exe".into(), pid: 7 },
    ];
    let windows = vec![
        WindowEntry { hwnd: 10, visible: true, pid: 7, rect: Some(Rect { left: 100, top: 1035, right: 400, bottom: 1075 }) },
        WindowEntry { hwnd: 11, visible: true, pid: 1, rect: Some(Rect { left: 500, top: 1035, right: 900, bottom: 1075 }) },
        WindowEntry { hwnd: 12, visible: false, pid: 7, rect: Some(Rect { left: 500, top: 1035, right: 950, bottom: 1075 }) },
        WindowEntry { hwnd: 13, visible: true, pid: 7, rect: Some(Rect { left: 420, top: 1035, right: 700, bottom: 1075 }) },
        WindowEntry { hwnd: 14, visible: true, pid: 7, rect: Some(Rect { left: 0, top: 0, right: 800, bottom: 40 }) },
        WindowEntry { hwnd: 15, visible: true, pid: 7, rect: Some(Rect { left: 690, top: 1035, right: 700, bottom: 1075 }) },
    ];
    let found = lyricify_window(&processes, &windows, bar()).unwrap();
    assert_eq!(found.hwnd, 13);
    let none = vec![ProcessEntry { name: "explorer.exe".into(), pid: 7 }];
    assert!(lyricify_window(&none, &windows, bar()).is_none());
}

#[test]
fn popups_open_beside_the_widget() {
    assert_eq!(popup_position(1500, 1035, 218, 42, 360, 480, 1032), (1358, 1035 - 480 - 10));
    assert_eq!(popup_position(1500, 0, 218, 42, 360, 480, 0), (1358, 52));
    assert_eq!(popup_position(10, 20, 10, 10, 400, 400, 100), (8, 8));
    assert_eq!(menu_position(1800, 1050, 160, 200, 1032), (1640, 842));
    assert_eq!(menu_position(1800, 10, 160, 200, 0), (1640, 18));
}

#[test]
fn reposition_loop_hides_once_and_shows_again() {
    let state = Reposition::new();
    let (state, action) = state.on_settled(false);
    assert_eq!(action, ZOrderAction::Show);
    let (state, action) = state.on_settled(false);
    assert_eq!(action, ZOrderAction::KeepVisible);
    let (_, action) = state.on_settled(true);
    assert_eq!(action, ZOrderAction::Nothing);
    let (state, hide) = state.on_hidden();
    assert!(hide);
    let (state, hide) = state.on_hidden();
    assert!(!hide);
    let state = state.on_visible();
    let target = WidgetTarget { x: 10, y: 20, width: 30, height: 40 };
    let (state, restart) = state.on_target(target, Point { x: 1, y: 2 });
    assert!(restart);
    assert_eq!(state.animation_from, Point { x: 1, y: 2 });
    let (state, restart) = state.on_target(target, Point { x: 5, y: 5 });
    assert!(!restart);
    let (state, moved) = state.on_position(Point { x: 3, y: 4 });
    assert!(moved);
    let (state, moved) = state.on_position(Point { x: 3, y: 4 });
    assert!(!moved);
    let (_, action) = state.on_settled(false);
    assert_eq!(action, ZOrderAction::Show);
    assert!(is_animating(true, false, Point { x: 1, y: 2 }, target));
    assert!(!is_animating(true, false, Point { x: 10, y: 20 }, target));
    assert!(!is_animating(false, false, Point { x: 1, y: 2 }, target));
}

#[test]
fn hidden_streak_hides_once_then_moves_and_shows_nothing() {
    let nothing = FrameActions { hide: false, move_to: None, z_order: ZOrderAction::Nothing };
    let target = WidgetTarget { x: 10, y: 20, width: 30, height: 40 };
    let (state, restart) = Reposition::new().visible_pass(target, Point { x: 0, y: 0 });
    assert!(restart);
    let (state, actions) = state.settle_pass(Point { x: 10, y: 20 }, false);
    assert_eq!(
        actions,
        FrameActions { hide: false, move_to: Some(Point { x: 10, y: 20 }), z_order: ZOrderAction::Show }
    );
    let (state, actions) = state.hidden_pass();
    assert_eq!(actions, FrameActions { hide: true, move_to: None, z_order: ZOrderAction::Nothing });
    let (state, actions) = state.hidden_pass();
    assert_eq!(actions, nothing);
    let (state, actions) = state.hidden_pass();
    assert_eq!(actions, nothing);
    let (state, restart) = state.visible_pass(target, Point { x: 10, y: 20 });
    assert!(!restart);
    let (state, actions) = state.settle_pass(Point { x: 10, y: 20 }, false);
    assert_eq!(actions, FrameActions { hide: false, move_to: None, z_order: ZOrderAction::Show });
    let (_, actions) = state.settle_pass(Point { x: 10, y: 20 }, false);
    assert_eq!(actions, FrameActions { hide: false, move_to: None, z_order: ZOrderAction::KeepVisible });
}

#[test]
fn moving_widget_is_moved_without_z_order_changes() {
    let target = WidgetTarget { x: 100, y: 20, width: 30, height: 40 };
    let (state, _) = Reposition::new().visible_pass(target, Point { x: 0, y: 20 });
    let (state, _) = state.settle_pass(Point { x: 0, y: 20 }, true);
    let (_, actions) = state.settle_pass(Point { x: 50, y: 20 }, true);
    assert_eq!(
        actions,
        FrameActions { hide: false, move_to: Some(Point { x: 50, y: 20 }), z_order: ZOrderAction::Nothing }
    );
}

#[test]
fn lyricify_is_avoided_only_when_coordination_is_on() {
    let found = Some(ExternalWindow { hwnd: 13, rect: Rect { left: 420, top: 1035, right: 700, bottom: 1075 } });
    assert_eq!(lyricify_to_avoid(true, found), found);
    assert_eq!(lyricify_to_avoid(false, found), None);
    assert_eq!(lyricify_to_avoid(true, None), None);
    assert!(lyricify_scan_due(true, 1000, 1000));
    assert!(!lyricify_scan_due(true, 999, 1000));
    assert!(!lyricify_scan_due(false, 5000, 1000));
}

#[test]
fn popup_positions_at_the_edge_of_i32() {
    assert_eq!(popup_position(i32::MAX - 10, 0, 10, 10, 20, 20, 0), (i32::MAX - 20, 20));
    assert_eq!(menu_position(i32::MIN + 100, i32::MIN + 300, 100, 200, 5), (i32::MIN, 8));
}
