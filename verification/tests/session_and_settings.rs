use settings_app::capture::{
    keep_monitor, keep_window_named, keep_window_rect, scroll_step, str_contains, ScrollStep,
};
use settings_app::hotkey::HotkeyAction;
use settings_app::session::{
    action_ends_overlay, close_request_response, delay_capture_tick, delay_capture_toast,
    handle_hotkey, is_closing_action, is_shape_tool, mode_after_prepare, overlay_step,
    overlay_toast, pin_close_step, OverlayStep,
    resolve_effective_prev_state, restore_plan, scroll_capture_toast, AppMode, CloseResponse,
    DelayTick, ScreenshotAction, ScreenshotTool, ToastKind, WindowRestore, PIN_CLOSE_FRAMES,
};
use settings_app::settings::{
    config_flag, flag_value, startup_error_message, theme_selection, GeneralPage, MenuItem,
    PageOutput, PrivacyPage,
};
use settings_app::tray::{tray_click_action, tray_icon_rgba, tray_menu_action, TrayAction};
use settings_app::window::{create_screenshot_state, DeviceInfo, WindowPrevState};

#[test]
fn closing_actions() {
    assert!(is_closing_action(ScreenshotAction::Close));
    assert!(is_closing_action(ScreenshotAction::SaveAndClose));
    assert!(is_closing_action(ScreenshotAction::SaveToClipboard));
    assert!(!is_closing_action(ScreenshotAction::SaveAs));
    assert!(!is_closing_action(ScreenshotAction::PinToTop));
    assert!(!is_closing_action(ScreenshotAction::DelayCapture(3)));
    assert!(!is_closing_action(ScreenshotAction::NoAction));
    assert!(!is_closing_action(ScreenshotAction::ScrollCapture));
}

#[test]
fn shape_tools() {
    assert!(is_shape_tool(ScreenshotTool::Rect));
    assert!(is_shape_tool(ScreenshotTool::Pen));
    assert!(!is_shape_tool(ScreenshotTool::Text));
    assert!(!is_shape_tool(ScreenshotTool::Mosaic));
}

#[test]
fn window_goes_back_to_the_tray() {
    assert_eq!(resolve_effective_prev_state(ScreenshotAction::Close), WindowPrevState::Tray);
    assert_eq!(restore_plan(WindowPrevState::Tray), WindowRestore::HideToTray);
    assert_eq!(restore_plan(WindowPrevState::Normal), WindowRestore::HideToTray);
    assert_eq!(restore_plan(WindowPrevState::Minimized), WindowRestore::Minimize);
}

#[test]
fn close_requests() {
    assert_eq!(close_request_response(AppMode::Screenshot, true), CloseResponse::Cancel);
    assert_eq!(close_request_response(AppMode::Idle, false), CloseResponse::HideToTray);
    assert_eq!(close_request_response(AppMode::Idle, true), CloseResponse::AllowQuit);
}

#[test]
fn hotkey_enters_screenshot_mode() {
    let action = HotkeyAction::SetScreenshotMode { prev_state: WindowPrevState::Minimized };
    assert_eq!(handle_hotkey(action), (AppMode::Screenshot, WindowPrevState::Minimized));
}

#[test]
fn pin_close_counts_down() {
    let (left, close) = pin_close_step(PIN_CLOSE_FRAMES);
    assert_eq!((left, close), (1, false));
    assert_eq!(pin_close_step(left), (0, true));
    assert_eq!(pin_close_step(0), (0, false));
}

#[test]
fn delay_capture_counts_seconds() {
    assert_eq!(delay_capture_tick(3, 0), DelayTick::Waiting);
    assert_eq!(delay_capture_tick(3, 1), DelayTick::Remaining(2));
    assert_eq!(delay_capture_tick(1, 5), DelayTick::Capture);
    assert_eq!(delay_capture_tick(0, 1), DelayTick::Capture);
}

#[test]
fn overlay_end() {
    assert!(action_ends_overlay(ScreenshotAction::PinToTop, true));
    assert!(!action_ends_overlay(ScreenshotAction::PinToTop, false));
    assert!(action_ends_overlay(ScreenshotAction::DelayCapture(5), false));
    assert!(!action_ends_overlay(ScreenshotAction::ScrollCapture, true));
    assert!(!action_ends_overlay(ScreenshotAction::StopScrollCapture, true));
}

#[test]
fn overlay_notifications() {
    let t = overlay_toast(ScreenshotAction::SaveAndClose, true).unwrap();
    assert_eq!(t.text, "已保存到桌面");
    assert_eq!(t.kind, ToastKind::Success);
    let t = overlay_toast(ScreenshotAction::DelayCapture(10), true).unwrap();
    assert_eq!(t.text, "10 秒后截图");
    assert_eq!(t.kind, ToastKind::Info);
    assert!(overlay_toast(ScreenshotAction::ScrollCapture, false).is_none());
    assert_eq!(
        overlay_toast(ScreenshotAction::ScrollCapture, true).unwrap().text,
        "滚动截图已启动，移出选区自动暂停"
    );
    assert!(overlay_toast(ScreenshotAction::Close, true).is_none());
    assert!(overlay_toast(ScreenshotAction::PinToTop, true).is_none());
}

#[test]
fn result_notifications() {
    let t = delay_capture_toast(None);
    assert_eq!((t.text.as_str(), t.kind), ("延时截图已置顶", ToastKind::Success));
    let t = delay_capture_toast(Some("boom"));
    assert_eq!((t.text.as_str(), t.kind), ("延时截图失败: boom", ToastKind::Error));
    let t = scroll_capture_toast(Ok("SCROLL_1.png"));
    assert_eq!(t.text, "滚动长图已保存到桌面: SCROLL_1.png");
    let t = scroll_capture_toast(Err("x"));
    assert_eq!((t.text.as_str(), t.kind), ("滚动截图失败: x", ToastKind::Error));
}

#[test]
fn stored_switches() {
    assert_eq!(flag_value(true), "1");
    assert_eq!(flag_value(false), "0");
    assert!(config_flag(None));
    assert!(config_flag(Some("1")));
    assert!(!config_flag(Some("0")));
    assert!(!config_flag(Some("true")));
}

#[test]
fn general_page_follows_the_stored_setting() {
    let (page, sync) = GeneralPage::load(Some("0"), true);
    assert!(!page.startup_on_login && sync);
    assert_eq!((page.language, page.update_channel), (0, 0));
    let (page, sync) = GeneralPage::load(None, true);
    assert!(page.startup_on_login && !sync);
}

#[test]
fn startup_toggle() {
    let (mut page, _) = GeneralPage::load(Some("1"), true);
    assert_eq!(page.apply_startup_toggle(false, true), Some("0"));
    assert!(!page.startup_on_login);
    assert_eq!(page.apply_startup_toggle(true, false), None);
    assert!(!page.startup_on_login);
}

#[test]
fn theme_buttons() {
    assert_eq!(theme_selection(true, true, false), Some(false));
    assert_eq!(theme_selection(false, false, true), Some(true));
    assert_eq!(theme_selection(true, false, false), None);
    assert_eq!(theme_selection(false, true, true), Some(true));
    assert_eq!(theme_selection(true, false, true), None);
}

#[test]
fn pages_and_menu() {
    assert!(PageOutput::default().theme_changed.is_none());
    let p = PrivacyPage::default();
    assert!(!p.send_analytics && p.crash_report && !p.location);
    let m = MenuItem::new("*", "常规", "general");
    assert_eq!((m.icon, m.label, m.id), ("*", "常规", "general"));
}

#[test]
fn startup_messages() {
    assert_eq!(startup_error_message(true, "denied"), "启用开机启动失败: denied");
    assert_eq!(startup_error_message(false, "x"), "禁用开机启动失败: x");
}

#[test]
fn tray() {
    let icon = tray_icon_rgba();
    assert_eq!(icon.len(), 16 * 16 * 4);
    assert_eq!(&icon[..8], &[100, 149, 237, 255, 100, 149, 237, 255]);
    assert_eq!(tray_click_action(true, true), Some(TrayAction::Screenshot));
    assert_eq!(tray_click_action(true, false), None);
    assert_eq!(tray_click_action(false, true), None);
    assert_eq!(tray_menu_action("a", "a", "b"), Some(TrayAction::ShowSettings));
    assert_eq!(tray_menu_action("b", "a", "b"), Some(TrayAction::Quit));
    assert_eq!(tray_menu_action("c", "a", "b"), None);
}

#[test]
fn desktop_origin() {
    let d = DeviceInfo::from_origins(&vec![(0, 0), (-1920, 200), (1920, -300)]);
    assert_eq!((d.phys_min_x, d.phys_min_y), (-1920, -300));
    let d = DeviceInfo::from_origins(&Vec::new());
    assert_eq!((d.phys_min_x, d.phys_min_y), (0, 0));
}

#[test]
fn shared_window_state() {
    let (ws, common) = create_screenshot_state(77, DeviceInfo { phys_min_x: 1, phys_min_y: 2 });
    assert_eq!(ws.hwnd_usize, 77);
    assert!(std::sync::Arc::ptr_eq(&ws, &common.window_state));
    assert!(*ws.visible.lock().unwrap());
    assert!(!*ws.allow_quit.lock().unwrap());
    assert_eq!(common.device_info.phys_min_y, 2);
}

#[test]
fn window_outline_filter() {
    assert!(keep_window_rect("Firefox", false, 800, 600));
    assert!(!keep_window_rect("Firefox", true, 800, 600));
    assert!(!keep_window_rect("My ScreenShot Tool", false, 800, 600));
    assert!(!keep_window_rect("CloverViewer", false, 800, 600));
    assert!(!keep_window_rect("Firefox", false, 50, 600));
    assert!(keep_window_rect("Firefox", false, 51, 51));
    assert!(keep_window_named("firefox", false, 800, 600));
    assert!(!keep_window_named("my screenshot tool", false, 800, 600));
    assert!(keep_window_named("My ScreenShot Tool", false, 800, 600));
    assert!(!keep_window_named("firefox", true, 800, 600));
    assert!(keep_monitor(1920, 1080));
    assert!(!keep_monitor(0, 1080));
    assert!(str_contains("abcdef", "cde"));
    assert!(!str_contains("abc", "abcd"));
    assert!(str_contains("abc", ""));
}

#[test]
fn scroll_worker_steps() {
    assert_eq!(scroll_step(true, false), ScrollStep::Save);
    assert_eq!(scroll_step(false, false), ScrollStep::Pause);
    assert_eq!(scroll_step(false, true), ScrollStep::Scroll);
}

#[test]
fn overlay_frame_steps() {
    assert_eq!(overlay_step(AppMode::Idle, false), OverlayStep::Skip);
    assert_eq!(overlay_step(AppMode::Idle, true), OverlayStep::Skip);
    assert_eq!(overlay_step(AppMode::Screenshot, false), OverlayStep::EnterAndPrepare);
    assert_eq!(overlay_step(AppMode::Screenshot, true), OverlayStep::Prepare);
    assert_eq!(mode_after_prepare(AppMode::Screenshot, false, false), AppMode::Idle);
    assert_eq!(mode_after_prepare(AppMode::Screenshot, false, true), AppMode::Screenshot);
    assert_eq!(mode_after_prepare(AppMode::Screenshot, true, false), AppMode::Screenshot);
}
