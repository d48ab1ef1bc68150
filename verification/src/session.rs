//! The life cycle of a screenshot session: the actions the overlay can end
//! with, what each of them asks of the window, and the count-downs that run
//! after the overlay closes.
use crate::datetime::{decimal, decimal_string};
use crate::hotkey::HotkeyAction;
use crate::window::WindowPrevState;
use vstd::prelude::*;

verus! {

/// What the application shows.
#[derive(PartialEq, Eq, Clone, Copy, Debug, Structural)]
pub enum AppMode {
    /// The settings panel.
    Idle,
    /// The screenshot overlay.
    Screenshot,
}

/// How the user ends or steers a screenshot.
#[derive(PartialEq, Eq, Clone, Copy, Debug, Structural)]
pub enum ScreenshotAction {
    /// Nothing.
    NoAction,
    /// Close without saving.
    Close,
    /// Save to a file on the desktop and close.
    SaveAndClose,
    /// Save through a file dialog.
    SaveAs,
    /// Copy to the clipboard.
    SaveToClipboard,
    /// Pin the selection on top of all windows.
    PinToTop,
    /// Close, wait this many seconds, then capture the selection again.
    DelayCapture(u32),
    /// Start scrolling the region under the selection and stitching it.
    ScrollCapture,
    /// Stop the scroll capture and save the long image.
    StopScrollCapture,
}

/// Drawing tools.
#[derive(PartialEq, Eq, Clone, Copy, Debug, Structural)]
pub enum ScreenshotTool {
    Rect,
    Circle,
    Arrow,
    Text,
    Pen,
    Mosaic,
}

/// Kind of a notification.
#[derive(PartialEq, Eq, Clone, Copy, Debug, Structural)]
pub enum ToastKind {
    Success,
    Error,
    Info,
}

/// A notification shown to the user.
pub struct ToastMessage {
    pub text: String,
    pub kind: ToastKind,
}

/// Whether `action` ends the screenshot by itself. Saving through a file
/// dialog and pinning are not: the overlay handles them itself and then
/// ends the screenshot with `Close`.
pub fn is_closing_action(action: ScreenshotAction) -> (r: bool)
    ensures
        r == (action == ScreenshotAction::Close || action == ScreenshotAction::SaveAndClose
            || action == ScreenshotAction::SaveToClipboard),
{
    match action {
        ScreenshotAction::Close | ScreenshotAction::SaveAndClose | ScreenshotAction::SaveToClipboard => true,
        _ => false,
    }
}

/// Whether `tool` draws a shape that has a colour and a stroke width.
pub fn is_shape_tool(tool: ScreenshotTool) -> (r: bool)
    ensures
        r == (tool == ScreenshotTool::Rect || tool == ScreenshotTool::Circle || tool
            == ScreenshotTool::Arrow || tool == ScreenshotTool::Pen),
{
    match tool {
        ScreenshotTool::Rect | ScreenshotTool::Circle | ScreenshotTool::Arrow | ScreenshotTool::Pen => true,
        _ => false,
    }
}

/// The state the window returns to after a screenshot: always back to the
/// tray, whatever ended the screenshot.
pub fn resolve_effective_prev_state(action: ScreenshotAction) -> (r: WindowPrevState)
    ensures
        r == WindowPrevState::Tray,
{
    WindowPrevState::Tray
}

/// What to do with the window after a screenshot.
#[derive(PartialEq, Eq, Clone, Copy, Debug, Structural)]
pub enum WindowRestore {
    /// Mark it hidden, move it off screen, shrink and hide it.
    HideToTray,
    /// Show it minimized.
    Minimize,
}

/// A window that was minimized goes back to being minimized; otherwise it
/// goes to the tray.
pub fn restore_plan(prev: WindowPrevState) -> (r: WindowRestore)
    ensures
        r == if prev == WindowPrevState::Minimized {
            WindowRestore::Minimize
        } else {
            WindowRestore::HideToTray
        },
{
    match prev {
        WindowPrevState::Tray | WindowPrevState::Normal => WindowRestore::HideToTray,
        WindowPrevState::Minimized => WindowRestore::Minimize,
    }
}

/// The answer to a request to close the main window.
#[derive(PartialEq, Eq, Clone, Copy, Debug, Structural)]
pub enum CloseResponse {
    /// Refuse: a screenshot is in progress.
    Cancel,
    /// Refuse and hide the window in the tray.
    HideToTray,
    /// Let the application quit.
    AllowQuit,
}

/// Closing is refused during a screenshot; otherwise the window goes to the
/// tray unless the user chose to quit.
pub fn close_request_response(mode: AppMode, user_quit_requested: bool) -> (r: CloseResponse)
    ensures
        r == if mode == AppMode::Screenshot {
            CloseResponse::Cancel
        } else if !user_quit_requested {
            CloseResponse::HideToTray
        } else {
            CloseResponse::AllowQuit
        },
{
    if mode == AppMode::Screenshot {
        CloseResponse::Cancel
    } else if !user_quit_requested {
        CloseResponse::HideToTray
    } else {
        CloseResponse::AllowQuit
    }
}

/// A hotkey action switches to screenshot mode; the window state it carries
/// is where the window returns afterwards.
pub fn handle_hotkey(action: HotkeyAction) -> (r: (AppMode, WindowPrevState))
    ensures
        r == (AppMode::Screenshot, match action {
            HotkeyAction::SetScreenshotMode { prev_state } => prev_state,
        }),
{
    match action {
        HotkeyAction::SetScreenshotMode { prev_state } => (AppMode::Screenshot, prev_state),
    }
}

/// What the overlay does at the end of a frame's logic.
#[derive(PartialEq, Eq, Clone, Copy, Debug, Structural)]
pub enum OverlayStep {
    /// Not in screenshot mode: nothing.
    Skip,
    /// Screenshot mode was set from outside: start a session (the window
    /// counts as shown normally), then prepare its frame.
    EnterAndPrepare,
    /// Prepare the frame of the running session.
    Prepare,
}

/// The overlay's step for the application mode `mode` and whether a
/// session runs.
pub fn overlay_step(mode: AppMode, is_active: bool) -> (r: OverlayStep)
    ensures
        r == if mode != AppMode::Screenshot {
            OverlayStep::Skip
        } else if !is_active {
            OverlayStep::EnterAndPrepare
        } else {
            OverlayStep::Prepare
        },
{
    if mode != AppMode::Screenshot {
        OverlayStep::Skip
    } else if !is_active {
        OverlayStep::EnterAndPrepare
    } else {
        OverlayStep::Prepare
    }
}

/// The mode after preparing a frame: back to idle when the frame could not be
/// prepared and the session ended (the capture failed); unchanged otherwise.
pub fn mode_after_prepare(mode: AppMode, prepared: bool, still_active: bool) -> (r: AppMode)
    ensures
        r == if !prepared && !still_active {
            AppMode::Idle
        } else {
            mode
        },
{
    if !prepared && !still_active {
        AppMode::Idle
    } else {
        mode
    }
}

/// Frames to wait after pinning before the overlay is torn down.
pub const PIN_CLOSE_FRAMES: u8 = 2;

/// One frame of the wait after pinning: the frames left, and whether the
/// screenshot is to be closed now (when the count reaches zero).
pub fn pin_close_step(frames: u8) -> (r: (u8, bool))
    ensures
        frames == 0 ==> r == (0u8, false),
        frames > 0 ==> r == ((frames - 1) as u8, frames == 1),
{
    if frames > 0 {
        let left = frames - 1;
        (left, left == 0)
    } else {
        (0, false)
    }
}

/// One check of the delayed-capture count-down.
#[derive(PartialEq, Eq, Clone, Copy, Debug, Structural)]
pub enum DelayTick {
    /// Less than a second passed since the last tick: keep waiting.
    Waiting,
    /// A second passed: this many seconds are left.
    Remaining(u32),
    /// The count-down is over: capture now.
    Capture,
}

/// Ticks the count-down of a delayed capture once a second has passed since
/// the last tick: the capture happens when the last second is over.
pub fn delay_capture_tick(remaining: u32, elapsed_secs: u64) -> (r: DelayTick)
    ensures
        r == if elapsed_secs < 1 {
            DelayTick::Waiting
        } else if remaining <= 1 {
            DelayTick::Capture
        } else {
            DelayTick::Remaining((remaining - 1) as u32)
        },
{
    if elapsed_secs >= 1 {
        if remaining <= 1 {
            DelayTick::Capture
        } else {
            DelayTick::Remaining(remaining - 1)
        }
    } else {
        DelayTick::Waiting
    }
}

/// Whether the overlay stops after `action`; pinning stops it only when
/// there was a picture to pin.
pub fn action_ends_overlay(action: ScreenshotAction, pinned: bool) -> (r: bool)
    ensures
        r == match action {
            ScreenshotAction::PinToTop => pinned,
            ScreenshotAction::DelayCapture(_) => true,
            ScreenshotAction::SaveAndClose => true,
            ScreenshotAction::SaveToClipboard => true,
            ScreenshotAction::SaveAs => true,
            ScreenshotAction::Close => true,
            _ => false,
        },
{
    match action {
        ScreenshotAction::PinToTop => pinned,
        ScreenshotAction::DelayCapture(_)
        | ScreenshotAction::SaveAndClose
        | ScreenshotAction::SaveToClipboard
        | ScreenshotAction::SaveAs
        | ScreenshotAction::Close => true,
        _ => false,
    }
}

/// The notification the overlay shows when `action` is taken;
/// `has_selection` tells whether a scroll capture could start.
pub open spec fn overlay_toast_spec(action: ScreenshotAction, has_selection: bool) -> Option<
    (Seq<char>, ToastKind),
> {
    match action {
        ScreenshotAction::SaveAndClose => Some(("已保存到桌面"@, ToastKind::Success)),
        ScreenshotAction::SaveToClipboard => Some(("已复制到剪贴板"@, ToastKind::Success)),
        ScreenshotAction::SaveAs => Some(("已另存为文件"@, ToastKind::Success)),
        ScreenshotAction::DelayCapture(secs) => Some(
            (decimal(secs as nat) + " 秒后截图"@, ToastKind::Info),
        ),
        ScreenshotAction::ScrollCapture => if has_selection {
            Some(("滚动截图已启动，移出选区自动暂停"@, ToastKind::Info))
        } else {
            None
        },
        _ => None,
    }
}

fn toast(text: &str, kind: ToastKind) -> (t: ToastMessage)
    ensures
        t.text@ == text@,
        t.kind == kind,
{
    ToastMessage { text: String::from_str(text), kind }
}

/// The notification the overlay shows when `action` is taken (see
/// [`overlay_toast_spec`]).
pub fn overlay_toast(action: ScreenshotAction, has_selection: bool) -> (r: Option<ToastMessage>)
    ensures
        match r {
            None => overlay_toast_spec(action, has_selection) is None,
            Some(t) => overlay_toast_spec(action, has_selection) == Some((t.text@, t.kind)),
        },
{
    match action {
        ScreenshotAction::SaveAndClose => Some(toast("已保存到桌面", ToastKind::Success)),
        ScreenshotAction::SaveToClipboard => Some(toast("已复制到剪贴板", ToastKind::Success)),
        ScreenshotAction::SaveAs => Some(toast("已另存为文件", ToastKind::Success)),
        ScreenshotAction::DelayCapture(secs) => {
            let mut text = decimal_string(secs);
            text.append(" 秒后截图");
            Some(ToastMessage { text, kind: ToastKind::Info })
        },
        ScreenshotAction::ScrollCapture => {
            if has_selection {
                Some(toast("滚动截图已启动，移出选区自动暂停", ToastKind::Info))
            } else {
                None
            }
        },
        _ => None,
    }
}

/// The notification when a delayed capture ends: pinned, or the reason it
/// failed.
pub fn delay_capture_toast(failure: Option<&str>) -> (t: ToastMessage)
    ensures
        match failure {
            None => t.text@ == "延时截图已置顶"@ && t.kind == ToastKind::Success,
            Some(e) => t.text@ == "延时截图失败: "@ + e@ && t.kind == ToastKind::Error,
        },
{
    match failure {
        None => toast("延时截图已置顶", ToastKind::Success),
        Some(e) => {
            let mut text = String::from_str("延时截图失败: ");
            text.append(e);
            ToastMessage { text, kind: ToastKind::Error }
        },
    }
}

/// The notification when a scroll capture ends: the name of the saved file,
/// or the reason it failed.
pub fn scroll_capture_toast(outcome: Result<&str, &str>) -> (t: ToastMessage)
    ensures
        match outcome {
            Ok(name) => t.text@ == "滚动长图已保存到桌面: "@ + name@ && t.kind == ToastKind::Success,
            Err(e) => t.text@ == "滚动截图失败: "@ + e@ && t.kind == ToastKind::Error,
        },
{
    match outcome {
        Ok(name) => {
            let mut text = String::from_str("滚动长图已保存到桌面: ");
            text.append(name);
            ToastMessage { text, kind: ToastKind::Success }
        },
        Err(e) => {
            let mut text = String::from_str("滚动截图失败: ");
            text.append(e);
            ToastMessage { text, kind: ToastKind::Error }
        },
    }
}

} // verus!
