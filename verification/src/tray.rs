//! The system tray: its icon and what its clicks and menu entries mean.
use crate::hotkey::str_equal;
use vstd::prelude::*;

verus! {

/// What the tray asks of the application.
#[derive(Debug, Clone, Copy, PartialEq, Eq, Structural)]
pub enum TrayAction {
    /// Take a screenshot (left click on the icon).
    Screenshot,
    /// Show the settings window.
    ShowSettings,
    /// Quit.
    Quit,
}

/// Side of the square tray icon, in pixels.
pub const TRAY_ICON_SIZE: u32 = 16;

/// The colour of the tray icon: red, green, blue, alpha.
pub open spec fn tray_icon_channel(c: int) -> u8 {
    if c == 0 {
        100
    } else if c == 1 {
        149
    } else if c == 2 {
        237
    } else {
        255
    }
}

/// The RGBA pixels of the tray icon: a square of one opaque colour.
pub fn tray_icon_rgba() -> (rgba: Vec<u8>)
    ensures
        rgba@.len() == 4 * TRAY_ICON_SIZE * TRAY_ICON_SIZE,
        forall|i: int| 0 <= i < rgba@.len() ==> #[trigger] rgba@[i] == tray_icon_channel(i % 4),
{
    let mut rgba: Vec<u8> = Vec::new();
    let mut k: u32 = 0;
    while k < TRAY_ICON_SIZE * TRAY_ICON_SIZE
        invariant
            k <= TRAY_ICON_SIZE * TRAY_ICON_SIZE,
            rgba@.len() == 4 * k,
            forall|i: int| 0 <= i < rgba@.len() ==> #[trigger] rgba@[i] == tray_icon_channel(i % 4),
        decreases TRAY_ICON_SIZE * TRAY_ICON_SIZE - k,
    {
        rgba.push(100);
        rgba.push(149);
        rgba.push(237);
        rgba.push(255);
        k = k + 1;
    }
    rgba
}

/// A click on the icon takes a screenshot when the left button is released.
pub fn tray_click_action(left_button: bool, released: bool) -> (r: Option<TrayAction>)
    ensures
        r == if left_button && released {
            Some(TrayAction::Screenshot)
        } else {
            None
        },
{
    if left_button && released {
        Some(TrayAction::Screenshot)
    } else {
        None
    }
}

/// The action of the menu entry `id`, given the ids of the settings and the
/// quit entries.
pub fn tray_menu_action(id: &str, settings_id: &str, quit_id: &str) -> (r: Option<TrayAction>)
    ensures
        r == if id@ == settings_id@ {
            Some(TrayAction::ShowSettings)
        } else if id@ == quit_id@ {
            Some(TrayAction::Quit)
        } else {
            None
        },
{
    if str_equal(id, settings_id) {
        Some(TrayAction::ShowSettings)
    } else if str_equal(id, quit_id) {
        Some(TrayAction::Quit)
    } else {
        None
    }
}

} // verus!
