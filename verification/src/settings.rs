//! The settings panel: its menu entries, the state of its pages and how
//! settings are stored.
use crate::hotkey::str_equal;
use vstd::prelude::*;

verus! {

/// An entry of the side menu.
#[derive(Clone, PartialEq)]
pub struct MenuItem {
    /// Icon glyph shown before the label.
    pub icon: &'static str,
    /// Text shown.
    pub label: &'static str,
    /// Key of the page the entry opens.
    pub id: &'static str,
}

impl MenuItem {
    pub fn new(icon: &'static str, label: &'static str, id: &'static str) -> (m: Self)
        ensures
            m.icon == icon,
            m.label == label,
            m.id == id,
    {
        MenuItem { icon, label, id }
    }
}

/// What rendering a page asks of the application.
#[derive(Debug, Clone, Copy)]
pub struct PageOutput {
    /// The theme was switched: `Some(true)` dark, `Some(false)` light.
    pub theme_changed: Option<bool>,
}

impl Default for PageOutput {
    fn default() -> (r: Self)
        ensures
            r.theme_changed is None,
    {
        PageOutput { theme_changed: None }
    }
}

/// The general page: start with the system, language, update channel.
pub struct GeneralPage {
    /// Start the application at login (kept in step with the system and the
    /// stored setting).
    pub startup_on_login: bool,
    /// Index of the interface language.
    pub language: usize,
    /// Index of the update channel.
    pub update_channel: usize,
}

/// The privacy page.
pub struct PrivacyPage {
    pub send_analytics: bool,
    pub crash_report: bool,
    pub location: bool,
}

impl Default for PrivacyPage {
    fn default() -> (p: Self)
        ensures
            !p.send_analytics,
            p.crash_report,
            !p.location,
    {
        PrivacyPage { send_analytics: false, crash_report: true, location: false }
    }
}

/// A page with only a title, for menu entries without a page of their own.
pub struct GenericPage {
    pub title: String,
}

/// Key under which system settings are stored.
pub const SYS_PLUGIN_ID: &'static str = "SYS_settings";

/// Setting: start at login.
pub const K_STARTUP: &'static str = "startup";

/// Setting: dark theme.
pub const K_THEME: &'static str = "theme";

/// Name under which the application registers to start at login.
pub const APP_NAME: &'static str = "SettingsApp";

/// How a switch is stored: `"1"` on, `"0"` off.
pub fn flag_value(on: bool) -> (v: &'static str)
    ensures
        v@ == if on {
            "1"@
        } else {
            "0"@
        },
{
    if on {
        "1"
    } else {
        "0"
    }
}

/// Reads a stored switch: on when it is `"1"`, and when nothing is stored
/// (both switches default to on).
pub fn config_flag(value: Option<&str>) -> (on: bool)
    ensures
        on == match value {
            None => true,
            Some(v) => v@ == "1"@,
        },
{
    match value {
        None => true,
        Some(v) => str_equal(v, "1"),
    }
}

impl GeneralPage {
    /// The page as loaded: start-at-login as stored (`stored`, see
    /// [`config_flag`]), first language and channel. The second value
    /// tells whether the system setting `actual` differs and must be brought
    /// in line with the stored one.
    pub fn load(stored: Option<&str>, actual: bool) -> (r: (Self, bool))
        ensures
            r.0.startup_on_login == config_flag_spec(stored),
            r.0.language == 0,
            r.0.update_channel == 0,
            r.1 == (config_flag_spec(stored) != actual),
    {
        let want = config_flag(stored);
        (GeneralPage { startup_on_login: want, language: 0, update_channel: 0 }, want != actual)
    }

    /// The switch was set to `value`; `applied` tells whether the system
    /// accepted it. When it did, the page follows and the value to store is
    /// returned; otherwise the page keeps its state.
    pub fn apply_startup_toggle(&mut self, value: bool, applied: bool) -> (store: Option<
        &'static str,
    >)
        ensures
            applied ==> final(self).startup_on_login == value && store is Some && store->0@ == (
            if value {
                "1"@
            } else {
                "0"@
            }),
            !applied ==> final(self).startup_on_login == old(self).startup_on_login && store is None,
            final(self).language == old(self).language,
            final(self).update_channel == old(self).update_channel,
    {
        if applied {
            self.startup_on_login = value;
            Some(flag_value(value))
        } else {
            None
        }
    }
}

/// [`config_flag`] as a function of the stored text.
pub open spec fn config_flag_spec(value: Option<&str>) -> bool {
    match value {
        None => true,
        Some(v) => v@ == "1"@,
    }
}

/// A stored switch reads back as it was stored: the text `"1"` stored for
/// on loads as on, `"0"` for off loads as off; with nothing stored it is on.
pub proof fn lemma_stored_switch_reads_back(on: bool, stored: &str)
    requires
        stored@ == (if on {
            "1"@
        } else {
            "0"@
        }),
    ensures
        config_flag_spec(Some(stored)) == on,
        config_flag_spec(None) == true,
{
    reveal_strlit("1");
    reveal_strlit("0");
    assert("1"@[0] != "0"@[0]);
}

/// The theme after the two theme buttons of a frame: clicking "light" then
/// "dark" leaves dark, and so on. `Some` with the new theme (true = dark)
/// when it differs from `dark_mode`.
pub fn theme_selection(dark_mode: bool, light_clicked: bool, dark_clicked: bool) -> (r: Option<bool>)
    ensures
        ({
            let new_dark = if dark_clicked {
                true
            } else if light_clicked {
                false
            } else {
                dark_mode
            };
            r == if new_dark != dark_mode {
                Some(new_dark)
            } else {
                None
            }
        }),
{
    let mut light_selected = !dark_mode;
    let mut dark_selected = dark_mode;
    if light_clicked {
        light_selected = true;
        dark_selected = false;
    }
    if dark_clicked {
        light_selected = false;
        dark_selected = true;
    }
    let new_dark = dark_selected;
    if new_dark != dark_mode {
        Some(new_dark)
    } else {
        None
    }
}

/// Message when the path of the running program cannot be found.
pub const EXE_PATH_ERROR: &'static str = "获取可执行路径失败";

/// Message when switching start-at-login on (`enable`) or off failed for
/// the reason `detail`.
pub fn startup_error_message(enable: bool, detail: &str) -> (m: String)
    ensures
        m@ == (if enable {
            "启用开机启动失败: "@
        } else {
            "禁用开机启动失败: "@
        }) + detail@,
{
    let mut m = if enable {
        String::from_str("启用开机启动失败: ")
    } else {
        String::from_str("禁用开机启动失败: ")
    };
    m.append(detail);
    m
}

} // verus!
