//! Window and mode states shared by the settings panel and the screenshot
//! overlay, and the decisions taken when entering and leaving a screenshot.
use vstd::prelude::*;

verus! {

/// How the main window was shown before a screenshot started; used to put it
/// back afterwards.
#[derive(PartialEq, Eq, Clone, Copy, Debug, Structural)]
pub enum WindowPrevState {
    /// Shown normally.
    Normal,
    /// Minimized.
    Minimized,
    /// Hidden in the system tray.
    Tray,
}

} // verus!

use std::sync::{Arc, Mutex};

verus! {

/// A mutual-exclusion lock around a value, as std's `Mutex`; only carried
/// through: the flags it guards are read and set outside this crate.
#[verifier::external_type_specification]
#[verifier::external_body]
#[verifier::reject_recursive_types(T)]
pub struct ExMutex<T: ?Sized>(Mutex<T>);

/// std's `Mutex::new`. The lock is opaque here, so nothing is stated of
/// the value it starts with.
pub assume_specification<T>[ Mutex::<T>::new ](t: T) -> Mutex<T>;

/// std's `Arc::clone`: a new handle to the same shared value.
#[verifier::external_body]
fn share<T>(value: &Arc<T>) -> (r: Arc<T>)
    ensures
        r == *value,
{
    Arc::clone(value)
}

/// Window flags shared between the hotkey thread and the interface.
pub struct WindowState {
    /// Whether the window is shown.
    pub visible: Arc<Mutex<bool>>,
    /// Whether closing the window quits the application.
    pub allow_quit: Arc<Mutex<bool>>,
    /// The native window handle.
    pub hwnd_usize: usize,
}

impl WindowState {
    /// Bundles the shared flags and the window handle.
    pub fn new(visible: Arc<Mutex<bool>>, allow_quit: Arc<Mutex<bool>>, hwnd_usize: usize) -> (r:
        Arc<Self>)
        ensures
            r.visible == visible,
            r.allow_quit == allow_quit,
            r.hwnd_usize == hwnd_usize,
    {
        Arc::new(WindowState { visible, allow_quit, hwnd_usize })
    }
}

/// A monitor: its name, the position of its top left corner and its size,
/// in physical pixels.
#[derive(Clone, Debug)]
pub struct MonitorInfo {
    pub name: String,
    pub x: i32,
    pub y: i32,
    pub width: u32,
    pub height: u32,
}

/// Where the desktop starts: the smallest x and y of all monitors, in
/// physical pixels.
#[derive(Clone, Debug, Default)]
pub struct DeviceInfo {
    pub phys_min_x: i32,
    pub phys_min_y: i32,
}

/// The smallest first coordinate among `origins`.
pub open spec fn min_x(origins: Seq<(i32, i32)>) -> int
    decreases origins.len(),
{
    if origins.len() == 0 {
        i32::MAX as int
    } else {
        let rest = min_x(origins.drop_last());
        if (origins.last().0 as int) < rest {
            origins.last().0 as int
        } else {
            rest
        }
    }
}

/// The smallest second coordinate among `origins`.
pub open spec fn min_y(origins: Seq<(i32, i32)>) -> int
    decreases origins.len(),
{
    if origins.len() == 0 {
        i32::MAX as int
    } else {
        let rest = min_y(origins.drop_last());
        if (origins.last().1 as int) < rest {
            origins.last().1 as int
        } else {
            rest
        }
    }
}

proof fn lemma_min_is_minimum(origins: Seq<(i32, i32)>)
    ensures
        forall|k: int| 0 <= k < origins.len() ==> min_x(origins) <= origins[k].0,
        forall|k: int| 0 <= k < origins.len() ==> min_y(origins) <= origins[k].1,
        origins.len() > 0 ==> exists|k: int| 0 <= k < origins.len() && min_x(origins) == origins[k].0,
        origins.len() > 0 ==> exists|k: int| 0 <= k < origins.len() && min_y(origins) == origins[k].1,
        min_x(origins) <= i32::MAX,
        min_y(origins) <= i32::MAX,
    decreases origins.len(),
{
    if origins.len() > 0 {
        let prefix = origins.drop_last();
        lemma_min_is_minimum(prefix);
        assert forall|k: int| 0 <= k < prefix.len() implies prefix[k] == origins[k] by {}
        if prefix.len() > 0 {
            let kx = choose|k: int| 0 <= k < prefix.len() && min_x(prefix) == prefix[k].0;
            let ky = choose|k: int| 0 <= k < prefix.len() && min_y(prefix) == prefix[k].1;
            assert(origins[kx] == prefix[kx]);
            assert(origins[ky] == prefix[ky]);
        }
        assert(origins[origins.len() - 1] == origins.last());
    }
}

impl DeviceInfo {
    /// The origin of the desktop spanned by monitors whose top left corners
    /// are `origins`: the smallest x and the smallest y; (0, 0) when there
    /// is no monitor.
    pub fn from_origins(origins: &Vec<(i32, i32)>) -> (d: DeviceInfo)
        ensures
            origins@.len() == 0 ==> d.phys_min_x == 0 && d.phys_min_y == 0,
            origins@.len() > 0 ==> d.phys_min_x == min_x(origins@) && d.phys_min_y == min_y(
                origins@,
            ),
    {
        let mut phys_min_x = i32::MAX;
        let mut phys_min_y = i32::MAX;

        if origins.len() == 0 {
            return DeviceInfo { phys_min_x: 0, phys_min_y: 0 };
        }
        let mut k: usize = 0;
        while k < origins.len()
            invariant
                k <= origins@.len(),
                phys_min_x == min_x(origins@.take(k as int)),
                phys_min_y == min_y(origins@.take(k as int)),
            decreases origins@.len() - k,
        {
            let (x, y) = origins[k];
            assert(origins@.take(k + 1).drop_last() =~= origins@.take(k as int));
            if x < phys_min_x {
                phys_min_x = x;
            }
            if y < phys_min_y {
                phys_min_y = y;
            }
            k = k + 1;
        }
        assert(origins@.take(k as int) =~= origins@);
        DeviceInfo { phys_min_x, phys_min_y }
    }
}

/// The smallest coordinates are those of some monitor, and no monitor lies
/// left of or above them.
pub proof fn lemma_device_origin_is_minimum(origins: Seq<(i32, i32)>)
    requires
        origins.len() > 0,
    ensures
        forall|k: int| 0 <= k < origins.len() ==> min_x(origins) <= origins[k].0 && min_y(origins)
            <= origins[k].1,
        exists|k: int| 0 <= k < origins.len() && min_x(origins) == origins[k].0,
        exists|k: int| 0 <= k < origins.len() && min_y(origins) == origins[k].1,
{
    lemma_min_is_minimum(origins);
}

/// State shared by the screenshot features: the window flags and the
/// desktop origin.
pub struct CommonState {
    pub window_state: Arc<WindowState>,
    pub device_info: DeviceInfo,
}

impl CommonState {
    /// Bundles the window flags with the desktop origin of the monitors.
    pub fn new(window_state: Arc<WindowState>, device_info: DeviceInfo) -> (r: Self)
        ensures
            r.window_state == window_state,
            r.device_info == device_info,
    {
        CommonState { window_state, device_info }
    }
}

/// Creates the shared window flags for window `hwnd_usize` (shown, not
/// allowed to quit) and the common state that holds them with the desktop
/// origin `device_info`; returns both, sharing the same flags.
pub fn create_screenshot_state(hwnd_usize: usize, device_info: DeviceInfo) -> (r: (
    Arc<WindowState>,
    CommonState,
))
    ensures
        r.0.hwnd_usize == hwnd_usize,
        r.1.window_state == r.0,
        r.1.device_info == device_info,
{
    let visible = Arc::new(Mutex::new(true));
    let allow_quit = Arc::new(Mutex::new(false));
    let window_state = WindowState::new(visible, allow_quit, hwnd_usize);
    let common_state = CommonState::new(share(&window_state), device_info);
    (window_state, common_state)
}

} // verus!
