//! Choosing what a screen capture keeps: the monitors and the window
//! outlines offered for selection, and the steps of a scroll capture.
use crate::hotkey::chars_equal;
use vstd::prelude::*;

verus! {

/// Applications whose windows are never offered for selection (the
/// screenshot tool itself), matched in lower case.
pub open spec fn is_own_app(lower_name: Seq<char>) -> bool {
    seq_contains(lower_name, "cloverviewer"@) || seq_contains(lower_name, "screenshot"@)
}

/// Whether `needle` occurs in `haystack`.
pub open spec fn seq_contains(haystack: Seq<char>, needle: Seq<char>) -> bool {
    exists|i: int|
        0 <= i <= haystack.len() - needle.len() && #[trigger] haystack.subrange(
            i,
            i + needle.len(),
        ) == needle
}

/// A window counts as the screenshot tool's own exactly when its lower-case
/// name holds `"cloverviewer"` or `"screenshot"` somewhere: any other name
/// (such as `"teamviewer"`) is offered for selection.
pub proof fn lemma_own_app_names(name: Seq<char>)
    ensures
        is_own_app(name) <==> (exists|i: int|
            0 <= i && i + 12 <= name.len() && #[trigger] name.subrange(i, i + 12) == seq![
                'c', 'l', 'o', 'v', 'e', 'r', 'v', 'i', 'e', 'w', 'e', 'r',
            ]) || (exists|i: int|
            0 <= i && i + 10 <= name.len() && #[trigger] name.subrange(i, i + 10) == seq![
                's', 'c', 'r', 'e', 'e', 'n', 's', 'h', 'o', 't',
            ]),
{
    reveal_strlit("cloverviewer");
    reveal_strlit("screenshot");
    let cv = seq!['c', 'l', 'o', 'v', 'e', 'r', 'v', 'i', 'e', 'w', 'e', 'r'];
    let ss = seq!['s', 'c', 'r', 'e', 'e', 'n', 's', 'h', 'o', 't'];
    assert("cloverviewer"@ =~= cv);
    assert("screenshot"@ =~= ss);
}

/// `s` in lower case, as std's `str::to_lowercase` computes it (Unicode
/// lower-case mapping).
pub uninterp spec fn lowercase(s: Seq<char>) -> Seq<char>;

/// std's `str::to_lowercase`: the lower-case form of `s`. Nothing is stated
/// of the mapping itself; it is named by [`lowercase`], a function of `s`
/// alone.
#[verifier::external_body]
fn to_lowercase(s: &str) -> (r: String)
    ensures
        r@ == lowercase(s@),
{
    s.to_lowercase()
}

/// Whether `needle` occurs in `haystack`.
pub fn str_contains(haystack: &str, needle: &str) -> (r: bool)
    ensures
        r == seq_contains(haystack@, needle@),
{
    let n = haystack.unicode_len();
    let m = needle.unicode_len();
    let mut chars: Vec<char> = Vec::new();
    let mut i: usize = 0;
    while i < n
        invariant
            n == haystack@.len(),
            i <= n,
            chars@ == haystack@.take(i as int),
        decreases n - i,
    {
        chars.push(haystack.get_char(i));
        i = i + 1;
        assert(chars@ =~= haystack@.take(i as int));
    }
    assert(chars@ =~= haystack@);
    if m > n {
        return false;
    }
    let mut start: usize = 0;
    while start <= n - m
        invariant
            chars@ == haystack@,
            n == haystack@.len(),
            m == needle@.len(),
            m <= n,
            start <= n - m,
            forall|k: int| 0 <= k < start ==> #[trigger] haystack@.subrange(k, k + m) != needle@,
        ensures
            forall|k: int| 0 <= k <= n - m ==> #[trigger] haystack@.subrange(k, k + m) != needle@,
        decreases n - m - start,
    {
        if chars_equal(&chars, start, start + m, needle) {
            return true;
        }
        if start == n - m {
            break;
        }
        start = start + 1;
    }
    false
}

/// Whether a window is offered for selection, given its application name
/// already in lower case: not minimized, not one of the screenshot tool's own
/// windows, and larger than 50 pixels in both directions.
pub fn keep_window_named(lower_name: &str, is_minimized: bool, width: u32, height: u32) -> (r: bool)
    ensures
        r == (!is_minimized && !is_own_app(lower_name@) && width > 50 && height > 50),
{
    if is_minimized {
        return false;
    }
    if str_contains(lower_name, "cloverviewer") || str_contains(lower_name, "screenshot") {
        return false;
    }
    width > 50 && height > 50
}

/// Whether a window is offered for selection: not minimized, not one of the
/// screenshot tool's own windows (by application name, ignoring case), and
/// larger than 50 pixels in both directions.
pub fn keep_window_rect(app_name: &str, is_minimized: bool, width: u32, height: u32) -> (r: bool)
    ensures
        r == (!is_minimized && !is_own_app(lowercase(app_name@)) && width > 50 && height > 50),
{
    let lower = to_lowercase(app_name);
    keep_window_named(lower.as_str(), is_minimized, width, height)
}

/// Whether a captured monitor is kept: it must have an area.
pub fn keep_monitor(width: u32, height: u32) -> (r: bool)
    ensures
        r == (width != 0 && height != 0),
{
    !(width == 0 || height == 0)
}

/// The next step of the scroll-capture worker.
#[derive(PartialEq, Eq, Clone, Copy, Debug, Structural)]
pub enum ScrollStep {
    /// Save the long image and stop.
    Save,
    /// Wait a moment, then look again.
    Pause,
    /// Scroll, wait, capture and stitch.
    Scroll,
}

/// Before scrolling: stop when asked to; pause while the cursor is outside
/// the selection; scroll otherwise.
pub fn scroll_step(stop_requested: bool, cursor_in_selection: bool) -> (r: ScrollStep)
    ensures
        r == if stop_requested {
            ScrollStep::Save
        } else if !cursor_in_selection {
            ScrollStep::Pause
        } else {
            ScrollStep::Scroll
        },
{
    if stop_requested {
        ScrollStep::Save
    } else if !cursor_in_selection {
        ScrollStep::Pause
    } else {
        ScrollStep::Scroll
    }
}

} // verus!
