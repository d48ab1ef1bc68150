//! Parsing of hotkey strings such as `"Ctrl+Alt+S"` and the per-frame
//! filtering of global hotkey events.
use crate::window::WindowPrevState;
use global_hotkey::hotkey::{Code, HotKey, Modifiers};
use std::str::FromStr;
use vstd::prelude::*;

verus! {

/// A hotkey of `global-hotkey`; only carried through to its registration.
#[verifier::external_type_specification]
#[verifier::external_body]
pub struct ExHotKey(HotKey);

/// Textual form of the global screenshot hotkey.
pub const SCREENSHOT_HOTKEY: &'static str = "Alt+S";

/// A hotkey string split into its modifier flags and its key name.
#[derive(Debug, Clone, PartialEq, Eq)]
pub struct ParsedHotkey {
    pub ctrl: bool,
    pub alt: bool,
    pub shift: bool,
    pub cmd: bool,
    pub key_name: String,
}

/// The parts of `s` between the `'+'` separators, left to right
/// (an empty string has one empty part).
pub open spec fn split_plus(s: Seq<char>) -> Seq<Seq<char>>
    decreases s.len(),
{
    if s.len() == 0 {
        seq![Seq::<char>::empty()]
    } else {
        let rest = split_plus(s.drop_last());
        if s.last() == '+' {
            rest.push(Seq::<char>::empty())
        } else {
            rest.update(rest.len() - 1, rest.last().push(s.last()))
        }
    }
}

pub open spec fn is_modifier(p: Seq<char>) -> bool {
    p == "Ctrl"@ || p == "Alt"@ || p == "Shift"@ || p == "Cmd"@ || p == "Super"@
}

/// The parts that are not modifier names, in order.
pub open spec fn key_parts(ps: Seq<Seq<char>>) -> Seq<Seq<char>>
    decreases ps.len(),
{
    if ps.len() == 0 {
        Seq::<Seq<char>>::empty()
    } else if is_modifier(ps.last()) {
        key_parts(ps.drop_last())
    } else {
        key_parts(ps.drop_last()).push(ps.last())
    }
}

pub open spec fn has_part(ps: Seq<Seq<char>>, name: Seq<char>) -> bool {
    exists|k: int| 0 <= k < ps.len() && #[trigger] ps[k] == name
}

/// What parsing the parts `ps` yields: `None` unless exactly one part is
/// not a modifier and that part is not empty; otherwise the modifier flags
/// and that part, the key name.
pub open spec fn parse_parts_spec(ps: Seq<Seq<char>>) -> Option<(bool, bool, bool, bool, Seq<char>)> {
    if key_parts(ps).len() != 1 || key_parts(ps)[0].len() == 0 {
        None
    } else {
        Some(
            (
                has_part(ps, "Ctrl"@),
                has_part(ps, "Alt"@),
                has_part(ps, "Shift"@),
                has_part(ps, "Cmd"@) || has_part(ps, "Super"@),
                key_parts(ps)[0],
            ),
        )
    }
}

/// What parsing `s` yields (see [`parse_parts_spec`]); the empty string and
/// a string that ends in `'+'` leave an empty key part, so they give `None`.
pub open spec fn parse_hotkey_spec(s: Seq<char>) -> Option<(bool, bool, bool, bool, Seq<char>)> {
    parse_parts_spec(split_plus(s))
}

pub open spec fn parsed_view(p: ParsedHotkey) -> (bool, bool, bool, bool, Seq<char>) {
    (p.ctrl, p.alt, p.shift, p.cmd, p.key_name@)
}

proof fn lemma_split_plus_nonempty(s: Seq<char>)
    ensures
        split_plus(s).len() >= 1,
    decreases s.len(),
{
    if s.len() > 0 {
        lemma_split_plus_nonempty(s.drop_last());
    }
}

proof fn lemma_key_parts_grow(ps: Seq<Seq<char>>, j: int)
    requires
        0 <= j <= ps.len(),
    ensures
        key_parts(ps.take(j)).len() <= key_parts(ps).len(),
    decreases ps.len() - j,
{
    if j < ps.len() {
        lemma_key_parts_grow(ps, j + 1);
        assert(ps.take(j + 1).drop_last() =~= ps.take(j));
    } else {
        assert(ps.take(j) =~= ps);
    }
}

proof fn lemma_modifier_names_distinct()
    ensures
        "Ctrl"@ != "Alt"@,
        "Ctrl"@ != "Shift"@,
        "Ctrl"@ != "Cmd"@,
        "Ctrl"@ != "Super"@,
        "Alt"@ != "Shift"@,
        "Alt"@ != "Cmd"@,
        "Alt"@ != "Super"@,
        "Shift"@ != "Cmd"@,
        "Shift"@ != "Super"@,
        "Cmd"@ != "Super"@,
{
    reveal_strlit("Ctrl");
    reveal_strlit("Alt");
    reveal_strlit("Shift");
    reveal_strlit("Cmd");
    reveal_strlit("Super");
    assert("Alt"@[0] != "Cmd"@[0]);
    assert("Ctrl"@[1] != "Cmd"@[1]);
    assert("Shift"@[0] != "Super"@[1]);
    assert("Shift"@[1] != "Super"@[1]);
}

proof fn lemma_key_parts_count(ps: Seq<Seq<char>>, x: Seq<char>)
    ensures
        key_parts(ps).to_multiset().count(x) == if is_modifier(x) {
            0
        } else {
            ps.to_multiset().count(x)
        },
    decreases ps.len(),
{
    broadcast use vstd::seq_lib::group_to_multiset_ensures;

    if ps.len() == 0 {
        assert(key_parts(ps) =~= Seq::<Seq<char>>::empty());
        assert(ps.to_multiset().len() == 0);
        assert(key_parts(ps).to_multiset().len() == 0);
    } else {
        let prev = ps.drop_last();
        lemma_key_parts_count(prev, x);
        assert(prev.push(ps.last()) =~= ps);
    }
}

/// The order of the parts and how often each occurs do not matter beyond
/// their counts: two strings whose `'+'`-separated parts are the same
/// multiset parse to the same result (for instance `"S+Alt"` and `"Alt+S"`,
/// or `"Ctrl+Ctrl+S"` and `"Ctrl+S+Ctrl"`).
pub proof fn lemma_parse_ignores_part_order(a: Seq<char>, b: Seq<char>)
    requires
        split_plus(a).to_multiset() == split_plus(b).to_multiset(),
    ensures
        parse_hotkey_spec(a) == parse_hotkey_spec(b),
{
    broadcast use vstd::seq_lib::group_to_multiset_ensures;

    let pa = split_plus(a);
    let pb = split_plus(b);
    assert forall|name: Seq<char>| has_part(pa, name) == has_part(pb, name) by {
        assert(has_part(pa, name) == pa.contains(name));
        assert(has_part(pb, name) == pb.contains(name));
        assert(pa.contains(name) <==> pa.to_multiset().count(name) > 0);
        assert(pb.contains(name) <==> pb.to_multiset().count(name) > 0);
    }
    let ka = key_parts(pa);
    let kb = key_parts(pb);
    assert forall|x: Seq<char>| ka.to_multiset().count(x) == kb.to_multiset().count(x) by {
        lemma_key_parts_count(pa, x);
        lemma_key_parts_count(pb, x);
    }
    assert(ka.to_multiset() =~= kb.to_multiset());
    assert(ka.len() == ka.to_multiset().len());
    assert(kb.len() == kb.to_multiset().len());
    if ka.len() == 1 {
        assert(ka.contains(ka[0]));
        assert(ka.to_multiset().count(ka[0]) > 0);
        assert(kb.contains(ka[0]));
        let k = choose|k: int| 0 <= k < kb.len() && kb[k] == ka[0];
        assert(k == 0);
    }
}

/// Whether `chars[start..end]` spells `lit`.
pub(crate) fn chars_equal(chars: &Vec<char>, start: usize, end: usize, lit: &str) -> (b: bool)
    requires
        start <= end <= chars@.len(),
    ensures
        b == (chars@.subrange(start as int, end as int) == lit@),
{
    let n = lit.unicode_len();
    if end - start != n {
        return false;
    }
    let mut k: usize = 0;
    while k < n
        invariant
            n == lit@.len(),
            end - start == n,
            start <= end <= chars@.len(),
            k <= n,
            forall|t: int| 0 <= t < k ==> chars@[start + t] == lit@[t],
        decreases n - k,
    {
        if chars[start + k] != lit.get_char(k) {
            assert(chars@.subrange(start as int, end as int)[k as int] != lit@[k as int]);
            return false;
        }
        k = k + 1;
    }
    assert(chars@.subrange(start as int, end as int) =~= lit@);
    true
}

/// Whether `s` spells `lit`.
pub(crate) fn str_equal(s: &str, lit: &str) -> (b: bool)
    ensures
        b == (s@ == lit@),
{
    let n = s.unicode_len();
    if n != lit.unicode_len() {
        return false;
    }
    let mut k: usize = 0;
    while k < n
        invariant
            n == s@.len(),
            n == lit@.len(),
            k <= n,
            forall|t: int| 0 <= t < k ==> s@[t] == lit@[t],
        decreases n - k,
    {
        if s.get_char(k) != lit.get_char(k) {
            return false;
        }
        k = k + 1;
    }
    assert(s@ =~= lit@);
    true
}

/// The character boundaries of the `'+'`-separated parts of `chars`.
fn split_ranges(chars: &Vec<char>) -> (r: Vec<(usize, usize)>)
    ensures
        r@.len() == split_plus(chars@).len(),
        forall|k: int|
            #![trigger r@[k]]
            0 <= k < r@.len() ==> r@[k].0 <= r@[k].1 <= chars@.len() && chars@.subrange(
                r@[k].0 as int,
                r@[k].1 as int,
            ) == split_plus(chars@)[k],
{
    let n = chars.len();
    let mut ranges: Vec<(usize, usize)> = Vec::new();
    let mut start: usize = 0;
    let mut i: usize = 0;
    while i < n
        invariant
            n == chars@.len(),
            i <= n,
            start <= i,
            ranges@.len() + 1 == split_plus(chars@.take(i as int)).len(),
            forall|k: int|
                #![trigger ranges@[k]]
                0 <= k < ranges@.len() ==> ranges@[k].0 <= ranges@[k].1 <= i && chars@.subrange(
                    ranges@[k].0 as int,
                    ranges@[k].1 as int,
                ) == split_plus(chars@.take(i as int))[k],
            chars@.subrange(start as int, i as int) == split_plus(chars@.take(i as int)).last(),
        decreases n - i,
    {
        let ghost prev = split_plus(chars@.take(i as int));
        assert(chars@.take(i + 1).drop_last() =~= chars@.take(i as int));
        assert(chars@.take(i + 1).last() == chars@[i as int]);
        if chars[i] == '+' {
            ranges.push((start, i));
            start = i + 1;
            assert(chars@.subrange(start as int, (i + 1) as int) =~= Seq::<char>::empty());
        } else {
            assert(chars@.subrange(start as int, (i + 1) as int) =~= chars@.subrange(
                start as int,
                i as int,
            ).push(chars@[i as int]));
        }
        i = i + 1;
    }
    ranges.push((start, n));
    assert(chars@.take(n as int) =~= chars@);
    ranges
}

/// Parses a hotkey string like `"Ctrl+Alt+S"`.
///
/// The modifiers are `Ctrl`, `Alt`, `Shift` and `Cmd` (also spelled `Super`);
/// the one remaining part is the key name. A string with no key part, an
/// empty key part (such as `""` or `"Ctrl+"`), or two key parts gives `None`.
pub fn parse_hotkey_str(hotkey_str: &str) -> (r: Option<ParsedHotkey>)
    ensures
        match r {
            Some(p) => parse_hotkey_spec(hotkey_str@) == Some(parsed_view(p)),
            None => parse_hotkey_spec(hotkey_str@) is None,
        },
{
    let n = hotkey_str.unicode_len();
    let mut chars: Vec<char> = Vec::new();
    let mut i: usize = 0;
    while i < n
        invariant
            n == hotkey_str@.len(),
            i <= n,
            chars@ == hotkey_str@.take(i as int),
        decreases n - i,
    {
        chars.push(hotkey_str.get_char(i));
        i = i + 1;
        assert(chars@ =~= hotkey_str@.take(i as int));
    }
    assert(chars@ =~= hotkey_str@);
    let parts = split_ranges(&chars);
    let ghost ps = split_plus(hotkey_str@);

    let mut ctrl = false;
    let mut alt = false;
    let mut shift = false;
    let mut cmd = false;
    let mut key: Option<(usize, usize)> = None;
    let mut j: usize = 0;
    while j < parts.len()
        invariant
            chars@ == hotkey_str@,
            ps == split_plus(hotkey_str@),
            parts@.len() == ps.len(),
            forall|k: int|
                #![trigger parts@[k]]
                0 <= k < parts@.len() ==> parts@[k].0 <= parts@[k].1 <= chars@.len()
                    && chars@.subrange(parts@[k].0 as int, parts@[k].1 as int) == ps[k],
            j <= parts@.len(),
            ctrl == has_part(ps.take(j as int), "Ctrl"@),
            alt == has_part(ps.take(j as int), "Alt"@),
            shift == has_part(ps.take(j as int), "Shift"@),
            cmd == (has_part(ps.take(j as int), "Cmd"@) || has_part(ps.take(j as int), "Super"@)),
            match key {
                None => key_parts(ps.take(j as int)).len() == 0,
                Some(kr) => key_parts(ps.take(j as int)).len() == 1 && kr.0 <= kr.1 <= chars@.len()
                    && chars@.subrange(kr.0 as int, kr.1 as int) == key_parts(ps.take(j as int))[0],
            },
        decreases parts@.len() - j,
    {
        let (a, b) = parts[j];
        let ghost part = ps[j as int];
        assert(ps.take(j + 1).drop_last() =~= ps.take(j as int));
        assert(ps.take(j + 1).last() == part);
        let is_ctrl = chars_equal(&chars, a, b, "Ctrl");
        let is_alt = chars_equal(&chars, a, b, "Alt");
        let is_shift = chars_equal(&chars, a, b, "Shift");
        let is_cmd = chars_equal(&chars, a, b, "Cmd");
        let is_super = chars_equal(&chars, a, b, "Super");
        proof {
            lemma_modifier_names_distinct();
            assert forall|name: Seq<char>| has_part(ps.take(j + 1), name) == (has_part(
                ps.take(j as int),
                name,
            ) || part == name) by {
                if has_part(ps.take(j + 1), name) {
                    let k = choose|k: int| 0 <= k < j + 1 && #[trigger] ps.take(j + 1)[k] == name;
                    if k < j {
                        assert(ps.take(j as int)[k] == name);
                    }
                }
                if has_part(ps.take(j as int), name) {
                    let k = choose|k: int| 0 <= k < j && #[trigger] ps.take(j as int)[k] == name;
                    assert(ps.take(j + 1)[k] == name);
                }
                if part == name {
                    assert(ps.take(j + 1)[j as int] == name);
                }
            }
            assert(has_part(ps.take(j + 1), "Cmd"@) == (has_part(ps.take(j as int), "Cmd"@)
                || part == "Cmd"@));
            assert(has_part(ps.take(j + 1), "Super"@) == (has_part(ps.take(j as int), "Super"@)
                || part == "Super"@));
        }
        if is_ctrl {
            ctrl = true;
        } else if is_alt {
            alt = true;
        } else if is_shift {
            shift = true;
        } else if is_cmd || is_super {
            cmd = true;
        } else {
            if key.is_some() {
                proof {
                    lemma_key_parts_grow(ps, j + 1);
                }
                return None;
            }
            key = Some((a, b));
        }
        j = j + 1;
    }
    assert(ps.take(j as int) =~= ps);
    match key {
        None => None,
        Some((a, b)) => {
            if a == b {
                return None;
            }
            let name = hotkey_str.substring_char(a, b);
            Some(ParsedHotkey { ctrl, alt, shift, cmd, key_name: name.to_owned() })
        },
    }
}


/// The keys a hotkey can name: letters, digits, function keys and a few
/// special keys.
#[derive(Debug, Clone, Copy, PartialEq, Eq, Structural)]
pub enum KeyCode {
    KeyA,
    KeyB,
    KeyC,
    KeyD,
    KeyE,
    KeyF,
    KeyG,
    KeyH,
    KeyI,
    KeyJ,
    KeyK,
    KeyL,
    KeyM,
    KeyN,
    KeyO,
    KeyP,
    KeyQ,
    KeyR,
    KeyS,
    KeyT,
    KeyU,
    KeyV,
    KeyW,
    KeyX,
    KeyY,
    KeyZ,
    Digit0,
    Digit1,
    Digit2,
    Digit3,
    Digit4,
    Digit5,
    Digit6,
    Digit7,
    Digit8,
    Digit9,
    F1,
    F2,
    F3,
    F4,
    F5,
    F6,
    F7,
    F8,
    F9,
    F10,
    F11,
    F12,
    Space,
    Enter,
    Escape,
    Tab,
    Backspace,
}

/// The key that a key name denotes: `"A"`..`"Z"`, `"Num0"`..`"Num9"`,
/// `"F1"`..`"F12"`, `"Space"`, `"Enter"`, `"Escape"`, `"Tab"`, `"Backspace"`.
pub open spec fn key_code_spec(k: Seq<char>) -> Option<KeyCode> {
    if k == "A"@ {
        Some(KeyCode::KeyA)
    } else 
    if k == "B"@ {
        Some(KeyCode::KeyB)
    } else 
    if k == "C"@ {
        Some(KeyCode::KeyC)
    } else 
    if k == "D"@ {
        Some(KeyCode::KeyD)
    } else 
    if k == "E"@ {
        Some(KeyCode::KeyE)
    } else 
    if k == "F"@ {
        Some(KeyCode::KeyF)
    } else 
    if k == "G"@ {
        Some(KeyCode::KeyG)
    } else 
    if k == "H"@ {
        Some(KeyCode::KeyH)
    } else 
    if k == "I"@ {
        Some(KeyCode::KeyI)
    } else 
    if k == "J"@ {
        Some(KeyCode::KeyJ)
    } else 
    if k == "K"@ {
        Some(KeyCode::KeyK)
    } else 
    if k == "L"@ {
        Some(KeyCode::KeyL)
    } else 
    if k == "M"@ {
        Some(KeyCode::KeyM)
    } else 
    if k == "N"@ {
        Some(KeyCode::KeyN)
    } else 
    if k == "O"@ {
        Some(KeyCode::KeyO)
    } else 
    if k == "P"@ {
        Some(KeyCode::KeyP)
    } else 
    if k == "Q"@ {
        Some(KeyCode::KeyQ)
    } else 
    if k == "R"@ {
        Some(KeyCode::KeyR)
    } else 
    if k == "S"@ {
        Some(KeyCode::KeyS)
    } else 
    if k == "T"@ {
        Some(KeyCode::KeyT)
    } else 
    if k == "U"@ {
        Some(KeyCode::KeyU)
    } else 
    if k == "V"@ {
        Some(KeyCode::KeyV)
    } else 
    if k == "W"@ {
        Some(KeyCode::KeyW)
    } else 
    if k == "X"@ {
        Some(KeyCode::KeyX)
    } else 
    if k == "Y"@ {
        Some(KeyCode::KeyY)
    } else 
    if k == "Z"@ {
        Some(KeyCode::KeyZ)
    } else 
    if k == "Num0"@ {
        Some(KeyCode::Digit0)
    } else 
    if k == "Num1"@ {
        Some(KeyCode::Digit1)
    } else 
    if k == "Num2"@ {
        Some(KeyCode::Digit2)
    } else 
    if k == "Num3"@ {
        Some(KeyCode::Digit3)
    } else 
    if k == "Num4"@ {
        Some(KeyCode::Digit4)
    } else 
    if k == "Num5"@ {
        Some(KeyCode::Digit5)
    } else 
    if k == "Num6"@ {
        Some(KeyCode::Digit6)
    } else 
    if k == "Num7"@ {
        Some(KeyCode::Digit7)
    } else 
    if k == "Num8"@ {
        Some(KeyCode::Digit8)
    } else 
    if k == "Num9"@ {
        Some(KeyCode::Digit9)
    } else 
    if k == "F1"@ {
        Some(KeyCode::F1)
    } else 
    if k == "F2"@ {
        Some(KeyCode::F2)
    } else 
    if k == "F3"@ {
        Some(KeyCode::F3)
    } else 
    if k == "F4"@ {
        Some(KeyCode::F4)
    } else 
    if k == "F5"@ {
        Some(KeyCode::F5)
    } else 
    if k == "F6"@ {
        Some(KeyCode::F6)
    } else 
    if k == "F7"@ {
        Some(KeyCode::F7)
    } else 
    if k == "F8"@ {
        Some(KeyCode::F8)
    } else 
    if k == "F9"@ {
        Some(KeyCode::F9)
    } else 
    if k == "F10"@ {
        Some(KeyCode::F10)
    } else 
    if k == "F11"@ {
        Some(KeyCode::F11)
    } else 
    if k == "F12"@ {
        Some(KeyCode::F12)
    } else 
    if k == "Space"@ {
        Some(KeyCode::Space)
    } else 
    if k == "Enter"@ {
        Some(KeyCode::Enter)
    } else 
    if k == "Escape"@ {
        Some(KeyCode::Escape)
    } else 
    if k == "Tab"@ {
        Some(KeyCode::Tab)
    } else 
    if k == "Backspace"@ {
        Some(KeyCode::Backspace)
    } else {
        None
    }
}

/// Maps a key name to its key code; unknown names give `None`.
pub fn parsed_key_to_code(key_name: &str) -> (r: Option<KeyCode>)
    ensures
        r == key_code_spec(key_name@),
{
    if str_equal(key_name, "A") {
        return Some(KeyCode::KeyA);
    }
    if str_equal(key_name, "B") {
        return Some(KeyCode::KeyB);
    }
    if str_equal(key_name, "C") {
        return Some(KeyCode::KeyC);
    }
    if str_equal(key_name, "D") {
        return Some(KeyCode::KeyD);
    }
    if str_equal(key_name, "E") {
        return Some(KeyCode::KeyE);
    }
    if str_equal(key_name, "F") {
        return Some(KeyCode::KeyF);
    }
    if str_equal(key_name, "G") {
        return Some(KeyCode::KeyG);
    }
    if str_equal(key_name, "H") {
        return Some(KeyCode::KeyH);
    }
    if str_equal(key_name, "I") {
        return Some(KeyCode::KeyI);
    }
    if str_equal(key_name, "J") {
        return Some(KeyCode::KeyJ);
    }
    if str_equal(key_name, "K") {
        return Some(KeyCode::KeyK);
    }
    if str_equal(key_name, "L") {
        return Some(KeyCode::KeyL);
    }
    if str_equal(key_name, "M") {
        return Some(KeyCode::KeyM);
    }
    if str_equal(key_name, "N") {
        return Some(KeyCode::KeyN);
    }
    if str_equal(key_name, "O") {
        return Some(KeyCode::KeyO);
    }
    if str_equal(key_name, "P") {
        return Some(KeyCode::KeyP);
    }
    if str_equal(key_name, "Q") {
        return Some(KeyCode::KeyQ);
    }
    if str_equal(key_name, "R") {
        return Some(KeyCode::KeyR);
    }
    if str_equal(key_name, "S") {
        return Some(KeyCode::KeyS);
    }
    if str_equal(key_name, "T") {
        return Some(KeyCode::KeyT);
    }
    if str_equal(key_name, "U") {
        return Some(KeyCode::KeyU);
    }
    if str_equal(key_name, "V") {
        return Some(KeyCode::KeyV);
    }
    if str_equal(key_name, "W") {
        return Some(KeyCode::KeyW);
    }
    if str_equal(key_name, "X") {
        return Some(KeyCode::KeyX);
    }
    if str_equal(key_name, "Y") {
        return Some(KeyCode::KeyY);
    }
    if str_equal(key_name, "Z") {
        return Some(KeyCode::KeyZ);
    }
    if str_equal(key_name, "Num0") {
        return Some(KeyCode::Digit0);
    }
    if str_equal(key_name, "Num1") {
        return Some(KeyCode::Digit1);
    }
    if str_equal(key_name, "Num2") {
        return Some(KeyCode::Digit2);
    }
    if str_equal(key_name, "Num3") {
        return Some(KeyCode::Digit3);
    }
    if str_equal(key_name, "Num4") {
        return Some(KeyCode::Digit4);
    }
    if str_equal(key_name, "Num5") {
        return Some(KeyCode::Digit5);
    }
    if str_equal(key_name, "Num6") {
        return Some(KeyCode::Digit6);
    }
    if str_equal(key_name, "Num7") {
        return Some(KeyCode::Digit7);
    }
    if str_equal(key_name, "Num8") {
        return Some(KeyCode::Digit8);
    }
    if str_equal(key_name, "Num9") {
        return Some(KeyCode::Digit9);
    }
    if str_equal(key_name, "F1") {
        return Some(KeyCode::F1);
    }
    if str_equal(key_name, "F2") {
        return Some(KeyCode::F2);
    }
    if str_equal(key_name, "F3") {
        return Some(KeyCode::F3);
    }
    if str_equal(key_name, "F4") {
        return Some(KeyCode::F4);
    }
    if str_equal(key_name, "F5") {
        return Some(KeyCode::F5);
    }
    if str_equal(key_name, "F6") {
        return Some(KeyCode::F6);
    }
    if str_equal(key_name, "F7") {
        return Some(KeyCode::F7);
    }
    if str_equal(key_name, "F8") {
        return Some(KeyCode::F8);
    }
    if str_equal(key_name, "F9") {
        return Some(KeyCode::F9);
    }
    if str_equal(key_name, "F10") {
        return Some(KeyCode::F10);
    }
    if str_equal(key_name, "F11") {
        return Some(KeyCode::F11);
    }
    if str_equal(key_name, "F12") {
        return Some(KeyCode::F12);
    }
    if str_equal(key_name, "Space") {
        return Some(KeyCode::Space);
    }
    if str_equal(key_name, "Enter") {
        return Some(KeyCode::Enter);
    }
    if str_equal(key_name, "Escape") {
        return Some(KeyCode::Escape);
    }
    if str_equal(key_name, "Tab") {
        return Some(KeyCode::Tab);
    }
    if str_equal(key_name, "Backspace") {
        return Some(KeyCode::Backspace);
    }
    None
}

/// The modifiers and key that a parsed hotkey registers.
#[derive(Debug, Clone, Copy, PartialEq, Eq, Structural)]
pub struct HotkeyBinding {
    pub control: bool,
    pub alt: bool,
    pub shift: bool,
    pub super_key: bool,
    pub code: KeyCode,
}

/// Turns a parsed hotkey into the binding to register: its flags become the
/// modifier set (`cmd` is the Super key); `None` when the key name is unknown.
pub fn parsed_to_hotkey(parsed: &ParsedHotkey) -> (r: Option<HotkeyBinding>)
    ensures
        match key_code_spec(parsed.key_name@) {
            None => r is None,
            Some(c) => r == Some(
                HotkeyBinding {
                    control: parsed.ctrl,
                    alt: parsed.alt,
                    shift: parsed.shift,
                    super_key: parsed.cmd,
                    code: c,
                },
            ),
        },
{
    let code = parsed_key_to_code(parsed.key_name.as_str())?;
    Some(
        HotkeyBinding {
            control: parsed.ctrl,
            alt: parsed.alt,
            shift: parsed.shift,
            super_key: parsed.cmd,
            code,
        },
    )
}

/// The name `keyboard-types` gives the key (its `Code` variant).
pub open spec fn code_name_spec(code: KeyCode) -> Seq<char> {
    match code {
        KeyCode::KeyA => "KeyA"@,
        KeyCode::KeyB => "KeyB"@,
        KeyCode::KeyC => "KeyC"@,
        KeyCode::KeyD => "KeyD"@,
        KeyCode::KeyE => "KeyE"@,
        KeyCode::KeyF => "KeyF"@,
        KeyCode::KeyG => "KeyG"@,
        KeyCode::KeyH => "KeyH"@,
        KeyCode::KeyI => "KeyI"@,
        KeyCode::KeyJ => "KeyJ"@,
        KeyCode::KeyK => "KeyK"@,
        KeyCode::KeyL => "KeyL"@,
        KeyCode::KeyM => "KeyM"@,
        KeyCode::KeyN => "KeyN"@,
        KeyCode::KeyO => "KeyO"@,
        KeyCode::KeyP => "KeyP"@,
        KeyCode::KeyQ => "KeyQ"@,
        KeyCode::KeyR => "KeyR"@,
        KeyCode::KeyS => "KeyS"@,
        KeyCode::KeyT => "KeyT"@,
        KeyCode::KeyU => "KeyU"@,
        KeyCode::KeyV => "KeyV"@,
        KeyCode::KeyW => "KeyW"@,
        KeyCode::KeyX => "KeyX"@,
        KeyCode::KeyY => "KeyY"@,
        KeyCode::KeyZ => "KeyZ"@,
        KeyCode::Digit0 => "Digit0"@,
        KeyCode::Digit1 => "Digit1"@,
        KeyCode::Digit2 => "Digit2"@,
        KeyCode::Digit3 => "Digit3"@,
        KeyCode::Digit4 => "Digit4"@,
        KeyCode::Digit5 => "Digit5"@,
        KeyCode::Digit6 => "Digit6"@,
        KeyCode::Digit7 => "Digit7"@,
        KeyCode::Digit8 => "Digit8"@,
        KeyCode::Digit9 => "Digit9"@,
        KeyCode::F1 => "F1"@,
        KeyCode::F2 => "F2"@,
        KeyCode::F3 => "F3"@,
        KeyCode::F4 => "F4"@,
        KeyCode::F5 => "F5"@,
        KeyCode::F6 => "F6"@,
        KeyCode::F7 => "F7"@,
        KeyCode::F8 => "F8"@,
        KeyCode::F9 => "F9"@,
        KeyCode::F10 => "F10"@,
        KeyCode::F11 => "F11"@,
        KeyCode::F12 => "F12"@,
        KeyCode::Space => "Space"@,
        KeyCode::Enter => "Enter"@,
        KeyCode::Escape => "Escape"@,
        KeyCode::Tab => "Tab"@,
        KeyCode::Backspace => "Backspace"@,
    }
}

/// The name `keyboard-types` gives the key.
pub fn code_name(code: KeyCode) -> (s: &'static str)
    ensures
        s@ == code_name_spec(code),
{
    match code {
        KeyCode::KeyA => "KeyA",
        KeyCode::KeyB => "KeyB",
        KeyCode::KeyC => "KeyC",
        KeyCode::KeyD => "KeyD",
        KeyCode::KeyE => "KeyE",
        KeyCode::KeyF => "KeyF",
        KeyCode::KeyG => "KeyG",
        KeyCode::KeyH => "KeyH",
        KeyCode::KeyI => "KeyI",
        KeyCode::KeyJ => "KeyJ",
        KeyCode::KeyK => "KeyK",
        KeyCode::KeyL => "KeyL",
        KeyCode::KeyM => "KeyM",
        KeyCode::KeyN => "KeyN",
        KeyCode::KeyO => "KeyO",
        KeyCode::KeyP => "KeyP",
        KeyCode::KeyQ => "KeyQ",
        KeyCode::KeyR => "KeyR",
        KeyCode::KeyS => "KeyS",
        KeyCode::KeyT => "KeyT",
        KeyCode::KeyU => "KeyU",
        KeyCode::KeyV => "KeyV",
        KeyCode::KeyW => "KeyW",
        KeyCode::KeyX => "KeyX",
        KeyCode::KeyY => "KeyY",
        KeyCode::KeyZ => "KeyZ",
        KeyCode::Digit0 => "Digit0",
        KeyCode::Digit1 => "Digit1",
        KeyCode::Digit2 => "Digit2",
        KeyCode::Digit3 => "Digit3",
        KeyCode::Digit4 => "Digit4",
        KeyCode::Digit5 => "Digit5",
        KeyCode::Digit6 => "Digit6",
        KeyCode::Digit7 => "Digit7",
        KeyCode::Digit8 => "Digit8",
        KeyCode::Digit9 => "Digit9",
        KeyCode::F1 => "F1",
        KeyCode::F2 => "F2",
        KeyCode::F3 => "F3",
        KeyCode::F4 => "F4",
        KeyCode::F5 => "F5",
        KeyCode::F6 => "F6",
        KeyCode::F7 => "F7",
        KeyCode::F8 => "F8",
        KeyCode::F9 => "F9",
        KeyCode::F10 => "F10",
        KeyCode::F11 => "F11",
        KeyCode::F12 => "F12",
        KeyCode::Space => "Space",
        KeyCode::Enter => "Enter",
        KeyCode::Escape => "Escape",
        KeyCode::Tab => "Tab",
        KeyCode::Backspace => "Backspace",
    }
}

/// Distinct key names denote distinct keys.
pub proof fn lemma_key_names_distinct(a: Seq<char>, b: Seq<char>)
    requires
        key_code_spec(a) is Some,
        key_code_spec(a) == key_code_spec(b),
    ensures
        a == b,
{
}

/// Every name the parser documents is a key: each letter `"A"`..`"Z"`, each
/// digit as `"Num0"`..`"Num9"`, `"F1"`..`"F12"`, `"Space"`, `"Enter"`,
/// `"Escape"`, `"Tab"` and `"Backspace"` (what key each names is
/// [`lemma_key_names_name_their_keys`]).
pub proof fn lemma_key_names_known(ch: char)
    ensures
        'A' <= ch <= 'Z' ==> key_code_spec(seq![ch]) is Some,
        '0' <= ch <= '9' ==> key_code_spec("Num"@.push(ch)) is Some,
        key_code_spec("F1"@) is Some,
        key_code_spec("F2"@) is Some,
        key_code_spec("F3"@) is Some,
        key_code_spec("F4"@) is Some,
        key_code_spec("F5"@) is Some,
        key_code_spec("F6"@) is Some,
        key_code_spec("F7"@) is Some,
        key_code_spec("F8"@) is Some,
        key_code_spec("F9"@) is Some,
        key_code_spec("F10"@) is Some,
        key_code_spec("F11"@) is Some,
        key_code_spec("F12"@) is Some,
        key_code_spec("Space"@) is Some,
        key_code_spec("Enter"@) is Some,
        key_code_spec("Escape"@) is Some,
        key_code_spec("Tab"@) is Some,
        key_code_spec("Backspace"@) is Some,
{
    reveal_strlit("A");
    reveal_strlit("B");
    reveal_strlit("C");
    reveal_strlit("D");
    reveal_strlit("E");
    reveal_strlit("F");
    reveal_strlit("G");
    reveal_strlit("H");
    reveal_strlit("I");
    reveal_strlit("J");
    reveal_strlit("K");
    reveal_strlit("L");
    reveal_strlit("M");
    reveal_strlit("N");
    reveal_strlit("O");
    reveal_strlit("P");
    reveal_strlit("Q");
    reveal_strlit("R");
    reveal_strlit("S");
    reveal_strlit("T");
    reveal_strlit("U");
    reveal_strlit("V");
    reveal_strlit("W");
    reveal_strlit("X");
    reveal_strlit("Y");
    reveal_strlit("Z");
    reveal_strlit("Num0");
    reveal_strlit("Num1");
    reveal_strlit("Num2");
    reveal_strlit("Num3");
    reveal_strlit("Num4");
    reveal_strlit("Num5");
    reveal_strlit("Num6");
    reveal_strlit("Num7");
    reveal_strlit("Num8");
    reveal_strlit("Num9");
    reveal_strlit("F1");
    reveal_strlit("F2");
    reveal_strlit("F3");
    reveal_strlit("F4");
    reveal_strlit("F5");
    reveal_strlit("F6");
    reveal_strlit("F7");
    reveal_strlit("F8");
    reveal_strlit("F9");
    reveal_strlit("F10");
    reveal_strlit("F11");
    reveal_strlit("F12");
    reveal_strlit("Space");
    reveal_strlit("Enter");
    reveal_strlit("Escape");
    reveal_strlit("Tab");
    reveal_strlit("Backspace");
    reveal_strlit("Num");
    if ch == 'A' {
        assert(seq![ch] =~= "A"@);
    }
    if ch == 'B' {
        assert(seq![ch] =~= "B"@);
    }
    if ch == 'C' {
        assert(seq![ch] =~= "C"@);
    }
    if ch == 'D' {
        assert(seq![ch] =~= "D"@);
    }
    if ch == 'E' {
        assert(seq![ch] =~= "E"@);
    }
    if ch == 'F' {
        assert(seq![ch] =~= "F"@);
    }
    if ch == 'G' {
        assert(seq![ch] =~= "G"@);
    }
    if ch == 'H' {
        assert(seq![ch] =~= "H"@);
    }
    if ch == 'I' {
        assert(seq![ch] =~= "I"@);
    }
    if ch == 'J' {
        assert(seq![ch] =~= "J"@);
    }
    if ch == 'K' {
        assert(seq![ch] =~= "K"@);
    }
    if ch == 'L' {
        assert(seq![ch] =~= "L"@);
    }
    if ch == 'M' {
        assert(seq![ch] =~= "M"@);
    }
    if ch == 'N' {
        assert(seq![ch] =~= "N"@);
    }
    if ch == 'O' {
        assert(seq![ch] =~= "O"@);
    }
    if ch == 'P' {
        assert(seq![ch] =~= "P"@);
    }
    if ch == 'Q' {
        assert(seq![ch] =~= "Q"@);
    }
    if ch == 'R' {
        assert(seq![ch] =~= "R"@);
    }
    if ch == 'S' {
        assert(seq![ch] =~= "S"@);
    }
    if ch == 'T' {
        assert(seq![ch] =~= "T"@);
    }
    if ch == 'U' {
        assert(seq![ch] =~= "U"@);
    }
    if ch == 'V' {
        assert(seq![ch] =~= "V"@);
    }
    if ch == 'W' {
        assert(seq![ch] =~= "W"@);
    }
    if ch == 'X' {
        assert(seq![ch] =~= "X"@);
    }
    if ch == 'Y' {
        assert(seq![ch] =~= "Y"@);
    }
    if ch == 'Z' {
        assert(seq![ch] =~= "Z"@);
    }
    if ch == '0' {
        assert("Num"@.push(ch) =~= "Num0"@);
    }
    if ch == '1' {
        assert("Num"@.push(ch) =~= "Num1"@);
    }
    if ch == '2' {
        assert("Num"@.push(ch) =~= "Num2"@);
    }
    if ch == '3' {
        assert("Num"@.push(ch) =~= "Num3"@);
    }
    if ch == '4' {
        assert("Num"@.push(ch) =~= "Num4"@);
    }
    if ch == '5' {
        assert("Num"@.push(ch) =~= "Num5"@);
    }
    if ch == '6' {
        assert("Num"@.push(ch) =~= "Num6"@);
    }
    if ch == '7' {
        assert("Num"@.push(ch) =~= "Num7"@);
    }
    if ch == '8' {
        assert("Num"@.push(ch) =~= "Num8"@);
    }
    if ch == '9' {
        assert("Num"@.push(ch) =~= "Num9"@);
    }
}

/// Each key name names its own key: a letter `"X"` the key `KeyX`, a digit
/// `"NumD"` the key `DigitD`, and every other name (`"F1"`..`"F12"`,
/// `"Space"`, `"Enter"`, `"Escape"`, `"Tab"`, `"Backspace"`) the key of the
/// same name, as `keyboard-types` names keys.
pub proof fn lemma_key_names_name_their_keys(k: Seq<char>)
    requires
        key_code_spec(k) is Some,
    ensures
        code_name_spec(key_code_spec(k)->0) == if k.len() == 1 {
            "Key"@ + k
        } else if k.len() == 4 && k.take(3) == "Num"@ {
            "Digit"@ + k.skip(3)
        } else {
            k
        },
{
    reveal_strlit("A");
    reveal_strlit("B");
    reveal_strlit("Backspace");
    reveal_strlit("C");
    reveal_strlit("D");
    reveal_strlit("Digit");
    reveal_strlit("Digit0");
    reveal_strlit("Digit1");
    reveal_strlit("Digit2");
    reveal_strlit("Digit3");
    reveal_strlit("Digit4");
    reveal_strlit("Digit5");
    reveal_strlit("Digit6");
    reveal_strlit("Digit7");
    reveal_strlit("Digit8");
    reveal_strlit("Digit9");
    reveal_strlit("E");
    reveal_strlit("Enter");
    reveal_strlit("Escape");
    reveal_strlit("F");
    reveal_strlit("F1");
    reveal_strlit("F10");
    reveal_strlit("F11");
    reveal_strlit("F12");
    reveal_strlit("F2");
    reveal_strlit("F3");
    reveal_strlit("F4");
    reveal_strlit("F5");
    reveal_strlit("F6");
    reveal_strlit("F7");
    reveal_strlit("F8");
    reveal_strlit("F9");
    reveal_strlit("G");
    reveal_strlit("H");
    reveal_strlit("I");
    reveal_strlit("J");
    reveal_strlit("K");
    reveal_strlit("Key");
    reveal_strlit("KeyA");
    reveal_strlit("KeyB");
    reveal_strlit("KeyC");
    reveal_strlit("KeyD");
    reveal_strlit("KeyE");
    reveal_strlit("KeyF");
    reveal_strlit("KeyG");
    reveal_strlit("KeyH");
    reveal_strlit("KeyI");
    reveal_strlit("KeyJ");
    reveal_strlit("KeyK");
    reveal_strlit("KeyL");
    reveal_strlit("KeyM");
    reveal_strlit("KeyN");
    reveal_strlit("KeyO");
    reveal_strlit("KeyP");
    reveal_strlit("KeyQ");
    reveal_strlit("KeyR");
    reveal_strlit("KeyS");
    reveal_strlit("KeyT");
    reveal_strlit("KeyU");
    reveal_strlit("KeyV");
    reveal_strlit("KeyW");
    reveal_strlit("KeyX");
    reveal_strlit("KeyY");
    reveal_strlit("KeyZ");
    reveal_strlit("L");
    reveal_strlit("M");
    reveal_strlit("N");
    reveal_strlit("Num");
    reveal_strlit("Num0");
    reveal_strlit("Num1");
    reveal_strlit("Num2");
    reveal_strlit("Num3");
    reveal_strlit("Num4");
    reveal_strlit("Num5");
    reveal_strlit("Num6");
    reveal_strlit("Num7");
    reveal_strlit("Num8");
    reveal_strlit("Num9");
    reveal_strlit("O");
    reveal_strlit("P");
    reveal_strlit("Q");
    reveal_strlit("R");
    reveal_strlit("S");
    reveal_strlit("Space");
    reveal_strlit("T");
    reveal_strlit("Tab");
    reveal_strlit("U");
    reveal_strlit("V");
    reveal_strlit("W");
    reveal_strlit("X");
    reveal_strlit("Y");
    reveal_strlit("Z");
    if k == "A"@ {
        assert("KeyA"@ =~= (if k.len() == 1 { "Key"@ + k } else if k.len() == 4 && k.take(3) == "Num"@ { "Digit"@ + k.skip(3) } else { k }));
    }
    if k == "B"@ {
        assert("KeyB"@ =~= (if k.len() == 1 { "Key"@ + k } else if k.len() == 4 && k.take(3) == "Num"@ { "Digit"@ + k.skip(3) } else { k }));
    }
    if k == "C"@ {
        assert("KeyC"@ =~= (if k.len() == 1 { "Key"@ + k } else if k.len() == 4 && k.take(3) == "Num"@ { "Digit"@ + k.skip(3) } else { k }));
    }
    if k == "D"@ {
        assert("KeyD"@ =~= (if k.len() == 1 { "Key"@ + k } else if k.len() == 4 && k.take(3) == "Num"@ { "Digit"@ + k.skip(3) } else { k }));
    }
    if k == "E"@ {
        assert("KeyE"@ =~= (if k.len() == 1 { "Key"@ + k } else if k.len() == 4 && k.take(3) == "Num"@ { "Digit"@ + k.skip(3) } else { k }));
    }
    if k == "F"@ {
        assert("KeyF"@ =~= (if k.len() == 1 { "Key"@ + k } else if k.len() == 4 && k.take(3) == "Num"@ { "Digit"@ + k.skip(3) } else { k }));
    }
    if k == "G"@ {
        assert("KeyG"@ =~= (if k.len() == 1 { "Key"@ + k } else if k.len() == 4 && k.take(3) == "Num"@ { "Digit"@ + k.skip(3) } else { k }));
    }
    if k == "H"@ {
        assert("KeyH"@ =~= (if k.len() == 1 { "Key"@ + k } else if k.len() == 4 && k.take(3) == "Num"@ { "Digit"@ + k.skip(3) } else { k }));
    }
    if k == "I"@ {
        assert("KeyI"@ =~= (if k.len() == 1 { "Key"@ + k } else if k.len() == 4 && k.take(3) == "Num"@ { "Digit"@ + k.skip(3) } else { k }));
    }
    if k == "J"@ {
        assert("KeyJ"@ =~= (if k.len() == 1 { "Key"@ + k } else if k.len() == 4 && k.take(3) == "Num"@ { "Digit"@ + k.skip(3) } else { k }));
    }
    if k == "K"@ {
        assert("KeyK"@ =~= (if k.len() == 1 { "Key"@ + k } else if k.len() == 4 && k.take(3) == "Num"@ { "Digit"@ + k.skip(3) } else { k }));
    }
    if k == "L"@ {
        assert("KeyL"@ =~= (if k.len() == 1 { "Key"@ + k } else if k.len() == 4 && k.take(3) == "Num"@ { "Digit"@ + k.skip(3) } else { k }));
    }
    if k == "M"@ {
        assert("KeyM"@ =~= (if k.len() == 1 { "Key"@ + k } else if k.len() == 4 && k.take(3) == "Num"@ { "Digit"@ + k.skip(3) } else { k }));
    }
    if k == "N"@ {
        assert("KeyN"@ =~= (if k.len() == 1 { "Key"@ + k } else if k.len() == 4 && k.take(3) == "Num"@ { "Digit"@ + k.skip(3) } else { k }));
    }
    if k == "O"@ {
        assert("KeyO"@ =~= (if k.len() == 1 { "Key"@ + k } else if k.len() == 4 && k.take(3) == "Num"@ { "Digit"@ + k.skip(3) } else { k }));
    }
    if k == "P"@ {
        assert("KeyP"@ =~= (if k.len() == 1 { "Key"@ + k } else if k.len() == 4 && k.take(3) == "Num"@ { "Digit"@ + k.skip(3) } else { k }));
    }
    if k == "Q"@ {
        assert("KeyQ"@ =~= (if k.len() == 1 { "Key"@ + k } else if k.len() == 4 && k.take(3) == "Num"@ { "Digit"@ + k.skip(3) } else { k }));
    }
    if k == "R"@ {
        assert("KeyR"@ =~= (if k.len() == 1 { "Key"@ + k } else if k.len() == 4 && k.take(3) == "Num"@ { "Digit"@ + k.skip(3) } else { k }));
    }
    if k == "S"@ {
        assert("KeyS"@ =~= (if k.len() == 1 { "Key"@ + k } else if k.len() == 4 && k.take(3) == "Num"@ { "Digit"@ + k.skip(3) } else { k }));
    }
    if k == "T"@ {
        assert("KeyT"@ =~= (if k.len() == 1 { "Key"@ + k } else if k.len() == 4 && k.take(3) == "Num"@ { "Digit"@ + k.skip(3) } else { k }));
    }
    if k == "U"@ {
        assert("KeyU"@ =~= (if k.len() == 1 { "Key"@ + k } else if k.len() == 4 && k.take(3) == "Num"@ { "Digit"@ + k.skip(3) } else { k }));
    }
    if k == "V"@ {
        assert("KeyV"@ =~= (if k.len() == 1 { "Key"@ + k } else if k.len() == 4 && k.take(3) == "Num"@ { "Digit"@ + k.skip(3) } else { k }));
    }
    if k == "W"@ {
        assert("KeyW"@ =~= (if k.len() == 1 { "Key"@ + k } else if k.len() == 4 && k.take(3) == "Num"@ { "Digit"@ + k.skip(3) } else { k }));
    }
    if k == "X"@ {
        assert("KeyX"@ =~= (if k.len() == 1 { "Key"@ + k } else if k.len() == 4 && k.take(3) == "Num"@ { "Digit"@ + k.skip(3) } else { k }));
    }
    if k == "Y"@ {
        assert("KeyY"@ =~= (if k.len() == 1 { "Key"@ + k } else if k.len() == 4 && k.take(3) == "Num"@ { "Digit"@ + k.skip(3) } else { k }));
    }
    if k == "Z"@ {
        assert("KeyZ"@ =~= (if k.len() == 1 { "Key"@ + k } else if k.len() == 4 && k.take(3) == "Num"@ { "Digit"@ + k.skip(3) } else { k }));
    }
    if k == "Num0"@ {
        assert(k.take(3) =~= "Num"@);
        assert("Digit0"@ =~= "Digit"@ + k.skip(3));
        assert("Digit0"@ =~= (if k.len() == 1 { "Key"@ + k } else if k.len() == 4 && k.take(3) == "Num"@ { "Digit"@ + k.skip(3) } else { k }));
    }
    if k == "Num1"@ {
        assert(k.take(3) =~= "Num"@);
        assert("Digit1"@ =~= "Digit"@ + k.skip(3));
        assert("Digit1"@ =~= (if k.len() == 1 { "Key"@ + k } else if k.len() == 4 && k.take(3) == "Num"@ { "Digit"@ + k.skip(3) } else { k }));
    }
    if k == "Num2"@ {
        assert(k.take(3) =~= "Num"@);
        assert("Digit2"@ =~= "Digit"@ + k.skip(3));
        assert("Digit2"@ =~= (if k.len() == 1 { "Key"@ + k } else if k.len() == 4 && k.take(3) == "Num"@ { "Digit"@ + k.skip(3) } else { k }));
    }
    if k == "Num3"@ {
        assert(k.take(3) =~= "Num"@);
        assert("Digit3"@ =~= "Digit"@ + k.skip(3));
        assert("Digit3"@ =~= (if k.len() == 1 { "Key"@ + k } else if k.len() == 4 && k.take(3) == "Num"@ { "Digit"@ + k.skip(3) } else { k }));
    }
    if k == "Num4"@ {
        assert(k.take(3) =~= "Num"@);
        assert("Digit4"@ =~= "Digit"@ + k.skip(3));
        assert("Digit4"@ =~= (if k.len() == 1 { "Key"@ + k } else if k.len() == 4 && k.take(3) == "Num"@ { "Digit"@ + k.skip(3) } else { k }));
    }
    if k == "Num5"@ {
        assert(k.take(3) =~= "Num"@);
        assert("Digit5"@ =~= "Digit"@ + k.skip(3));
        assert("Digit5"@ =~= (if k.len() == 1 { "Key"@ + k } else if k.len() == 4 && k.take(3) == "Num"@ { "Digit"@ + k.skip(3) } else { k }));
    }
    if k == "Num6"@ {
        assert(k.take(3) =~= "Num"@);
        assert("Digit6"@ =~= "Digit"@ + k.skip(3));
        assert("Digit6"@ =~= (if k.len() == 1 { "Key"@ + k } else if k.len() == 4 && k.take(3) == "Num"@ { "Digit"@ + k.skip(3) } else { k }));
    }
    if k == "Num7"@ {
        assert(k.take(3) =~= "Num"@);
        assert("Digit7"@ =~= "Digit"@ + k.skip(3));
        assert("Digit7"@ =~= (if k.len() == 1 { "Key"@ + k } else if k.len() == 4 && k.take(3) == "Num"@ { "Digit"@ + k.skip(3) } else { k }));
    }
    if k == "Num8"@ {
        assert(k.take(3) =~= "Num"@);
        assert("Digit8"@ =~= "Digit"@ + k.skip(3));
        assert("Digit8"@ =~= (if k.len() == 1 { "Key"@ + k } else if k.len() == 4 && k.take(3) == "Num"@ { "Digit"@ + k.skip(3) } else { k }));
    }
    if k == "Num9"@ {
        assert(k.take(3) =~= "Num"@);
        assert("Digit9"@ =~= "Digit"@ + k.skip(3));
        assert("Digit9"@ =~= (if k.len() == 1 { "Key"@ + k } else if k.len() == 4 && k.take(3) == "Num"@ { "Digit"@ + k.skip(3) } else { k }));
    }
    if k == "F1"@ {
        assert("F1"@ =~= (if k.len() == 1 { "Key"@ + k } else if k.len() == 4 && k.take(3) == "Num"@ { "Digit"@ + k.skip(3) } else { k }));
    }
    if k == "F2"@ {
        assert("F2"@ =~= (if k.len() == 1 { "Key"@ + k } else if k.len() == 4 && k.take(3) == "Num"@ { "Digit"@ + k.skip(3) } else { k }));
    }
    if k == "F3"@ {
        assert("F3"@ =~= (if k.len() == 1 { "Key"@ + k } else if k.len() == 4 && k.take(3) == "Num"@ { "Digit"@ + k.skip(3) } else { k }));
    }
    if k == "F4"@ {
        assert("F4"@ =~= (if k.len() == 1 { "Key"@ + k } else if k.len() == 4 && k.take(3) == "Num"@ { "Digit"@ + k.skip(3) } else { k }));
    }
    if k == "F5"@ {
        assert("F5"@ =~= (if k.len() == 1 { "Key"@ + k } else if k.len() == 4 && k.take(3) == "Num"@ { "Digit"@ + k.skip(3) } else { k }));
    }
    if k == "F6"@ {
        assert("F6"@ =~= (if k.len() == 1 { "Key"@ + k } else if k.len() == 4 && k.take(3) == "Num"@ { "Digit"@ + k.skip(3) } else { k }));
    }
    if k == "F7"@ {
        assert("F7"@ =~= (if k.len() == 1 { "Key"@ + k } else if k.len() == 4 && k.take(3) == "Num"@ { "Digit"@ + k.skip(3) } else { k }));
    }
    if k == "F8"@ {
        assert("F8"@ =~= (if k.len() == 1 { "Key"@ + k } else if k.len() == 4 && k.take(3) == "Num"@ { "Digit"@ + k.skip(3) } else { k }));
    }
    if k == "F9"@ {
        assert("F9"@ =~= (if k.len() == 1 { "Key"@ + k } else if k.len() == 4 && k.take(3) == "Num"@ { "Digit"@ + k.skip(3) } else { k }));
    }
    if k == "F10"@ {
        assert("F10"@ =~= (if k.len() == 1 { "Key"@ + k } else if k.len() == 4 && k.take(3) == "Num"@ { "Digit"@ + k.skip(3) } else { k }));
    }
    if k == "F11"@ {
        assert("F11"@ =~= (if k.len() == 1 { "Key"@ + k } else if k.len() == 4 && k.take(3) == "Num"@ { "Digit"@ + k.skip(3) } else { k }));
    }
    if k == "F12"@ {
        assert("F12"@ =~= (if k.len() == 1 { "Key"@ + k } else if k.len() == 4 && k.take(3) == "Num"@ { "Digit"@ + k.skip(3) } else { k }));
    }
    if k == "Space"@ {
        assert("Space"@ =~= (if k.len() == 1 { "Key"@ + k } else if k.len() == 4 && k.take(3) == "Num"@ { "Digit"@ + k.skip(3) } else { k }));
    }
    if k == "Enter"@ {
        assert("Enter"@ =~= (if k.len() == 1 { "Key"@ + k } else if k.len() == 4 && k.take(3) == "Num"@ { "Digit"@ + k.skip(3) } else { k }));
    }
    if k == "Escape"@ {
        assert("Escape"@ =~= (if k.len() == 1 { "Key"@ + k } else if k.len() == 4 && k.take(3) == "Num"@ { "Digit"@ + k.skip(3) } else { k }));
    }
    if k == "Tab"@ {
        assert("Tab"@ =~= (if k.len() == 1 { "Key"@ + k } else if k.len() == 4 && k.take(3) == "Num"@ { "Digit"@ + k.skip(3) } else { k }));
    }
    if k == "Backspace"@ {
        assert("Backspace"@ =~= (if k.len() == 1 { "Key"@ + k } else if k.len() == 4 && k.take(3) == "Num"@ { "Digit"@ + k.skip(3) } else { k }));
    }
}

/// The modifier set of a binding as `keyboard-types` numbers its flags:
/// Alt 0x1, Control 0x8, Shift 0x200, Super 0x2000.
pub open spec fn modifier_bits_spec(b: HotkeyBinding) -> u32 {
    ((if b.alt { 0x1int } else { 0 }) + (if b.control { 0x8int } else { 0 }) + (if b.shift {
        0x200int
    } else {
        0
    }) + (if b.super_key { 0x2000int } else { 0 })) as u32
}

/// The modifier flags of a binding (see [`modifier_bits_spec`]).
pub fn modifier_bits(b: &HotkeyBinding) -> (bits: u32)
    ensures
        bits == modifier_bits_spec(*b),
{
    let mut bits: u32 = 0;
    if b.alt {
        bits = bits + 0x1;
    }
    if b.control {
        bits = bits + 0x8;
    }
    if b.shift {
        bits = bits + 0x200;
    }
    if b.super_key {
        bits = bits + 0x2000;
    }
    bits
}

/// The id `global-hotkey` gives the hotkey with modifier flags
/// `modifier_bits` and key `code_name`, or `None` when it knows no key of
/// that name.
pub uninterp spec fn global_hotkey_id(modifier_bits: u32, code_name: Seq<char>) -> Option<u32>;

/// `global-hotkey`'s `HotKey::new` on the modifiers `modifier_bits` (read by
/// `keyboard-types`' `Modifiers::from_bits_truncate`) and the key named
/// `code_name` (read by `Code::from_str`), with the hotkey's `id()`. The id is
/// a function of the two arguments alone (the crate packs the modifier bits
/// and the key number); it is named by [`global_hotkey_id`], and `None` comes
/// back exactly when the name is unknown.
#[verifier::external_body]
fn new_global_hotkey(modifier_bits: u32, code_name: &str) -> (r: Option<(HotKey, u32)>)
    ensures
        match r {
            Some(p) => global_hotkey_id(modifier_bits, code_name@) == Some(p.1),
            None => global_hotkey_id(modifier_bits, code_name@) is None,
        },
{
    let code = Code::from_str(code_name).ok()?;
    let hotkey = HotKey::new(Some(Modifiers::from_bits_truncate(modifier_bits)), code);
    let id = hotkey.id();
    Some((hotkey, id))
}

/// The `global-hotkey` hotkey to register for a binding, with the id its
/// events carry.
pub fn binding_hotkey(b: &HotkeyBinding) -> (r: Option<(HotKey, u32)>)
    ensures
        match r {
            Some(p) => global_hotkey_id(modifier_bits_spec(*b), code_name_spec(b.code)) == Some(p.1),
            None => global_hotkey_id(modifier_bits_spec(*b), code_name_spec(b.code)) is None,
        },
{
    new_global_hotkey(modifier_bits(b), code_name(b.code))
}

/// What a hotkey asks the application to do.
#[derive(Clone, Copy, Debug, PartialEq, Eq, Structural)]
pub enum HotkeyAction {
    /// Enter screenshot mode, remembering how the window was shown.
    SetScreenshotMode { prev_state: WindowPrevState },
}

/// The position of the first event carrying `id`, if any.
pub open spec fn first_event_with_id(events: Seq<(u32, WindowPrevState)>, id: u32) -> Option<int>
    decreases events.len(),
{
    if events.len() == 0 {
        None
    } else {
        match first_event_with_id(events.drop_last(), id) {
            Some(i) => Some(i),
            None => if events.last().0 == id {
                Some(events.len() - 1)
            } else {
                None
            },
        }
    }
}

/// The actions of one frame: while no screenshot is active, the first event
/// of the screenshot hotkey starts one; every other event is dropped.
pub open spec fn hotkey_actions_spec(
    events: Seq<(u32, WindowPrevState)>,
    screenshot_id: u32,
    is_active: bool,
) -> Seq<HotkeyAction> {
    match first_event_with_id(events, screenshot_id) {
        Some(i) if !is_active => seq![HotkeyAction::SetScreenshotMode { prev_state: events[i].1 }],
        _ => Seq::<HotkeyAction>::empty(),
    }
}

proof fn lemma_first_event_bounds(events: Seq<(u32, WindowPrevState)>, id: u32)
    ensures
        match first_event_with_id(events, id) {
            Some(i) => 0 <= i < events.len() && events[i].0 == id && forall|k: int|
                0 <= k < i ==> events[k].0 != id,
            None => forall|k: int| 0 <= k < events.len() ==> events[k].0 != id,
        },
    decreases events.len(),
{
    if events.len() > 0 {
        let prefix = events.drop_last();
        lemma_first_event_bounds(prefix, id);
        assert forall|k: int| 0 <= k < prefix.len() implies prefix[k] == events[k] by {}
    }
}

/// Consumes the hotkey events received during one frame (id of the hotkey
/// and window state at the time of the press) and returns the actions to
/// perform: at most one screenshot start, and none while one is active.
pub fn collect_hotkey_actions(
    events: &Vec<(u32, WindowPrevState)>,
    screenshot_id: u32,
    is_active: bool,
) -> (r: Vec<HotkeyAction>)
    ensures
        r@ == hotkey_actions_spec(events@, screenshot_id, is_active),
{
    let mut actions: Vec<HotkeyAction> = Vec::new();
    let mut triggered = false;
    let mut k: usize = 0;
    while k < events.len()
        invariant
            k <= events@.len(),
            triggered == (first_event_with_id(events@.take(k as int), screenshot_id) is Some
                && !is_active),
            actions@ == hotkey_actions_spec(events@.take(k as int), screenshot_id, is_active),
        decreases events@.len() - k,
    {
        let (id, prev_state) = events[k];
        let ghost before = events@.take(k as int);
        assert(events@.take(k + 1).drop_last() =~= before);
        proof {
            lemma_first_event_bounds(before, screenshot_id);
        }
        if id == screenshot_id {
            if !is_active && !triggered {
                actions.push(HotkeyAction::SetScreenshotMode { prev_state });
                triggered = true;
                assert(actions@ =~= hotkey_actions_spec(events@.take(k + 1), screenshot_id, is_active));
            }
        }
        proof {
            lemma_first_event_bounds(events@.take(k + 1), screenshot_id);
            if let Some(i) = first_event_with_id(before, screenshot_id) {
                assert(events@.take(k + 1)[i] == before[i]);
            }
        }
        k = k + 1;
    }
    assert(events@.take(k as int) =~= events@);
    actions
}

/// A press of the screenshot hotkey starts a screenshot when none runs: the
/// frame's actions are exactly one start, carrying the window state of the
/// first event with the screenshot id, wherever it sits among the events.
pub proof fn lemma_first_press_starts_screenshot(
    events: Seq<(u32, WindowPrevState)>,
    screenshot_id: u32,
    i: int,
)
    requires
        0 <= i < events.len(),
        events[i].0 == screenshot_id,
        forall|k: int| 0 <= k < i ==> events[k].0 != screenshot_id,
    ensures
        hotkey_actions_spec(events, screenshot_id, false) == seq![
            HotkeyAction::SetScreenshotMode { prev_state: events[i].1 },
        ],
{
    lemma_first_event_bounds(events, screenshot_id);
    match first_event_with_id(events, screenshot_id) {
        Some(j) => {
            if j < i {
                assert(events[j].0 != screenshot_id);
            }
            if i < j {
                assert(events[i].0 != screenshot_id);
            }
            assert(j == i);
        },
        None => {
            assert(events[i].0 != screenshot_id);
        },
    }
}

/// Nothing starts while a screenshot runs, nor in a frame without a press of
/// the screenshot hotkey.
pub proof fn lemma_no_start_without_press(
    events: Seq<(u32, WindowPrevState)>,
    screenshot_id: u32,
    is_active: bool,
)
    requires
        is_active || forall|k: int| 0 <= k < events.len() ==> events[k].0 != screenshot_id,
    ensures
        hotkey_actions_spec(events, screenshot_id, is_active) == Seq::<HotkeyAction>::empty(),
{
    lemma_first_event_bounds(events, screenshot_id);
}

/// How the window was shown when the hotkey fired: hidden means it sat in
/// the tray, else minimized or normal. The second value tells whether the
/// window must be brought back (and marked visible) before the screenshot.
pub fn wake_from_hotkey(is_visible: bool, is_minimized: bool) -> (r: (WindowPrevState, bool))
    ensures
        r.0 == (if !is_visible {
            WindowPrevState::Tray
        } else if is_minimized {
            WindowPrevState::Minimized
        } else {
            WindowPrevState::Normal
        }),
        r.1 == (r.0 != WindowPrevState::Normal),
{
    let state = if !is_visible {
        WindowPrevState::Tray
    } else if is_minimized {
        WindowPrevState::Minimized
    } else {
        WindowPrevState::Normal
    };
    (state, state != WindowPrevState::Normal)
}

} // verus!
