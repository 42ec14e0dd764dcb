//! Hotkey text such as `"Ctrl+Alt+R"`: modifiers and one key, joined by `+`.
//!
//! Tokens are compared ignoring ASCII case and surrounding spaces. The
//! modifiers are `Ctrl`/`Control`, `Alt`, `Shift` and `Win`/`Super`/`Windows`;
//! the key is a letter, a digit, `F1` to `F12`, `Space`, `Tab`, `Esc`/`Escape`,
//! `Enter`, `Backspace`, `Delete`, an arrow (`Up`/`ArrowUp` and so on), `Home`,
//! `End`, `PageUp`, `PageDown`, `PrintScreen`, `ScrollLock`, `Pause`, `Insert`,
//! `CapsLock`, `NumLock`, or a numpad key: `Num0` to `Num9`, `NumAdd`,
//! `NumSubtract`, `NumMultiply`, `NumDivide`, `NumDecimal`, `NumEnter` (each
//! also spelled with `Numpad` in place of `Num`). The key comes last.
use crate::theme::ascii_lower;
use vstd::prelude::*;
use vstd::utf8::encode_utf8;

verus! {

/// The key of a hotkey.
#[derive(Debug, Clone, Copy, PartialEq, Eq, Structural)]
pub enum Key {
    /// A letter, as its upper-case ASCII code.
    Letter(u8),
    /// A digit of the main row, by value.
    Digit(u8),
    /// A function key, by number (1 to 12).
    Function(u8),
    /// A digit of the numeric keypad, by value.
    Numpad(u8),
    Space,
    Tab,
    Escape,
    Enter,
    Backspace,
    Delete,
    ArrowUp,
    ArrowDown,
    ArrowLeft,
    ArrowRight,
    Home,
    End,
    PageUp,
    PageDown,
    PrintScreen,
    ScrollLock,
    Pause,
    Insert,
    CapsLock,
    NumLock,
    NumpadAdd,
    NumpadSubtract,
    NumpadMultiply,
    NumpadDivide,
    NumpadDecimal,
    NumpadEnter,
}

/// A modifier key.
#[derive(Debug, Clone, Copy, PartialEq, Eq, Structural)]
pub enum Modifier {
    Ctrl,
    Alt,
    Shift,
    Win,
}

/// A parsed hotkey: which modifiers are held, and the key.
#[derive(Debug, Clone, Copy, PartialEq, Eq, Structural)]
pub struct Hotkey {
    pub ctrl: bool,
    pub alt: bool,
    pub shift: bool,
    pub win: bool,
    pub key: Key,
}

// ─── The grammar ────────────────────────────────────────

/// The text split at each `+` (a text without `+` is one token).
pub open spec fn split_plus(b: Seq<u8>) -> Seq<Seq<u8>>
    decreases b.len(),
{
    if b.len() == 0 {
        seq![Seq::empty()]
    } else if b.last() == 43u8 {
        split_plus(b.drop_last()).push(Seq::empty())
    } else {
        let t = split_plus(b.drop_last());
        t.update(t.len() - 1, t.last().push(b.last()))
    }
}

/// `t` without its leading spaces.
pub open spec fn trim_start(t: Seq<u8>) -> Seq<u8>
    decreases t.len(),
{
    if t.len() > 0 && t[0] == 32u8 {
        trim_start(t.drop_first())
    } else {
        t
    }
}

/// `t` without its trailing spaces.
pub open spec fn trim_end(t: Seq<u8>) -> Seq<u8>
    decreases t.len(),
{
    if t.len() > 0 && t.last() == 32u8 {
        trim_end(t.drop_last())
    } else {
        t
    }
}

/// A token as it is compared: without surrounding spaces, ASCII letters in lower case.
pub open spec fn normalized(t: Seq<u8>) -> Seq<u8> {
    trim_end(trim_start(t)).map_values(|c: u8| ascii_lower(c))
}

pub open spec fn is_word(w: Seq<u8>, s: &str) -> bool {
    w == encode_utf8(s@)
}

pub open spec fn is_digit_byte(c: u8) -> bool {
    48 <= c <= 57
}

/// The modifier a normalized token names.
pub open spec fn modifier_named(w: Seq<u8>) -> Option<Modifier> {
    if is_word(w, "ctrl") || is_word(w, "control") {
        Some(Modifier::Ctrl)
    } else if is_word(w, "alt") {
        Some(Modifier::Alt)
    } else if is_word(w, "shift") {
        Some(Modifier::Shift)
    } else if is_word(w, "win") || is_word(w, "super") || is_word(w, "windows") {
        Some(Modifier::Win)
    } else {
        None
    }
}

/// The number of a function key name `f1` to `f12` (no leading zero).
pub open spec fn function_number(w: Seq<u8>) -> Option<u8> {
    if w.len() == 2 && w[0] == 102u8 && 49 <= w[1] <= 57 {
        Some((w[1] - 48) as u8)
    } else if w.len() == 3 && w[0] == 102u8 && w[1] == 49u8 && 48 <= w[2] <= 50 {
        Some((w[2] - 38) as u8)
    } else {
        None
    }
}

/// A numpad key name, spelled with `Num` or with `Numpad`.
pub open spec fn is_numpad_word(w: Seq<u8>, num: &str, numpad: &str) -> bool {
    is_word(w, num) || is_word(w, numpad)
}

/// The key a normalized token names.
pub open spec fn key_named(w: Seq<u8>) -> Option<Key> {
    if w.len() == 1 && 97 <= w[0] <= 122 {
        Some(Key::Letter((w[0] - 32) as u8))
    } else if w.len() == 1 && is_digit_byte(w[0]) {
        Some(Key::Digit((w[0] - 48) as u8))
    } else if function_number(w) is Some {
        Some(Key::Function(function_number(w)->0))
    } else if w.len() > 0 && is_digit_byte(w.last()) && (is_word(w.drop_last(), "numpad")
        || is_word(w.drop_last(), "num")) {
        Some(Key::Numpad((w.last() - 48) as u8))
    } else if is_word(w, "space") {
        Some(Key::Space)
    } else if is_word(w, "tab") {
        Some(Key::Tab)
    } else if is_word(w, "esc") || is_word(w, "escape") {
        Some(Key::Escape)
    } else if is_word(w, "enter") {
        Some(Key::Enter)
    } else if is_word(w, "backspace") {
        Some(Key::Backspace)
    } else if is_word(w, "delete") {
        Some(Key::Delete)
    } else if is_word(w, "up") || is_word(w, "arrowup") {
        Some(Key::ArrowUp)
    } else if is_word(w, "down") || is_word(w, "arrowdown") {
        Some(Key::ArrowDown)
    } else if is_word(w, "left") || is_word(w, "arrowleft") {
        Some(Key::ArrowLeft)
    } else if is_word(w, "right") || is_word(w, "arrowright") {
        Some(Key::ArrowRight)
    } else if is_word(w, "home") {
        Some(Key::Home)
    } else if is_word(w, "end") {
        Some(Key::End)
    } else if is_word(w, "pageup") {
        Some(Key::PageUp)
    } else if is_word(w, "pagedown") {
        Some(Key::PageDown)
    } else if is_word(w, "printscreen") {
        Some(Key::PrintScreen)
    } else if is_word(w, "scrolllock") {
        Some(Key::ScrollLock)
    } else if is_word(w, "pause") {
        Some(Key::Pause)
    } else if is_word(w, "insert") {
        Some(Key::Insert)
    } else if is_word(w, "capslock") {
        Some(Key::CapsLock)
    } else if is_word(w, "numlock") {
        Some(Key::NumLock)
    } else if is_numpad_word(w, "numadd", "numpadadd") {
        Some(Key::NumpadAdd)
    } else if is_numpad_word(w, "numsubtract", "numpadsubtract") {
        Some(Key::NumpadSubtract)
    } else if is_numpad_word(w, "nummultiply", "numpadmultiply") {
        Some(Key::NumpadMultiply)
    } else if is_numpad_word(w, "numdivide", "numpaddivide") {
        Some(Key::NumpadDivide)
    } else if is_numpad_word(w, "numdecimal", "numpaddecimal") {
        Some(Key::NumpadDecimal)
    } else if is_numpad_word(w, "numenter", "numpadenter") {
        Some(Key::NumpadEnter)
    } else {
        None
    }
}

/// Some token before the last names modifier `m`.
pub open spec fn holds(toks: Seq<Seq<u8>>, m: Modifier) -> bool {
    exists|i: int| 0 <= i < toks.len() - 1 && modifier_named(normalized(#[trigger] toks[i])) == Some(m)
}

/// The hotkey a text (as UTF-8 bytes) names: every token before the last
/// names a modifier, and the last names a key.
pub open spec fn hotkey_of(b: Seq<u8>) -> Option<Hotkey> {
    let toks = split_plus(b);
    if (forall|i: int| 0 <= i < toks.len() - 1 ==> modifier_named(normalized(#[trigger] toks[i])) is Some)
        && key_named(normalized(toks.last())) is Some {
        Some(
            Hotkey {
                ctrl: holds(toks, Modifier::Ctrl),
                alt: holds(toks, Modifier::Alt),
                shift: holds(toks, Modifier::Shift),
                win: holds(toks, Modifier::Win),
                key: key_named(normalized(toks.last()))->0,
            },
        )
    } else {
        None
    }
}

// ─── Parsing ────────────────────────────────────────────

fn same_bytes(a: &[u8], b: &[u8]) -> (r: bool)
    ensures
        r == (a@ == b@),
{
    if a.len() != b.len() {
        return false;
    }
    let mut i: usize = 0;
    while i < a.len()
        invariant
            a@.len() == b@.len(),
            i <= a@.len(),
            forall|j: int| 0 <= j < i ==> a@[j] == b@[j],
        decreases a@.len() - i,
    {
        if a[i] != b[i] {
            return false;
        }
        i += 1;
    }
    assert(a@ =~= b@);
    true
}

fn is_word_exec(w: &Vec<u8>, s: &str) -> (r: bool)
    ensures
        r == is_word(w@, s),
{
    same_bytes(w.as_slice(), s.as_bytes())
}

/// `w` without its last byte.
fn without_last(w: &Vec<u8>) -> (r: Vec<u8>)
    requires
        w@.len() > 0,
    ensures
        r@ == w@.drop_last(),
{
    let mut r: Vec<u8> = Vec::new();
    let mut i: usize = 0;
    while i < w.len() - 1
        invariant
            w@.len() > 0,
            i <= w@.len() - 1,
            r@ == w@.take(i as int),
        decreases w@.len() - i,
    {
        r.push(w[i]);
        i += 1;
        assert(r@ =~= w@.take(i as int));
    }
    assert(r@ =~= w@.drop_last());
    r
}

/// Trims and lower-cases a token.
fn normalize(t: &Vec<u8>) -> (r: Vec<u8>)
    ensures
        r@ == normalized(t@),
{
    let n = t.len();
    let mut a: usize = 0;
    assert(t@.subrange(0, n as int) =~= t@);
    while a < n && t[a] == 32
        invariant
            n == t@.len(),
            a <= n,
            trim_start(t@) == trim_start(t@.subrange(a as int, n as int)),
        decreases n - a,
    {
        assert(t@.subrange(a as int, n as int).drop_first() =~= t@.subrange(a + 1, n as int));
        a += 1;
    }
    assert(trim_start(t@) == t@.subrange(a as int, n as int));
    let mut b: usize = n;
    while b > a && t[b - 1] == 32
        invariant
            n == t@.len(),
            a <= b <= n,
            trim_end(t@.subrange(a as int, n as int)) == trim_end(t@.subrange(a as int, b as int)),
        decreases b,
    {
        assert(t@.subrange(a as int, b as int).drop_last() =~= t@.subrange(a as int, b - 1));
        b -= 1;
    }
    let ghost trimmed = t@.subrange(a as int, b as int);
    assert(trim_end(trimmed) == trimmed);
    let mut r: Vec<u8> = Vec::new();
    let mut i: usize = a;
    while i < b
        invariant
            n == t@.len(),
            a <= i <= b <= n,
            trimmed == t@.subrange(a as int, b as int),
            r@ == trimmed.take(i - a).map_values(|c: u8| ascii_lower(c)),
        decreases b - i,
    {
        let c = t[i];
        let lc: u8 = if 65 <= c && c <= 90 {
            c + 32
        } else {
            c
        };
        r.push(lc);
        i += 1;
        assert(r@ =~= trimmed.take(i - a).map_values(|c: u8| ascii_lower(c)));
    }
    assert(trimmed.take(b - a) =~= trimmed);
    r
}

fn modifier_exec(w: &Vec<u8>) -> (r: Option<Modifier>)
    ensures
        r == modifier_named(w@),
{
    if is_word_exec(w, "ctrl") || is_word_exec(w, "control") {
        Some(Modifier::Ctrl)
    } else if is_word_exec(w, "alt") {
        Some(Modifier::Alt)
    } else if is_word_exec(w, "shift") {
        Some(Modifier::Shift)
    } else if is_word_exec(w, "win") || is_word_exec(w, "super") || is_word_exec(w, "windows") {
        Some(Modifier::Win)
    } else {
        None
    }
}

fn function_number_exec(w: &Vec<u8>) -> (r: Option<u8>)
    ensures
        r == function_number(w@),
{
    if w.len() == 2 && w[0] == 102 && 49 <= w[1] && w[1] <= 57 {
        Some(w[1] - 48)
    } else if w.len() == 3 && w[0] == 102 && w[1] == 49 && 48 <= w[2] && w[2] <= 50 {
        Some(w[2] - 38)
    } else {
        None
    }
}

fn key_exec(w: &Vec<u8>) -> (r: Option<Key>)
    ensures
        r == key_named(w@),
{
    let n = w.len();
    if n == 1 && 97 <= w[0] && w[0] <= 122 {
        return Some(Key::Letter(w[0] - 32));
    }
    if n == 1 && 48 <= w[0] && w[0] <= 57 {
        return Some(Key::Digit(w[0] - 48));
    }
    if let Some(f) = function_number_exec(w) {
        return Some(Key::Function(f));
    }
    if n > 0 && 48 <= w[n - 1] && w[n - 1] <= 57 {
        let head = without_last(w);
        if is_word_exec(&head, "numpad") || is_word_exec(&head, "num") {
            return Some(Key::Numpad(w[n - 1] - 48));
        }
    }
    if is_word_exec(w, "space") {
        Some(Key::Space)
    } else if is_word_exec(w, "tab") {
        Some(Key::Tab)
    } else if is_word_exec(w, "esc") || is_word_exec(w, "escape") {
        Some(Key::Escape)
    } else if is_word_exec(w, "enter") {
        Some(Key::Enter)
    } else if is_word_exec(w, "backspace") {
        Some(Key::Backspace)
    } else if is_word_exec(w, "delete") {
        Some(Key::Delete)
    } else if is_word_exec(w, "up") || is_word_exec(w, "arrowup") {
        Some(Key::ArrowUp)
    } else if is_word_exec(w, "down") || is_word_exec(w, "arrowdown") {
        Some(Key::ArrowDown)
    } else if is_word_exec(w, "left") || is_word_exec(w, "arrowleft") {
        Some(Key::ArrowLeft)
    } else if is_word_exec(w, "right") || is_word_exec(w, "arrowright") {
        Some(Key::ArrowRight)
    } else if is_word_exec(w, "home") {
        Some(Key::Home)
    } else if is_word_exec(w, "end") {
        Some(Key::End)
    } else if is_word_exec(w, "pageup") {
        Some(Key::PageUp)
    } else if is_word_exec(w, "pagedown") {
        Some(Key::PageDown)
    } else if is_word_exec(w, "printscreen") {
        Some(Key::PrintScreen)
    } else if is_word_exec(w, "scrolllock") {
        Some(Key::ScrollLock)
    } else if is_word_exec(w, "pause") {
        Some(Key::Pause)
    } else if is_word_exec(w, "insert") {
        Some(Key::Insert)
    } else if is_word_exec(w, "capslock") {
        Some(Key::CapsLock)
    } else if is_word_exec(w, "numlock") {
        Some(Key::NumLock)
    } else if is_word_exec(w, "numadd") || is_word_exec(w, "numpadadd") {
        Some(Key::NumpadAdd)
    } else if is_word_exec(w, "numsubtract") || is_word_exec(w, "numpadsubtract") {
        Some(Key::NumpadSubtract)
    } else if is_word_exec(w, "nummultiply") || is_word_exec(w, "numpadmultiply") {
        Some(Key::NumpadMultiply)
    } else if is_word_exec(w, "numdivide") || is_word_exec(w, "numpaddivide") {
        Some(Key::NumpadDivide)
    } else if is_word_exec(w, "numdecimal") || is_word_exec(w, "numpaddecimal") {
        Some(Key::NumpadDecimal)
    } else if is_word_exec(w, "numenter") || is_word_exec(w, "numpadenter") {
        Some(Key::NumpadEnter)
    } else {
        None
    }
}

/// Parses hotkey text such as `"Ctrl+Alt+R"` (see `hotkey_of`).
pub fn parse_hotkey(s: &str) -> (r: Option<Hotkey>)
    ensures
        r == hotkey_of(encode_utf8(s@)),
{
    let b = s.as_bytes();
    let ghost bs = b@;
    let mut ctrl = false;
    let mut alt = false;
    let mut shift = false;
    let mut win = false;
    let mut ok = true;
    let mut cur: Vec<u8> = Vec::new();
    let mut i: usize = 0;
    assert(bs.take(0) =~= Seq::<u8>::empty());
    while i < b.len()
        invariant
            bs == b@,
            i <= bs.len(),
            ({
                let toks = split_plus(bs.take(i as int));
                &&& toks.len() >= 1
                &&& cur@ == toks.last()
                &&& ok == forall|j: int|
                    0 <= j < toks.len() - 1 ==> modifier_named(normalized(#[trigger] toks[j])) is Some
                &&& ctrl == holds(toks, Modifier::Ctrl)
                &&& alt == holds(toks, Modifier::Alt)
                &&& shift == holds(toks, Modifier::Shift)
                &&& win == holds(toks, Modifier::Win)
            }),
        decreases bs.len() - i,
    {
        let ghost before = split_plus(bs.take(i as int));
        let c = b[i];
        assert(bs.take(i + 1).drop_last() =~= bs.take(i as int));
        if c == 43 {
            let w = normalize(&cur);
            let m = modifier_exec(&w);
            let ghost after = before.push(Seq::empty());
            assert(split_plus(bs.take(i + 1)) == after);
            match m {
                Some(Modifier::Ctrl) => ctrl = true,
                Some(Modifier::Alt) => alt = true,
                Some(Modifier::Shift) => shift = true,
                Some(Modifier::Win) => win = true,
                None => ok = false,
            }
            proof {
                assert(after[before.len() - 1] == before.last());
                assert forall|j: int| 0 <= j < before.len() - 1 implies after[j] == before[j] by {}
                assert(ok == forall|j: int|
                    0 <= j < after.len() - 1 ==> modifier_named(normalized(#[trigger] after[j])) is Some)
                    by {
                    if !ok {
                        if m is Some {
                            let j = choose|j: int|
                                0 <= j < before.len() - 1 && !(modifier_named(
                                    normalized(#[trigger] before[j]),
                                ) is Some);
                            assert(after[j] == before[j]);
                        }
                    }
                }
                assert forall|md: Modifier|
                    holds(after, md) == (holds(before, md) || m == Some(md)) by {
                    if holds(after, md) {
                        let j = choose|j: int|
                            0 <= j < after.len() - 1 && modifier_named(normalized(#[trigger] after[j]))
                                == Some(md);
                        if j < before.len() - 1 {
                            assert(after[j] == before[j]);
                        }
                    }
                    if holds(before, md) {
                        let j = choose|j: int|
                            0 <= j < before.len() - 1 && modifier_named(
                                normalized(#[trigger] before[j]),
                            ) == Some(md);
                        assert(after[j] == before[j]);
                    }
                    if m == Some(md) {
                        assert(modifier_named(normalized(after[before.len() - 1])) == Some(md));
                    }
                }
            }
            cur = Vec::new();
        } else {
            cur.push(c);
            proof {
                let after = split_plus(bs.take(i + 1));
                assert(after == before.update(before.len() - 1, before.last().push(c)));
                assert forall|j: int| 0 <= j < before.len() - 1 implies after[j] == before[j] by {}
                assert forall|md: Modifier| holds(after, md) == holds(before, md) by {
                    if holds(after, md) {
                        let j = choose|j: int|
                            0 <= j < after.len() - 1 && modifier_named(normalized(#[trigger] after[j]))
                                == Some(md);
                        assert(after[j] == before[j]);
                    }
                    if holds(before, md) {
                        let j = choose|j: int|
                            0 <= j < before.len() - 1 && modifier_named(
                                normalized(#[trigger] before[j]),
                            ) == Some(md);
                        assert(after[j] == before[j]);
                    }
                }
            }
        }
        i += 1;
    }
    assert(bs.take(i as int) =~= bs);
    let w = normalize(&cur);
    let k = key_exec(&w);
    if !ok {
        return None;
    }
    match k {
        Some(key) => Some(Hotkey { ctrl, alt, shift, win, key }),
        None => None,
    }
}

} // verus!
