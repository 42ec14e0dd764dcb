//! The names of the hotkey grammar, key by key: each documented name is shown
//! to name its key.
use crate::hotkey::{
    holds, hotkey_of, key_named, modifier_named, normalized, split_plus, Hotkey, Key, Modifier,
};
use vstd::prelude::*;
use vstd::utf8::{encode_utf8, is_ascii_chars, is_ascii_chars_encode_utf8};

verus! {

/// Every documented key name names its own key: `Space`, `Tab`, `Esc` and
/// `Escape`, `Enter`, `Backspace`, `Delete`, the arrows (`Up`/`ArrowUp`,
/// `Down`/`ArrowDown`, `Left`/`ArrowLeft`, `Right`/`ArrowRight`), `Home`, `End`,
/// `PageUp`, `PageDown`, `PrintScreen`, `ScrollLock`, `Pause`, `Insert`,
/// `CapsLock`, `NumLock` and the numpad operator keys. Names of different keys
/// therefore never name the same key.
pub proof fn law_named_keys()
    ensures
        key_named(encode_utf8("space"@)) == Some(Key::Space),
        key_named(encode_utf8("tab"@)) == Some(Key::Tab),
        key_named(encode_utf8("esc"@)) == Some(Key::Escape),
        key_named(encode_utf8("escape"@)) == Some(Key::Escape),
        key_named(encode_utf8("enter"@)) == Some(Key::Enter),
        key_named(encode_utf8("backspace"@)) == Some(Key::Backspace),
        key_named(encode_utf8("delete"@)) == Some(Key::Delete),
        key_named(encode_utf8("up"@)) == Some(Key::ArrowUp),
        key_named(encode_utf8("arrowup"@)) == Some(Key::ArrowUp),
        key_named(encode_utf8("down"@)) == Some(Key::ArrowDown),
        key_named(encode_utf8("arrowdown"@)) == Some(Key::ArrowDown),
        key_named(encode_utf8("left"@)) == Some(Key::ArrowLeft),
        key_named(encode_utf8("arrowleft"@)) == Some(Key::ArrowLeft),
        key_named(encode_utf8("right"@)) == Some(Key::ArrowRight),
        key_named(encode_utf8("arrowright"@)) == Some(Key::ArrowRight),
        key_named(encode_utf8("home"@)) == Some(Key::Home),
        key_named(encode_utf8("end"@)) == Some(Key::End),
        key_named(encode_utf8("pageup"@)) == Some(Key::PageUp),
        key_named(encode_utf8("pagedown"@)) == Some(Key::PageDown),
        key_named(encode_utf8("printscreen"@)) == Some(Key::PrintScreen),
        key_named(encode_utf8("scrolllock"@)) == Some(Key::ScrollLock),
        key_named(encode_utf8("pause"@)) == Some(Key::Pause),
        key_named(encode_utf8("insert"@)) == Some(Key::Insert),
        key_named(encode_utf8("capslock"@)) == Some(Key::CapsLock),
        key_named(encode_utf8("numlock"@)) == Some(Key::NumLock),
        key_named(encode_utf8("numadd"@)) == Some(Key::NumpadAdd),
        key_named(encode_utf8("numpadadd"@)) == Some(Key::NumpadAdd),
        key_named(encode_utf8("numsubtract"@)) == Some(Key::NumpadSubtract),
        key_named(encode_utf8("numpadsubtract"@)) == Some(Key::NumpadSubtract),
        key_named(encode_utf8("nummultiply"@)) == Some(Key::NumpadMultiply),
        key_named(encode_utf8("numpadmultiply"@)) == Some(Key::NumpadMultiply),
        key_named(encode_utf8("numdivide"@)) == Some(Key::NumpadDivide),
        key_named(encode_utf8("numpaddivide"@)) == Some(Key::NumpadDivide),
        key_named(encode_utf8("numdecimal"@)) == Some(Key::NumpadDecimal),
        key_named(encode_utf8("numpaddecimal"@)) == Some(Key::NumpadDecimal),
        key_named(encode_utf8("numenter"@)) == Some(Key::NumpadEnter),
        key_named(encode_utf8("numpadenter"@)) == Some(Key::NumpadEnter),
{
    lemma_key_space();
    lemma_key_tab();
    lemma_key_esc();
    lemma_key_escape();
    lemma_key_enter();
    lemma_key_backspace();
    lemma_key_delete();
    lemma_key_up();
    lemma_key_arrowup();
    lemma_key_down();
    lemma_key_arrowdown();
    lemma_key_left();
    lemma_key_arrowleft();
    lemma_key_right();
    lemma_key_arrowright();
    lemma_key_home();
    lemma_key_end();
    lemma_key_pageup();
    lemma_key_pagedown();
    lemma_key_printscreen();
    lemma_key_scrolllock();
    lemma_key_pause();
    lemma_key_insert();
    lemma_key_capslock();
    lemma_key_numlock();
    lemma_key_numadd();
    lemma_key_numpadadd();
    lemma_key_numsubtract();
    lemma_key_numpadsubtract();
    lemma_key_nummultiply();
    lemma_key_numpadmultiply();
    lemma_key_numdivide();
    lemma_key_numpaddivide();
    lemma_key_numdecimal();
    lemma_key_numpaddecimal();
    lemma_key_numenter();
    lemma_key_numpadenter();
}

/// Every documented modifier name names its modifier: `Ctrl`/`Control`, `Alt`,
/// `Shift`, `Win`/`Super`/`Windows`.
pub proof fn law_modifier_names()
    ensures
        modifier_named(encode_utf8("ctrl"@)) == Some(Modifier::Ctrl),
        modifier_named(encode_utf8("control"@)) == Some(Modifier::Ctrl),
        modifier_named(encode_utf8("alt"@)) == Some(Modifier::Alt),
        modifier_named(encode_utf8("shift"@)) == Some(Modifier::Shift),
        modifier_named(encode_utf8("win"@)) == Some(Modifier::Win),
        modifier_named(encode_utf8("super"@)) == Some(Modifier::Win),
        modifier_named(encode_utf8("windows"@)) == Some(Modifier::Win),
{
    lemma_modifier_ctrl();
    lemma_modifier_control();
    lemma_modifier_alt();
    lemma_modifier_shift();
    lemma_modifier_win();
    lemma_modifier_super();
    lemma_modifier_windows();
}

/// A single lower-case letter names that letter's key, a single digit names
/// that digit's key, `f1` to `f12` name the function keys, and `numpad` or
/// `num` followed by a digit names that digit of the keypad.
pub proof fn law_letters_digits_and_numbered_keys(c: u8)
    ensures
        97 <= c <= 122 ==> key_named(seq![c]) == Some(Key::Letter((c - 32) as u8)),
        48 <= c <= 57 ==> key_named(seq![c]) == Some(Key::Digit((c - 48) as u8)),
        49 <= c <= 57 ==> key_named(seq![102u8, c]) == Some(Key::Function((c - 48) as u8)),
        48 <= c <= 50 ==> key_named(seq![102u8, 49u8, c]) == Some(Key::Function((c - 38) as u8)),
        48 <= c <= 57 ==> key_named(encode_utf8("numpad"@).push(c)) == Some(
            Key::Numpad((c - 48) as u8),
        ),
        48 <= c <= 57 ==> key_named(encode_utf8("num"@).push(c)) == Some(
            Key::Numpad((c - 48) as u8),
        ),
{
    lemma_word_numpad();
    lemma_word_num();
    let w = encode_utf8("numpad"@).push(c);
    assert(w.drop_last() =~= encode_utf8("numpad"@));
    let v = encode_utf8("num"@).push(c);
    assert(v.drop_last() =~= encode_utf8("num"@));
}

proof fn lemma_word_numpad()
    ensures
        encode_utf8("numpad"@) == seq![110u8, 117u8, 109u8, 112u8, 97u8, 100u8],
{
    reveal_strlit("numpad");
    assert("numpad"@ =~= seq!['n', 'u', 'm', 'p', 'a', 'd']);
    lemma_ascii_bytes("numpad"@);
    assert(encode_utf8("numpad"@) =~= seq![110u8, 117u8, 109u8, 112u8, 97u8, 100u8]);
}

proof fn lemma_word_num()
    ensures
        encode_utf8("num"@) == seq![110u8, 117u8, 109u8],
{
    reveal_strlit("num");
    assert("num"@ =~= seq!['n', 'u', 'm']);
    lemma_ascii_bytes("num"@);
    assert(encode_utf8("num"@) =~= seq![110u8, 117u8, 109u8]);
}

/// The UTF-8 bytes of an ASCII text are its character codes.
proof fn lemma_ascii_bytes(c: Seq<char>)
    requires
        is_ascii_chars(c),
    ensures
        encode_utf8(c) == c.map_values(|ch: char| ch as u8),
{
    is_ascii_chars_encode_utf8(c);
    assert(encode_utf8(c) =~= c.map_values(|ch: char| ch as u8));
}

proof fn lemma_word_space()
    ensures
        encode_utf8("space"@) == seq![115u8, 112u8, 97u8, 99u8, 101u8],
{
    reveal_strlit("space");
    assert("space"@ =~= seq!['s', 'p', 'a', 'c', 'e']);
    lemma_ascii_bytes("space"@);
    assert(encode_utf8("space"@) =~= seq![115u8, 112u8, 97u8, 99u8, 101u8]);
}

proof fn lemma_word_tab()
    ensures
        encode_utf8("tab"@) == seq![116u8, 97u8, 98u8],
{
    reveal_strlit("tab");
    assert("tab"@ =~= seq!['t', 'a', 'b']);
    lemma_ascii_bytes("tab"@);
    assert(encode_utf8("tab"@) =~= seq![116u8, 97u8, 98u8]);
}

proof fn lemma_word_esc()
    ensures
        encode_utf8("esc"@) == seq![101u8, 115u8, 99u8],
{
    reveal_strlit("esc");
    assert("esc"@ =~= seq!['e', 's', 'c']);
    lemma_ascii_bytes("esc"@);
    assert(encode_utf8("esc"@) =~= seq![101u8, 115u8, 99u8]);
}

proof fn lemma_word_escape()
    ensures
        encode_utf8("escape"@) == seq![101u8, 115u8, 99u8, 97u8, 112u8, 101u8],
{
    reveal_strlit("escape");
    assert("escape"@ =~= seq!['e', 's', 'c', 'a', 'p', 'e']);
    lemma_ascii_bytes("escape"@);
    assert(encode_utf8("escape"@) =~= seq![101u8, 115u8, 99u8, 97u8, 112u8, 101u8]);
}

proof fn lemma_word_enter()
    ensures
        encode_utf8("enter"@) == seq![101u8, 110u8, 116u8, 101u8, 114u8],
{
    reveal_strlit("enter");
    assert("enter"@ =~= seq!['e', 'n', 't', 'e', 'r']);
    lemma_ascii_bytes("enter"@);
    assert(encode_utf8("enter"@) =~= seq![101u8, 110u8, 116u8, 101u8, 114u8]);
}

proof fn lemma_word_backspace()
    ensures
        encode_utf8("backspace"@) == seq![98u8, 97u8, 99u8, 107u8, 115u8, 112u8, 97u8, 99u8, 101u8],
{
    reveal_strlit("backspace");
    assert("backspace"@ =~= seq!['b', 'a', 'c', 'k', 's', 'p', 'a', 'c', 'e']);
    lemma_ascii_bytes("backspace"@);
    assert(encode_utf8("backspace"@) =~= seq![98u8, 97u8, 99u8, 107u8, 115u8, 112u8, 97u8, 99u8, 101u8]);
}

proof fn lemma_word_delete()
    ensures
        encode_utf8("delete"@) == seq![100u8, 101u8, 108u8, 101u8, 116u8, 101u8],
{
    reveal_strlit("delete");
    assert("delete"@ =~= seq!['d', 'e', 'l', 'e', 't', 'e']);
    lemma_ascii_bytes("delete"@);
    assert(encode_utf8("delete"@) =~= seq![100u8, 101u8, 108u8, 101u8, 116u8, 101u8]);
}

proof fn lemma_word_up()
    ensures
        encode_utf8("up"@) == seq![117u8, 112u8],
{
    reveal_strlit("up");
    assert("up"@ =~= seq!['u', 'p']);
    lemma_ascii_bytes("up"@);
    assert(encode_utf8("up"@) =~= seq![117u8, 112u8]);
}

proof fn lemma_word_arrowup()
    ensures
        encode_utf8("arrowup"@) == seq![97u8, 114u8, 114u8, 111u8, 119u8, 117u8, 112u8],
{
    reveal_strlit("arrowup");
    assert("arrowup"@ =~= seq!['a', 'r', 'r', 'o', 'w', 'u', 'p']);
    lemma_ascii_bytes("arrowup"@);
    assert(encode_utf8("arrowup"@) =~= seq![97u8, 114u8, 114u8, 111u8, 119u8, 117u8, 112u8]);
}

proof fn lemma_word_down()
    ensures
        encode_utf8("down"@) == seq![100u8, 111u8, 119u8, 110u8],
{
    reveal_strlit("down");
    assert("down"@ =~= seq!['d', 'o', 'w', 'n']);
    lemma_ascii_bytes("down"@);
    assert(encode_utf8("down"@) =~= seq![100u8, 111u8, 119u8, 110u8]);
}

proof fn lemma_word_arrowdown()
    ensures
        encode_utf8("arrowdown"@) == seq![97u8, 114u8, 114u8, 111u8, 119u8, 100u8, 111u8, 119u8, 110u8],
{
    reveal_strlit("arrowdown");
    assert("arrowdown"@ =~= seq!['a', 'r', 'r', 'o', 'w', 'd', 'o', 'w', 'n']);
    lemma_ascii_bytes("arrowdown"@);
    assert(encode_utf8("arrowdown"@) =~= seq![97u8, 114u8, 114u8, 111u8, 119u8, 100u8, 111u8, 119u8, 110u8]);
}

proof fn lemma_word_left()
    ensures
        encode_utf8("left"@) == seq![108u8, 101u8, 102u8, 116u8],
{
    reveal_strlit("left");
    assert("left"@ =~= seq!['l', 'e', 'f', 't']);
    lemma_ascii_bytes("left"@);
    assert(encode_utf8("left"@) =~= seq![108u8, 101u8, 102u8, 116u8]);
}

proof fn lemma_word_arrowleft()
    ensures
        encode_utf8("arrowleft"@) == seq![97u8, 114u8, 114u8, 111u8, 119u8, 108u8, 101u8, 102u8, 116u8],
{
    reveal_strlit("arrowleft");
    assert("arrowleft"@ =~= seq!['a', 'r', 'r', 'o', 'w', 'l', 'e', 'f', 't']);
    lemma_ascii_bytes("arrowleft"@);
    assert(encode_utf8("arrowleft"@) =~= seq![97u8, 114u8, 114u8, 111u8, 119u8, 108u8, 101u8, 102u8, 116u8]);
}

proof fn lemma_word_right()
    ensures
        encode_utf8("right"@) == seq![114u8, 105u8, 103u8, 104u8, 116u8],
{
    reveal_strlit("right");
    assert("right"@ =~= seq!['r', 'i', 'g', 'h', 't']);
    lemma_ascii_bytes("right"@);
    assert(encode_utf8("right"@) =~= seq![114u8, 105u8, 103u8, 104u8, 116u8]);
}

proof fn lemma_word_arrowright()
    ensures
        encode_utf8("arrowright"@) == seq![97u8, 114u8, 114u8, 111u8, 119u8, 114u8, 105u8, 103u8, 104u8, 116u8],
{
    reveal_strlit("arrowright");
    assert("arrowright"@ =~= seq!['a', 'r', 'r', 'o', 'w', 'r', 'i', 'g', 'h', 't']);
    lemma_ascii_bytes("arrowright"@);
    assert(encode_utf8("arrowright"@) =~= seq![97u8, 114u8, 114u8, 111u8, 119u8, 114u8, 105u8, 103u8, 104u8, 116u8]);
}

proof fn lemma_word_home()
    ensures
        encode_utf8("home"@) == seq![104u8, 111u8, 109u8, 101u8],
{
    reveal_strlit("home");
    assert("home"@ =~= seq!['h', 'o', 'm', 'e']);
    lemma_ascii_bytes("home"@);
    assert(encode_utf8("home"@) =~= seq![104u8, 111u8, 109u8, 101u8]);
}

proof fn lemma_word_end()
    ensures
        encode_utf8("end"@) == seq![101u8, 110u8, 100u8],
{
    reveal_strlit("end");
    assert("end"@ =~= seq!['e', 'n', 'd']);
    lemma_ascii_bytes("end"@);
    assert(encode_utf8("end"@) =~= seq![101u8, 110u8, 100u8]);
}

proof fn lemma_word_pageup()
    ensures
        encode_utf8("pageup"@) == seq![112u8, 97u8, 103u8, 101u8, 117u8, 112u8],
{
    reveal_strlit("pageup");
    assert("pageup"@ =~= seq!['p', 'a', 'g', 'e', 'u', 'p']);
    lemma_ascii_bytes("pageup"@);
    assert(encode_utf8("pageup"@) =~= seq![112u8, 97u8, 103u8, 101u8, 117u8, 112u8]);
}

proof fn lemma_word_pagedown()
    ensures
        encode_utf8("pagedown"@) == seq![112u8, 97u8, 103u8, 101u8, 100u8, 111u8, 119u8, 110u8],
{
    reveal_strlit("pagedown");
    assert("pagedown"@ =~= seq!['p', 'a', 'g', 'e', 'd', 'o', 'w', 'n']);
    lemma_ascii_bytes("pagedown"@);
    assert(encode_utf8("pagedown"@) =~= seq![112u8, 97u8, 103u8, 101u8, 100u8, 111u8, 119u8, 110u8]);
}

proof fn lemma_word_printscreen()
    ensures
        encode_utf8("printscreen"@) == seq![112u8, 114u8, 105u8, 110u8, 116u8, 115u8, 99u8, 114u8, 101u8, 101u8, 110u8],
{
    reveal_strlit("printscreen");
    assert("printscreen"@ =~= seq!['p', 'r', 'i', 'n', 't', 's', 'c', 'r', 'e', 'e', 'n']);
    lemma_ascii_bytes("printscreen"@);
    assert(encode_utf8("printscreen"@) =~= seq![112u8, 114u8, 105u8, 110u8, 116u8, 115u8, 99u8, 114u8, 101u8, 101u8, 110u8]);
}

proof fn lemma_word_scrolllock()
    ensures
        encode_utf8("scrolllock"@) == seq![115u8, 99u8, 114u8, 111u8, 108u8, 108u8, 108u8, 111u8, 99u8, 107u8],
{
    reveal_strlit("scrolllock");
    assert("scrolllock"@ =~= seq!['s', 'c', 'r', 'o', 'l', 'l', 'l', 'o', 'c', 'k']);
    lemma_ascii_bytes("scrolllock"@);
    assert(encode_utf8("scrolllock"@) =~= seq![115u8, 99u8, 114u8, 111u8, 108u8, 108u8, 108u8, 111u8, 99u8, 107u8]);
}

proof fn lemma_word_pause()
    ensures
        encode_utf8("pause"@) == seq![112u8, 97u8, 117u8, 115u8, 101u8],
{
    reveal_strlit("pause");
    assert("pause"@ =~= seq!['p', 'a', 'u', 's', 'e']);
    lemma_ascii_bytes("pause"@);
    assert(encode_utf8("pause"@) =~= seq![112u8, 97u8, 117u8, 115u8, 101u8]);
}

proof fn lemma_word_insert()
    ensures
        encode_utf8("insert"@) == seq![105u8, 110u8, 115u8, 101u8, 114u8, 116u8],
{
    reveal_strlit("insert");
    assert("insert"@ =~= seq!['i', 'n', 's', 'e', 'r', 't']);
    lemma_ascii_bytes("insert"@);
    assert(encode_utf8("insert"@) =~= seq![105u8, 110u8, 115u8, 101u8, 114u8, 116u8]);
}

proof fn lemma_word_capslock()
    ensures
        encode_utf8("capslock"@) == seq![99u8, 97u8, 112u8, 115u8, 108u8, 111u8, 99u8, 107u8],
{
    reveal_strlit("capslock");
    assert("capslock"@ =~= seq!['c', 'a', 'p', 's', 'l', 'o', 'c', 'k']);
    lemma_ascii_bytes("capslock"@);
    assert(encode_utf8("capslock"@) =~= seq![99u8, 97u8, 112u8, 115u8, 108u8, 111u8, 99u8, 107u8]);
}

proof fn lemma_word_numlock()
    ensures
        encode_utf8("numlock"@) == seq![110u8, 117u8, 109u8, 108u8, 111u8, 99u8, 107u8],
{
    reveal_strlit("numlock");
    assert("numlock"@ =~= seq!['n', 'u', 'm', 'l', 'o', 'c', 'k']);
    lemma_ascii_bytes("numlock"@);
    assert(encode_utf8("numlock"@) =~= seq![110u8, 117u8, 109u8, 108u8, 111u8, 99u8, 107u8]);
}

proof fn lemma_word_numadd()
    ensures
        encode_utf8("numadd"@) == seq![110u8, 117u8, 109u8, 97u8, 100u8, 100u8],
{
    reveal_strlit("numadd");
    assert("numadd"@ =~= seq!['n', 'u', 'm', 'a', 'd', 'd']);
    lemma_ascii_bytes("numadd"@);
    assert(encode_utf8("numadd"@) =~= seq![110u8, 117u8, 109u8, 97u8, 100u8, 100u8]);
}

proof fn lemma_word_numpadadd()
    ensures
        encode_utf8("numpadadd"@) == seq![110u8, 117u8, 109u8, 112u8, 97u8, 100u8, 97u8, 100u8, 100u8],
{
    reveal_strlit("numpadadd");
    assert("numpadadd"@ =~= seq!['n', 'u', 'm', 'p', 'a', 'd', 'a', 'd', 'd']);
    lemma_ascii_bytes("numpadadd"@);
    assert(encode_utf8("numpadadd"@) =~= seq![110u8, 117u8, 109u8, 112u8, 97u8, 100u8, 97u8, 100u8, 100u8]);
}

proof fn lemma_word_numsubtract()
    ensures
        encode_utf8("numsubtract"@) == seq![110u8, 117u8, 109u8, 115u8, 117u8, 98u8, 116u8, 114u8, 97u8, 99u8, 116u8],
{
    reveal_strlit("numsubtract");
    assert("numsubtract"@ =~= seq!['n', 'u', 'm', 's', 'u', 'b', 't', 'r', 'a', 'c', 't']);
    lemma_ascii_bytes("numsubtract"@);
    assert(encode_utf8("numsubtract"@) =~= seq![110u8, 117u8, 109u8, 115u8, 117u8, 98u8, 116u8, 114u8, 97u8, 99u8, 116u8]);
}

proof fn lemma_word_numpadsubtract()
    ensures
        encode_utf8("numpadsubtract"@) == seq![110u8, 117u8, 109u8, 112u8, 97u8, 100u8, 115u8, 117u8, 98u8, 116u8, 114u8, 97u8, 99u8, 116u8],
{
    reveal_strlit("numpadsubtract");
    assert("numpadsubtract"@ =~= seq!['n', 'u', 'm', 'p', 'a', 'd', 's', 'u', 'b', 't', 'r', 'a', 'c', 't']);
    lemma_ascii_bytes("numpadsubtract"@);
    assert(encode_utf8("numpadsubtract"@) =~= seq![110u8, 117u8, 109u8, 112u8, 97u8, 100u8, 115u8, 117u8, 98u8, 116u8, 114u8, 97u8, 99u8, 116u8]);
}

proof fn lemma_word_nummultiply()
    ensures
        encode_utf8("nummultiply"@) == seq![110u8, 117u8, 109u8, 109u8, 117u8, 108u8, 116u8, 105u8, 112u8, 108u8, 121u8],
{
    reveal_strlit("nummultiply");
    assert("nummultiply"@ =~= seq!['n', 'u', 'm', 'm', 'u', 'l', 't', 'i', 'p', 'l', 'y']);
    lemma_ascii_bytes("nummultiply"@);
    assert(encode_utf8("nummultiply"@) =~= seq![110u8, 117u8, 109u8, 109u8, 117u8, 108u8, 116u8, 105u8, 112u8, 108u8, 121u8]);
}

proof fn lemma_word_numpadmultiply()
    ensures
        encode_utf8("numpadmultiply"@) == seq![110u8, 117u8, 109u8, 112u8, 97u8, 100u8, 109u8, 117u8, 108u8, 116u8, 105u8, 112u8, 108u8, 121u8],
{
    reveal_strlit("numpadmultiply");
    assert("numpadmultiply"@ =~= seq!['n', 'u', 'm', 'p', 'a', 'd', 'm', 'u', 'l', 't', 'i', 'p', 'l', 'y']);
    lemma_ascii_bytes("numpadmultiply"@);
    assert(encode_utf8("numpadmultiply"@) =~= seq![110u8, 117u8, 109u8, 112u8, 97u8, 100u8, 109u8, 117u8, 108u8, 116u8, 105u8, 112u8, 108u8, 121u8]);
}

proof fn lemma_word_numdivide()
    ensures
        encode_utf8("numdivide"@) == seq![110u8, 117u8, 109u8, 100u8, 105u8, 118u8, 105u8, 100u8, 101u8],
{
    reveal_strlit("numdivide");
    assert("numdivide"@ =~= seq!['n', 'u', 'm', 'd', 'i', 'v', 'i', 'd', 'e']);
    lemma_ascii_bytes("numdivide"@);
    assert(encode_utf8("numdivide"@) =~= seq![110u8, 117u8, 109u8, 100u8, 105u8, 118u8, 105u8, 100u8, 101u8]);
}

proof fn lemma_word_numpaddivide()
    ensures
        encode_utf8("numpaddivide"@) == seq![110u8, 117u8, 109u8, 112u8, 97u8, 100u8, 100u8, 105u8, 118u8, 105u8, 100u8, 101u8],
{
    reveal_strlit("numpaddivide");
    assert("numpaddivide"@ =~= seq!['n', 'u', 'm', 'p', 'a', 'd', 'd', 'i', 'v', 'i', 'd', 'e']);
    lemma_ascii_bytes("numpaddivide"@);
    assert(encode_utf8("numpaddivide"@) =~= seq![110u8, 117u8, 109u8, 112u8, 97u8, 100u8, 100u8, 105u8, 118u8, 105u8, 100u8, 101u8]);
}

proof fn lemma_word_numdecimal()
    ensures
        encode_utf8("numdecimal"@) == seq![110u8, 117u8, 109u8, 100u8, 101u8, 99u8, 105u8, 109u8, 97u8, 108u8],
{
    reveal_strlit("numdecimal");
    assert("numdecimal"@ =~= seq!['n', 'u', 'm', 'd', 'e', 'c', 'i', 'm', 'a', 'l']);
    lemma_ascii_bytes("numdecimal"@);
    assert(encode_utf8("numdecimal"@) =~= seq![110u8, 117u8, 109u8, 100u8, 101u8, 99u8, 105u8, 109u8, 97u8, 108u8]);
}

proof fn lemma_word_numpaddecimal()
    ensures
        encode_utf8("numpaddecimal"@) == seq![110u8, 117u8, 109u8, 112u8, 97u8, 100u8, 100u8, 101u8, 99u8, 105u8, 109u8, 97u8, 108u8],
{
    reveal_strlit("numpaddecimal");
    assert("numpaddecimal"@ =~= seq!['n', 'u', 'm', 'p', 'a', 'd', 'd', 'e', 'c', 'i', 'm', 'a', 'l']);
    lemma_ascii_bytes("numpaddecimal"@);
    assert(encode_utf8("numpaddecimal"@) =~= seq![110u8, 117u8, 109u8, 112u8, 97u8, 100u8, 100u8, 101u8, 99u8, 105u8, 109u8, 97u8, 108u8]);
}

proof fn lemma_word_numenter()
    ensures
        encode_utf8("numenter"@) == seq![110u8, 117u8, 109u8, 101u8, 110u8, 116u8, 101u8, 114u8],
{
    reveal_strlit("numenter");
    assert("numenter"@ =~= seq!['n', 'u', 'm', 'e', 'n', 't', 'e', 'r']);
    lemma_ascii_bytes("numenter"@);
    assert(encode_utf8("numenter"@) =~= seq![110u8, 117u8, 109u8, 101u8, 110u8, 116u8, 101u8, 114u8]);
}

proof fn lemma_word_numpadenter()
    ensures
        encode_utf8("numpadenter"@) == seq![110u8, 117u8, 109u8, 112u8, 97u8, 100u8, 101u8, 110u8, 116u8, 101u8, 114u8],
{
    reveal_strlit("numpadenter");
    assert("numpadenter"@ =~= seq!['n', 'u', 'm', 'p', 'a', 'd', 'e', 'n', 't', 'e', 'r']);
    lemma_ascii_bytes("numpadenter"@);
    assert(encode_utf8("numpadenter"@) =~= seq![110u8, 117u8, 109u8, 112u8, 97u8, 100u8, 101u8, 110u8, 116u8, 101u8, 114u8]);
}

proof fn lemma_word_ctrl()
    ensures
        encode_utf8("ctrl"@) == seq![99u8, 116u8, 114u8, 108u8],
{
    reveal_strlit("ctrl");
    assert("ctrl"@ =~= seq!['c', 't', 'r', 'l']);
    lemma_ascii_bytes("ctrl"@);
    assert(encode_utf8("ctrl"@) =~= seq![99u8, 116u8, 114u8, 108u8]);
}

proof fn lemma_word_control()
    ensures
        encode_utf8("control"@) == seq![99u8, 111u8, 110u8, 116u8, 114u8, 111u8, 108u8],
{
    reveal_strlit("control");
    assert("control"@ =~= seq!['c', 'o', 'n', 't', 'r', 'o', 'l']);
    lemma_ascii_bytes("control"@);
    assert(encode_utf8("control"@) =~= seq![99u8, 111u8, 110u8, 116u8, 114u8, 111u8, 108u8]);
}

proof fn lemma_word_alt()
    ensures
        encode_utf8("alt"@) == seq![97u8, 108u8, 116u8],
{
    reveal_strlit("alt");
    assert("alt"@ =~= seq!['a', 'l', 't']);
    lemma_ascii_bytes("alt"@);
    assert(encode_utf8("alt"@) =~= seq![97u8, 108u8, 116u8]);
}

proof fn lemma_word_shift()
    ensures
        encode_utf8("shift"@) == seq![115u8, 104u8, 105u8, 102u8, 116u8],
{
    reveal_strlit("shift");
    assert("shift"@ =~= seq!['s', 'h', 'i', 'f', 't']);
    lemma_ascii_bytes("shift"@);
    assert(encode_utf8("shift"@) =~= seq![115u8, 104u8, 105u8, 102u8, 116u8]);
}

proof fn lemma_word_win()
    ensures
        encode_utf8("win"@) == seq![119u8, 105u8, 110u8],
{
    reveal_strlit("win");
    assert("win"@ =~= seq!['w', 'i', 'n']);
    lemma_ascii_bytes("win"@);
    assert(encode_utf8("win"@) =~= seq![119u8, 105u8, 110u8]);
}

proof fn lemma_word_super()
    ensures
        encode_utf8("super"@) == seq![115u8, 117u8, 112u8, 101u8, 114u8],
{
    reveal_strlit("super");
    assert("super"@ =~= seq!['s', 'u', 'p', 'e', 'r']);
    lemma_ascii_bytes("super"@);
    assert(encode_utf8("super"@) =~= seq![115u8, 117u8, 112u8, 101u8, 114u8]);
}

proof fn lemma_word_windows()
    ensures
        encode_utf8("windows"@) == seq![119u8, 105u8, 110u8, 100u8, 111u8, 119u8, 115u8],
{
    reveal_strlit("windows");
    assert("windows"@ =~= seq!['w', 'i', 'n', 'd', 'o', 'w', 's']);
    lemma_ascii_bytes("windows"@);
    assert(encode_utf8("windows"@) =~= seq![119u8, 105u8, 110u8, 100u8, 111u8, 119u8, 115u8]);
}

proof fn lemma_key_space()
    ensures
        key_named(encode_utf8("space"@)) == Some(Key::Space),
{
    lemma_word_space();
}

proof fn lemma_key_tab()
    ensures
        key_named(encode_utf8("tab"@)) == Some(Key::Tab),
{
    lemma_word_space();
    lemma_word_tab();
}

proof fn lemma_key_esc()
    ensures
        key_named(encode_utf8("esc"@)) == Some(Key::Escape),
{
    lemma_word_space();
    lemma_word_tab();
    lemma_word_esc();
}

proof fn lemma_key_escape()
    ensures
        key_named(encode_utf8("escape"@)) == Some(Key::Escape),
{
    lemma_word_space();
    lemma_word_tab();
    lemma_word_esc();
    lemma_word_escape();
}

proof fn lemma_key_enter()
    ensures
        key_named(encode_utf8("enter"@)) == Some(Key::Enter),
{
    lemma_word_space();
    lemma_word_tab();
    lemma_word_esc();
    lemma_word_escape();
    lemma_word_enter();
}

proof fn lemma_key_backspace()
    ensures
        key_named(encode_utf8("backspace"@)) == Some(Key::Backspace),
{
    lemma_word_space();
    lemma_word_tab();
    lemma_word_esc();
    lemma_word_escape();
    lemma_word_enter();
    lemma_word_backspace();
}

proof fn lemma_key_delete()
    ensures
        key_named(encode_utf8("delete"@)) == Some(Key::Delete),
{
    lemma_word_space();
    lemma_word_tab();
    lemma_word_esc();
    lemma_word_escape();
    lemma_word_enter();
    lemma_word_backspace();
    lemma_word_delete();
}

proof fn lemma_key_up()
    ensures
        key_named(encode_utf8("up"@)) == Some(Key::ArrowUp),
{
    lemma_word_space();
    lemma_word_tab();
    lemma_word_esc();
    lemma_word_escape();
    lemma_word_enter();
    lemma_word_backspace();
    lemma_word_delete();
    lemma_word_up();
}

proof fn lemma_key_arrowup()
    ensures
        key_named(encode_utf8("arrowup"@)) == Some(Key::ArrowUp),
{
    lemma_word_space();
    lemma_word_tab();
    lemma_word_esc();
    lemma_word_escape();
    lemma_word_enter();
    lemma_word_backspace();
    lemma_word_delete();
    lemma_word_up();
    lemma_word_arrowup();
}

proof fn lemma_key_down()
    ensures
        key_named(encode_utf8("down"@)) == Some(Key::ArrowDown),
{
    lemma_word_space();
    lemma_word_tab();
    lemma_word_esc();
    lemma_word_escape();
    lemma_word_enter();
    lemma_word_backspace();
    lemma_word_delete();
    lemma_word_up();
    lemma_word_arrowup();
    lemma_word_down();
}

proof fn lemma_key_arrowdown()
    ensures
        key_named(encode_utf8("arrowdown"@)) == Some(Key::ArrowDown),
{
    lemma_word_space();
    lemma_word_tab();
    lemma_word_esc();
    lemma_word_escape();
    lemma_word_enter();
    lemma_word_backspace();
    lemma_word_delete();
    lemma_word_up();
    lemma_word_arrowup();
    lemma_word_down();
    lemma_word_arrowdown();
}

proof fn lemma_key_left()
    ensures
        key_named(encode_utf8("left"@)) == Some(Key::ArrowLeft),
{
    lemma_word_space();
    lemma_word_tab();
    lemma_word_esc();
    lemma_word_escape();
    lemma_word_enter();
    lemma_word_backspace();
    lemma_word_delete();
    lemma_word_up();
    lemma_word_arrowup();
    lemma_word_down();
    lemma_word_arrowdown();
    lemma_word_left();
}

proof fn lemma_key_arrowleft()
    ensures
        key_named(encode_utf8("arrowleft"@)) == Some(Key::ArrowLeft),
{
    lemma_word_space();
    lemma_word_tab();
    lemma_word_esc();
    lemma_word_escape();
    lemma_word_enter();
    lemma_word_backspace();
    lemma_word_delete();
    lemma_word_up();
    lemma_word_arrowup();
    lemma_word_down();
    lemma_word_arrowdown();
    lemma_word_left();
    lemma_word_arrowleft();
}

proof fn lemma_key_right()
    ensures
        key_named(encode_utf8("right"@)) == Some(Key::ArrowRight),
{
    lemma_word_space();
    lemma_word_tab();
    lemma_word_esc();
    lemma_word_escape();
    lemma_word_enter();
    lemma_word_backspace();
    lemma_word_delete();
    lemma_word_up();
    lemma_word_arrowup();
    lemma_word_down();
    lemma_word_arrowdown();
    lemma_word_left();
    lemma_word_arrowleft();
    lemma_word_right();
}

proof fn lemma_key_arrowright()
    ensures
        key_named(encode_utf8("arrowright"@)) == Some(Key::ArrowRight),
{
    lemma_word_space();
    lemma_word_tab();
    lemma_word_esc();
    lemma_word_escape();
    lemma_word_enter();
    lemma_word_backspace();
    lemma_word_delete();
    lemma_word_up();
    lemma_word_arrowup();
    lemma_word_down();
    lemma_word_arrowdown();
    lemma_word_left();
    lemma_word_arrowleft();
    lemma_word_right();
    lemma_word_arrowright();
}

proof fn lemma_key_home()
    ensures
        key_named(encode_utf8("home"@)) == Some(Key::Home),
{
    lemma_word_space();
    lemma_word_tab();
    lemma_word_esc();
    lemma_word_escape();
    lemma_word_enter();
    lemma_word_backspace();
    lemma_word_delete();
    lemma_word_up();
    lemma_word_arrowup();
    lemma_word_down();
    lemma_word_arrowdown();
    lemma_word_left();
    lemma_word_arrowleft();
    lemma_word_right();
    lemma_word_arrowright();
    lemma_word_home();
}

proof fn lemma_key_end()
    ensures
        key_named(encode_utf8("end"@)) == Some(Key::End),
{
    lemma_word_space();
    lemma_word_tab();
    lemma_word_esc();
    lemma_word_escape();
    lemma_word_enter();
    lemma_word_backspace();
    lemma_word_delete();
    lemma_word_up();
    lemma_word_arrowup();
    lemma_word_down();
    lemma_word_arrowdown();
    lemma_word_left();
    lemma_word_arrowleft();
    lemma_word_right();
    lemma_word_arrowright();
    lemma_word_home();
    lemma_word_end();
}

proof fn lemma_key_pageup()
    ensures
        key_named(encode_utf8("pageup"@)) == Some(Key::PageUp),
{
    lemma_word_space();
    lemma_word_tab();
    lemma_word_esc();
    lemma_word_escape();
    lemma_word_enter();
    lemma_word_backspace();
    lemma_word_delete();
    lemma_word_up();
    lemma_word_arrowup();
    lemma_word_down();
    lemma_word_arrowdown();
    lemma_word_left();
    lemma_word_arrowleft();
    lemma_word_right();
    lemma_word_arrowright();
    lemma_word_home();
    lemma_word_end();
    lemma_word_pageup();
}

proof fn lemma_key_pagedown()
    ensures
        key_named(encode_utf8("pagedown"@)) == Some(Key::PageDown),
{
    lemma_word_space();
    lemma_word_tab();
    lemma_word_esc();
    lemma_word_escape();
    lemma_word_enter();
    lemma_word_backspace();
    lemma_word_delete();
    lemma_word_up();
    lemma_word_arrowup();
    lemma_word_down();
    lemma_word_arrowdown();
    lemma_word_left();
    lemma_word_arrowleft();
    lemma_word_right();
    lemma_word_arrowright();
    lemma_word_home();
    lemma_word_end();
    lemma_word_pageup();
    lemma_word_pagedown();
}

proof fn lemma_key_printscreen()
    ensures
        key_named(encode_utf8("printscreen"@)) == Some(Key::PrintScreen),
{
    lemma_word_space();
    lemma_word_tab();
    lemma_word_esc();
    lemma_word_escape();
    lemma_word_enter();
    lemma_word_backspace();
    lemma_word_delete();
    lemma_word_up();
    lemma_word_arrowup();
    lemma_word_down();
    lemma_word_arrowdown();
    lemma_word_left();
    lemma_word_arrowleft();
    lemma_word_right();
    lemma_word_arrowright();
    lemma_word_home();
    lemma_word_end();
    lemma_word_pageup();
    lemma_word_pagedown();
    lemma_word_printscreen();
}

proof fn lemma_key_scrolllock()
    ensures
        key_named(encode_utf8("scrolllock"@)) == Some(Key::ScrollLock),
{
    lemma_word_space();
    lemma_word_tab();
    lemma_word_esc();
    lemma_word_escape();
    lemma_word_enter();
    lemma_word_backspace();
    lemma_word_delete();
    lemma_word_up();
    lemma_word_arrowup();
    lemma_word_down();
    lemma_word_arrowdown();
    lemma_word_left();
    lemma_word_arrowleft();
    lemma_word_right();
    lemma_word_arrowright();
    lemma_word_home();
    lemma_word_end();
    lemma_word_pageup();
    lemma_word_pagedown();
    lemma_word_printscreen();
    lemma_word_scrolllock();
}

proof fn lemma_key_pause()
    ensures
        key_named(encode_utf8("pause"@)) == Some(Key::Pause),
{
    lemma_word_space();
    lemma_word_tab();
    lemma_word_esc();
    lemma_word_escape();
    lemma_word_enter();
    lemma_word_backspace();
    lemma_word_delete();
    lemma_word_up();
    lemma_word_arrowup();
    lemma_word_down();
    lemma_word_arrowdown();
    lemma_word_left();
    lemma_word_arrowleft();
    lemma_word_right();
    lemma_word_arrowright();
    lemma_word_home();
    lemma_word_end();
    lemma_word_pageup();
    lemma_word_pagedown();
    lemma_word_printscreen();
    lemma_word_scrolllock();
    lemma_word_pause();
}

proof fn lemma_key_insert()
    ensures
        key_named(encode_utf8("insert"@)) == Some(Key::Insert),
{
    lemma_word_space();
    lemma_word_tab();
    lemma_word_esc();
    lemma_word_escape();
    lemma_word_enter();
    lemma_word_backspace();
    lemma_word_delete();
    lemma_word_up();
    lemma_word_arrowup();
    lemma_word_down();
    lemma_word_arrowdown();
    lemma_word_left();
    lemma_word_arrowleft();
    lemma_word_right();
    lemma_word_arrowright();
    lemma_word_home();
    lemma_word_end();
    lemma_word_pageup();
    lemma_word_pagedown();
    lemma_word_printscreen();
    lemma_word_scrolllock();
    lemma_word_pause();
    lemma_word_insert();
}

proof fn lemma_key_capslock()
    ensures
        key_named(encode_utf8("capslock"@)) == Some(Key::CapsLock),
{
    lemma_word_space();
    lemma_word_tab();
    lemma_word_esc();
    lemma_word_escape();
    lemma_word_enter();
    lemma_word_backspace();
    lemma_word_delete();
    lemma_word_up();
    lemma_word_arrowup();
    lemma_word_down();
    lemma_word_arrowdown();
    lemma_word_left();
    lemma_word_arrowleft();
    lemma_word_right();
    lemma_word_arrowright();
    lemma_word_home();
    lemma_word_end();
    lemma_word_pageup();
    lemma_word_pagedown();
    lemma_word_printscreen();
    lemma_word_scrolllock();
    lemma_word_pause();
    lemma_word_insert();
    lemma_word_capslock();
}

proof fn lemma_key_numlock()
    ensures
        key_named(encode_utf8("numlock"@)) == Some(Key::NumLock),
{
    lemma_word_space();
    lemma_word_tab();
    lemma_word_esc();
    lemma_word_escape();
    lemma_word_enter();
    lemma_word_backspace();
    lemma_word_delete();
    lemma_word_up();
    lemma_word_arrowup();
    lemma_word_down();
    lemma_word_arrowdown();
    lemma_word_left();
    lemma_word_arrowleft();
    lemma_word_right();
    lemma_word_arrowright();
    lemma_word_home();
    lemma_word_end();
    lemma_word_pageup();
    lemma_word_pagedown();
    lemma_word_printscreen();
    lemma_word_scrolllock();
    lemma_word_pause();
    lemma_word_insert();
    lemma_word_capslock();
    lemma_word_numlock();
}

proof fn lemma_key_numadd()
    ensures
        key_named(encode_utf8("numadd"@)) == Some(Key::NumpadAdd),
{
    lemma_word_space();
    lemma_word_tab();
    lemma_word_esc();
    lemma_word_escape();
    lemma_word_enter();
    lemma_word_backspace();
    lemma_word_delete();
    lemma_word_up();
    lemma_word_arrowup();
    lemma_word_down();
    lemma_word_arrowdown();
    lemma_word_left();
    lemma_word_arrowleft();
    lemma_word_right();
    lemma_word_arrowright();
    lemma_word_home();
    lemma_word_end();
    lemma_word_pageup();
    lemma_word_pagedown();
    lemma_word_printscreen();
    lemma_word_scrolllock();
    lemma_word_pause();
    lemma_word_insert();
    lemma_word_capslock();
    lemma_word_numlock();
    lemma_word_numadd();
}

proof fn lemma_key_numpadadd()
    ensures
        key_named(encode_utf8("numpadadd"@)) == Some(Key::NumpadAdd),
{
    lemma_word_space();
    lemma_word_tab();
    lemma_word_esc();
    lemma_word_escape();
    lemma_word_enter();
    lemma_word_backspace();
    lemma_word_delete();
    lemma_word_up();
    lemma_word_arrowup();
    lemma_word_down();
    lemma_word_arrowdown();
    lemma_word_left();
    lemma_word_arrowleft();
    lemma_word_right();
    lemma_word_arrowright();
    lemma_word_home();
    lemma_word_end();
    lemma_word_pageup();
    lemma_word_pagedown();
    lemma_word_printscreen();
    lemma_word_scrolllock();
    lemma_word_pause();
    lemma_word_insert();
    lemma_word_capslock();
    lemma_word_numlock();
    lemma_word_numadd();
    lemma_word_numpadadd();
}

proof fn lemma_key_numsubtract()
    ensures
        key_named(encode_utf8("numsubtract"@)) == Some(Key::NumpadSubtract),
{
    lemma_word_space();
    lemma_word_tab();
    lemma_word_esc();
    lemma_word_escape();
    lemma_word_enter();
    lemma_word_backspace();
    lemma_word_delete();
    lemma_word_up();
    lemma_word_arrowup();
    lemma_word_down();
    lemma_word_arrowdown();
    lemma_word_left();
    lemma_word_arrowleft();
    lemma_word_right();
    lemma_word_arrowright();
    lemma_word_home();
    lemma_word_end();
    lemma_word_pageup();
    lemma_word_pagedown();
    lemma_word_printscreen();
    lemma_word_scrolllock();
    lemma_word_pause();
    lemma_word_insert();
    lemma_word_capslock();
    lemma_word_numlock();
    lemma_word_numadd();
    lemma_word_numpadadd();
    lemma_word_numsubtract();
}

proof fn lemma_key_numpadsubtract()
    ensures
        key_named(encode_utf8("numpadsubtract"@)) == Some(Key::NumpadSubtract),
{
    lemma_word_space();
    lemma_word_tab();
    lemma_word_esc();
    lemma_word_escape();
    lemma_word_enter();
    lemma_word_backspace();
    lemma_word_delete();
    lemma_word_up();
    lemma_word_arrowup();
    lemma_word_down();
    lemma_word_arrowdown();
    lemma_word_left();
    lemma_word_arrowleft();
    lemma_word_right();
    lemma_word_arrowright();
    lemma_word_home();
    lemma_word_end();
    lemma_word_pageup();
    lemma_word_pagedown();
    lemma_word_printscreen();
    lemma_word_scrolllock();
    lemma_word_pause();
    lemma_word_insert();
    lemma_word_capslock();
    lemma_word_numlock();
    lemma_word_numadd();
    lemma_word_numpadadd();
    lemma_word_numsubtract();
    lemma_word_numpadsubtract();
}

proof fn lemma_key_nummultiply()
    ensures
        key_named(encode_utf8("nummultiply"@)) == Some(Key::NumpadMultiply),
{
    lemma_word_space();
    lemma_word_tab();
    lemma_word_esc();
    lemma_word_escape();
    lemma_word_enter();
    lemma_word_backspace();
    lemma_word_delete();
    lemma_word_up();
    lemma_word_arrowup();
    lemma_word_down();
    lemma_word_arrowdown();
    lemma_word_left();
    lemma_word_arrowleft();
    lemma_word_right();
    lemma_word_arrowright();
    lemma_word_home();
    lemma_word_end();
    lemma_word_pageup();
    lemma_word_pagedown();
    lemma_word_printscreen();
    lemma_word_scrolllock();
    lemma_word_pause();
    lemma_word_insert();
    lemma_word_capslock();
    lemma_word_numlock();
    lemma_word_numadd();
    lemma_word_numpadadd();
    lemma_word_numsubtract();
    lemma_word_numpadsubtract();
    lemma_word_nummultiply();
}

proof fn lemma_key_numpadmultiply()
    ensures
        key_named(encode_utf8("numpadmultiply"@)) == Some(Key::NumpadMultiply),
{
    lemma_word_space();
    lemma_word_tab();
    lemma_word_esc();
    lemma_word_escape();
    lemma_word_enter();
    lemma_word_backspace();
    lemma_word_delete();
    lemma_word_up();
    lemma_word_arrowup();
    lemma_word_down();
    lemma_word_arrowdown();
    lemma_word_left();
    lemma_word_arrowleft();
    lemma_word_right();
    lemma_word_arrowright();
    lemma_word_home();
    lemma_word_end();
    lemma_word_pageup();
    lemma_word_pagedown();
    lemma_word_printscreen();
    lemma_word_scrolllock();
    lemma_word_pause();
    lemma_word_insert();
    lemma_word_capslock();
    lemma_word_numlock();
    lemma_word_numadd();
    lemma_word_numpadadd();
    lemma_word_numsubtract();
    lemma_word_numpadsubtract();
    lemma_word_nummultiply();
    lemma_word_numpadmultiply();
}

proof fn lemma_key_numdivide()
    ensures
        key_named(encode_utf8("numdivide"@)) == Some(Key::NumpadDivide),
{
    lemma_word_space();
    lemma_word_tab();
    lemma_word_esc();
    lemma_word_escape();
    lemma_word_enter();
    lemma_word_backspace();
    lemma_word_delete();
    lemma_word_up();
    lemma_word_arrowup();
    lemma_word_down();
    lemma_word_arrowdown();
    lemma_word_left();
    lemma_word_arrowleft();
    lemma_word_right();
    lemma_word_arrowright();
    lemma_word_home();
    lemma_word_end();
    lemma_word_pageup();
    lemma_word_pagedown();
    lemma_word_printscreen();
    lemma_word_scrolllock();
    lemma_word_pause();
    lemma_word_insert();
    lemma_word_capslock();
    lemma_word_numlock();
    lemma_word_numadd();
    lemma_word_numpadadd();
    lemma_word_numsubtract();
    lemma_word_numpadsubtract();
    lemma_word_nummultiply();
    lemma_word_numpadmultiply();
    lemma_word_numdivide();
}

proof fn lemma_key_numpaddivide()
    ensures
        key_named(encode_utf8("numpaddivide"@)) == Some(Key::NumpadDivide),
{
    lemma_word_space();
    lemma_word_tab();
    lemma_word_esc();
    lemma_word_escape();
    lemma_word_enter();
    lemma_word_backspace();
    lemma_word_delete();
    lemma_word_up();
    lemma_word_arrowup();
    lemma_word_down();
    lemma_word_arrowdown();
    lemma_word_left();
    lemma_word_arrowleft();
    lemma_word_right();
    lemma_word_arrowright();
    lemma_word_home();
    lemma_word_end();
    lemma_word_pageup();
    lemma_word_pagedown();
    lemma_word_printscreen();
    lemma_word_scrolllock();
    lemma_word_pause();
    lemma_word_insert();
    lemma_word_capslock();
    lemma_word_numlock();
    lemma_word_numadd();
    lemma_word_numpadadd();
    lemma_word_numsubtract();
    lemma_word_numpadsubtract();
    lemma_word_nummultiply();
    lemma_word_numpadmultiply();
    lemma_word_numdivide();
    lemma_word_numpaddivide();
}

proof fn lemma_key_numdecimal()
    ensures
        key_named(encode_utf8("numdecimal"@)) == Some(Key::NumpadDecimal),
{
    lemma_word_space();
    lemma_word_tab();
    lemma_word_esc();
    lemma_word_escape();
    lemma_word_enter();
    lemma_word_backspace();
    lemma_word_delete();
    lemma_word_up();
    lemma_word_arrowup();
    lemma_word_down();
    lemma_word_arrowdown();
    lemma_word_left();
    lemma_word_arrowleft();
    lemma_word_right();
    lemma_word_arrowright();
    lemma_word_home();
    lemma_word_end();
    lemma_word_pageup();
    lemma_word_pagedown();
    lemma_word_printscreen();
    lemma_word_scrolllock();
    lemma_word_pause();
    lemma_word_insert();
    lemma_word_capslock();
    lemma_word_numlock();
    lemma_word_numadd();
    lemma_word_numpadadd();
    lemma_word_numsubtract();
    lemma_word_numpadsubtract();
    lemma_word_nummultiply();
    lemma_word_numpadmultiply();
    lemma_word_numdivide();
    lemma_word_numpaddivide();
    lemma_word_numdecimal();
}

proof fn lemma_key_numpaddecimal()
    ensures
        key_named(encode_utf8("numpaddecimal"@)) == Some(Key::NumpadDecimal),
{
    lemma_word_space();
    lemma_word_tab();
    lemma_word_esc();
    lemma_word_escape();
    lemma_word_enter();
    lemma_word_backspace();
    lemma_word_delete();
    lemma_word_up();
    lemma_word_arrowup();
    lemma_word_down();
    lemma_word_arrowdown();
    lemma_word_left();
    lemma_word_arrowleft();
    lemma_word_right();
    lemma_word_arrowright();
    lemma_word_home();
    lemma_word_end();
    lemma_word_pageup();
    lemma_word_pagedown();
    lemma_word_printscreen();
    lemma_word_scrolllock();
    lemma_word_pause();
    lemma_word_insert();
    lemma_word_capslock();
    lemma_word_numlock();
    lemma_word_numadd();
    lemma_word_numpadadd();
    lemma_word_numsubtract();
    lemma_word_numpadsubtract();
    lemma_word_nummultiply();
    lemma_word_numpadmultiply();
    lemma_word_numdivide();
    lemma_word_numpaddivide();
    lemma_word_numdecimal();
    lemma_word_numpaddecimal();
}

proof fn lemma_key_numenter()
    ensures
        key_named(encode_utf8("numenter"@)) == Some(Key::NumpadEnter),
{
    lemma_word_space();
    lemma_word_tab();
    lemma_word_esc();
    lemma_word_escape();
    lemma_word_enter();
    lemma_word_backspace();
    lemma_word_delete();
    lemma_word_up();
    lemma_word_arrowup();
    lemma_word_down();
    lemma_word_arrowdown();
    lemma_word_left();
    lemma_word_arrowleft();
    lemma_word_right();
    lemma_word_arrowright();
    lemma_word_home();
    lemma_word_end();
    lemma_word_pageup();
    lemma_word_pagedown();
    lemma_word_printscreen();
    lemma_word_scrolllock();
    lemma_word_pause();
    lemma_word_insert();
    lemma_word_capslock();
    lemma_word_numlock();
    lemma_word_numadd();
    lemma_word_numpadadd();
    lemma_word_numsubtract();
    lemma_word_numpadsubtract();
    lemma_word_nummultiply();
    lemma_word_numpadmultiply();
    lemma_word_numdivide();
    lemma_word_numpaddivide();
    lemma_word_numdecimal();
    lemma_word_numpaddecimal();
    lemma_word_numenter();
}

proof fn lemma_key_numpadenter()
    ensures
        key_named(encode_utf8("numpadenter"@)) == Some(Key::NumpadEnter),
{
    lemma_word_space();
    lemma_word_tab();
    lemma_word_esc();
    lemma_word_escape();
    lemma_word_enter();
    lemma_word_backspace();
    lemma_word_delete();
    lemma_word_up();
    lemma_word_arrowup();
    lemma_word_down();
    lemma_word_arrowdown();
    lemma_word_left();
    lemma_word_arrowleft();
    lemma_word_right();
    lemma_word_arrowright();
    lemma_word_home();
    lemma_word_end();
    lemma_word_pageup();
    lemma_word_pagedown();
    lemma_word_printscreen();
    lemma_word_scrolllock();
    lemma_word_pause();
    lemma_word_insert();
    lemma_word_capslock();
    lemma_word_numlock();
    lemma_word_numadd();
    lemma_word_numpadadd();
    lemma_word_numsubtract();
    lemma_word_numpadsubtract();
    lemma_word_nummultiply();
    lemma_word_numpadmultiply();
    lemma_word_numdivide();
    lemma_word_numpaddivide();
    lemma_word_numdecimal();
    lemma_word_numpaddecimal();
    lemma_word_numenter();
    lemma_word_numpadenter();
}

proof fn lemma_modifier_ctrl()
    ensures
        modifier_named(encode_utf8("ctrl"@)) == Some(Modifier::Ctrl),
{
    lemma_word_ctrl();
}

proof fn lemma_modifier_control()
    ensures
        modifier_named(encode_utf8("control"@)) == Some(Modifier::Ctrl),
{
    lemma_word_ctrl();
    lemma_word_control();
}

proof fn lemma_modifier_alt()
    ensures
        modifier_named(encode_utf8("alt"@)) == Some(Modifier::Alt),
{
    lemma_word_ctrl();
    lemma_word_control();
    lemma_word_alt();
}

proof fn lemma_modifier_shift()
    ensures
        modifier_named(encode_utf8("shift"@)) == Some(Modifier::Shift),
{
    lemma_word_ctrl();
    lemma_word_control();
    lemma_word_alt();
    lemma_word_shift();
}

proof fn lemma_modifier_win()
    ensures
        modifier_named(encode_utf8("win"@)) == Some(Modifier::Win),
{
    lemma_word_ctrl();
    lemma_word_control();
    lemma_word_alt();
    lemma_word_shift();
    lemma_word_win();
}

proof fn lemma_modifier_super()
    ensures
        modifier_named(encode_utf8("super"@)) == Some(Modifier::Win),
{
    lemma_word_ctrl();
    lemma_word_control();
    lemma_word_alt();
    lemma_word_shift();
    lemma_word_win();
    lemma_word_super();
}

proof fn lemma_modifier_windows()
    ensures
        modifier_named(encode_utf8("windows"@)) == Some(Modifier::Win),
{
    lemma_word_ctrl();
    lemma_word_control();
    lemma_word_alt();
    lemma_word_shift();
    lemma_word_win();
    lemma_word_super();
    lemma_word_windows();
}


// ─── Whole hotkey texts ─────────────────────────────────

/// `t` holds no `+`.
pub open spec fn no_plus(t: Seq<u8>) -> bool {
    forall|i: int| 0 <= i < t.len() ==> t[i] != 43u8
}

/// `h` with modifier `m` held as well.
pub open spec fn with_modifier(h: Hotkey, m: Modifier) -> Hotkey {
    Hotkey {
        ctrl: h.ctrl || m == Modifier::Ctrl,
        alt: h.alt || m == Modifier::Alt,
        shift: h.shift || m == Modifier::Shift,
        win: h.win || m == Modifier::Win,
        key: h.key,
    }
}

proof fn lemma_split_len(b: Seq<u8>)
    ensures
        split_plus(b).len() >= 1,
    decreases b.len(),
{
    if b.len() > 0 {
        lemma_split_len(b.drop_last());
    }
}

proof fn lemma_split_single(t: Seq<u8>)
    requires
        no_plus(t),
    ensures
        split_plus(t) == seq![t],
    decreases t.len(),
{
    if t.len() > 0 {
        lemma_split_single(t.drop_last());
        assert(t.last() != 43u8);
        assert(t.drop_last().push(t.last()) =~= t);
        assert(seq![t.drop_last()].update(0, t) =~= seq![t]);
    } else {
        assert(t =~= Seq::<u8>::empty());
    }
}

proof fn lemma_split_after_token(m: Seq<u8>, rest: Seq<u8>)
    requires
        no_plus(m),
    ensures
        split_plus(m.push(43u8) + rest) == seq![m] + split_plus(rest),
    decreases rest.len(),
{
    let z = m.push(43u8) + rest;
    if rest.len() == 0 {
        assert(z =~= m.push(43u8));
        assert(z.drop_last() =~= m);
        lemma_split_single(m);
        assert(seq![m].push(Seq::<u8>::empty()) =~= seq![m] + seq![Seq::<u8>::empty()]);
    } else {
        let r1 = rest.drop_last();
        assert(z.drop_last() =~= m.push(43u8) + r1);
        assert(z.last() == rest.last());
        lemma_split_after_token(m, r1);
        lemma_split_len(r1);
        let t1 = split_plus(r1);
        if rest.last() == 43u8 {
            assert((seq![m] + t1).push(Seq::<u8>::empty()) =~= seq![m] + t1.push(Seq::<u8>::empty()));
        } else {
            let t = seq![m] + t1;
            assert(t.update(t.len() - 1, t.last().push(rest.last())) =~= seq![m] + t1.update(
                t1.len() - 1,
                t1.last().push(rest.last()),
            ));
        }
    }
}

/// A text without `+` names a hotkey with no modifier held exactly when it
/// names a key, and then names that key.
pub proof fn law_key_alone(t: Seq<u8>)
    requires
        no_plus(t),
    ensures
        hotkey_of(t) == (match key_named(normalized(t)) {
            Some(k) => Some(Hotkey { ctrl: false, alt: false, shift: false, win: false, key: k }),
            None => None,
        }),
{
    lemma_split_single(t);
    let toks = split_plus(t);
    assert(toks.last() == t);
}

/// Putting a modifier name and `+` in front of a hotkey text holds that
/// modifier as well and changes nothing else; where the rest names no
/// hotkey, neither does the whole.
pub proof fn law_modifier_in_front(m: Seq<u8>, rest: Seq<u8>)
    requires
        no_plus(m),
        modifier_named(normalized(m)) is Some,
    ensures
        hotkey_of(m.push(43u8) + rest) == (match hotkey_of(rest) {
            Some(h) => Some(with_modifier(h, modifier_named(normalized(m))->0)),
            None => None,
        }),
{
    let mm = modifier_named(normalized(m))->0;
    lemma_split_after_token(m, rest);
    lemma_split_len(rest);
    let tr = split_plus(rest);
    let toks = split_plus(m.push(43u8) + rest);
    assert(toks == seq![m] + tr);
    assert(toks.len() == tr.len() + 1);
    assert(toks.last() == tr.last());
    assert forall|i: int| 0 <= i < tr.len() - 1 implies #[trigger] toks[i + 1] == tr[i] by {}
    let all_r = forall|i: int| 0 <= i < tr.len() - 1 ==> modifier_named(normalized(#[trigger] tr[i])) is Some;
    let all_t = forall|i: int| 0 <= i < toks.len() - 1 ==> modifier_named(normalized(#[trigger] toks[i])) is Some;
    if all_r {
        assert forall|i: int| 0 <= i < toks.len() - 1 implies modifier_named(normalized(#[trigger] toks[i])) is Some by {
            if i > 0 {
                assert(toks[i] == tr[i - 1]);
            }
        }
    }
    if all_t {
        assert forall|i: int| 0 <= i < tr.len() - 1 implies modifier_named(normalized(#[trigger] tr[i])) is Some by {
            assert(toks[i + 1] == tr[i]);
        }
    }
    assert(all_r == all_t);
    assert forall|x: Modifier| #[trigger] holds(toks, x) == (holds(tr, x) || mm == x) by {
        if holds(tr, x) {
            let i = choose|i: int| 0 <= i < tr.len() - 1 && modifier_named(normalized(#[trigger] tr[i])) == Some(x);
            assert(toks[i + 1] == tr[i]);
        }
        if mm == x {
            assert(toks[0] == m);
        }
        if holds(toks, x) {
            let i = choose|i: int| 0 <= i < toks.len() - 1 && modifier_named(normalized(#[trigger] toks[i])) == Some(x);
            if i > 0 {
                assert(toks[i] == tr[i - 1]);
            }
        }
    }
    assert(holds(toks, Modifier::Ctrl) == (holds(tr, Modifier::Ctrl) || mm == Modifier::Ctrl));
    assert(holds(toks, Modifier::Alt) == (holds(tr, Modifier::Alt) || mm == Modifier::Alt));
    assert(holds(toks, Modifier::Shift) == (holds(tr, Modifier::Shift) || mm == Modifier::Shift));
    assert(holds(toks, Modifier::Win) == (holds(tr, Modifier::Win) || mm == Modifier::Win));
}

} // verus!
