use launchpad::hotkey::{parse_hotkey, Hotkey, Key};

fn hk(ctrl: bool, alt: bool, shift: bool, win: bool, key: Key) -> Option<Hotkey> {
    Some(Hotkey { ctrl, alt, shift, win, key })
}

#[test]
fn default_hotkey_parses() {
    assert_eq!(parse_hotkey("Ctrl+Alt+R"), hk(true, true, false, false, Key::Letter(b'R')));
}

#[test]
fn documented_examples_parse() {
    assert_eq!(parse_hotkey("Ctrl+Shift+F"), hk(true, false, true, false, Key::Letter(b'F')));
    assert_eq!(parse_hotkey("Win+Space"), hk(false, false, false, true, Key::Space));
    assert_eq!(parse_hotkey("Alt+F12"), hk(false, true, false, false, Key::Function(12)));
}

#[test]
fn names_ignore_case_and_spaces() {
    assert_eq!(parse_hotkey("ctrl + SHIFT + f"), hk(true, false, true, false, Key::Letter(b'F')));
    assert_eq!(parse_hotkey("Control+Alt+Delete"), hk(true, true, false, false, Key::Delete));
    assert_eq!(parse_hotkey("Windows+space"), hk(false, false, false, true, Key::Space));
    assert_eq!(parse_hotkey("Super+Esc"), hk(false, false, false, true, Key::Escape));
}

#[test]
fn key_names() {
    assert_eq!(parse_hotkey("Win+F12"), hk(false, false, false, true, Key::Function(12)));
    assert_eq!(parse_hotkey("F10"), hk(false, false, false, false, Key::Function(10)));
    assert_eq!(parse_hotkey("Alt+F12"), hk(false, true, false, false, Key::Function(12)));
    assert_eq!(parse_hotkey("Ctrl+PrintScreen"), hk(true, false, false, false, Key::PrintScreen));
    assert_eq!(parse_hotkey("Shift+Insert"), hk(false, false, true, false, Key::Insert));
    assert_eq!(parse_hotkey("Alt+NumAdd"), hk(false, true, false, false, Key::NumpadAdd));
    assert_eq!(parse_hotkey("Alt+NumpadEnter"), hk(false, true, false, false, Key::NumpadEnter));
    assert_eq!(parse_hotkey("Win+Pause"), hk(false, false, false, true, Key::Pause));
    assert_eq!(parse_hotkey("F1"), hk(false, false, false, false, Key::Function(1)));
    assert_eq!(parse_hotkey("Alt+Numpad5"), hk(false, true, false, false, Key::Numpad(5)));
    assert_eq!(parse_hotkey("Alt+Num0"), hk(false, true, false, false, Key::Numpad(0)));
    assert_eq!(parse_hotkey("Shift+7"), hk(false, false, true, false, Key::Digit(7)));
    assert_eq!(parse_hotkey("Ctrl+ArrowUp"), hk(true, false, false, false, Key::ArrowUp));
    assert_eq!(parse_hotkey("Ctrl+Left"), hk(true, false, false, false, Key::ArrowLeft));
    assert_eq!(parse_hotkey("Ctrl+PageDown"), hk(true, false, false, false, Key::PageDown));
    assert_eq!(parse_hotkey("Ctrl+Alt+Ctrl+Tab"), hk(true, true, false, false, Key::Tab));
}

#[test]
fn rejected_hotkeys() {
    assert_eq!(parse_hotkey(""), None);
    assert_eq!(parse_hotkey("Ctrl+Alt"), None);
    assert_eq!(parse_hotkey("Ctrl+R+Alt"), None);
    assert_eq!(parse_hotkey("Ctrl++R"), None);
    assert_eq!(parse_hotkey("Ctrl+R+"), None);
    assert_eq!(parse_hotkey("F13"), None);
    assert_eq!(parse_hotkey("F24"), None);
    assert_eq!(parse_hotkey("F0"), None);
    assert_eq!(parse_hotkey("F01"), None);
    assert_eq!(parse_hotkey("Ctrl+Alt+RR"), None);
    assert_eq!(parse_hotkey("Hyper+R"), None);
    assert_eq!(parse_hotkey("Ctrl+É"), None);
}
