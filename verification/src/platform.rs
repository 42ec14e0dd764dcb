//! Platform-facing types: the tray icon's tooltip and events, and icon extraction.
use vstd::prelude::*;

verus! {

/// The tooltip of the tray icon for a hotkey.
pub open spec fn tray_tooltip_text(hotkey: Seq<char>) -> Seq<char> {
    "Launchpad — "@ + hotkey + " to toggle"@
}

/// Builds the tooltip of the tray icon, which names the hotkey.
pub fn tray_tooltip(hotkey: &str) -> (r: String)
    ensures
        r@ == tray_tooltip_text(hotkey@),
{
    let mut s = String::from_str("Launchpad — ");
    s.append(hotkey);
    s.append(" to toggle");
    s
}

/// What the tray menu asks for.
#[derive(Debug, Clone, Copy, PartialEq, Eq, Structural)]
pub enum TrayEvent {
    Toggle,
    Quit,
}

/// Extracts an executable's icon into the icons directory, returning the
/// stored file's path. By default nothing is extracted.
pub trait IconExtractor {
    fn extract_and_save(&self, path: &str, icons_dir: &str, name_hint: &str) -> (r: Option<String>)
        default_ensures
            r is None,
    {
        None
    }
}

/// An extractor that never extracts anything.
pub struct DummyExtractor;

impl IconExtractor for DummyExtractor {

}

/// The extractor for Windows; extraction from `HICON` is not done yet, so it
/// extracts nothing either.
pub struct WindowsIconExtractor;

impl IconExtractor for WindowsIconExtractor {
    fn extract_and_save(&self, path: &str, icons_dir: &str, name_hint: &str) -> (r: Option<String>)
        ensures
            r is None,
    {
        None
    }
}

/// The indices of the cells clicked and double-clicked in a grid frame.
pub struct GridOutput {
    pub clicks: Vec<usize>,
    pub double_clicks: Vec<usize>,
}

} // verus!
