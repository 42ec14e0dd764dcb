use launchpad::commands::{add_app, add_group};
use launchpad::config::Config;
use launchpad::platform::{tray_tooltip, GridOutput, TrayEvent};
use launchpad::ui::{display_title, LauncherResponse, LauncherUI};

#[test]
fn card_titles() {
    assert_eq!(display_title("Google Chrome", 12), "Google Chrom…");
    assert_eq!(display_title("Command Prompt", 14), "Command Prompt");
    assert_eq!(display_title("Command Prompts", 14), "Command Prompt…");
    assert_eq!(display_title("Exactly12345", 12), "Exactly12345");
    assert_eq!(display_title("", 12), "");
    assert_eq!(display_title("Café au lait!", 12), "Café au lait…");
    assert_eq!(display_title("aéééééééé", 12), "aéééééééé");
    assert_eq!(display_title("éééééééé", 14), "éééééééé");
    assert_eq!(display_title("ééééééééééééé", 12), "éééééééééééé…");
}

#[test]
fn launcher_response() {
    let mut cfg = Config::default();
    let a = add_app(&mut cfg, "A".into(), "C:/a.exe".into());
    let g = add_group(&mut cfg, "G".into());
    let out = GridOutput { clicks: vec![0, 5, 1, 9], double_clicks: vec![0, 7] };
    let r = LauncherUI::response_for(&cfg.items, &out);
    assert_eq!(r.clicked_index, Some(1));
    assert_eq!(r.clicked_id, Some(g));
    assert_eq!(r.double_clicked_id, Some(a));
    let none = GridOutput { clicks: vec![], double_clicks: vec![3] };
    assert_eq!(LauncherUI::response_for(&cfg.items, &none), LauncherResponse::default());
}

#[test]
fn tray_texts() {
    assert_eq!(tray_tooltip("Ctrl+Alt+R"), "Launchpad — Ctrl+Alt+R to toggle");
    assert_ne!(TrayEvent::Toggle, TrayEvent::Quit);
}
