use launchpad::commands::{add_app, add_app_to_group, add_folder, add_group, set_icon};
use launchpad::config::{Config, ConfigManager};
use launchpad::icons::{find_external_icons, icon_file_name, key_for, resolve_icon_path, IconKey};

#[test]
fn icon_keys() {
    let mut cfg = Config::default();
    let a = add_app(&mut cfg, "A".into(), "C:/a.exe".into());
    add_group(&mut cfg, "G".into());
    add_folder(&mut cfg, "F".into(), "C:/f".into());
    assert_eq!(key_for(&cfg.items[0], 48), IconKey::DefaultApp("C:/a.exe".into(), 48));
    assert_eq!(key_for(&cfg.items[1], 48), IconKey::DefaultGroup);
    assert_eq!(key_for(&cfg.items[2], 48), IconKey::DefaultFolder);
    set_icon(&mut cfg, a, "a.png".into()).unwrap();
    assert_eq!(key_for(&cfg.items[0], 64), IconKey::Custom("a.png".into(), 64));
}

#[test]
fn icon_paths_resolve_against_the_icons_dir() {
    assert_eq!(resolve_icon_path("/data/icons", "a.png"), "/data/icons/a.png");
    assert_eq!(resolve_icon_path("/data/icons", "/elsewhere/b.png"), "/elsewhere/b.png");
    assert_eq!(resolve_icon_path("/data/icons", "sub/c.png"), "sub/c.png");
}

#[test]
fn icons_dir_is_next_to_the_config() {
    let m = ConfigManager::from_path("/home/u/.config/Launchpad/config.json".into());
    assert_eq!(m.config_path(), "/home/u/.config/Launchpad/config.json");
    assert_eq!(m.icons_dir(), "/home/u/.config/Launchpad/icons");
    let bare = ConfigManager::from_path("config.json".into());
    assert_eq!(bare.icons_dir(), "icons");
    let root = ConfigManager::from_path("/".into());
    assert_eq!(root.icons_dir(), "icons");
}

#[test]
fn icons_stored_by_full_path_are_found() {
    let mut cfg = Config::default();
    let a = add_app(&mut cfg, "A".into(), "C:/a.exe".into());
    let b = add_app(&mut cfg, "B".into(), "C:/b.exe".into());
    let g = add_group(&mut cfg, "G".into());
    let c = add_app_to_group(&mut cfg, g, "C".into(), "C:/c.exe".into()).unwrap();
    set_icon(&mut cfg, a, "C:/old/icons/a.png".into()).unwrap();
    set_icon(&mut cfg, b, "b.png".into()).unwrap();
    set_icon(&mut cfg, g, "/home/u/g.png".into()).unwrap();
    set_icon(&mut cfg, c, "pics/c.png".into()).unwrap();
    assert_eq!(
        find_external_icons(&cfg.items),
        vec![
            (a, "C:/old/icons/a.png".to_string()),
            (g, "/home/u/g.png".to_string()),
            (c, "pics/c.png".to_string()),
        ]
    );
    assert!(find_external_icons(&Config::default().items).is_empty());
}

#[test]
fn stored_icon_names() {
    let n = icon_file_name("C:/pics/star.ICO");
    assert_eq!(n.len(), 36 + 4);
    assert!(n.ends_with(".ICO"));
    assert_eq!(&n[14..15], "4");
    let m = icon_file_name("C:/pics/noext");
    assert!(m.ends_with(".png"));
    assert_ne!(icon_file_name("a.png"), icon_file_name("a.png"));
}
