use launchpad::demo::add_demo_items;
use launchpad::config::Config;
use launchpad::models::{AppItem, FolderItem, GroupItem, ItemId, LaunchItem};
use launchpad::platform::{DummyExtractor, IconExtractor, WindowsIconExtractor};

#[test]
fn uuid_text_of_ids() {
    assert_eq!(ItemId(0).to_uuid_string(), "00000000-0000-0000-0000-000000000000");
    assert_eq!(
        ItemId(0xA1B2_C3D4_E5F6_0718_293A_4B5C_6D7E_8F90).to_uuid_string(),
        "a1b2c3d4-e5f6-0718-293a-4b5c6d7e8f90"
    );
    assert_eq!(ItemId::default(), ItemId(0));
}

#[test]
fn fresh_ids_are_version_4_and_differ() {
    let a = ItemId::new();
    let b = ItemId::new();
    assert_ne!(a, b);
    let text = a.to_uuid_string();
    assert_eq!(&text[14..15], "4");
    assert!(["8", "9", "a", "b"].contains(&&text[19..20]));
    assert_eq!((b.0 >> 76) & 0xf, 4);
    assert_eq!((b.0 >> 62) & 0x3, 2);
}

#[test]
fn constructors() {
    let a = AppItem::new("A".into(), "C:/a.exe".into());
    assert_eq!(a.title, "A");
    assert_eq!(a.executable_path, "C:/a.exe");
    assert!(a.icon_path.is_none());
    let f = FolderItem::new("F".into(), "C:/f".into());
    assert_eq!(f.folder_path, "C:/f");
    let g = GroupItem::new("G".into());
    assert!(g.items.is_empty());
    assert_ne!(a.id, f.id);
}

#[test]
fn item_accessors() {
    let mut g = LaunchItem::Group(GroupItem::new("G".into()));
    let app = LaunchItem::App(AppItem::new("A".into(), "a.exe".into()));
    assert!(g.is_group());
    assert!(!app.is_group());
    assert!(!app.has_icon_path());
    assert_eq!(app.title(), "A");
    if let Some(inner) = g.as_group_mut() {
        inner.items.push(app.clone());
    }
    let mut app2 = app.clone();
    assert!(app2.as_group_mut().is_none());
    assert_eq!(app2.id(), app.id());
    match &g {
        LaunchItem::Group(inner) => assert_eq!(inner.items.len(), 1),
        _ => panic!("Expected group"),
    }
    let copy = g.clone();
    assert_eq!(copy.id(), g.id());
    assert_eq!(copy.title(), "G");
}

#[test]
fn extractors_extract_nothing() {
    assert_eq!(DummyExtractor.extract_and_save("C:/a.exe", "icons", "a"), None);
    assert_eq!(WindowsIconExtractor.extract_and_save("C:/a.exe", "icons", "a"), None);
}

#[test]
fn demo_items() {
    let mut cfg = Config::default();
    add_demo_items(&mut cfg);
    let titles: Vec<&str> = cfg.items.iter().map(|i| i.title()).collect();
    assert_eq!(
        titles,
        vec!["Notepad", "Calculator", "Command Prompt", "Paint", "Documents", "Downloads", "Games", "Work"]
    );
    match &cfg.items[6] {
        LaunchItem::Group(g) => {
            assert_eq!(g.items.len(), 1);
            assert_eq!(g.items[0].title(), "Steam");
        }
        _ => panic!("Expected group"),
    }
    match &cfg.items[7] {
        LaunchItem::Group(g) => {
            assert_eq!(g.items.len(), 1);
            assert!(matches!(&g.items[0], LaunchItem::App(a) if a.executable_path == "C:\\Windows\\System32\\notepad.exe"));
        }
        _ => panic!("Expected group"),
    }
}
