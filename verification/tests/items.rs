use launchpad::commands::{
    add_app, add_app_to_group, add_folder, add_folder_to_group, add_group, clear_icon,
    delete_group, move_to_group, remove_item, rename_item, set_icon,
};
use launchpad::config::Config;
use launchpad::models::{ItemId, LaunchItem};

fn make_config() -> Config {
    Config::default()
}

fn group_items(cfg: &Config, index: usize) -> &Vec<LaunchItem> {
    match &cfg.items[index] {
        LaunchItem::Group(g) => &g.items,
        _ => panic!("Expected group"),
    }
}

fn icon_of(item: &LaunchItem) -> Option<String> {
    match item {
        LaunchItem::App(a) => a.icon_path.clone(),
        LaunchItem::Group(g) => g.icon_path.clone(),
        LaunchItem::Folder(f) => f.icon_path.clone(),
    }
}

#[test]
fn test_add_and_remove_app() {
    let mut cfg = make_config();
    let id = add_app(&mut cfg, "Firefox".into(), "C:/firefox.exe".into());
    assert_eq!(cfg.items.len(), 1);
    assert_eq!(cfg.items[0].title(), "Firefox");

    remove_item(&mut cfg, id).unwrap();
    assert!(cfg.items.is_empty());
}

#[test]
fn test_add_and_delete_group() {
    let mut cfg = make_config();
    let gid = add_group(&mut cfg, "Games".into());
    assert_eq!(cfg.items.len(), 1);
    assert_eq!(cfg.items[0].title(), "Games");

    delete_group(&mut cfg, gid).unwrap();
    assert!(cfg.items.is_empty());
}

#[test]
fn test_move_app_to_group() {
    let mut cfg = make_config();
    let app_id = add_app(&mut cfg, "Steam".into(), "C:/steam.exe".into());
    let group_id = add_group(&mut cfg, "Games".into());

    move_to_group(&mut cfg, app_id, group_id).unwrap();

    // Root should only have the group
    assert_eq!(cfg.items.len(), 1);
    assert!(matches!(&cfg.items[0], LaunchItem::Group(_)));

    // App should be inside the group
    if let LaunchItem::Group(g) = &cfg.items[0] {
        assert_eq!(g.items.len(), 1);
        assert_eq!(g.items[0].title(), "Steam");
    } else {
        panic!("Expected group");
    }
}

#[test]
fn test_rename_item() {
    let mut cfg = make_config();
    let id = add_app(&mut cfg, "Chrome".into(), "C:/chrome.exe".into());

    rename_item(&mut cfg, id, "Google Chrome".into()).unwrap();
    assert_eq!(cfg.items[0].title(), "Google Chrome");
}

#[test]
fn test_cannot_move_group_into_group() {
    let mut cfg = make_config();
    let g1 = add_group(&mut cfg, "Group 1".into());
    let g2 = add_group(&mut cfg, "Group 2".into());

    let result = move_to_group(&mut cfg, g1, g2);
    assert!(result.is_err());
}

#[test]
fn test_remove_nonexistent() {
    let mut cfg = make_config();
    let fake_id = ItemId::new();
    assert!(remove_item(&mut cfg, fake_id).is_err());
}

#[test]
fn not_found_message_names_the_id() {
    let mut cfg = make_config();
    let id = ItemId(0x0123_4567_89ab_cdef_0123_4567_89ab_cdef);
    assert_eq!(
        remove_item(&mut cfg, id),
        Err("Item with id 01234567-89ab-cdef-0123-456789abcdef not found".to_string())
    );
    assert_eq!(
        rename_item(&mut cfg, id, "x".into()),
        Err("Item with id 01234567-89ab-cdef-0123-456789abcdef not found".to_string())
    );
    assert_eq!(
        set_icon(&mut cfg, id, "a.png".into()),
        Err("Item with id 01234567-89ab-cdef-0123-456789abcdef not found".to_string())
    );
    assert_eq!(
        clear_icon(&mut cfg, id),
        Err("Item with id 01234567-89ab-cdef-0123-456789abcdef not found".to_string())
    );
    assert_eq!(
        delete_group(&mut cfg, id),
        Err("Group with id 01234567-89ab-cdef-0123-456789abcdef not found".to_string())
    );
    assert_eq!(
        move_to_group(&mut cfg, id, id),
        Err("Item with id 01234567-89ab-cdef-0123-456789abcdef not found".to_string())
    );
}

#[test]
fn delete_group_refuses_an_app() {
    let mut cfg = make_config();
    let id = add_app(&mut cfg, "Paint".into(), "C:/paint.exe".into());
    assert_eq!(delete_group(&mut cfg, id), Err("Item is not a group".to_string()));
    assert_eq!(cfg.items.len(), 1);
}

#[test]
fn adding_to_a_missing_group_fails() {
    let mut cfg = make_config();
    add_app(&mut cfg, "Paint".into(), "C:/paint.exe".into());
    let missing = ItemId(7);
    assert_eq!(
        add_app_to_group(&mut cfg, missing, "A".into(), "a.exe".into()),
        Err("Group not found".to_string())
    );
    assert_eq!(
        add_folder_to_group(&mut cfg, missing, "F".into(), "C:/f".into()),
        Err("Group not found".to_string())
    );
    assert_eq!(cfg.items.len(), 1);
}

#[test]
fn adding_into_groups() {
    let mut cfg = make_config();
    let g = add_group(&mut cfg, "Work".into());
    let a = add_app_to_group(&mut cfg, g, "Editor".into(), "C:/ed.exe".into()).unwrap();
    let f = add_folder_to_group(&mut cfg, g, "Docs".into(), "C:/docs".into()).unwrap();
    let items = group_items(&cfg, 0);
    assert_eq!(items.len(), 2);
    assert_eq!(items[0].id(), a);
    assert_eq!(items[1].id(), f);
    assert!(matches!(&items[1], LaunchItem::Folder(x) if x.folder_path == "C:/docs"));
}

#[test]
fn moving_a_folder_is_rejected_and_changes_nothing() {
    let mut cfg = make_config();
    let f = add_folder(&mut cfg, "Docs".into(), "C:/docs".into());
    let g = add_group(&mut cfg, "Work".into());
    assert_eq!(
        move_to_group(&mut cfg, f, g),
        Err("Cannot move a group or folder into another group".to_string())
    );
    assert_eq!(cfg.items.len(), 2);
    assert_eq!(cfg.items[0].id(), f);
    assert_eq!(cfg.items[1].id(), g);
    assert!(group_items(&cfg, 1).is_empty());
}

#[test]
fn moving_a_group_is_rejected_and_changes_nothing() {
    let mut cfg = make_config();
    let g1 = add_group(&mut cfg, "One".into());
    add_app_to_group(&mut cfg, g1, "App".into(), "C:/app.exe".into()).unwrap();
    let g2 = add_group(&mut cfg, "Two".into());
    assert!(move_to_group(&mut cfg, g1, g2).is_err());
    assert_eq!(cfg.items.len(), 2);
    assert_eq!(group_items(&cfg, 0).len(), 1);
    assert!(group_items(&cfg, 1).is_empty());
}

#[test]
fn moving_to_a_missing_group_keeps_the_app() {
    let mut cfg = make_config();
    let a = add_app(&mut cfg, "Steam".into(), "C:/steam.exe".into());
    assert_eq!(
        move_to_group(&mut cfg, a, ItemId(99)),
        Err("Target group not found".to_string())
    );
    assert_eq!(cfg.items.len(), 1);
    assert_eq!(cfg.items[0].id(), a);
}

#[test]
fn moving_out_of_one_group_into_another() {
    let mut cfg = make_config();
    let g1 = add_group(&mut cfg, "One".into());
    let g2 = add_group(&mut cfg, "Two".into());
    let a = add_app_to_group(&mut cfg, g1, "App".into(), "C:/app.exe".into()).unwrap();
    move_to_group(&mut cfg, a, g2).unwrap();
    assert!(group_items(&cfg, 0).is_empty());
    assert_eq!(group_items(&cfg, 1).len(), 1);
    assert_eq!(group_items(&cfg, 1)[0].id(), a);
}

#[test]
fn edits_reach_items_inside_groups() {
    let mut cfg = make_config();
    let g = add_group(&mut cfg, "Games".into());
    let a = add_app_to_group(&mut cfg, g, "Steam".into(), "C:/steam.exe".into()).unwrap();
    rename_item(&mut cfg, a, "Steam Client".into()).unwrap();
    set_icon(&mut cfg, a, "steam.png".into()).unwrap();
    assert_eq!(group_items(&cfg, 0)[0].title(), "Steam Client");
    assert_eq!(icon_of(&group_items(&cfg, 0)[0]), Some("steam.png".to_string()));
    clear_icon(&mut cfg, a).unwrap();
    assert_eq!(icon_of(&group_items(&cfg, 0)[0]), None);
    remove_item(&mut cfg, a).unwrap();
    assert!(group_items(&cfg, 0).is_empty());
    assert_eq!(cfg.items.len(), 1);
}

#[test]
fn groups_take_icons_and_names_too() {
    let mut cfg = make_config();
    let g = add_group(&mut cfg, "Games".into());
    set_icon(&mut cfg, g, "pad.png".into()).unwrap();
    rename_item(&mut cfg, g, "Play".into()).unwrap();
    assert_eq!(cfg.items[0].title(), "Play");
    assert_eq!(icon_of(&cfg.items[0]), Some("pad.png".to_string()));
}

#[test]
fn deleting_a_group_takes_its_contents() {
    let mut cfg = make_config();
    let keep = add_app(&mut cfg, "Keep".into(), "C:/keep.exe".into());
    let g = add_group(&mut cfg, "Games".into());
    add_app_to_group(&mut cfg, g, "Steam".into(), "C:/steam.exe".into()).unwrap();
    delete_group(&mut cfg, g).unwrap();
    assert_eq!(cfg.items.len(), 1);
    assert_eq!(cfg.items[0].id(), keep);
}

#[test]
fn edits_leave_the_settings_alone() {
    let mut cfg = make_config();
    cfg.hide_on_launch = true;
    cfg.selected_theme = Some("Nord".into());
    let a = add_app(&mut cfg, "A".into(), "a.exe".into());
    rename_item(&mut cfg, a, "B".into()).unwrap();
    remove_item(&mut cfg, a).unwrap();
    assert!(cfg.hide_on_launch);
    assert_eq!(cfg.selected_theme, Some("Nord".to_string()));
    assert_eq!(cfg.themes.len(), 4);
}

#[test]
fn new_ids_are_version_4() {
    let mut cfg = make_config();
    let a = add_app(&mut cfg, "A".into(), "a.exe".into());
    let g = add_group(&mut cfg, "G".into());
    let f = add_folder(&mut cfg, "F".into(), "C:/f".into());
    let b = add_app_to_group(&mut cfg, g, "B".into(), "b.exe".into()).unwrap();
    for id in [a, g, f, b] {
        assert_eq!((id.0 >> 76) & 0xf, 4);
        assert_eq!((id.0 >> 62) & 0x3, 2);
    }
}
