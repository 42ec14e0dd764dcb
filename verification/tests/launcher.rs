use launchpad::commands::{add_app, add_app_to_group, add_folder, add_group, set_icon};
use launchpad::config::Config;
use launchpad::launcher::{
    activate_item, add_dropped_path, confirm_delete_group, current_items, decimal_text,
    find_group_title, group_choices, group_item_count, group_name, group_name_with_kind,
    handle_escape, handle_keys, handle_keys_in, has_custom_icon, move_into_new_group, request_delete, swap_items, ungroup_item,
    unique_name, CrumbKind, EscapeAction, KeyPresses, NavState,
};
use launchpad::models::{ItemId, LaunchItem};

fn no_keys() -> KeyPresses {
    KeyPresses { right: false, left: false, down: false, up: false, enter: false, backspace: false }
}

fn titles(items: &[LaunchItem]) -> Vec<String> {
    items.iter().map(|i| i.title().to_string()).collect()
}

fn group_contents(cfg: &Config, index: usize) -> Vec<String> {
    match &cfg.items[index] {
        LaunchItem::Group(g) => titles(&g.items),
        _ => panic!("Expected group"),
    }
}

/// Five root apps A..E.
fn five_apps() -> Config {
    let mut cfg = Config::default();
    for t in ["A", "B", "C", "D", "E"] {
        add_app(&mut cfg, t.into(), format!("C:/{}.exe", t));
    }
    cfg
}

#[test]
fn navigation_stack() {
    let mut nav = NavState::new();
    assert!(nav.is_at_root());
    nav.selected_index = Some(3);
    nav.navigate_into(ItemId(1));
    assert_eq!(nav.nav_stack, vec![ItemId(1)]);
    assert_eq!(nav.selected_index, None);
    nav.navigate_into(ItemId(2));
    nav.navigate_back();
    assert_eq!(nav.nav_stack, vec![ItemId(1)]);
    nav.navigate_to_root();
    assert!(nav.is_at_root());
    nav.navigate_back();
    assert!(nav.is_at_root());
}

#[test]
fn current_items_follow_the_stack() {
    let mut cfg = Config::default();
    add_app(&mut cfg, "Root".into(), "C:/root.exe".into());
    let g = add_group(&mut cfg, "Games".into());
    add_app_to_group(&mut cfg, g, "Steam".into(), "C:/steam.exe".into()).unwrap();
    let mut nav = NavState::new();
    assert_eq!(titles(current_items(&cfg, &nav)), vec!["Root", "Games"]);
    nav.navigate_into(g);
    assert_eq!(titles(current_items(&cfg, &nav)), vec!["Steam"]);
    nav.navigate_back();
    nav.navigate_into(ItemId(12345));
    assert!(current_items(&cfg, &nav).is_empty());
}

#[test]
fn activating_items() {
    let mut cfg = Config::default();
    let a = add_app(&mut cfg, "Calc".into(), "C:/calc.exe".into());
    let f = add_folder(&mut cfg, "Docs".into(), "C:/Docs".into());
    let g = add_group(&mut cfg, "Games".into());
    let mut nav = NavState::new();

    let s = activate_item(&mut nav, &cfg.items[0], true).unwrap();
    assert_eq!(s.program, "C:/calc.exe");
    assert_eq!(s.argument, None);
    assert!(s.minimize);
    let _ = a;

    let s = activate_item(&mut nav, &cfg.items[1], false).unwrap();
    assert_eq!(s.program, "explorer");
    assert_eq!(s.argument.as_deref(), Some("C:/Docs"));
    assert!(!s.minimize);
    let _ = f;

    assert!(activate_item(&mut nav, &cfg.items[2], true).is_none());
    assert_eq!(nav.nav_stack, vec![g]);
}

#[test]
fn arrow_keys_move_the_selection() {
    let cfg = five_apps();
    let mut nav = NavState::new();
    let mut k = no_keys();
    k.right = true;
    handle_keys(&mut nav, &cfg, k, 3);
    assert_eq!(nav.selected_index, Some(0));
    handle_keys(&mut nav, &cfg, k, 3);
    assert_eq!(nav.selected_index, Some(1));
    let mut down = no_keys();
    down.down = true;
    handle_keys(&mut nav, &cfg, down, 3);
    assert_eq!(nav.selected_index, Some(4));
    handle_keys(&mut nav, &cfg, down, 3);
    assert_eq!(nav.selected_index, Some(4));
    handle_keys(&mut nav, &cfg, k, 3);
    assert_eq!(nav.selected_index, Some(4));
    let mut up = no_keys();
    up.up = true;
    handle_keys(&mut nav, &cfg, up, 3);
    assert_eq!(nav.selected_index, Some(1));
    handle_keys(&mut nav, &cfg, up, 3);
    assert_eq!(nav.selected_index, Some(0));
    let mut left = no_keys();
    left.left = true;
    handle_keys(&mut nav, &cfg, left, 3);
    assert_eq!(nav.selected_index, Some(0));
}

#[test]
fn left_arrow_from_nothing_selects_the_last() {
    let cfg = five_apps();
    let mut nav = NavState::new();
    let mut left = no_keys();
    left.left = true;
    assert!(handle_keys(&mut nav, &cfg, left, 4).is_none());
    assert_eq!(nav.selected_index, Some(4));
    let mut nav = NavState::new();
    let mut up = no_keys();
    up.up = true;
    handle_keys(&mut nav, &cfg, up, 4);
    assert_eq!(nav.selected_index, Some(0));
}

#[test]
fn enter_starts_the_selected_app() {
    let mut cfg = five_apps();
    cfg.hide_on_launch = true;
    let mut nav = NavState::new();
    nav.selected_index = Some(2);
    let mut k = no_keys();
    k.enter = true;
    let s = handle_keys(&mut nav, &cfg, k, 4).unwrap();
    assert_eq!(s.program, "C:/C.exe");
    assert!(s.minimize);
    assert_eq!(nav.selected_index, Some(2));
    assert!(nav.is_at_root());
}

#[test]
fn enter_on_a_group_and_backspace() {
    let mut cfg = Config::default();
    let g = add_group(&mut cfg, "Games".into());
    add_app_to_group(&mut cfg, g, "Steam".into(), "C:/steam.exe".into()).unwrap();
    let mut nav = NavState::new();
    nav.selected_index = Some(0);
    let mut k = no_keys();
    k.enter = true;
    assert!(handle_keys(&mut nav, &cfg, k, 4).is_none());
    assert_eq!(nav.nav_stack, vec![g]);
    assert_eq!(nav.selected_index, Some(0));
    let mut b = no_keys();
    b.backspace = true;
    handle_keys(&mut nav, &cfg, b, 4);
    assert!(nav.is_at_root());
    handle_keys(&mut nav, &cfg, b, 4);
    assert!(nav.is_at_root());
}

#[test]
fn keys_on_an_empty_level() {
    let cfg = Config::default();
    let mut nav = NavState::new();
    let mut k = no_keys();
    k.right = true;
    k.enter = true;
    assert!(handle_keys(&mut nav, &cfg, k, 4).is_none());
    assert_eq!(nav.selected_index, Some(0));
}

#[test]
fn custom_icons_are_found_anywhere() {
    let mut cfg = Config::default();
    let a = add_app(&mut cfg, "A".into(), "C:/a.exe".into());
    let g = add_group(&mut cfg, "G".into());
    let b = add_app_to_group(&mut cfg, g, "B".into(), "C:/b.exe".into()).unwrap();
    assert!(!has_custom_icon(&cfg, a));
    assert!(!has_custom_icon(&cfg, b));
    set_icon(&mut cfg, b, "b.png".into()).unwrap();
    assert!(has_custom_icon(&cfg, b));
    set_icon(&mut cfg, g, "g.png".into()).unwrap();
    assert!(has_custom_icon(&cfg, g));
    assert!(!has_custom_icon(&cfg, ItemId(42)));
}

#[test]
fn group_lookups() {
    let mut cfg = Config::default();
    let f = add_folder(&mut cfg, "Docs".into(), "C:/Docs".into());
    let g = add_group(&mut cfg, "Games".into());
    add_app_to_group(&mut cfg, g, "Steam".into(), "C:/steam.exe".into()).unwrap();
    add_app_to_group(&mut cfg, g, "Epic".into(), "C:/epic.exe".into()).unwrap();
    assert_eq!(find_group_title(&cfg, g), Some("Games".to_string()));
    assert_eq!(find_group_title(&cfg, f), None);
    assert_eq!(group_name(&cfg, g), "Games");
    assert_eq!(group_name(&cfg, ItemId(5)), "");
    assert_eq!(group_item_count(&cfg, g), 2);
    assert_eq!(group_item_count(&cfg, f), 0);
    assert_eq!(group_name_with_kind(&cfg, g), ("Games".to_string(), CrumbKind::Group));
    assert_eq!(group_name_with_kind(&cfg, f), ("Docs".to_string(), CrumbKind::Folder));
    assert_eq!(group_name_with_kind(&cfg, ItemId(5)), (String::new(), CrumbKind::Unknown));
    let choices = group_choices(&cfg);
    assert_eq!(choices, vec![(g, "Games".to_string())]);
}

#[test]
fn decimal_text_values() {
    assert_eq!(decimal_text(0), "0");
    assert_eq!(decimal_text(7), "7");
    assert_eq!(decimal_text(1234), "1234");
    assert_eq!(decimal_text(usize::MAX), usize::MAX.to_string());
}

#[test]
fn unique_names() {
    let none: Vec<String> = vec![];
    assert_eq!(unique_name("New Group", &none), "New Group");
    let one = vec!["New Group".to_string()];
    assert_eq!(unique_name("New Group", &one), "New Group 1");
    let two = vec!["New Group".to_string(), "New Group 1".to_string(), "Other".to_string()];
    assert_eq!(unique_name("New Group", &two), "New Group 2");
    let gap = vec!["New Group".to_string(), "New Group 2".to_string()];
    assert_eq!(unique_name("New Group", &gap), "New Group 1");
}

#[test]
fn unique_name_when_all_numbers_are_taken() {
    let mut all = vec!["G".to_string()];
    for i in 1..100 {
        all.push(format!("G {}", i));
    }
    assert_eq!(unique_name("G", &all), "G 101");
}

#[test]
fn moving_into_a_new_group() {
    let mut cfg = Config::default();
    let a = add_app(&mut cfg, "Steam".into(), "C:/steam.exe".into());
    add_group(&mut cfg, "New Group".into());
    let (gid, res) = move_into_new_group(&mut cfg, a);
    assert_eq!(res, Ok(()));
    assert_eq!(titles(&cfg.items), vec!["New Group", "New Group 1"]);
    assert_eq!(cfg.items[1].id(), gid);
    assert_eq!(group_contents(&cfg, 1), vec!["Steam"]);
}

#[test]
fn swapping_at_the_root_and_in_a_group() {
    let mut cfg = five_apps();
    let mut nav = NavState::new();
    assert!(swap_items(&mut cfg, &nav, 0, 4));
    assert_eq!(titles(&cfg.items), vec!["E", "B", "C", "D", "A"]);
    assert!(!swap_items(&mut cfg, &nav, 0, 5));
    assert_eq!(titles(&cfg.items), vec!["E", "B", "C", "D", "A"]);
    assert!(swap_items(&mut cfg, &nav, 0, 4));
    assert_eq!(titles(&cfg.items), vec!["A", "B", "C", "D", "E"]);

    let g = add_group(&mut cfg, "G".into());
    add_app_to_group(&mut cfg, g, "X".into(), "C:/x.exe".into()).unwrap();
    add_app_to_group(&mut cfg, g, "Y".into(), "C:/y.exe".into()).unwrap();
    nav.navigate_into(g);
    assert!(swap_items(&mut cfg, &nav, 1, 0));
    assert_eq!(group_contents(&cfg, 5), vec!["Y", "X"]);
    assert!(!swap_items(&mut cfg, &nav, 2, 0));
}

#[test]
fn swapping_in_a_vanished_group_works_on_the_root() {
    let mut cfg = five_apps();
    let mut nav = NavState::new();
    nav.navigate_into(ItemId(77));
    assert!(swap_items(&mut cfg, &nav, 1, 2));
    assert_eq!(titles(&cfg.items), vec!["A", "C", "B", "D", "E"]);
}

#[test]
fn dropped_paths() {
    let mut cfg = Config::default();
    let f = add_dropped_path(&mut cfg, "C:/Users/me/Documents".into(), true);
    assert!(f.is_some());
    let a = add_dropped_path(&mut cfg, "C:/Games/steam.exe".into(), false);
    assert!(a.is_some());
    let l = add_dropped_path(&mut cfg, "C:/Links/Game.LNK".into(), false);
    assert!(l.is_some());
    assert!(add_dropped_path(&mut cfg, "C:/notes.txt".into(), false).is_none());
    assert!(add_dropped_path(&mut cfg, "C:/Makefile".into(), false).is_none());
    assert_eq!(titles(&cfg.items), vec!["Documents", "steam", "Game"]);
    assert!(matches!(&cfg.items[0], LaunchItem::Folder(x) if x.folder_path == "C:/Users/me/Documents"));
    assert!(matches!(&cfg.items[1], LaunchItem::App(x) if x.executable_path == "C:/Games/steam.exe"));
    assert_eq!(cfg.items[1].id(), a.unwrap());
}

#[test]
fn ungrouping_moves_the_item_to_the_root() {
    let mut cfg = Config::default();
    let g = add_group(&mut cfg, "G".into());
    let a = add_app_to_group(&mut cfg, g, "Steam".into(), "C:/steam.exe".into()).unwrap();
    set_icon(&mut cfg, a, "s.png".into()).unwrap();
    let item = match &cfg.items[0] {
        LaunchItem::Group(gr) => gr.items[0].clone(),
        _ => panic!("Expected group"),
    };
    assert_eq!(ungroup_item(&mut cfg, &item), Some(a));
    assert!(group_contents(&cfg, 0).is_empty());
    assert_eq!(titles(&cfg.items), vec!["G", "Steam"]);
    assert_eq!(cfg.items[1].id(), a);
    assert!(matches!(&cfg.items[1], LaunchItem::App(x)
        if x.icon_path.as_deref() == Some("s.png") && x.executable_path == "C:/steam.exe"));
    let group = cfg.items[0].clone();
    assert_eq!(ungroup_item(&mut cfg, &group), None);
    assert_eq!(titles(&cfg.items), vec!["Steam"]);
}

#[test]
fn deleting_from_the_context_menu() {
    let mut cfg = Config::default();
    let full = add_group(&mut cfg, "Full".into());
    add_app_to_group(&mut cfg, full, "X".into(), "C:/x.exe".into()).unwrap();
    let empty = add_group(&mut cfg, "Empty".into());
    let app = add_app(&mut cfg, "App".into(), "C:/app.exe".into());
    let mut nav = NavState::new();

    assert!(request_delete(&mut cfg, &mut nav, full, true));
    assert_eq!(cfg.items.len(), 3);

    nav.navigate_into(empty);
    nav.selected_index = Some(0);
    assert!(!request_delete(&mut cfg, &mut nav, empty, true));
    assert!(nav.is_at_root());
    assert_eq!(nav.selected_index, None);
    assert_eq!(titles(&cfg.items), vec!["Full", "App"]);

    assert!(!request_delete(&mut cfg, &mut nav, app, false));
    assert_eq!(titles(&cfg.items), vec!["Full"]);

    nav.navigate_into(full);
    nav.selected_index = Some(0);
    assert_eq!(confirm_delete_group(&mut cfg, &mut nav, full), Ok(()));
    assert!(cfg.items.is_empty());
    assert!(nav.is_at_root());
    assert_eq!(nav.selected_index, None);
}

#[test]
fn escape_closes_the_menu_clears_the_search_or_goes_home() {
    let mut nav = NavState::new();
    nav.navigate_into(ItemId(3));
    nav.selected_index = Some(1);
    assert_eq!(handle_escape(&mut nav, true, true), EscapeAction::CloseMenu);
    assert_eq!(nav.nav_stack, vec![ItemId(3)]);
    assert_eq!(nav.selected_index, Some(1));
    assert_eq!(handle_escape(&mut nav, false, true), EscapeAction::ClearSearch);
    assert_eq!(nav.nav_stack, vec![ItemId(3)]);
    assert_eq!(handle_escape(&mut nav, false, false), EscapeAction::GoHome);
    assert!(nav.is_at_root());
    assert_eq!(nav.selected_index, None);
}

#[test]
fn keys_over_a_list_of_results() {
    let cfg = five_apps();
    let results = vec![cfg.items[3].clone(), cfg.items[1].clone()];
    let mut nav = NavState::new();
    let mut k = no_keys();
    k.left = true;
    k.enter = true;
    let s = handle_keys_in(&mut nav, &results, false, k, 4).unwrap();
    assert_eq!(s.program, "C:/B.exe");
    assert_eq!(nav.selected_index, Some(1));
}

#[test]
fn dropped_names_with_dots() {
    let mut cfg = Config::default();
    assert!(add_dropped_path(&mut cfg, "C:/bin/.exe".into(), false).is_none());
    assert!(add_dropped_path(&mut cfg, "C:/bin/my.tool.exe".into(), false).is_some());
    assert_eq!(titles(&cfg.items), vec!["my.tool"]);
}
