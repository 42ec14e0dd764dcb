use launchpad::artwork::{bgra_to_rgba, default_group_icon_rgba};
use launchpad::commands::{
    add_app, add_app_to_group, add_folder, add_group, clear_icon, delete_group, move_to_group,
    remove_item, rename_item, set_icon,
};
use launchpad::config::Config;
use launchpad::launcher::{handle_keys, swap_items, unique_name, KeyPresses, NavState};
use launchpad::models::LaunchItem;
use launchpad::theme::Theme;

/// A readable snapshot of the item tree: kind, title, icon, and contents.
fn snapshot(items: &[LaunchItem]) -> Vec<String> {
    items
        .iter()
        .map(|i| match i {
            LaunchItem::App(a) => format!("A:{}:{:?}:{}", a.title, a.icon_path, a.executable_path),
            LaunchItem::Folder(f) => format!("F:{}:{:?}:{}", f.title, f.icon_path, f.folder_path),
            LaunchItem::Group(g) => format!("G:{}:{:?}:[{}]", g.title, g.icon_path, snapshot(&g.items).join(",")),
        })
        .collect()
}

fn sample() -> Config {
    let mut cfg = Config::default();
    add_app(&mut cfg, "A".into(), "C:/a.exe".into());
    let g = add_group(&mut cfg, "G".into());
    add_app_to_group(&mut cfg, g, "B".into(), "C:/b.exe".into()).unwrap();
    add_folder(&mut cfg, "F".into(), "C:/f".into());
    cfg
}

fn groups_are_flat(items: &[LaunchItem]) -> bool {
    items.iter().all(|i| match i {
        LaunchItem::Group(g) => g.items.iter().all(|s| !s.is_group()),
        _ => true,
    })
}

#[test]
fn add_then_remove_restores_items() {
    let mut cfg = sample();
    let before = snapshot(&cfg.items);
    let id = add_app(&mut cfg, "New".into(), "C:/new.exe".into());
    remove_item(&mut cfg, id).unwrap();
    assert_eq!(snapshot(&cfg.items), before);
}

#[test]
fn add_group_then_delete_restores_items() {
    let mut cfg = sample();
    let before = snapshot(&cfg.items);
    let g = add_group(&mut cfg, "Temp".into());
    assert_eq!(delete_group(&mut cfg, g), Ok(()));
    assert_eq!(snapshot(&cfg.items), before);
}

#[test]
fn set_icon_then_clear_equals_clear() {
    let mut a = sample();
    let mut b = sample();
    let ida = a.items[0].id();
    let idb = b.items[0].id();
    set_icon(&mut a, ida, "x.png".into()).unwrap();
    clear_icon(&mut a, ida).unwrap();
    clear_icon(&mut b, idb).unwrap();
    assert_eq!(snapshot(&a.items), snapshot(&b.items));
}

#[test]
fn rename_keeps_place_and_id() {
    let mut cfg = sample();
    let id = cfg.items[2].id();
    rename_item(&mut cfg, id, "Renamed".into()).unwrap();
    assert_eq!(cfg.items[2].id(), id);
    assert_eq!(cfg.items[2].title(), "Renamed");
}

#[test]
fn groups_stay_flat() {
    let mut cfg = sample();
    let g = cfg.items[1].id();
    let f = cfg.items[2].id();
    let inner = add_group(&mut cfg, "Inner".into());
    assert!(move_to_group(&mut cfg, inner, g).is_err());
    assert!(move_to_group(&mut cfg, f, g).is_err());
    let a = cfg.items[0].id();
    move_to_group(&mut cfg, a, g).unwrap();
    assert!(groups_are_flat(&cfg.items));
    match &cfg.items[0] {
        LaunchItem::Group(gr) => assert_eq!(gr.items.last().unwrap().title(), "A"),
        _ => panic!("Expected group"),
    }
}

#[test]
fn swapping_twice_restores_items() {
    let mut cfg = sample();
    let before = snapshot(&cfg.items);
    let nav = NavState::new();
    swap_items(&mut cfg, &nav, 0, 2);
    swap_items(&mut cfg, &nav, 0, 2);
    assert_eq!(snapshot(&cfg.items), before);
}

#[test]
fn arrows_stay_in_the_level() {
    let cfg = sample();
    let mut nav = NavState::new();
    let all = KeyPresses { right: true, left: true, down: true, up: true, enter: false, backspace: false };
    for cols in [1usize, 2, 5] {
        for _ in 0..4 {
            handle_keys(&mut nav, &cfg, all, cols);
            let i = nav.selected_index.unwrap();
            assert!(i < cfg.items.len());
        }
    }
}

#[test]
fn theme_selection_ignores_case() {
    let mut a = Config::default();
    let mut b = Config::default();
    a.selected_theme = Some("NORD".into());
    b.selected_theme = Some("nord".into());
    let (ta, tb) = (a.resolve_theme(), b.resolve_theme());
    assert_eq!(ta.name, tb.name);
    assert_eq!(ta.header_color, tb.header_color);
    assert_eq!(ta.grid_spacing, tb.grid_spacing);
}

#[test]
fn merge_twice_is_merge_once() {
    let mut cfg = Config::default();
    cfg.themes.truncate(1);
    cfg.merge_builtin_themes();
    let once: Vec<String> = cfg.themes.iter().map(|t| t.name.clone()).collect();
    cfg.merge_builtin_themes();
    let twice: Vec<String> = cfg.themes.iter().map(|t| t.name.clone()).collect();
    assert_eq!(once, twice);
}

#[test]
fn one_hash_prefix_is_optional() {
    assert_eq!(Theme::parse_hex("#3B4252"), Theme::parse_hex("3B4252"));
    assert_eq!(Theme::parse_hex("#xyz"), Theme::parse_hex("xyz"));
    assert_eq!(Theme::parse_hex("##3B4252"), None);
}

#[test]
fn moves_keep_ids() {
    let mut cfg = sample();
    let mut before: Vec<_> = all_ids(&cfg.items);
    let g = cfg.items[1].id();
    let f = cfg.items[2].id();
    assert!(move_to_group(&mut cfg, f, g).is_err());
    assert_eq!(all_ids(&cfg.items), before);
    let a = cfg.items[0].id();
    move_to_group(&mut cfg, a, g).unwrap();
    let mut after = all_ids(&cfg.items);
    before.sort_by_key(|i| i.0);
    after.sort_by_key(|i| i.0);
    assert_eq!(after, before);
}

fn all_ids(items: &[LaunchItem]) -> Vec<launchpad::models::ItemId> {
    let mut v = Vec::new();
    for i in items {
        v.push(i.id());
        if let LaunchItem::Group(g) = i {
            v.extend(g.items.iter().map(|s| s.id()));
        }
    }
    v
}

#[test]
fn unique_name_is_new() {
    let names = vec!["New Group".to_string(), "New Group 1".to_string()];
    let n = unique_name("New Group", &names);
    assert!(!names.contains(&n));
}

#[test]
fn channel_swap_twice_restores_pixels() {
    let drawn = default_group_icon_rgba();
    let mut v = drawn.clone();
    bgra_to_rgba(&mut v);
    assert_ne!(v, drawn);
    bgra_to_rgba(&mut v);
    assert_eq!(v, drawn);
}

#[test]
fn search_results_match_the_query() {
    let mut cfg = sample();
    add_app(&mut cfg, "Gadget".into(), "C:/gadget.exe".into());
    let results = launchpad::search::search_all_items(&cfg.items, "g");
    assert!(!results.is_empty());
    assert!(results.iter().all(|r| r.title().to_lowercase().contains('g')));
}
