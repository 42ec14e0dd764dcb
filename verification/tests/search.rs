use launchpad::commands::{add_app, add_app_to_group, add_folder, add_group};
use launchpad::config::Config;
use launchpad::search::search_all_items;

fn titles(v: &[launchpad::models::LaunchItem]) -> Vec<String> {
    v.iter().map(|i| i.title().to_string()).collect()
}

fn sample() -> Config {
    let mut cfg = Config::default();
    add_app(&mut cfg, "Steam".into(), "C:/steam.exe".into());
    let g = add_group(&mut cfg, "Games".into());
    add_app_to_group(&mut cfg, g, "Epic Games".into(), "C:/epic.exe".into()).unwrap();
    add_app_to_group(&mut cfg, g, "Notepad".into(), "C:/np.exe".into()).unwrap();
    add_folder(&mut cfg, "Saved GAMES".into(), "C:/saves".into());
    cfg
}

#[test]
fn search_matches_titles_ignoring_case() {
    let cfg = sample();
    assert_eq!(
        titles(&search_all_items(&cfg.items, "game")),
        vec!["Games", "Epic Games", "Saved GAMES"]
    );
    assert_eq!(titles(&search_all_items(&cfg.items, "NOTE")), vec!["Notepad"]);
    assert_eq!(titles(&search_all_items(&cfg.items, "st")), vec!["Steam"]);
    assert!(search_all_items(&cfg.items, "zzz").is_empty());
}

#[test]
fn search_with_an_empty_query_lists_everything() {
    let cfg = sample();
    assert_eq!(
        titles(&search_all_items(&cfg.items, "")),
        vec!["Steam", "Games", "Epic Games", "Notepad", "Saved GAMES"]
    );
}

#[test]
fn search_lowercases_beyond_ascii() {
    let mut cfg = Config::default();
    add_app(&mut cfg, "ÉDITEUR".into(), "C:/e.exe".into());
    assert_eq!(titles(&search_all_items(&cfg.items, "édit")), vec!["ÉDITEUR"]);
}
