use launchpad::config::{Config, DEFAULT_ICON_SIZE_BITS, DEFAULT_SPACING_BITS};
use launchpad::theme::{eq_ignore_ascii_case, Palette, Rgb, Theme};

fn bare_theme(name: &str) -> Theme {
    Theme {
        name: name.to_string(),
        header_color: None,
        body_color: None,
        widget_color: None,
        selection_color: None,
        divider_color: None,
        text_color: None,
        corner_radius: None,
        grid_spacing: None,
        grid_icon_size: None,
    }
}

fn names(themes: &[Theme]) -> Vec<String> {
    themes.iter().map(|t| t.name.clone()).collect()
}

#[test]
fn default_config_values() {
    let cfg = Config::default();
    assert!(cfg.items.is_empty());
    assert_eq!(cfg.window_width, None);
    assert_eq!(cfg.window_x, None);
    assert_eq!(f32::from_bits(cfg.grid_spacing), 12.0);
    assert_eq!(f32::from_bits(cfg.grid_icon_size), 48.0);
    assert_eq!(DEFAULT_SPACING_BITS, 12.0_f32.to_bits());
    assert_eq!(DEFAULT_ICON_SIZE_BITS, 48.0_f32.to_bits());
    assert!(!cfg.hide_on_launch);
    assert_eq!(cfg.hotkey, "Ctrl+Alt+R");
    assert!(cfg.hotkey_on_release);
    assert!(!cfg.auto_start);
    assert_eq!(cfg.selected_theme, None);
    assert_eq!(names(&cfg.themes), vec!["Default", "Dracula", "Nord", "Catppuccin"]);
}

#[test]
fn builtin_theme_values() {
    let themes = Theme::builtin_themes();
    let nord = &themes[2];
    assert_eq!(nord.header_color.as_deref(), Some("2E3440"));
    assert_eq!(nord.text_color.as_deref(), Some("D8DEE9"));
    assert_eq!(nord.corner_radius, Some(8));
    assert_eq!(nord.grid_spacing.map(f32::from_bits), Some(10.0));
    let cat = &themes[3];
    assert_eq!(cat.grid_spacing.map(f32::from_bits), Some(14.0));
    assert_eq!(cat.grid_icon_size.map(f32::from_bits), Some(52.0));
    let d = Theme::default_theme();
    assert_eq!(d.name, "Default");
    assert_eq!(d.text_color, None);
    assert_eq!(d.corner_radius, Some(12));
}

#[test]
fn parse_hex_cases() {
    assert_eq!(Theme::parse_hex("313337"), Some(Rgb { r: 0x31, g: 0x33, b: 0x37 }));
    assert_eq!(Theme::parse_hex("#FF00AA"), Some(Rgb { r: 255, g: 0, b: 170 }));
    assert_eq!(Theme::parse_hex("#cba6f7"), Some(Rgb { r: 0xcb, g: 0xa6, b: 0xf7 }));
    assert_eq!(Theme::parse_hex("##cba6f7"), None);
    assert_eq!(Theme::parse_hex("+f+f+f"), None);
    assert_eq!(Theme::parse_hex("+F+F+F"), None);
    assert_eq!(Theme::parse_hex("aé123"), None);
    assert_eq!(Theme::parse_hex("éééééé"), None);
    assert_eq!(Theme::parse_hex("-1-1-1"), None);
    assert_eq!(Theme::parse_hex("12345"), None);
    assert_eq!(Theme::parse_hex("1234567"), None);
    assert_eq!(Theme::parse_hex("GG0000"), None);
    assert_eq!(Theme::parse_hex(""), None);
    assert_eq!(Theme::parse_hex("#"), None);
    assert_eq!(Theme::parse_hex("ff ff ff"), None);
}

#[test]
fn resolve_theme_without_selection_is_default() {
    let cfg = Config::default();
    let t = cfg.resolve_theme();
    assert_eq!(t.name, "Default");
    assert_eq!(t.header_color.as_deref(), Some("313337"));
}

#[test]
fn resolve_theme_ignores_case() {
    let mut cfg = Config::default();
    cfg.selected_theme = Some("dRaCuLa".into());
    let t = cfg.resolve_theme();
    assert_eq!(t.name, "Dracula");
    assert_eq!(t.body_color.as_deref(), Some("21222C"));
    assert_eq!(t.corner_radius, Some(10));
}

#[test]
fn resolve_theme_unknown_name_is_default() {
    let mut cfg = Config::default();
    cfg.selected_theme = Some("Solarized".into());
    assert_eq!(cfg.resolve_theme().name, "Default");
}

#[test]
fn resolve_theme_fills_gaps_from_default() {
    let mut cfg = Config::default();
    let mut custom = bare_theme("Mine");
    custom.body_color = Some("000000".into());
    custom.corner_radius = Some(3);
    cfg.themes.push(custom);
    cfg.selected_theme = Some("mine".into());
    let t = cfg.resolve_theme();
    assert_eq!(t.name, "Mine");
    assert_eq!(t.body_color.as_deref(), Some("000000"));
    assert_eq!(t.header_color.as_deref(), Some("313337"));
    assert_eq!(t.corner_radius, Some(3));
    assert_eq!(t.text_color, None);
    assert_eq!(t.grid_spacing, Some(DEFAULT_SPACING_BITS));
}

#[test]
fn resolve_theme_takes_the_first_match() {
    let mut cfg = Config::default();
    cfg.themes.clear();
    let mut a = bare_theme("Same");
    a.body_color = Some("111111".into());
    let mut b = bare_theme("SAME");
    b.body_color = Some("222222".into());
    cfg.themes.push(a);
    cfg.themes.push(b);
    cfg.selected_theme = Some("same".into());
    assert_eq!(cfg.resolve_theme().body_color.as_deref(), Some("111111"));
}

#[test]
fn merge_adds_missing_builtins_only() {
    let mut cfg = Config::default();
    let mut mine = bare_theme("NORD");
    mine.body_color = Some("010203".into());
    cfg.themes = vec![mine];
    cfg.merge_builtin_themes();
    assert_eq!(names(&cfg.themes), vec!["NORD", "Default", "Dracula", "Catppuccin"]);
    assert_eq!(cfg.themes[0].body_color.as_deref(), Some("010203"));
    cfg.merge_builtin_themes();
    assert_eq!(cfg.themes.len(), 4);
}

#[test]
fn from_loaded_without_a_parse_is_default() {
    let cfg = Config::from_loaded(None);
    assert!(cfg.items.is_empty());
    assert_eq!(names(&cfg.themes), vec!["Default", "Dracula", "Nord", "Catppuccin"]);
    assert_eq!(cfg.hotkey, "Ctrl+Alt+R");
}

#[test]
fn from_loaded_keeps_the_parsed_settings() {
    let mut parsed = Config::default();
    parsed.themes.clear();
    parsed.hide_on_launch = true;
    parsed.hotkey = "Ctrl+Shift+F".into();
    let cfg = Config::from_loaded(Some(parsed));
    assert!(cfg.hide_on_launch);
    assert_eq!(cfg.hotkey, "Ctrl+Shift+F");
    assert_eq!(names(&cfg.themes), vec!["Default", "Dracula", "Nord", "Catppuccin"]);
}

#[test]
fn ascii_case_comparison() {
    assert!(eq_ignore_ascii_case("Nord", "nORD"));
    assert!(!eq_ignore_ascii_case("Nord", "Nor"));
    assert!(!eq_ignore_ascii_case("É", "é"));
    assert!(eq_ignore_ascii_case("", ""));
}

#[test]
fn palette_of_the_default_theme() {
    let p = Theme::default_theme().palette();
    assert_eq!(
        p,
        Palette {
            header: Rgb { r: 0x31, g: 0x33, b: 0x37 },
            body: Rgb { r: 0x1F, g: 0x21, b: 0x27 },
            widget: Rgb { r: 0x3A, g: 0x3C, b: 0x42 },
            selection: Rgb { r: 0x60, g: 0x62, b: 0x68 },
            divider: Rgb { r: 0x3D, g: 0x3F, b: 0x43 },
            window_radius: 12,
            menu_radius: 12,
        }
    );
}

#[test]
fn palette_falls_back_on_bad_colors() {
    let mut t = bare_theme("Odd");
    t.header_color = Some("zzzzzz".into());
    t.body_color = Some("#101010".into());
    t.corner_radius = Some(4);
    let p = t.palette();
    assert_eq!(p.header, Rgb { r: 0x31, g: 0x33, b: 0x37 });
    assert_eq!(p.body, Rgb { r: 0x10, g: 0x10, b: 0x10 });
    assert_eq!(p.widget, Rgb { r: 0x3A, g: 0x3C, b: 0x42 });
    assert_eq!(p.window_radius, 4);
    assert_eq!(p.menu_radius, 8);
}

#[test]
fn palette_of_a_resolved_builtin() {
    let mut cfg = Config::default();
    cfg.selected_theme = Some("Catppuccin".into());
    let p = cfg.resolve_theme().palette();
    assert_eq!(p.selection, Rgb { r: 0xCB, g: 0xA6, b: 0xF7 });
    assert_eq!(p.window_radius, 14);
    assert_eq!(p.menu_radius, 14);
}

#[test]
fn palette_of_a_theme_with_non_ascii_colours() {
    let mut t = bare_theme("Odd");
    t.header_color = Some("aé123".into());
    t.divider_color = Some("ééé".into());
    let p = t.palette();
    assert_eq!(p.header, Rgb { r: 0x31, g: 0x33, b: 0x37 });
    assert_eq!(p.divider, Rgb { r: 0x3D, g: 0x3F, b: 0x43 });
}

#[test]
fn window_geometry_is_recorded() {
    let mut cfg = Config::default();
    assert!(cfg.record_window_position(1.0_f32.to_bits(), 2.0_f32.to_bits()));
    assert!(!cfg.record_window_position(1.0_f32.to_bits(), 2.0_f32.to_bits()));
    assert_eq!(cfg.window_x.map(f32::from_bits), Some(1.0));
    assert!(cfg.record_window_size(640.0_f32.to_bits(), 480.0_f32.to_bits()));
    assert!(!cfg.record_window_size(640.0_f32.to_bits(), 480.0_f32.to_bits()));
    assert!(cfg.record_window_size(641.0_f32.to_bits(), 480.0_f32.to_bits()));
    assert_eq!(cfg.window_height.map(f32::from_bits), Some(480.0));
}

#[test]
fn window_geometry_compares_as_floats() {
    let mut cfg = Config::default();
    assert!(cfg.record_window_position(0.0_f32.to_bits(), 5.0_f32.to_bits()));
    assert!(!cfg.record_window_position((-0.0_f32).to_bits(), 5.0_f32.to_bits()));
    assert_eq!(cfg.window_x, Some(0.0_f32.to_bits()));
    assert!(cfg.record_window_size(f32::NAN.to_bits(), 1.0_f32.to_bits()));
    assert!(cfg.record_window_size(f32::NAN.to_bits(), 1.0_f32.to_bits()));
    assert!(cfg.record_window_size(2.0_f32.to_bits(), 1.0_f32.to_bits()));
    assert!(!cfg.record_window_size(2.0_f32.to_bits(), 1.0_f32.to_bits()));
}
