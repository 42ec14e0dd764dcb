//! The configuration model: items, window geometry, layout settings and themes.
//!
//! Floating-point settings (window geometry, grid spacing, icon size) are held
//! as the IEEE-754 bit patterns of their `f32` values: the library stores and
//! compares them but does no arithmetic on them.
use crate::models::{items_view, ItemView, LaunchItem};
use crate::paths::{joined_path, parent_path, path_join, path_parent};
use crate::theme::{
    builtin_themes_view, eq_ignore_ascii_case, has_named, is_first_named, lemma_first_named,
    merged_over, names_match, opt_or, opt_view, resolve_theme_spec, themes_view, Theme, ThemeView,
};
use vstd::prelude::*;

verus! {

/// Bit pattern of `12.0_f32`, the default grid spacing.
pub const DEFAULT_SPACING_BITS: u32 = 0x4140_0000u32;

/// Bit pattern of `48.0_f32`, the default icon size.
pub const DEFAULT_ICON_SIZE_BITS: u32 = 0x4240_0000u32;

/// All user-facing settings.
pub struct Config {
    pub items: Vec<LaunchItem>,
    /// Saved inner width, as `f32` bits.
    pub window_width: Option<u32>,
    /// Saved inner height, as `f32` bits.
    pub window_height: Option<u32>,
    /// Saved outer x position, as `f32` bits.
    pub window_x: Option<u32>,
    /// Saved outer y position, as `f32` bits.
    pub window_y: Option<u32>,
    /// Grid cell spacing, as `f32` bits.
    pub grid_spacing: u32,
    /// Icon size, as `f32` bits.
    pub grid_icon_size: u32,
    /// Whether to hide the launcher after launching an app.
    pub hide_on_launch: bool,
    /// Available themes.
    pub themes: Vec<Theme>,
    /// Name of the currently selected theme (None = use defaults).
    pub selected_theme: Option<String>,
    /// Global hotkey string, e.g. "Ctrl+Alt+R".
    pub hotkey: String,
    /// Whether the hotkey triggers on key release (true) or key press (false).
    pub hotkey_on_release: bool,
    /// Launchpad should start automatically with Windows.
    pub auto_start: bool,
}

impl Config {
    /// The model of the item tree.
    pub open spec fn items_model(self) -> Seq<ItemView> {
        items_view(self.items@)
    }

    /// Every field but the items is the same in `self` and `other`.
    pub open spec fn same_settings(self, other: Config) -> bool {
        &&& self.window_width == other.window_width
        &&& self.window_height == other.window_height
        &&& self.window_x == other.window_x
        &&& self.window_y == other.window_y
        &&& self.grid_spacing == other.grid_spacing
        &&& self.grid_icon_size == other.grid_icon_size
        &&& self.hide_on_launch == other.hide_on_launch
        &&& self.themes == other.themes
        &&& self.selected_theme == other.selected_theme
        &&& self.hotkey == other.hotkey
        &&& self.hotkey_on_release == other.hotkey_on_release
        &&& self.auto_start == other.auto_start
    }

    /// Every field but the themes is the same in `self` and `other`.
    pub open spec fn same_except_themes(self, other: Config) -> bool {
        &&& self.items == other.items
        &&& self.window_width == other.window_width
        &&& self.window_height == other.window_height
        &&& self.window_x == other.window_x
        &&& self.window_y == other.window_y
        &&& self.grid_spacing == other.grid_spacing
        &&& self.grid_icon_size == other.grid_icon_size
        &&& self.hide_on_launch == other.hide_on_launch
        &&& self.selected_theme == other.selected_theme
        &&& self.hotkey == other.hotkey
        &&& self.hotkey_on_release == other.hotkey_on_release
        &&& self.auto_start == other.auto_start
    }

    /// The model of the available themes.
    pub open spec fn themes_model(self) -> Seq<ThemeView> {
        themes_view(self.themes@)
    }

    /// `self` holds the default settings: no items, no saved geometry,
    /// spacing 12, icon size 48, the built-in themes, none selected, hotkey
    /// "Ctrl+Alt+R" triggered on release, no auto-start.
    pub open spec fn is_default(self) -> bool {
        &&& self.items@.len() == 0
        &&& self.window_width is None
        &&& self.window_height is None
        &&& self.window_x is None
        &&& self.window_y is None
        &&& self.grid_spacing == DEFAULT_SPACING_BITS
        &&& self.grid_icon_size == DEFAULT_ICON_SIZE_BITS
        &&& !self.hide_on_launch
        &&& self.themes_model() == builtin_themes_view()
        &&& self.selected_theme is None
        &&& self.hotkey@ == "Ctrl+Alt+R"@
        &&& self.hotkey_on_release
        &&& !self.auto_start
    }
}

impl Default for Config {
    fn default() -> (r: Self)
        ensures
            r.is_default(),
    {
        Config {
            items: Vec::new(),
            window_width: None,
            window_height: None,
            window_x: None,
            window_y: None,
            grid_spacing: DEFAULT_SPACING_BITS,
            grid_icon_size: DEFAULT_ICON_SIZE_BITS,
            hide_on_launch: false,
            themes: Theme::builtin_themes(),
            selected_theme: None,
            hotkey: String::from_str("Ctrl+Alt+R"),
            hotkey_on_release: true,
            auto_start: false,
        }
    }
}

/// `themes` after adding, in order, each theme of `builtins` whose name no
/// theme present at that point matches.
pub open spec fn merge_themes_spec(themes: Seq<ThemeView>, builtins: Seq<ThemeView>) -> Seq<ThemeView>
    decreases builtins.len(),
{
    if builtins.len() == 0 {
        themes
    } else {
        let next = if has_named(themes, builtins[0].name) {
            themes
        } else {
            themes.push(builtins[0])
        };
        merge_themes_spec(next, builtins.drop_first())
    }
}

/// Merging adds nothing when every name to merge is already present.
pub proof fn lemma_merge_present(themes: Seq<ThemeView>, builtins: Seq<ThemeView>)
    requires
        forall|k: int| 0 <= k < builtins.len() ==> has_named(themes, #[trigger] builtins[k].name),
    ensures
        merge_themes_spec(themes, builtins) == themes,
    decreases builtins.len(),
{
    if builtins.len() > 0 {
        assert(has_named(themes, builtins[0].name));
        let rest = builtins.drop_first();
        assert forall|k: int| 0 <= k < rest.len() implies has_named(themes, #[trigger] rest[k].name) by {
            assert(rest[k] == builtins[k + 1]);
        }
        lemma_merge_present(themes, rest);
    }
}

/// Whether some theme in `themes` is named `name` (ignoring ASCII case), and the first one.
fn find_theme(themes: &Vec<Theme>, name: &str) -> (r: Option<usize>)
    ensures
        match r {
            Some(i) => is_first_named(themes_view(themes@), name@, i as int),
            None => !has_named(themes_view(themes@), name@),
        },
{
    let ghost tv = themes_view(themes@);
    let mut i: usize = 0;
    while i < themes.len()
        invariant
            i <= themes@.len(),
            tv == themes_view(themes@),
            forall|j: int| 0 <= j < i ==> !names_match(#[trigger] tv[j].name, name@),
        decreases themes@.len() - i,
    {
        if eq_ignore_ascii_case(themes[i].name.as_str(), name) {
            return Some(i);
        }
        i += 1;
    }
    proof {
        if has_named(tv, name@) {
            let j = choose|j: int| 0 <= j < tv.len() && names_match(#[trigger] tv[j].name, name@);
            assert(!names_match(tv[j].name, name@));
        }
    }
    None
}

fn or_text(a: &Option<String>, b: Option<String>) -> (r: Option<String>)
    ensures
        opt_view(r) == opt_or(opt_view(*a), opt_view(b)),
{
    match a {
        Some(s) => Some(s.clone()),
        None => b,
    }
}

fn or_copy<T: Copy>(a: Option<T>, b: Option<T>) -> (r: Option<T>)
    ensures
        r == opt_or(a, b),
{
    match a {
        Some(_) => a,
        None => b,
    }
}

impl Config {
    /// The effective theme: the selected theme merged over the default.
    pub fn resolve_theme(&self) -> (r: Theme)
        ensures
            r@ == resolve_theme_spec(self.themes_model(), opt_view(self.selected_theme)),
    {
        let default = Theme::default_theme();
        if let Some(name) = &self.selected_theme {
            if let Some(i) = find_theme(&self.themes, name.as_str()) {
                proof {
                    lemma_first_named(self.themes_model(), name@, i as int);
                }
                let t = &self.themes[i];
                let r = Theme {
                    name: t.name.clone(),
                    header_color: or_text(&t.header_color, default.header_color),
                    body_color: or_text(&t.body_color, default.body_color),
                    widget_color: or_text(&t.widget_color, default.widget_color),
                    selection_color: or_text(&t.selection_color, default.selection_color),
                    divider_color: or_text(&t.divider_color, default.divider_color),
                    text_color: or_text(&t.text_color, default.text_color),
                    corner_radius: or_copy(t.corner_radius, default.corner_radius),
                    grid_spacing: or_copy(t.grid_spacing, default.grid_spacing),
                    grid_icon_size: or_copy(t.grid_icon_size, default.grid_icon_size),
                };
                assert(r@ == merged_over(self.themes_model()[i as int], default@));
                return r;
            }
        }
        default
    }

    /// Adds each built-in theme whose name (ignoring ASCII case) no theme in
    /// the configuration has yet. Existing themes are kept as they are.
    pub fn merge_builtin_themes(&mut self)
        ensures
            final(self).same_except_themes(*old(self)),
            final(self).themes_model() == merge_themes_spec(
                old(self).themes_model(),
                builtin_themes_view(),
            ),
    {
        let mut builtins = Theme::builtin_themes();
        let ghost target = merge_themes_spec(self.themes_model(), builtin_themes_view());
        while builtins.len() > 0
            invariant
                merge_themes_spec(self.themes_model(), themes_view(builtins@)) == target,
                self.same_except_themes(*old(self)),
            decreases builtins@.len(),
        {
            let ghost before = self.themes_model();
            let ghost bv = themes_view(builtins@);
            let b = builtins.remove(0);
            assert(themes_view(builtins@) =~= bv.drop_first());
            let present = find_theme(&self.themes, b.name.as_str());
            if present.is_none() {
                self.themes.push(b);
                assert(self.themes_model() =~= before.push(bv[0]));
            }
        }
    }
}

impl Config {
    /// The configuration to use once the file has been read: the parsed one,
    /// or the default if the text did not parse; either way with the built-in
    /// themes merged in.
    pub fn from_loaded(parsed: Option<Config>) -> (r: Config)
        ensures
            match parsed {
                Some(c) => r.same_except_themes(c) && r.themes_model() == merge_themes_spec(
                    c.themes_model(),
                    builtin_themes_view(),
                ),
                None => r.is_default(),
            },
    {
        let mut c = match parsed {
            Some(c) => c,
            None => Config::default(),
        };
        proof {
            let b = builtin_themes_view();
            if parsed is None {
                assert forall|k: int| 0 <= k < b.len() implies has_named(b, #[trigger] b[k].name) by {
                    assert(names_match(b[k].name, b[k].name));
                }
                lemma_merge_present(b, b);
            }
        }
        c.merge_builtin_themes();
        c
    }
}

/// The `f32` with bit pattern `b` is a NaN: all exponent bits set, and a
/// nonzero fraction.
pub open spec fn is_nan_bits(b: u32) -> bool {
    b & 0x7f80_0000u32 == 0x7f80_0000u32 && b & 0x007f_ffffu32 != 0u32
}

/// The `f32` with bit pattern `b` is zero, of either sign.
pub open spec fn is_zero_bits(b: u32) -> bool {
    b & 0x7fff_ffffu32 == 0u32
}

/// IEEE equality of the `f32` values with bit patterns `a` and `b`: a NaN
/// equals nothing, the two zeros are equal, and otherwise equal values have
/// equal bits.
pub open spec fn float_eq_bits(a: u32, b: u32) -> bool {
    !is_nan_bits(a) && !is_nan_bits(b) && (a == b || (is_zero_bits(a) && is_zero_bits(b)))
}

/// `o` holds a value equal (as an `f32`) to the one with bit pattern `v`.
pub open spec fn holds_float(o: Option<u32>, v: u32) -> bool {
    match o {
        Some(a) => float_eq_bits(a, v),
        None => false,
    }
}

fn holds_float_exec(o: Option<u32>, v: u32) -> (r: bool)
    ensures
        r == holds_float(o, v),
{
    match o {
        Some(a) => {
            let nan_a = a & 0x7f80_0000 == 0x7f80_0000 && a & 0x007f_ffff != 0;
            let nan_v = v & 0x7f80_0000 == 0x7f80_0000 && v & 0x007f_ffff != 0;
            !nan_a && !nan_v && (a == v || (a & 0x7fff_ffff == 0 && v & 0x7fff_ffff == 0))
        },
        None => false,
    }
}

impl Config {
    /// Records the window's outer position (given as `f32` bits) when it
    /// differs, as `f32` values, from the one stored. Returns whether it
    /// differed, that is, whether the configuration needs saving.
    pub fn record_window_position(&mut self, x: u32, y: u32) -> (changed: bool)
        ensures
            changed == !(holds_float(old(self).window_x, x) && holds_float(old(self).window_y, y)),
            changed ==> *final(self) == (Config { window_x: Some(x), window_y: Some(y), ..*old(self) }),
            !changed ==> *final(self) == *old(self),
    {
        let changed = !(holds_float_exec(self.window_x, x) && holds_float_exec(self.window_y, y));
        if changed {
            self.window_x = Some(x);
            self.window_y = Some(y);
        }
        changed
    }

    /// Records the window's inner size (given as `f32` bits) when it differs,
    /// as `f32` values, from the one stored. Returns whether it differed.
    pub fn record_window_size(&mut self, width: u32, height: u32) -> (changed: bool)
        ensures
            changed == !(holds_float(old(self).window_width, width) && holds_float(
                old(self).window_height,
                height,
            )),
            changed ==> *final(self) == (Config {
                window_width: Some(width),
                window_height: Some(height),
                ..*old(self)
            }),
            !changed ==> *final(self) == *old(self),
    {
        let changed = !(holds_float_exec(self.window_width, width) && holds_float_exec(
            self.window_height,
            height,
        ));
        if changed {
            self.window_width = Some(width);
            self.window_height = Some(height);
        }
        changed
    }
}

// ─── Where the configuration lives ──────────────────────

/// Knows where the configuration file is.
pub struct ConfigManager {
    config_path: String,
}

impl ConfigManager {
    pub closed spec fn path(self) -> Seq<char> {
        self.config_path@
    }

    /// A manager for the configuration file at `config_path`.
    pub fn from_path(config_path: String) -> (r: Self)
        ensures
            r.path() == config_path@,
    {
        ConfigManager { config_path }
    }

    /// The path of the configuration file.
    pub fn config_path(&self) -> (r: &str)
        ensures
            r@ == self.path(),
    {
        self.config_path.as_str()
    }

    /// The icons directory: `icons` next to the configuration file.
    pub fn icons_dir(&self) -> (r: String)
        ensures
            r@ == match parent_path(self.path()) {
                Some(p) => joined_path(p, "icons"@),
                None => "icons"@,
            },
    {
        match path_parent(self.config_path.as_str()) {
            Some(p) => path_join(p.as_str(), "icons"),
            None => String::from_str("icons"),
        }
    }
}

} // verus!
