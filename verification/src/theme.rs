//! Themes: named sets of optional colour and layout overrides.
use vstd::prelude::*;
use vstd::utf8::encode_utf8;

verus! {

/// A theme. Every field but the name is an optional override; missing
/// fields fall back to the default theme. Colours are 6-digit hex strings,
/// `grid_spacing` and `grid_icon_size` are `f32` bit patterns.
pub struct Theme {
    pub name: String,
    pub header_color: Option<String>,
    pub body_color: Option<String>,
    pub widget_color: Option<String>,
    pub selection_color: Option<String>,
    pub divider_color: Option<String>,
    pub text_color: Option<String>,
    pub corner_radius: Option<u8>,
    pub grid_spacing: Option<u32>,
    pub grid_icon_size: Option<u32>,
}

/// The model of a theme.
pub struct ThemeView {
    pub name: Seq<char>,
    pub header_color: Option<Seq<char>>,
    pub body_color: Option<Seq<char>>,
    pub widget_color: Option<Seq<char>>,
    pub selection_color: Option<Seq<char>>,
    pub divider_color: Option<Seq<char>>,
    pub text_color: Option<Seq<char>>,
    pub corner_radius: Option<u8>,
    pub grid_spacing: Option<u32>,
    pub grid_icon_size: Option<u32>,
}

pub open spec fn opt_view(p: Option<String>) -> Option<Seq<char>> {
    match p {
        Some(s) => Some(s@),
        None => None,
    }
}

impl View for Theme {
    type V = ThemeView;

    open spec fn view(&self) -> ThemeView {
        ThemeView {
            name: self.name@,
            header_color: opt_view(self.header_color),
            body_color: opt_view(self.body_color),
            widget_color: opt_view(self.widget_color),
            selection_color: opt_view(self.selection_color),
            divider_color: opt_view(self.divider_color),
            text_color: opt_view(self.text_color),
            corner_radius: self.corner_radius,
            grid_spacing: self.grid_spacing,
            grid_icon_size: self.grid_icon_size,
        }
    }
}

/// The model of a list of themes.
pub open spec fn themes_view(s: Seq<Theme>) -> Seq<ThemeView> {
    s.map_values(|t: Theme| t@)
}

// ─── Built-in themes ────────────────────────────────────

pub open spec fn some_text(s: &str) -> Option<Seq<char>> {
    Some(s@)
}

pub open spec fn default_theme_view() -> ThemeView {
    ThemeView {
        name: "Default"@,
        header_color: some_text("313337"),
        body_color: some_text("1F2127"),
        widget_color: some_text("3A3C42"),
        selection_color: some_text("606268"),
        divider_color: some_text("3D3F43"),
        text_color: None,
        corner_radius: Some(12u8),
        grid_spacing: Some(0x4140_0000u32),
        grid_icon_size: Some(0x4240_0000u32),
    }
}

pub open spec fn dracula_theme_view() -> ThemeView {
    ThemeView {
        name: "Dracula"@,
        header_color: some_text("282A36"),
        body_color: some_text("21222C"),
        widget_color: some_text("44475A"),
        selection_color: some_text("6272A4"),
        divider_color: some_text("44475A"),
        text_color: some_text("F8F8F2"),
        corner_radius: Some(10u8),
        grid_spacing: Some(0x4140_0000u32),
        grid_icon_size: Some(0x4240_0000u32),
    }
}

pub open spec fn nord_theme_view() -> ThemeView {
    ThemeView {
        name: "Nord"@,
        header_color: some_text("2E3440"),
        body_color: some_text("242933"),
        widget_color: some_text("3B4252"),
        selection_color: some_text("5E81AC"),
        divider_color: some_text("3B4252"),
        text_color: some_text("D8DEE9"),
        corner_radius: Some(8u8),
        grid_spacing: Some(0x4120_0000u32),
        grid_icon_size: Some(0x4240_0000u32),
    }
}

pub open spec fn catppuccin_theme_view() -> ThemeView {
    ThemeView {
        name: "Catppuccin"@,
        header_color: some_text("1E1E2E"),
        body_color: some_text("181825"),
        widget_color: some_text("313244"),
        selection_color: some_text("CBA6F7"),
        divider_color: some_text("313244"),
        text_color: some_text("CDD6F4"),
        corner_radius: Some(14u8),
        grid_spacing: Some(0x4160_0000u32),
        grid_icon_size: Some(0x4250_0000u32),
    }
}

/// Default, Dracula, Nord and Catppuccin, in that order.
pub open spec fn builtin_themes_view() -> Seq<ThemeView> {
    seq![default_theme_view(), dracula_theme_view(), nord_theme_view(), catppuccin_theme_view()]
}

fn text(s: &str) -> (r: Option<String>)
    ensures
        r matches Some(t) && t@ == s@,
{
    Some(String::from_str(s))
}

// ─── Hex colours ────────────────────────────────────────

/// An RGB colour.
#[derive(Debug, Clone, Copy, PartialEq, Eq, Structural)]
pub struct Rgb {
    pub r: u8,
    pub g: u8,
    pub b: u8,
}

/// `bytes` without one leading `'#'`, if it has one.
pub open spec fn strip_hash(bytes: Seq<u8>) -> Seq<u8> {
    if bytes.len() > 0 && bytes[0] == 35u8 {
        bytes.drop_first()
    } else {
        bytes
    }
}

/// The value of an ASCII hexadecimal digit.
pub open spec fn hex_value(c: u8) -> Option<u8> {
    if 48 <= c <= 57 {
        Some((c - 48) as u8)
    } else if 97 <= c <= 102 {
        Some((c - 87) as u8)
    } else if 65 <= c <= 70 {
        Some((c - 55) as u8)
    } else {
        None
    }
}

/// The byte two hex digits stand for.
pub open spec fn hex_pair(a: u8, b: u8) -> Option<u8> {
    match (hex_value(a), hex_value(b)) {
        (Some(x), Some(y)) => Some((16 * x + y) as u8),
        _ => None,
    }
}

/// A colour from the UTF-8 bytes of its text: an optional leading `#`, then
/// exactly six ASCII hex digits; anything else is no colour.
pub open spec fn parse_hex_bytes(bytes: Seq<u8>) -> Option<Rgb> {
    let t = strip_hash(bytes);
    if t.len() != 6 {
        None
    } else {
        match (hex_pair(t[0], t[1]), hex_pair(t[2], t[3]), hex_pair(t[4], t[5])) {
            (Some(r), Some(g), Some(b)) => Some(Rgb { r, g, b }),
            _ => None,
        }
    }
}

fn hex_value_exec(c: u8) -> (r: Option<u8>)
    ensures
        r == hex_value(c),
{
    if 48 <= c && c <= 57 {
        Some(c - 48)
    } else if 97 <= c && c <= 102 {
        Some(c - 87)
    } else if 65 <= c && c <= 70 {
        Some(c - 55)
    } else {
        None
    }
}

fn hex_pair_exec(a: u8, b: u8) -> (r: Option<u8>)
    ensures
        r == hex_pair(a, b),
{
    match (hex_value_exec(a), hex_value_exec(b)) {
        (Some(x), Some(y)) => Some(16 * x + y),
        _ => None,
    }
}

// ─── Case-insensitive names ─────────────────────────────

pub open spec fn ascii_lower(c: u8) -> u8 {
    if 65 <= c <= 90 {
        (c + 32) as u8
    } else {
        c
    }
}

/// `str::eq_ignore_ascii_case` on UTF-8 bytes: same length, and equal after
/// lower-casing ASCII letters.
pub open spec fn bytes_eq_ignore_ascii_case(a: Seq<u8>, b: Seq<u8>) -> bool {
    a.len() == b.len() && forall|i: int| 0 <= i < a.len() ==> ascii_lower(a[i]) == ascii_lower(b[i])
}

/// Two names match case-insensitively (ASCII letters only).
pub open spec fn names_match(a: Seq<char>, b: Seq<char>) -> bool {
    bytes_eq_ignore_ascii_case(encode_utf8(a), encode_utf8(b))
}

fn ascii_lower_exec(c: u8) -> (r: u8)
    ensures
        r == ascii_lower(c),
{
    if 65 <= c && c <= 90 {
        c + 32
    } else {
        c
    }
}

/// Compares two strings ignoring ASCII case.
pub fn eq_ignore_ascii_case(a: &str, b: &str) -> (r: bool)
    ensures
        r == names_match(a@, b@),
{
    let x = a.as_bytes();
    let y = b.as_bytes();
    if x.len() != y.len() {
        return false;
    }
    let mut i: usize = 0;
    while i < x.len()
        invariant
            x@ == encode_utf8(a@),
            y@ == encode_utf8(b@),
            x@.len() == y@.len(),
            i <= x@.len(),
            forall|j: int| 0 <= j < i ==> ascii_lower(x@[j]) == ascii_lower(y@[j]),
        decreases x@.len() - i,
    {
        if ascii_lower_exec(x[i]) != ascii_lower_exec(y[i]) {
            return false;
        }
        i += 1;
    }
    true
}

// ─── Theme resolution ───────────────────────────────────

pub open spec fn opt_or<T>(a: Option<T>, b: Option<T>) -> Option<T> {
    if a is Some {
        a
    } else {
        b
    }
}

/// `t` with its missing fields taken from `d`.
pub open spec fn merged_over(t: ThemeView, d: ThemeView) -> ThemeView {
    ThemeView {
        name: t.name,
        header_color: opt_or(t.header_color, d.header_color),
        body_color: opt_or(t.body_color, d.body_color),
        widget_color: opt_or(t.widget_color, d.widget_color),
        selection_color: opt_or(t.selection_color, d.selection_color),
        divider_color: opt_or(t.divider_color, d.divider_color),
        text_color: opt_or(t.text_color, d.text_color),
        corner_radius: opt_or(t.corner_radius, d.corner_radius),
        grid_spacing: opt_or(t.grid_spacing, d.grid_spacing),
        grid_icon_size: opt_or(t.grid_icon_size, d.grid_icon_size),
    }
}

/// `i` is the first theme whose name matches `name`.
pub open spec fn is_first_named(themes: Seq<ThemeView>, name: Seq<char>, i: int) -> bool {
    &&& 0 <= i < themes.len()
    &&& names_match(themes[i].name, name)
    &&& forall|j: int| 0 <= j < i ==> !names_match(#[trigger] themes[j].name, name)
}

/// Some theme's name matches `name`.
pub open spec fn has_named(themes: Seq<ThemeView>, name: Seq<char>) -> bool {
    exists|i: int| 0 <= i < themes.len() && names_match(#[trigger] themes[i].name, name)
}

pub open spec fn first_named(themes: Seq<ThemeView>, name: Seq<char>) -> int {
    choose|i: int| is_first_named(themes, name, i)
}

/// The effective theme: the first theme named like the selection (ignoring
/// ASCII case), merged over the default theme; the default theme when nothing
/// is selected or no theme has that name.
pub open spec fn resolve_theme_spec(themes: Seq<ThemeView>, selected: Option<Seq<char>>) -> ThemeView {
    match selected {
        Some(n) => if has_named(themes, n) {
            merged_over(themes[first_named(themes, n)], default_theme_view())
        } else {
            default_theme_view()
        },
        None => default_theme_view(),
    }
}

pub proof fn lemma_first_named(themes: Seq<ThemeView>, name: Seq<char>, i: int)
    requires
        is_first_named(themes, name, i),
    ensures
        has_named(themes, name),
        first_named(themes, name) == i,
{
    let k = first_named(themes, name);
    assert(is_first_named(themes, name, k));
    if k < i {
        assert(!names_match(themes[k].name, name));
    } else if i < k {
        assert(!names_match(themes[i].name, name));
    }
}

impl Theme {
    /// The built-in "Default" dark theme.
    pub fn default_theme() -> (r: Self)
        ensures
            r@ == default_theme_view(),
    {
        Theme {
            name: String::from_str("Default"),
            header_color: text("313337"),
            body_color: text("1F2127"),
            widget_color: text("3A3C42"),
            selection_color: text("606268"),
            divider_color: text("3D3F43"),
            text_color: None,
            corner_radius: Some(12),
            grid_spacing: Some(0x4140_0000),
            grid_icon_size: Some(0x4240_0000),
        }
    }

    /// Built-in themes shipped with the app.
    pub fn builtin_themes() -> (r: Vec<Theme>)
        ensures
            themes_view(r@) == builtin_themes_view(),
    {
        let mut v: Vec<Theme> = Vec::new();
        v.push(Self::default_theme());
        v.push(
            Theme {
                name: String::from_str("Dracula"),
                header_color: text("282A36"),
                body_color: text("21222C"),
                widget_color: text("44475A"),
                selection_color: text("6272A4"),
                divider_color: text("44475A"),
                text_color: text("F8F8F2"),
                corner_radius: Some(10),
                grid_spacing: Some(0x4140_0000),
                grid_icon_size: Some(0x4240_0000),
            },
        );
        v.push(
            Theme {
                name: String::from_str("Nord"),
                header_color: text("2E3440"),
                body_color: text("242933"),
                widget_color: text("3B4252"),
                selection_color: text("5E81AC"),
                divider_color: text("3B4252"),
                text_color: text("D8DEE9"),
                corner_radius: Some(8),
                grid_spacing: Some(0x4120_0000),
                grid_icon_size: Some(0x4240_0000),
            },
        );
        v.push(
            Theme {
                name: String::from_str("Catppuccin"),
                header_color: text("1E1E2E"),
                body_color: text("181825"),
                widget_color: text("313244"),
                selection_color: text("CBA6F7"),
                divider_color: text("313244"),
                text_color: text("CDD6F4"),
                corner_radius: Some(14),
                grid_spacing: Some(0x4160_0000),
                grid_icon_size: Some(0x4250_0000),
            },
        );
        assert(themes_view(v@) =~= builtin_themes_view());
        v
    }

    /// Parse a hex string like "313337" or "#FF00AA" into a colour (see
    /// `parse_hex_bytes`).
    pub fn parse_hex(s: &str) -> (r: Option<Rgb>)
        ensures
            r == parse_hex_bytes(encode_utf8(s@)),
    {
        let b = s.as_bytes();
        let k: usize = if b.len() > 0 && b[0] == 35 {
            1
        } else {
            0
        };
        assert(strip_hash(b@) =~= b@.skip(k as int));
        if b.len() - k != 6 {
            return None;
        }
        match (
            hex_pair_exec(b[k], b[k + 1]),
            hex_pair_exec(b[k + 2], b[k + 3]),
            hex_pair_exec(b[k + 4], b[k + 5]),
        ) {
            (Some(r), Some(g), Some(bl)) => Some(Rgb { r, g, b: bl }),
            _ => None,
        }
    }
}

// ─── Palette ────────────────────────────────────────────

/// The colours and corner radii the interface is drawn with.
#[derive(Debug, Clone, Copy, PartialEq, Eq, Structural)]
pub struct Palette {
    pub header: Rgb,
    pub body: Rgb,
    pub widget: Rgb,
    pub selection: Rgb,
    pub divider: Rgb,
    pub window_radius: u8,
    pub menu_radius: u8,
}

/// The colour a theme entry gives, or `d` if it is missing or not a colour.
pub open spec fn color_or(c: Option<Seq<char>>, d: Rgb) -> Rgb {
    match c {
        Some(s) => match parse_hex_bytes(encode_utf8(s)) {
            Some(x) => x,
            None => d,
        },
        None => d,
    }
}

/// The palette of a theme: each colour from the theme when it parses, else the
/// dark default; window corners of the theme's radius (12 if unset), menu
/// corners of at least 8.
pub open spec fn palette_of(t: ThemeView) -> Palette {
    let radius: u8 = match t.corner_radius {
        Some(r) => r,
        None => 12u8,
    };
    Palette {
        header: color_or(t.header_color, Rgb { r: 0x31, g: 0x33, b: 0x37 }),
        body: color_or(t.body_color, Rgb { r: 0x1F, g: 0x21, b: 0x27 }),
        widget: color_or(t.widget_color, Rgb { r: 0x3A, g: 0x3C, b: 0x42 }),
        selection: color_or(t.selection_color, Rgb { r: 0x60, g: 0x62, b: 0x68 }),
        divider: color_or(t.divider_color, Rgb { r: 0x3D, g: 0x3F, b: 0x43 }),
        window_radius: radius,
        menu_radius: if radius < 8 {
            8u8
        } else {
            radius
        },
    }
}

fn color_or_exec(c: &Option<String>, d: Rgb) -> (r: Rgb)
    ensures
        r == color_or(opt_view(*c), d),
{
    match c {
        Some(s) => match Theme::parse_hex(s.as_str()) {
            Some(x) => x,
            None => d,
        },
        None => d,
    }
}

impl Theme {
    /// The palette this theme draws with (see `palette_of`).
    pub fn palette(&self) -> (r: Palette)
        ensures
            r == palette_of(self@),
    {
        let radius: u8 = match self.corner_radius {
            Some(r) => r,
            None => 12,
        };
        Palette {
            header: color_or_exec(&self.header_color, Rgb { r: 0x31, g: 0x33, b: 0x37 }),
            body: color_or_exec(&self.body_color, Rgb { r: 0x1F, g: 0x21, b: 0x27 }),
            widget: color_or_exec(&self.widget_color, Rgb { r: 0x3A, g: 0x3C, b: 0x42 }),
            selection: color_or_exec(&self.selection_color, Rgb { r: 0x60, g: 0x62, b: 0x68 }),
            divider: color_or_exec(&self.divider_color, Rgb { r: 0x3D, g: 0x3F, b: 0x43 }),
            window_radius: radius,
            menu_radius: if radius < 8 {
                8
            } else {
                radius
            },
        }
    }
}

} // verus!
