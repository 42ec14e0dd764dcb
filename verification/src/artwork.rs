//! Pixel art drawn by the launcher itself: the fallback icons for apps,
//! groups and folders, and the tray icon. Images are square, stored as RGBA
//! bytes row by row.
use vstd::prelude::*;

verus! {

/// An RGBA pixel.
pub type Pixel = (u8, u8, u8, u8);

/// The fully transparent pixel.
pub open spec fn clear() -> Pixel {
    (0u8, 0u8, 0u8, 0u8)
}

/// Channel `c` (0 red, 1 green, 2 blue, 3 alpha) of a pixel.
pub open spec fn channel(p: Pixel, c: int) -> u8 {
    if c == 0 {
        p.0
    } else if c == 1 {
        p.1
    } else if c == 2 {
        p.2
    } else {
        p.3
    }
}

/// The images the launcher draws.
#[derive(Debug, Clone, Copy, PartialEq, Eq, Structural)]
pub enum Artwork {
    /// The fallback icon of an app: a rounded dark square with a framed inset.
    App,
    /// The fallback icon of a group: a yellow folder shape with a tab.
    Group,
    /// The fallback icon of a folder: the same shape in blue.
    Folder,
    /// The tray icon: an "L" on a rounded dark square.
    Tray,
}

/// The side of an image, in pixels.
pub open spec fn side(a: Artwork) -> int {
    match a {
        Artwork::Tray => 32,
        _ => 64,
    }
}

/// `(x, y)` lies outside the circle of radius `r` around `(cx, cy)`.
pub open spec fn outside_circle(x: int, y: int, cx: int, cy: int, r: int) -> bool {
    (x - cx) * (x - cx) + (y - cy) * (y - cy) > r * r
}

/// `(x, y)` is cut away by the rounded corners (radius `r`) of the rectangle
/// spanning columns `0..w` and rows `top..bottom`.
pub open spec fn cut_corner(x: int, y: int, w: int, top: int, bottom: int, r: int) -> bool {
    ||| x < r && y < top + r && outside_circle(x, y, r, top + r, r)
    ||| x >= w - r && y < top + r && outside_circle(x, y, w - r - 1, top + r, r)
    ||| x < r && y >= bottom - r && outside_circle(x, y, r, bottom - r - 1, r)
    ||| x >= w - r && y >= bottom - r && outside_circle(x, y, w - r - 1, bottom - r - 1, r)
}

/// The fallback app icon: a rounded square (radius 8) in `(60, 60, 80)` with a
/// two-pixel frame in `(137, 180, 250)` around the inset square `14..50`.
pub open spec fn app_pixel(x: int, y: int) -> Pixel {
    if cut_corner(x, y, 64, 0, 64, 8) {
        clear()
    } else if 14 <= x < 50 && 14 <= y < 50 && (x < 16 || x >= 48 || y < 16 || y >= 48) {
        (137u8, 180u8, 250u8, 255u8)
    } else {
        (60u8, 60u8, 80u8, 255u8)
    }
}

/// A folder shape: a tab over columns `0..22`, rows `0..10` with its two top
/// corners rounded, in `tab`; below it, from row 6, the body with all four
/// corners rounded, in `front`. Both are opaque; the rest is clear.
pub open spec fn tabbed_pixel(x: int, y: int, front: (u8, u8, u8), tab: (u8, u8, u8)) -> Pixel {
    if y < 10 && x < 22 {
        if (x < 8 && y < 8 && outside_circle(x, y, 8, 8, 8)) || (x >= 14 && y < 8
            && outside_circle(x, y, 13, 8, 8)) {
            clear()
        } else {
            (tab.0, tab.1, tab.2, 255u8)
        }
    } else if y >= 6 {
        if cut_corner(x, y, 64, 6, 64, 8) {
            clear()
        } else {
            (front.0, front.1, front.2, 255u8)
        }
    } else {
        clear()
    }
}

/// The tray icon: a rounded square (radius 5) in `(0x1F, 0x21, 0x27)` with an
/// "L" of three-pixel strokes in `(0x80, 0x82, 0x88)`: columns `8..=10` over rows
/// `8..=22`, and rows `20..=22` over columns `8..=24`.
pub open spec fn tray_pixel(x: int, y: int) -> Pixel {
    if (8 <= x <= 10 && 8 <= y <= 22) || (8 <= x <= 24 && 20 <= y <= 22) {
        (0x80u8, 0x82u8, 0x88u8, 255u8)
    } else if cut_corner(x, y, 32, 0, 32, 5) {
        clear()
    } else {
        (0x1Fu8, 0x21u8, 0x27u8, 255u8)
    }
}

/// The pixel at `(x, y)` of an image.
pub open spec fn art_pixel(a: Artwork, x: int, y: int) -> Pixel {
    match a {
        Artwork::App => app_pixel(x, y),
        Artwork::Group => tabbed_pixel(x, y, (242u8, 201u8, 76u8), (255u8, 224u8, 130u8)),
        Artwork::Folder => tabbed_pixel(x, y, (100u8, 180u8, 255u8), (140u8, 210u8, 255u8)),
        Artwork::Tray => tray_pixel(x, y),
    }
}

/// Byte `j` of an image's RGBA rows.
pub open spec fn art_byte(a: Artwork, j: int) -> u8 {
    channel(art_pixel(a, (j / 4) % side(a), (j / 4) / side(a)), j % 4)
}

/// `bytes` is the image, row by row, four bytes per pixel.
pub open spec fn is_rendering(a: Artwork, bytes: Seq<u8>) -> bool {
    &&& bytes.len() == side(a) * side(a) * 4
    &&& forall|j: int| 0 <= j < bytes.len() ==> #[trigger] bytes[j] == art_byte(a, j)
}

proof fn lemma_square_bound(d: int)
    requires
        -64 <= d <= 64,
    ensures
        0 <= d * d <= 4096,
{
    assert(0 <= d * d <= 4096) by (nonlinear_arith)
        requires
            -64 <= d <= 64,
    ;
}

proof fn lemma_cell(k: int, n: int)
    requires
        0 < n,
        0 <= k < n * n,
    ensures
        0 <= k % n < n,
        0 <= k / n < n,
{
    assert(0 <= k / n < n) by (nonlinear_arith)
        requires
            0 < n,
            0 <= k < n * n,
    ;
}

fn outside_circle_exec(x: i32, y: i32, cx: i32, cy: i32, r: i32) -> (b: bool)
    requires
        0 <= x < 64,
        0 <= y < 64,
        0 <= cx < 64,
        0 <= cy < 64,
        0 <= r <= 8,
    ensures
        b == outside_circle(x as int, y as int, cx as int, cy as int, r as int),
{
    let dx = x - cx;
    let dy = y - cy;
    proof {
        lemma_square_bound(dx as int);
        lemma_square_bound(dy as int);
        lemma_square_bound(r as int);
    }
    dx * dx + dy * dy > r * r
}

fn cut_corner_exec(x: i32, y: i32, w: i32, top: i32, bottom: i32, r: i32) -> (b: bool)
    requires
        0 <= x < 64,
        0 <= y < 64,
        16 <= w <= 64,
        0 <= top <= 8,
        16 <= bottom <= 64,
        1 <= r <= 8,
    ensures
        b == cut_corner(x as int, y as int, w as int, top as int, bottom as int, r as int),
{
    (x < r && y < top + r && outside_circle_exec(x, y, r, top + r, r)) || (x >= w - r && y < top
        + r && outside_circle_exec(x, y, w - r - 1, top + r, r)) || (x < r && y >= bottom - r
        && outside_circle_exec(x, y, r, bottom - r - 1, r)) || (x >= w - r && y >= bottom - r
        && outside_circle_exec(x, y, w - r - 1, bottom - r - 1, r))
}

fn tabbed_pixel_exec(x: i32, y: i32, front: (u8, u8, u8), tab: (u8, u8, u8)) -> (p: Pixel)
    requires
        0 <= x < 64,
        0 <= y < 64,
    ensures
        p == tabbed_pixel(x as int, y as int, front, tab),
{
    if y < 10 && x < 22 {
        if (x < 8 && y < 8 && outside_circle_exec(x, y, 8, 8, 8)) || (x >= 14 && y < 8
            && outside_circle_exec(x, y, 13, 8, 8)) {
            (0, 0, 0, 0)
        } else {
            (tab.0, tab.1, tab.2, 255)
        }
    } else if y >= 6 {
        if cut_corner_exec(x, y, 64, 6, 64, 8) {
            (0, 0, 0, 0)
        } else {
            (front.0, front.1, front.2, 255)
        }
    } else {
        (0, 0, 0, 0)
    }
}

fn art_pixel_exec(a: Artwork, x: i32, y: i32) -> (p: Pixel)
    requires
        0 <= x < side(a),
        0 <= y < side(a),
    ensures
        p == art_pixel(a, x as int, y as int),
{
    match a {
        Artwork::App => {
            if cut_corner_exec(x, y, 64, 0, 64, 8) {
                (0, 0, 0, 0)
            } else if 14 <= x && x < 50 && 14 <= y && y < 50 && (x < 16 || x >= 48 || y < 16 || y
                >= 48) {
                (137, 180, 250, 255)
            } else {
                (60, 60, 80, 255)
            }
        },
        Artwork::Group => tabbed_pixel_exec(x, y, (242, 201, 76), (255, 224, 130)),
        Artwork::Folder => tabbed_pixel_exec(x, y, (100, 180, 255), (140, 210, 255)),
        Artwork::Tray => {
            if (8 <= x && x <= 10 && 8 <= y && y <= 22) || (8 <= x && x <= 24 && 20 <= y && y
                <= 22) {
                (0x80, 0x82, 0x88, 255)
            } else if cut_corner_exec(x, y, 32, 0, 32, 5) {
                (0, 0, 0, 0)
            } else {
                (0x1F, 0x21, 0x27, 255)
            }
        },
    }
}

/// Draws an image as RGBA bytes, row by row.
pub fn render(a: Artwork) -> (r: Vec<u8>)
    ensures
        is_rendering(a, r@),
{
    let n: i32 = match a {
        Artwork::Tray => 32,
        _ => 64,
    };
    let total: i32 = match a {
        Artwork::Tray => 1024,
        _ => 4096,
    };
    assert(total == n * n);
    let mut out: Vec<u8> = Vec::new();
    let mut k: i32 = 0;
    while k < total
        invariant
            n == side(a),
            total == n * n,
            0 <= k <= total,
            out@.len() == 4 * k,
            forall|j: int| 0 <= j < out@.len() ==> #[trigger] out@[j] == art_byte(a, j),
        decreases total - k,
    {
        proof {
            lemma_cell(k as int, n as int);
        }
        let x = k % n;
        let y = k / n;
        let p = art_pixel_exec(a, x, y);
        let ghost before = out@;
        out.push(p.0);
        out.push(p.1);
        out.push(p.2);
        out.push(p.3);
        proof {
            assert forall|j: int| 0 <= j < out@.len() implies #[trigger] out@[j] == art_byte(a, j) by {
                if j >= before.len() {
                    assert(j / 4 == k);
                    assert(j % 4 == j - 4 * k);
                }
            }
        }
        k += 1;
    }
    out
}

/// The fallback icon of an app, 64 by 64.
pub fn default_app_icon_rgba() -> (r: Vec<u8>)
    ensures
        is_rendering(Artwork::App, r@),
{
    render(Artwork::App)
}

/// The fallback icon of a group, 64 by 64.
pub fn default_group_icon_rgba() -> (r: Vec<u8>)
    ensures
        is_rendering(Artwork::Group, r@),
{
    render(Artwork::Group)
}

/// The fallback icon of a folder, 64 by 64.
pub fn default_folder_icon_rgba() -> (r: Vec<u8>)
    ensures
        is_rendering(Artwork::Folder, r@),
{
    render(Artwork::Folder)
}

/// The tray icon, 32 by 32.
pub fn tray_icon_rgba() -> (r: Vec<u8>)
    ensures
        is_rendering(Artwork::Tray, r@),
{
    render(Artwork::Tray)
}

// ─── Channel order ──────────────────────────────────────

/// `s` with the first and third byte of each whole group of four exchanged;
/// bytes after the last whole group stay.
pub open spec fn red_blue_swapped(s: Seq<u8>) -> Seq<u8> {
    Seq::new(
        s.len(),
        |j: int|
            if j >= s.len() / 4 * 4 {
                s[j]
            } else if j % 4 == 0 {
                s[j + 2]
            } else if j % 4 == 2 {
                s[j - 2]
            } else {
                s[j]
            },
    )
}

/// Turns BGRA pixels into RGBA (or back) in place.
pub fn bgra_to_rgba(pixels: &mut Vec<u8>)
    ensures
        final(pixels)@ == red_blue_swapped(old(pixels)@),
{
    let ghost orig = pixels@;
    let ghost target = red_blue_swapped(orig);
    let len = pixels.len();
    let mut i: usize = 0;
    while len - i >= 4
        invariant
            len == orig.len(),
            pixels@.len() == len,
            i <= len,
            i % 4 == 0,
            target == red_blue_swapped(orig),
            forall|j: int| 0 <= j < i ==> #[trigger] pixels@[j] == target[j],
            forall|j: int| i <= j < len ==> #[trigger] pixels@[j] == orig[j],
        decreases len - i,
    {
        assert(i + 4 <= len / 4 * 4);
        let b = pixels[i];
        let r = pixels[i + 2];
        pixels.set(i, r);
        pixels.set(i + 2, b);
        i += 4;
    }
    assert(i == len / 4 * 4);
    assert(pixels@ =~= target);
}

} // verus!
