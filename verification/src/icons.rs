//! Which icon an item shows, and where a custom icon file is.
use crate::models::{
    is_random_uuid, item_view, items_view, lemma_items_view, uuid_text, ItemId, ItemView, LaunchItem,
};
use crate::paths::{extension_of, joined_path, parent_path, path_extension, path_join, path_parent};
use vstd::prelude::*;

verus! {

broadcast use lemma_items_view;

/// The key of an icon in the icon cache. The size is part of the key so
/// icons of different sizes do not collide.
#[derive(Debug, Clone, PartialEq, Eq, Hash)]
pub enum IconKey {
    /// A custom icon file at the given size.
    Custom(String, u32),
    /// The icon of an executable at the given size.
    DefaultApp(String, u32),
    /// The yellow group icon.
    DefaultGroup,
    /// The blue folder icon.
    DefaultFolder,
}

/// The model of an icon key.
pub enum IconKeyView {
    Custom(Seq<char>, u32),
    DefaultApp(Seq<char>, u32),
    DefaultGroup,
    DefaultFolder,
}

impl View for IconKey {
    type V = IconKeyView;

    open spec fn view(&self) -> IconKeyView {
        match self {
            IconKey::Custom(p, s) => IconKeyView::Custom(p@, *s),
            IconKey::DefaultApp(p, s) => IconKeyView::DefaultApp(p@, *s),
            IconKey::DefaultGroup => IconKeyView::DefaultGroup,
            IconKey::DefaultFolder => IconKeyView::DefaultFolder,
        }
    }
}

/// An item's icon: its custom icon if it has one; otherwise an app's
/// executable icon, or the default group or folder icon.
pub open spec fn icon_key_spec(v: ItemView, icon_size: u32) -> IconKeyView {
    match v.icon() {
        Some(p) => IconKeyView::Custom(p, icon_size),
        None => match v {
            ItemView::App { path, .. } => IconKeyView::DefaultApp(path, icon_size),
            ItemView::Group { .. } => IconKeyView::DefaultGroup,
            ItemView::Folder { .. } => IconKeyView::DefaultFolder,
        },
    }
}

/// Maps an item to the key of the icon it shows.
pub fn key_for(item: &LaunchItem, icon_size: u32) -> (r: IconKey)
    ensures
        r@ == icon_key_spec(item@, icon_size),
{
    match item {
        LaunchItem::App(app) => match &app.icon_path {
            Some(p) => IconKey::Custom(p.clone(), icon_size),
            None => IconKey::DefaultApp(app.executable_path.clone(), icon_size),
        },
        LaunchItem::Group(group) => match &group.icon_path {
            Some(p) => IconKey::Custom(p.clone(), icon_size),
            None => IconKey::DefaultGroup,
        },
        LaunchItem::Folder(folder) => match &folder.icon_path {
            Some(p) => IconKey::Custom(p.clone(), icon_size),
            None => IconKey::DefaultFolder,
        },
    }
}

/// Where an icon path points: a bare file name (no directory part) is in the
/// icons directory; any other path is used as it is.
pub open spec fn resolved_icon_path(icons_dir: Seq<char>, path: Seq<char>) -> Seq<char> {
    match parent_path(path) {
        Some(q) => if q.len() > 0 {
            path
        } else {
            joined_path(icons_dir, path)
        },
        None => joined_path(icons_dir, path),
    }
}

/// Resolves a stored icon path against the icons directory.
pub fn resolve_icon_path(icons_dir: &str, path: &str) -> (r: String)
    ensures
        r@ == resolved_icon_path(icons_dir@, path@),
{
    match path_parent(path) {
        Some(q) => {
            if !q.as_str().is_empty() {
                return String::from_str(path);
            }
        },
        None => {},
    }
    path_join(icons_dir, path)
}

// ─── Icons stored by full path ──────────────────────────

/// A custom icon path with a directory part: it is used where it is rather
/// than looked up in the icons directory.
pub open spec fn is_external_icon(path: Seq<char>) -> bool {
    match parent_path(path) {
        Some(q) => q.len() > 0,
        None => false,
    }
}

/// The ids and paths of the custom icons stored by full path, in tree order:
/// each item, followed by the items inside it when it is a group.
pub open spec fn external_icons_spec(s: Seq<ItemView>) -> Seq<(ItemId, Seq<char>)>
    decreases s,
{
    if s.len() == 0 {
        Seq::empty()
    } else {
        let v = s.last();
        let here: Seq<(ItemId, Seq<char>)> = match v.icon() {
            Some(p) => if is_external_icon(p) {
                seq![(v.id(), p)]
            } else {
                Seq::empty()
            },
            None => Seq::empty(),
        };
        let inner: Seq<(ItemId, Seq<char>)> = match v {
            ItemView::Group { items, .. } => {
                proof {
                    assert(decreases_to!(s => s[s.len() - 1]));
                }
                external_icons_spec(items)
            },
            _ => Seq::empty(),
        };
        external_icons_spec(s.drop_last()) + here + inner
    }
}

pub open spec fn id_paths_view(v: Seq<(ItemId, String)>) -> Seq<(ItemId, Seq<char>)> {
    v.map_values(|e: (ItemId, String)| (e.0, e.1@))
}

/// The custom icon path of an item, if it has one.
fn icon_path_of(item: &LaunchItem) -> (r: &Option<String>)
    ensures
        crate::theme::opt_view(*r) == item@.icon(),
{
    match item {
        LaunchItem::App(a) => &a.icon_path,
        LaunchItem::Group(g) => &g.icon_path,
        LaunchItem::Folder(f) => &f.icon_path,
    }
}

fn collect_external(items: &[LaunchItem], out: &mut Vec<(ItemId, String)>)
    ensures
        id_paths_view(final(out)@) == id_paths_view(old(out)@) + external_icons_spec(
            items_view(items@),
        ),
    decreases items@,
{
    let ghost s = items_view(items@);
    let ghost start = id_paths_view(out@);
    let mut i: usize = 0;
    assert(s.take(0) =~= Seq::<ItemView>::empty());
    assert(start + Seq::<(ItemId, Seq<char>)>::empty() =~= start);
    while i < items.len()
        invariant
            i <= items@.len(),
            s == items_view(items@),
            id_paths_view(out@) == start + external_icons_spec(s.take(i as int)),
        decreases items@.len() - i,
    {
        let it = &items[i];
        let ghost v = s[i as int];
        assert(v == item_view(items@[i as int]));
        let ghost before = id_paths_view(out@);
        match icon_path_of(it) {
            Some(p) => {
                let external = match path_parent(p.as_str()) {
                    Some(q) => !q.as_str().is_empty(),
                    None => false,
                };
                if external {
                    out.push((it.id(), p.clone()));
                }
            },
            None => {},
        }
        let ghost here: Seq<(ItemId, Seq<char>)> = match v.icon() {
            Some(p) => if is_external_icon(p) {
                seq![(v.id(), p)]
            } else {
                Seq::empty()
            },
            None => Seq::empty(),
        };
        assert(id_paths_view(out@) =~= before + here);
        let ghost mid = id_paths_view(out@);
        if let LaunchItem::Group(g) = it {
            proof {
                assert(decreases_to!(items@ => items@[i as int]));
                assert(decreases_to!(g.items => g.items@));
            }
            collect_external(g.items.as_slice(), out);
        }
        let ghost inner: Seq<(ItemId, Seq<char>)> = match v {
            ItemView::Group { items, .. } => external_icons_spec(items),
            _ => Seq::empty(),
        };
        assert(id_paths_view(out@) =~= mid + inner);
        proof {
            let t = s.take(i + 1);
            assert(t.drop_last() =~= s.take(i as int));
            assert(t.last() == v);
            assert(id_paths_view(out@) =~= start + external_icons_spec(t));
        }
        i += 1;
    }
    assert(s.take(s.len() as int) =~= s);
}

/// The custom icons stored by full path (see `external_icons_spec`), which
/// can be moved into the icons directory.
pub fn find_external_icons(items: &[LaunchItem]) -> (r: Vec<(ItemId, String)>)
    ensures
        id_paths_view(r@) == external_icons_spec(items_view(items@)),
{
    let mut out: Vec<(ItemId, String)> = Vec::new();
    assert(id_paths_view(out@) =~= Seq::<(ItemId, Seq<char>)>::empty());
    collect_external(items, &mut out);
    assert(Seq::<(ItemId, Seq<char>)>::empty() + external_icons_spec(items_view(items@))
        =~= external_icons_spec(items_view(items@)));
    out
}

// ─── Names of stored icons ──────────────────────────────

/// The file name an icon picked at `source` is stored under in the icons
/// directory: UUID text `u`, a dot, and the source's extension ("png" if it has none).
pub open spec fn stored_icon_name(source: Seq<char>, u: u128) -> Seq<char> {
    uuid_text(u) + "."@ + match extension_of(source) {
        Some(e) => e,
        None => "png"@,
    }
}

/// A fresh file name for an icon copied into the icons directory from
/// `source`: a random (version 4) UUID with the source's extension.
pub fn icon_file_name(source: &str) -> (r: String)
    ensures
        exists|u: u128| is_random_uuid(u) && r@ == #[trigger] stored_icon_name(source@, u),
{
    let id = ItemId::new();
    let mut name = id.to_uuid_string();
    name.append(".");
    match path_extension(source) {
        Some(e) => name.append(e.as_str()),
        None => name.append("png"),
    }
    assert(name@ == stored_icon_name(source@, id.0));
    name
}

} // verus!
