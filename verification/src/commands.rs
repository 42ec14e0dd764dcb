//! Operations on the item tree of a configuration: add, remove, rename,
//! set or clear an icon, move into a group, delete a group.
//!
//! Items are looked up by id first among the root items, then inside the
//! root-level groups in order; the first match wins.
use crate::config::Config;
use crate::models::{
    item_view, items_view, lemma_items_view, lemma_items_view_push, lemma_items_view_remove,
    lemma_items_view_update, path_view, uuid_text, is_random_uuid, AppItem, FolderItem, GroupItem, ItemId, ItemView,
    LaunchItem,
};
use vstd::prelude::*;

verus! {

broadcast use lemma_items_view;

// ─── Lookup in the model ────────────────────────────────

/// Some item of `s` has id `id`.
pub open spec fn has_id(s: Seq<ItemView>, id: ItemId) -> bool {
    exists|i: int| 0 <= i < s.len() && #[trigger] s[i].id() == id
}

/// `i` is the first position in `s` holding id `id`.
pub open spec fn is_first_id(s: Seq<ItemView>, id: ItemId, i: int) -> bool {
    &&& 0 <= i < s.len()
    &&& s[i].id() == id
    &&& forall|j: int| 0 <= j < i ==> #[trigger] s[j].id() != id
}

/// The first position in `s` holding id `id` (meaningful when `has_id(s, id)`).
pub open spec fn first_id(s: Seq<ItemView>, id: ItemId) -> int {
    choose|i: int| is_first_id(s, id, i)
}

/// The contents of a group (empty for other items).
pub open spec fn sub_items(v: ItemView) -> Seq<ItemView> {
    match v {
        ItemView::Group { items, .. } => items,
        _ => Seq::empty(),
    }
}

/// `v` is a group directly holding an item with id `id`.
pub open spec fn group_holds(v: ItemView, id: ItemId) -> bool {
    v is Group && has_id(sub_items(v), id)
}

/// `g` is the first root position whose group holds id `id`.
pub open spec fn is_first_holder(s: Seq<ItemView>, id: ItemId, g: int) -> bool {
    &&& 0 <= g < s.len()
    &&& group_holds(s[g], id)
    &&& forall|h: int| 0 <= h < g ==> !group_holds(#[trigger] s[h], id)
}

/// Some root group holds id `id`.
pub open spec fn in_a_group(s: Seq<ItemView>, id: ItemId) -> bool {
    exists|g: int| 0 <= g < s.len() && group_holds(#[trigger] s[g], id)
}

pub open spec fn first_holder(s: Seq<ItemView>, id: ItemId) -> int {
    choose|g: int| is_first_holder(s, id, g)
}

/// `v` is a group with id `gid`.
pub open spec fn is_group_with(v: ItemView, gid: ItemId) -> bool {
    v is Group && v.id() == gid
}

/// `g` is the first root position holding a group with id `gid`.
pub open spec fn is_first_group(s: Seq<ItemView>, gid: ItemId, g: int) -> bool {
    &&& 0 <= g < s.len()
    &&& is_group_with(s[g], gid)
    &&& forall|h: int| 0 <= h < g ==> !is_group_with(#[trigger] s[h], gid)
}

/// Some root item is a group with id `gid`.
pub open spec fn has_group(s: Seq<ItemView>, gid: ItemId) -> bool {
    exists|g: int| 0 <= g < s.len() && is_group_with(#[trigger] s[g], gid)
}

pub open spec fn first_group(s: Seq<ItemView>, gid: ItemId) -> int {
    choose|g: int| is_first_group(s, gid, g)
}

/// Where the lookup by id finds an item.
pub enum Place {
    /// At this root position.
    Root(int),
    /// In the group at the first position, at the second position of its contents.
    InGroup(int, int),
    /// Not found.
    Nowhere,
}

/// The lookup by id: root items first, then the contents of the root groups in order.
pub open spec fn locate(s: Seq<ItemView>, id: ItemId) -> Place {
    if has_id(s, id) {
        Place::Root(first_id(s, id))
    } else if in_a_group(s, id) {
        let g = first_holder(s, id);
        Place::InGroup(g, first_id(sub_items(s[g]), id))
    } else {
        Place::Nowhere
    }
}

/// The item at a place.
pub open spec fn item_at(s: Seq<ItemView>, p: Place) -> ItemView {
    match p {
        Place::Root(i) => s[i],
        Place::InGroup(g, k) => sub_items(s[g])[k],
        Place::Nowhere => arbitrary(),
    }
}

/// `s` with the item at a place replaced by `v`.
pub open spec fn update_at(s: Seq<ItemView>, p: Place, v: ItemView) -> Seq<ItemView> {
    match p {
        Place::Root(i) => s.update(i, v),
        Place::InGroup(g, k) => s.update(g, s[g].with_items(sub_items(s[g]).update(k, v))),
        Place::Nowhere => s,
    }
}

/// `s` without the item at a place.
pub open spec fn remove_at(s: Seq<ItemView>, p: Place) -> Seq<ItemView> {
    match p {
        Place::Root(i) => s.remove(i),
        Place::InGroup(g, k) => s.update(g, s[g].with_items(sub_items(s[g]).remove(k))),
        Place::Nowhere => s,
    }
}

/// `s` with `v` appended to the contents of the first root group with id `gid`.
pub open spec fn push_into_group(s: Seq<ItemView>, gid: ItemId, v: ItemView) -> Seq<ItemView> {
    let g = first_group(s, gid);
    s.update(g, s[g].with_items(sub_items(s[g]).push(v)))
}

// ─── Messages ───────────────────────────────────────────

pub open spec fn item_not_found_msg(id: ItemId) -> Seq<char> {
    "Item with id "@ + uuid_text(id.0) + " not found"@
}

pub open spec fn group_id_not_found_msg(id: ItemId) -> Seq<char> {
    "Group with id "@ + uuid_text(id.0) + " not found"@
}

pub open spec fn group_not_found_msg() -> Seq<char> {
    "Group not found"@
}

pub open spec fn target_group_not_found_msg() -> Seq<char> {
    "Target group not found"@
}

pub open spec fn not_a_group_msg() -> Seq<char> {
    "Item is not a group"@
}

pub open spec fn cannot_move_msg() -> Seq<char> {
    "Cannot move a group or folder into another group"@
}

fn id_message(prefix: &str, id: ItemId) -> (r: String)
    ensures
        r@ == prefix@ + uuid_text(id.0) + " not found"@,
{
    let mut s = String::from_str(prefix);
    let u = id.to_uuid_string();
    s.append(u.as_str());
    s.append(" not found");
    s
}

fn item_not_found(id: ItemId) -> (r: String)
    ensures
        r@ == item_not_found_msg(id),
{
    id_message("Item with id ", id)
}

// ─── Lookup lemmas ──────────────────────────────────────

pub proof fn lemma_first_id(s: Seq<ItemView>, id: ItemId, i: int)
    requires
        is_first_id(s, id, i),
    ensures
        has_id(s, id),
        first_id(s, id) == i,
{
    assert(s[i].id() == id);
    let k = first_id(s, id);
    assert(is_first_id(s, id, k));
    if k < i {
        assert(s[k].id() != id);
    } else if i < k {
        assert(s[i].id() != id);
    }
}

pub proof fn lemma_first_holder(s: Seq<ItemView>, id: ItemId, g: int)
    requires
        is_first_holder(s, id, g),
    ensures
        in_a_group(s, id),
        first_holder(s, id) == g,
{
    assert(group_holds(s[g], id));
    let k = first_holder(s, id);
    assert(is_first_holder(s, id, k));
    if k < g {
        assert(!group_holds(s[k], id));
    } else if g < k {
        assert(!group_holds(s[g], id));
    }
}

pub proof fn lemma_first_group(s: Seq<ItemView>, gid: ItemId, g: int)
    requires
        is_first_group(s, gid, g),
    ensures
        has_group(s, gid),
        first_group(s, gid) == g,
{
    assert(is_group_with(s[g], gid));
    let k = first_group(s, gid);
    assert(is_first_group(s, gid, k));
    if k < g {
        assert(!is_group_with(s[k], gid));
    } else if g < k {
        assert(!is_group_with(s[g], gid));
    }
}

// ─── Executable lookup ──────────────────────────────────

/// Where `locate` finds an item, as executable positions.
pub enum Found {
    Root(usize),
    InGroup(usize, usize),
    Nowhere,
}

impl Found {
    pub open spec fn place(self) -> Place {
        match self {
            Found::Root(i) => Place::Root(i as int),
            Found::InGroup(g, k) => Place::InGroup(g as int, k as int),
            Found::Nowhere => Place::Nowhere,
        }
    }
}

/// The first position in `items` of an item with id `id`.
pub(crate) fn position_of(items: &Vec<LaunchItem>, id: ItemId) -> (r: Option<usize>)
    ensures
        match r {
            Some(i) => is_first_id(items_view(items@), id, i as int),
            None => !has_id(items_view(items@), id),
        },
{
    let ghost s = items_view(items@);
    let mut i: usize = 0;
    while i < items.len()
        invariant
            i <= items@.len(),
            s == items_view(items@),
            forall|j: int| 0 <= j < i ==> #[trigger] s[j].id() != id,
        decreases items@.len() - i,
    {
        assert(s[i as int] == item_view(items@[i as int]));
        if items[i].id() == id {
            return Some(i);
        }
        i += 1;
    }
    None
}

/// Finds an item by id as `locate` does.
fn find_item(items: &Vec<LaunchItem>, id: ItemId) -> (r: Found)
    ensures
        r.place() == locate(items_view(items@), id),
        match r {
            Found::Root(i) => i < items@.len(),
            Found::InGroup(g, k) => g < items@.len() && items@[g as int] is Group && k
                < items@[g as int]->Group_0.items@.len(),
            Found::Nowhere => true,
        },
{
    let ghost s = items_view(items@);
    match position_of(items, id) {
        Some(i) => {
            proof {
                lemma_first_id(s, id, i as int);
            }
            return Found::Root(i);
        },
        None => {},
    }
    let mut g: usize = 0;
    while g < items.len()
        invariant
            g <= items@.len(),
            s == items_view(items@),
            !has_id(s, id),
            forall|h: int| 0 <= h < g ==> !group_holds(#[trigger] s[h], id),
        decreases items@.len() - g,
    {
        assert(s[g as int] == item_view(items@[g as int]));
        if let LaunchItem::Group(gr) = &items[g] {
            match position_of(&gr.items, id) {
                Some(k) => {
                    proof {
                        assert(sub_items(s[g as int]) == items_view(gr.items@));
                        lemma_first_id(sub_items(s[g as int]), id, k as int);
                        lemma_first_holder(s, id, g as int);
                    }
                    return Found::InGroup(g, k);
                },
                None => {
                    assert(!group_holds(s[g as int], id));
                },
            }
        }
        g += 1;
    }
    proof {
        if in_a_group(s, id) {
            let h = choose|h: int| 0 <= h < s.len() && group_holds(#[trigger] s[h], id);
            assert(!group_holds(s[h], id));
        }
    }
    Found::Nowhere
}

/// The first root position holding a group with id `gid`.
pub(crate) fn group_position(items: &Vec<LaunchItem>, gid: ItemId) -> (r: Option<usize>)
    ensures
        match r {
            Some(g) => is_first_group(items_view(items@), gid, g as int) && items@[g as int] is Group,
            None => !has_group(items_view(items@), gid),
        },
{
    let ghost s = items_view(items@);
    let mut g: usize = 0;
    while g < items.len()
        invariant
            g <= items@.len(),
            s == items_view(items@),
            forall|h: int| 0 <= h < g ==> !is_group_with(#[trigger] s[h], gid),
        decreases items@.len() - g,
    {
        assert(s[g as int] == item_view(items@[g as int]));
        if let LaunchItem::Group(gr) = &items[g] {
            if gr.id == gid {
                return Some(g);
            }
        }
        g += 1;
    }
    proof {
        if has_group(s, gid) {
            let h = choose|h: int| 0 <= h < s.len() && is_group_with(#[trigger] s[h], gid);
            assert(!is_group_with(s[h], gid));
        }
    }
    None
}

// ─── Mutation helpers ───────────────────────────────────

/// Appends `it` to the contents of the group at root position `g`.
fn push_into(items: &mut Vec<LaunchItem>, g: usize, it: LaunchItem)
    requires
        g < old(items)@.len(),
        old(items)@[g as int] is Group,
    ensures
        items_view(final(items)@) == items_view(old(items)@).update(
            g as int,
            items_view(old(items)@)[g as int].with_items(
                sub_items(items_view(old(items)@)[g as int]).push(it@),
            ),
        ),
{
    let ghost s = old(items)@;
    let ghost itv = it@;
    match &mut items[g] {
        LaunchItem::Group(gr) => {
            let ghost before = gr.items@;
            gr.items.push(it);
            proof {
                lemma_items_view_push(before, it);
            }
        },
        _ => {},
    }
    proof {
        lemma_items_view_update(s, g as int, items@[g as int]);
        assert(items@ == s.update(g as int, items@[g as int]));
    }
}

/// Removes and returns the item at a found place.
fn take_at(items: &mut Vec<LaunchItem>, f: Found) -> (r: LaunchItem)
    requires
        match f {
            Found::Root(i) => i < old(items)@.len(),
            Found::InGroup(g, k) => g < old(items)@.len() && old(items)@[g as int] is Group && k
                < old(items)@[g as int]->Group_0.items@.len(),
            Found::Nowhere => false,
        },
    ensures
        r@ == item_at(items_view(old(items)@), f.place()),
        items_view(final(items)@) == remove_at(items_view(old(items)@), f.place()),
{
    let ghost s = old(items)@;
    match f {
        Found::Root(i) => {
            let r = items.remove(i);
            proof {
                lemma_items_view_remove(s, i as int);
                assert(items_view(s)[i as int] == item_view(s[i as int]));
            }
            r
        },
        Found::InGroup(g, k) => {
            let ghost before_g = s[g as int]->Group_0.items@;
            let r = match &mut items[g] {
                LaunchItem::Group(gr) => {
                    let r = gr.items.remove(k);
                    proof {
                        lemma_items_view_remove(before_g, k as int);
                        assert(items_view(before_g)[k as int] == item_view(before_g[k as int]));
                    }
                    r
                },
                _ => {
                    proof {
                        assert(false);
                    }
                    items.remove(g)
                },
            };
            proof {
                lemma_items_view_update(s, g as int, items@[g as int]);
                assert(items@ == s.update(g as int, items@[g as int]));
                assert(items_view(s)[g as int] == item_view(s[g as int]));
            }
            r
        },
        Found::Nowhere => {
            proof {
                assert(false);
            }
            items.remove(0)
        },
    }
}

/// A change to one item.
enum ItemEdit {
    Title(String),
    Icon(Option<String>),
}

spec fn edited(v: ItemView, e: ItemEdit) -> ItemView {
    match e {
        ItemEdit::Title(t) => v.with_title(t@),
        ItemEdit::Icon(p) => v.with_icon(path_view(p)),
    }
}

fn apply_edit(it: &mut LaunchItem, e: ItemEdit)
    ensures
        final(it)@ == edited(old(it)@, e),
{
    match e {
        ItemEdit::Title(t) => match it {
            LaunchItem::App(a) => a.title = t,
            LaunchItem::Group(g) => g.title = t,
            LaunchItem::Folder(f) => f.title = t,
        },
        ItemEdit::Icon(p) => match it {
            LaunchItem::App(a) => a.icon_path = p,
            LaunchItem::Group(g) => g.icon_path = p,
            LaunchItem::Folder(f) => f.icon_path = p,
        },
    }
}

/// Applies `e` to the item with id `id`, wherever `locate` finds it.
fn edit_item(config: &mut Config, id: ItemId, e: ItemEdit) -> (r: Result<(), String>)
    ensures
        final(config).same_settings(*old(config)),
        match locate(old(config).items_model(), id) {
            Place::Nowhere => r matches Err(m) && m@ == item_not_found_msg(id)
                && final(config).items_model() == old(config).items_model(),
            p => r is Ok && final(config).items_model() == update_at(
                old(config).items_model(),
                p,
                edited(item_at(old(config).items_model(), p), e),
            ),
        },
{
    let ghost s = config.items@;
    match find_item(&config.items, id) {
        Found::Root(i) => {
            assert(items_view(s)[i as int] == item_view(s[i as int]));
            apply_edit(&mut config.items[i], e);
            proof {
                lemma_items_view_update(s, i as int, config.items@[i as int]);
                assert(config.items@ == s.update(i as int, config.items@[i as int]));
            }
            Ok(())
        },
        Found::InGroup(g, k) => {
            let ghost before_g = s[g as int]->Group_0.items@;
            match &mut config.items[g] {
                LaunchItem::Group(gr) => {
                    assert(items_view(before_g)[k as int] == item_view(before_g[k as int]));
                    apply_edit(&mut gr.items[k], e);
                    proof {
                        lemma_items_view_update(before_g, k as int, gr.items@[k as int]);
                        assert(gr.items@ == before_g.update(k as int, gr.items@[k as int]));
                    }
                },
                _ => {},
            }
            proof {
                lemma_items_view_update(s, g as int, config.items@[g as int]);
                assert(config.items@ == s.update(g as int, config.items@[g as int]));
                assert(items_view(s)[g as int] == item_view(s[g as int]));
            }
            Ok(())
        },
        Found::Nowhere => Err(item_not_found(id)),
    }
}

// ─── Commands ───────────────────────────────────────────

/// Add a new application to the root level of the config.
pub fn add_app(config: &mut Config, title: String, executable_path: String) -> (r: ItemId)
    ensures
        is_random_uuid(r.0),
        final(config).same_settings(*old(config)),
        final(config).items_model() == old(config).items_model().push(
            ItemView::App { id: r, title: title@, icon: None, path: executable_path@ },
        ),
{
    let app = AppItem::new(title, executable_path);
    let id = app.id;
    let ghost s = config.items@;
    config.items.push(LaunchItem::App(app));
    proof {
        lemma_items_view_push(s, config.items@.last());
    }
    id
}

/// Add a new application to a specific group.
pub fn add_app_to_group(
    config: &mut Config,
    group_id: ItemId,
    title: String,
    executable_path: String,
) -> (r: Result<ItemId, String>)
    ensures
        final(config).same_settings(*old(config)),
        match r {
            Ok(id) => is_random_uuid(id.0) && has_group(old(config).items_model(), group_id)
                && final(config).items_model()
                == push_into_group(
                old(config).items_model(),
                group_id,
                ItemView::App { id, title: title@, icon: None, path: executable_path@ },
            ),
            Err(m) => !has_group(old(config).items_model(), group_id) && m@ == group_not_found_msg()
                && final(config).items_model() == old(config).items_model(),
        },
{
    match group_position(&config.items, group_id) {
        None => Err(String::from_str("Group not found")),
        Some(g) => {
            proof {
                lemma_first_group(config.items_model(), group_id, g as int);
            }
            let app = AppItem::new(title, executable_path);
            let id = app.id;
            push_into(&mut config.items, g, LaunchItem::App(app));
            Ok(id)
        },
    }
}

/// Create a new group at the root level.
pub fn add_group(config: &mut Config, title: String) -> (r: ItemId)
    ensures
        is_random_uuid(r.0),
        final(config).same_settings(*old(config)),
        final(config).items_model() == old(config).items_model().push(
            ItemView::Group { id: r, title: title@, icon: None, items: Seq::empty() },
        ),
{
    let group = GroupItem::new(title);
    let id = group.id;
    let ghost s = config.items@;
    config.items.push(LaunchItem::Group(group));
    proof {
        lemma_items_view_push(s, config.items@.last());
        assert(items_view(config.items@.last()->Group_0.items@) =~= Seq::<ItemView>::empty());
    }
    id
}

/// Add a new folder to the root level of the config.
pub fn add_folder(config: &mut Config, title: String, folder_path: String) -> (r: ItemId)
    ensures
        is_random_uuid(r.0),
        final(config).same_settings(*old(config)),
        final(config).items_model() == old(config).items_model().push(
            ItemView::Folder { id: r, title: title@, icon: None, path: folder_path@ },
        ),
{
    let folder = FolderItem::new(title, folder_path);
    let id = folder.id;
    let ghost s = config.items@;
    config.items.push(LaunchItem::Folder(folder));
    proof {
        lemma_items_view_push(s, config.items@.last());
    }
    id
}

/// Add a new folder to a specific group.
pub fn add_folder_to_group(
    config: &mut Config,
    group_id: ItemId,
    title: String,
    folder_path: String,
) -> (r: Result<ItemId, String>)
    ensures
        final(config).same_settings(*old(config)),
        match r {
            Ok(id) => is_random_uuid(id.0) && has_group(old(config).items_model(), group_id)
                && final(config).items_model()
                == push_into_group(
                old(config).items_model(),
                group_id,
                ItemView::Folder { id, title: title@, icon: None, path: folder_path@ },
            ),
            Err(m) => !has_group(old(config).items_model(), group_id) && m@ == group_not_found_msg()
                && final(config).items_model() == old(config).items_model(),
        },
{
    match group_position(&config.items, group_id) {
        None => Err(String::from_str("Group not found")),
        Some(g) => {
            proof {
                lemma_first_group(config.items_model(), group_id, g as int);
            }
            let folder = FolderItem::new(title, folder_path);
            let id = folder.id;
            push_into(&mut config.items, g, LaunchItem::Folder(folder));
            Ok(id)
        },
    }
}

/// Remove an item by id from the root level or any group.
pub fn remove_item(config: &mut Config, id: ItemId) -> (r: Result<(), String>)
    ensures
        final(config).same_settings(*old(config)),
        match locate(old(config).items_model(), id) {
            Place::Nowhere => r matches Err(m) && m@ == item_not_found_msg(id)
                && final(config).items_model() == old(config).items_model(),
            p => r is Ok && final(config).items_model() == remove_at(old(config).items_model(), p),
        },
{
    let f = find_item(&config.items, id);
    match f {
        Found::Nowhere => Err(item_not_found(id)),
        _ => {
            let _removed = take_at(&mut config.items, f);
            Ok(())
        },
    }
}

/// Rename any item by id.
pub fn rename_item(config: &mut Config, id: ItemId, new_title: String) -> (r: Result<(), String>)
    ensures
        final(config).same_settings(*old(config)),
        match locate(old(config).items_model(), id) {
            Place::Nowhere => r matches Err(m) && m@ == item_not_found_msg(id)
                && final(config).items_model() == old(config).items_model(),
            p => r is Ok && final(config).items_model() == update_at(
                old(config).items_model(),
                p,
                item_at(old(config).items_model(), p).with_title(new_title@),
            ),
        },
{
    edit_item(config, id, ItemEdit::Title(new_title))
}

/// Set a custom icon path for an item.
pub fn set_icon(config: &mut Config, id: ItemId, icon_path: String) -> (r: Result<(), String>)
    ensures
        final(config).same_settings(*old(config)),
        match locate(old(config).items_model(), id) {
            Place::Nowhere => r matches Err(m) && m@ == item_not_found_msg(id)
                && final(config).items_model() == old(config).items_model(),
            p => r is Ok && final(config).items_model() == update_at(
                old(config).items_model(),
                p,
                item_at(old(config).items_model(), p).with_icon(Some(icon_path@)),
            ),
        },
{
    edit_item(config, id, ItemEdit::Icon(Some(icon_path)))
}

/// Clear the custom icon for an item (revert to default).
pub fn clear_icon(config: &mut Config, id: ItemId) -> (r: Result<(), String>)
    ensures
        final(config).same_settings(*old(config)),
        match locate(old(config).items_model(), id) {
            Place::Nowhere => r matches Err(m) && m@ == item_not_found_msg(id)
                && final(config).items_model() == old(config).items_model(),
            p => r is Ok && final(config).items_model() == update_at(
                old(config).items_model(),
                p,
                item_at(old(config).items_model(), p).with_icon(None),
            ),
        },
{
    edit_item(config, id, ItemEdit::Icon(None))
}

/// `p` is a position within the items: a root position, or a position inside
/// the contents of a root group.
pub open spec fn place_valid(s: Seq<ItemView>, p: Place) -> bool {
    match p {
        Place::Root(i) => 0 <= i < s.len(),
        Place::InGroup(g, k) => 0 <= g < s.len() && s[g] is Group && 0 <= k < sub_items(
            s[g],
        ).len(),
        Place::Nowhere => false,
    }
}

/// Taking an app out of the items leaves every root group in place: a root
/// group with id `gid` is still there.
pub proof fn lemma_taking_an_app_keeps_groups(s: Seq<ItemView>, p: Place, gid: ItemId)
    requires
        place_valid(s, p),
        item_at(s, p) is App,
        has_group(s, gid),
    ensures
        has_group(remove_at(s, p), gid),
{
    let h = choose|h: int| 0 <= h < s.len() && is_group_with(#[trigger] s[h], gid);
    let t = remove_at(s, p);
    match p {
        Place::Root(i) => {
            assert(h != i);
            if h < i {
                assert(t[h] == s[h]);
                assert(is_group_with(t[h], gid));
            } else {
                assert(t[h - 1] == s[h]);
                assert(is_group_with(t[h - 1], gid));
            }
        },
        Place::InGroup(g, k) => {
            assert(is_group_with(t[h], gid));
        },
        Place::Nowhere => {},
    }
}

/// The state and result of `move_to_group` on the model. Nothing changes
/// unless the item is found, is an app, and a root group with the target id
/// exists; then the app is taken out and appended to that group's contents.
pub open spec fn move_spec(s: Seq<ItemView>, item_id: ItemId, group_id: ItemId) -> (
    Seq<ItemView>,
    Result<(), Seq<char>>,
) {
    let p = locate(s, item_id);
    if p is Nowhere {
        (s, Err(item_not_found_msg(item_id)))
    } else if !(item_at(s, p) is App) {
        (s, Err(cannot_move_msg()))
    } else if !has_group(s, group_id) {
        (s, Err(target_group_not_found_msg()))
    } else {
        (push_into_group(remove_at(s, p), group_id, item_at(s, p)), Ok(()))
    }
}

/// The item at a found place.
fn item_ref<'a>(items: &'a Vec<LaunchItem>, f: &Found) -> (r: &'a LaunchItem)
    requires
        match *f {
            Found::Root(i) => i < items@.len(),
            Found::InGroup(g, k) => g < items@.len() && items@[g as int] is Group && k
                < items@[g as int]->Group_0.items@.len(),
            Found::Nowhere => false,
        },
    ensures
        r@ == item_at(items_view(items@), f.place()),
{
    match f {
        Found::Root(i) => &items[*i],
        Found::InGroup(g, k) => {
            assert(items_view(items@)[*g as int] == item_view(items@[*g as int]));
            match &items[*g] {
                LaunchItem::Group(gr) => {
                    assert(items_view(gr.items@)[*k as int] == item_view(gr.items@[*k as int]));
                    &gr.items[*k]
                },
                other => other,
            }
        },
        Found::Nowhere => &items[0],
    }
}

/// Move an app from its current location into a group. A move that fails
/// changes nothing.
pub fn move_to_group(config: &mut Config, item_id: ItemId, group_id: ItemId) -> (r: Result<
    (),
    String,
>)
    ensures
        final(config).same_settings(*old(config)),
        final(config).items_model() == move_spec(old(config).items_model(), item_id, group_id).0,
        match move_spec(old(config).items_model(), item_id, group_id).1 {
            Ok(()) => r is Ok,
            Err(m) => r matches Err(e) && e@ == m,
        },
{
    let ghost s = config.items_model();
    let f = find_item(&config.items, item_id);
    if let Found::Nowhere = f {
        return Err(item_not_found(item_id));
    }
    let is_app = match item_ref(&config.items, &f) {
        LaunchItem::App(_) => true,
        _ => false,
    };
    if !is_app {
        return Err(String::from_str("Cannot move a group or folder into another group"));
    }
    if group_position(&config.items, group_id).is_none() {
        return Err(String::from_str("Target group not found"));
    }
    proof {
        match f {
            Found::InGroup(g, k) => {
                assert(s[g as int] == item_view(config.items@[g as int]));
                assert(sub_items(s[g as int]) == items_view(
                    config.items@[g as int]->Group_0.items@,
                ));
            },
            _ => {},
        }
        assert(place_valid(s, f.place()));
        lemma_taking_an_app_keeps_groups(s, f.place(), group_id);
    }
    let item = take_at(&mut config.items, f);
    match group_position(&config.items, group_id) {
        None => {
            proof {
                assert(false);
            }
            Err(String::from_str("Target group not found"))
        },
        Some(g) => {
            proof {
                lemma_first_group(config.items_model(), group_id, g as int);
            }
            push_into(&mut config.items, g, item);
            Ok(())
        },
    }
}

/// The state and result of `delete_group` on the model.
pub open spec fn delete_group_spec(s: Seq<ItemView>, group_id: ItemId) -> (
    Seq<ItemView>,
    Result<(), Seq<char>>,
) {
    if !has_id(s, group_id) {
        (s, Err(group_id_not_found_msg(group_id)))
    } else if !(s[first_id(s, group_id)] is Group) {
        (s, Err(not_a_group_msg()))
    } else {
        (s.remove(first_id(s, group_id)), Ok(()))
    }
}

/// Delete a root-level group and all its contents.
pub fn delete_group(config: &mut Config, group_id: ItemId) -> (r: Result<(), String>)
    ensures
        final(config).same_settings(*old(config)),
        final(config).items_model() == delete_group_spec(old(config).items_model(), group_id).0,
        match delete_group_spec(old(config).items_model(), group_id).1 {
            Ok(()) => r is Ok,
            Err(m) => r matches Err(e) && e@ == m,
        },
{
    let ghost s = config.items@;
    match position_of(&config.items, group_id) {
        Some(pos) => {
            proof {
                lemma_first_id(items_view(s), group_id, pos as int);
            }
            if config.items[pos].is_group() {
                config.items.remove(pos);
                proof {
                    lemma_items_view_remove(s, pos as int);
                }
                Ok(())
            } else {
                Err(String::from_str("Item is not a group"))
            }
        },
        None => Err(id_message("Group with id ", group_id)),
    }
}

} // verus!
