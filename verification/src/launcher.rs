//! The launcher's decisions: what is shown at the current navigation level,
//! what activating an item does, keyboard selection, reordering, dropped
//! files, and the context-menu actions on the item tree.
use crate::commands::{
    add_app, add_folder, add_group, delete_group, delete_group_spec, first_group, first_id,
    group_position, has_group, has_id, is_first_group, is_group_with, lemma_first_group,
    lemma_first_id, locate, move_spec, move_to_group, remove_at, remove_item, sub_items, Place,
};
use crate::config::Config;
use crate::paths::{
    extension_of, file_name_of, file_stem_of, lowercase_of, path_extension, path_file_name,
    path_file_stem, to_lowercase,
};
use crate::models::{
    is_random_uuid, item_view, items_view, lemma_items_view, lemma_items_view_push,
    lemma_items_view_remove, lemma_items_view_update, ItemId, ItemView, LaunchItem,
};
use vstd::prelude::*;

verus! {

broadcast use lemma_items_view;

// ─── Navigation ─────────────────────────────────────────

/// Where the user is: the groups navigated into, and the selected cell.
pub struct NavState {
    /// Ids of the groups navigated into; empty at the root.
    pub nav_stack: Vec<ItemId>,
    /// The selected index within the current level.
    pub selected_index: Option<usize>,
}

/// The items shown at a navigation level: the root items, or the contents of
/// the first root group with the id on top of the stack (none if it is gone).
pub open spec fn level_items(s: Seq<ItemView>, nav: Seq<ItemId>) -> Seq<ItemView> {
    if nav.len() == 0 {
        s
    } else if has_group(s, nav.last()) {
        sub_items(s[first_group(s, nav.last())])
    } else {
        Seq::empty()
    }
}

impl NavState {
    /// At the root, nothing selected.
    pub fn new() -> (r: Self)
        ensures
            r.nav_stack@.len() == 0,
            r.selected_index is None,
    {
        NavState { nav_stack: Vec::new(), selected_index: None }
    }

    pub fn is_at_root(&self) -> (r: bool)
        ensures
            r == (self.nav_stack@.len() == 0),
    {
        self.nav_stack.len() == 0
    }

    /// Back to the root level, nothing selected.
    pub fn navigate_to_root(&mut self)
        ensures
            final(self).nav_stack@.len() == 0,
            final(self).selected_index is None,
    {
        self.nav_stack.clear();
        self.selected_index = None;
    }

    /// Into the group `gid`, nothing selected.
    pub fn navigate_into(&mut self, gid: ItemId)
        ensures
            final(self).nav_stack@ == old(self).nav_stack@.push(gid),
            final(self).selected_index is None,
    {
        self.nav_stack.push(gid);
        self.selected_index = None;
    }

    /// Up one level (nothing happens to the stack at the root), nothing selected.
    pub fn navigate_back(&mut self)
        ensures
            old(self).nav_stack@.len() > 0 ==> final(self).nav_stack@ == old(self).nav_stack@.drop_last(),
            old(self).nav_stack@.len() == 0 ==> final(self).nav_stack@.len() == 0,
            final(self).selected_index is None,
    {
        let _ = self.nav_stack.pop();
        self.selected_index = None;
    }
}

/// The items at the current navigation level.
pub fn current_items<'a>(config: &'a Config, nav: &NavState) -> (r: &'a [LaunchItem])
    ensures
        items_view(r@) == level_items(config.items_model(), nav.nav_stack@),
{
    let n = nav.nav_stack.len();
    if n == 0 {
        return config.items.as_slice();
    }
    let gid = nav.nav_stack[n - 1];
    match group_position(&config.items, gid) {
        Some(g) => {
            proof {
                lemma_first_group(config.items_model(), gid, g as int);
            }
            match &config.items[g] {
                LaunchItem::Group(gr) => gr.items.as_slice(),
                _ => {
                    proof {
                        assert(false);
                    }
                    config.items.as_slice()
                },
            }
        },
        None => {
            let empty: &[LaunchItem] = &[];
            proof {
                assert(items_view(empty@) =~= Seq::<ItemView>::empty());
            }
            empty
        },
    }
}

// ─── Activation ─────────────────────────────────────────

/// A process to start.
pub struct Spawn {
    pub program: String,
    pub argument: Option<String>,
    /// Whether the launcher should minimize itself afterwards.
    pub minimize: bool,
}

impl Spawn {
    /// The program, its argument and the minimize flag as text.
    pub open spec fn model(self) -> (Seq<char>, Option<Seq<char>>, bool) {
        (
            self.program@,
            match self.argument {
                Some(a) => Some(a@),
                None => None,
            },
            self.minimize,
        )
    }
}

/// The process that activating an app or folder starts: the executable
/// itself, or Explorer on the folder.
pub open spec fn spawn_for(v: ItemView, hide_on_launch: bool) -> (Seq<char>, Option<Seq<char>>, bool) {
    match v {
        ItemView::App { path, .. } => (path, None, hide_on_launch),
        ItemView::Folder { path, .. } => ("explorer"@, Some(path), hide_on_launch),
        ItemView::Group { .. } => arbitrary(),
    }
}

/// Activating an item: an app starts its executable, a folder opens in
/// Explorer (both minimize the launcher when `hide_on_launch` is set), a
/// group is navigated into.
pub fn activate_item(nav: &mut NavState, item: &LaunchItem, hide_on_launch: bool) -> (r: Option<
    Spawn,
>)
    ensures
        item@ is Group ==> r is None && final(nav).nav_stack@ == old(nav).nav_stack@.push(
            item@.id(),
        ) && final(nav).selected_index is None,
        !(item@ is Group) ==> r is Some && r->0.model() == spawn_for(item@, hide_on_launch)
            && *final(nav) == *old(nav),
{
    match item {
        LaunchItem::App(a) => Some(
            Spawn { program: a.executable_path.clone(), argument: None, minimize: hide_on_launch },
        ),
        LaunchItem::Group(g) => {
            nav.navigate_into(g.id);
            None
        },
        LaunchItem::Folder(f) => Some(
            Spawn {
                program: String::from_str("explorer"),
                argument: Some(f.folder_path.clone()),
                minimize: hide_on_launch,
            },
        ),
    }
}

// ─── Keyboard ───────────────────────────────────────────

/// The keys pressed in a frame.
#[derive(Debug, Clone, Copy, PartialEq, Eq, Structural)]
pub struct KeyPresses {
    pub right: bool,
    pub left: bool,
    pub down: bool,
    pub up: bool,
    pub enter: bool,
    pub backspace: bool,
}

pub open spec fn opt_int(o: Option<usize>) -> Option<int> {
    match o {
        Some(i) => Some(i as int),
        None => None,
    }
}

pub open spec fn min_int(a: int, b: int) -> int {
    if a <= b {
        a
    } else {
        b
    }
}

/// Arrow right: the next cell, at most the last; the first when nothing is selected.
pub open spec fn step_right(sel: Option<int>, max: int) -> Option<int> {
    Some(
        match sel {
            None => 0,
            Some(i) => min_int(i + 1, max),
        },
    )
}

/// Arrow left: the previous cell, at least the first; the last when nothing is selected.
pub open spec fn step_left(sel: Option<int>, max: int) -> Option<int> {
    Some(
        match sel {
            None => max,
            Some(i) => if i > 0 {
                i - 1
            } else {
                0
            },
        },
    )
}

/// Arrow down: one row further, at most the last; the first when nothing is selected.
pub open spec fn step_down(sel: Option<int>, cols: int, max: int) -> Option<int> {
    Some(
        match sel {
            None => 0,
            Some(i) => min_int(i + cols, max),
        },
    )
}

/// Arrow up: one row back, at least the first; the first when nothing is selected.
pub open spec fn step_up(sel: Option<int>, cols: int) -> Option<int> {
    Some(
        match sel {
            None => 0,
            Some(i) => if i >= cols {
                i - cols
            } else {
                0
            },
        },
    )
}

/// The selection after the right and left arrows of a frame.
pub open spec fn after_horizontal(sel: Option<int>, k: KeyPresses, max: int) -> Option<int> {
    let s1 = if k.right {
        step_right(sel, max)
    } else {
        sel
    };
    if k.left {
        step_left(s1, max)
    } else {
        s1
    }
}

/// The selection after all arrows of a frame, applied right, left, down, up.
pub open spec fn after_arrows(sel: Option<int>, k: KeyPresses, cols: int, max: int) -> Option<int> {
    let s2 = after_horizontal(sel, k, max);
    let s3 = if k.down {
        step_down(s2, cols, max)
    } else {
        s2
    };
    if k.up {
        step_up(s3, cols)
    } else {
        s3
    }
}

/// The index of the last cell at a level (0 when it is empty).
pub open spec fn last_index(len: int) -> int {
    if len > 0 {
        len - 1
    } else {
        0
    }
}

/// The item Enter activates: the one selected after the arrows, if it exists.
pub open spec fn enter_target(items: Seq<ItemView>, sel: Option<int>, k: KeyPresses) -> Option<
    ItemView,
> {
    if k.enter && sel is Some && sel->0 < items.len() {
        Some(items[sel->0])
    } else {
        None
    }
}

/// The navigation stack after a frame's keys: Enter on a group goes into it,
/// then Backspace goes up one level unless at the root.
pub open spec fn stack_after_keys(stack: Seq<ItemId>, target: Option<ItemView>, k: KeyPresses) -> Seq<
    ItemId,
> {
    let s1 = match target {
        Some(v) => if v is Group {
            stack.push(v.id())
        } else {
            stack
        },
        None => stack,
    };
    if k.backspace && s1.len() > 0 {
        s1.drop_last()
    } else {
        s1
    }
}

/// The selection arithmetic of a frame does not overflow.
pub open spec fn keys_fit(sel: Option<usize>, k: KeyPresses, cols: usize, max: int) -> bool {
    &&& (k.right && sel is Some) ==> sel->0 < usize::MAX
    &&& (k.down && after_horizontal(opt_int(sel), k, max) is Some) ==> after_horizontal(
        opt_int(sel),
        k,
        max,
    )->0 + cols <= usize::MAX
}

/// The selection after a frame's arrow keys.
fn move_selection(start: Option<usize>, keys: KeyPresses, cols: usize, max: usize) -> (r: Option<
    usize,
>)
    requires
        keys_fit(start, keys, cols, max as int),
    ensures
        opt_int(r) == after_arrows(opt_int(start), keys, cols as int, max as int),
{
    let mut sel = start;
    if keys.right {
        sel = Some(
            match sel {
                None => 0,
                Some(i) => if i + 1 <= max {
                    i + 1
                } else {
                    max
                },
            },
        );
    }
    if keys.left {
        sel = Some(
            match sel {
                None => max,
                Some(i) => if i > 0 {
                    i - 1
                } else {
                    0
                },
            },
        );
    }
    if keys.down {
        sel = Some(
            match sel {
                None => 0,
                Some(i) => if i + cols <= max {
                    i + cols
                } else {
                    max
                },
            },
        );
    }
    if keys.up {
        sel = Some(
            match sel {
                None => 0,
                Some(i) => if i >= cols {
                    i - cols
                } else {
                    0
                },
            },
        );
    }
    sel
}

/// Handles a frame's keys over the cells `items`: arrows move the selection
/// (`cols` cells per row), Enter activates the selected item, Backspace goes
/// up one level. The selection is kept as the arrows left it. Returns the
/// process to start, if Enter activated an app or folder.
pub fn handle_keys_in(
    nav: &mut NavState,
    items: &[LaunchItem],
    hide_on_launch: bool,
    keys: KeyPresses,
    cols: usize,
) -> (r: Option<Spawn>)
    requires
        keys_fit(old(nav).selected_index, keys, cols, last_index(items@.len() as int)),
    ensures
        ({
            let iv = items_view(items@);
            let sel = after_arrows(
                opt_int(old(nav).selected_index),
                keys,
                cols as int,
                last_index(iv.len() as int),
            );
            let target = enter_target(iv, sel, keys);
            &&& opt_int(final(nav).selected_index) == sel
            &&& final(nav).nav_stack@ == stack_after_keys(old(nav).nav_stack@, target, keys)
            &&& match target {
                Some(v) => if v is Group {
                    r is None
                } else {
                    r is Some && r->0.model() == spawn_for(v, hide_on_launch)
                },
                None => r is None,
            }
        }),
{
    let len = items.len();
    let max: usize = if len > 0 {
        len - 1
    } else {
        0
    };
    let sel = move_selection(nav.selected_index, keys, cols, max);
    let mut action: Option<Spawn> = None;
    if keys.enter {
        if let Some(idx) = sel {
            if idx < len {
                assert(items_view(items@)[idx as int] == item_view(items@[idx as int]));
                action = activate_item(nav, &items[idx], hide_on_launch);
            }
        }
    }
    if keys.backspace && nav.nav_stack.len() > 0 {
        nav.navigate_back();
    }
    nav.selected_index = sel;
    action
}

/// Handles a frame's keys at the current navigation level (see `handle_keys_in`).
pub fn handle_keys(nav: &mut NavState, config: &Config, keys: KeyPresses, cols: usize) -> (r: Option<
    Spawn,
>)
    requires
        keys_fit(
            old(nav).selected_index,
            keys,
            cols,
            last_index(level_items(config.items_model(), old(nav).nav_stack@).len() as int),
        ),
    ensures
        ({
            let items = level_items(config.items_model(), old(nav).nav_stack@);
            let sel = after_arrows(
                opt_int(old(nav).selected_index),
                keys,
                cols as int,
                last_index(items.len() as int),
            );
            let target = enter_target(items, sel, keys);
            &&& opt_int(final(nav).selected_index) == sel
            &&& final(nav).nav_stack@ == stack_after_keys(old(nav).nav_stack@, target, keys)
            &&& match target {
                Some(v) => if v is Group {
                    r is None
                } else {
                    r is Some && r->0.model() == spawn_for(v, config.hide_on_launch)
                },
                None => r is None,
            }
        }),
{
    let items = current_items(config, nav);
    handle_keys_in(nav, items, config.hide_on_launch, keys, cols)
}

/// What Escape does.
#[derive(Debug, Clone, Copy, PartialEq, Eq, Structural)]
pub enum EscapeAction {
    /// Close the open context menu.
    CloseMenu,
    /// Clear the search query.
    ClearSearch,
    /// Go back to the root (done on the navigation state).
    GoHome,
}

/// Escape: closes an open context menu; else clears an active search; else
/// goes back to the root with nothing selected.
pub fn handle_escape(nav: &mut NavState, menu_open: bool, searching: bool) -> (r: EscapeAction)
    ensures
        menu_open ==> r == EscapeAction::CloseMenu && *final(nav) == *old(nav),
        !menu_open && searching ==> r == EscapeAction::ClearSearch && *final(nav) == *old(nav),
        !menu_open && !searching ==> r == EscapeAction::GoHome && final(nav).nav_stack@.len() == 0
            && final(nav).selected_index is None,
{
    if menu_open {
        EscapeAction::CloseMenu
    } else if searching {
        EscapeAction::ClearSearch
    } else {
        nav.navigate_to_root();
        EscapeAction::GoHome
    }
}

// ─── First match by predicate ───────────────────────────

/// `i` is the first position of `s` satisfying `p`.
pub open spec fn is_first_where(s: Seq<ItemView>, p: spec_fn(ItemView) -> bool, i: int) -> bool {
    &&& 0 <= i < s.len()
    &&& p(s[i])
    &&& forall|j: int| 0 <= j < i ==> !p(#[trigger] s[j])
}

/// Some position of `s` satisfies `p`.
pub open spec fn exists_where(s: Seq<ItemView>, p: spec_fn(ItemView) -> bool) -> bool {
    exists|i: int| 0 <= i < s.len() && p(#[trigger] s[i])
}

pub open spec fn first_where(s: Seq<ItemView>, p: spec_fn(ItemView) -> bool) -> int {
    choose|i: int| is_first_where(s, p, i)
}

pub proof fn lemma_first_where(s: Seq<ItemView>, p: spec_fn(ItemView) -> bool, i: int)
    requires
        is_first_where(s, p, i),
    ensures
        exists_where(s, p),
        first_where(s, p) == i,
{
    assert(p(s[i]));
    let k = first_where(s, p);
    assert(is_first_where(s, p, k));
    if k < i {
        assert(!p(s[k]));
    } else if i < k {
        assert(!p(s[i]));
    }
}

pub proof fn lemma_none_where(s: Seq<ItemView>, p: spec_fn(ItemView) -> bool)
    requires
        forall|j: int| 0 <= j < s.len() ==> !p(#[trigger] s[j]),
    ensures
        !exists_where(s, p),
{
    if exists_where(s, p) {
        let j = choose|j: int| 0 <= j < s.len() && p(#[trigger] s[j]);
        assert(!p(s[j]));
    }
}

// ─── Lookups for the interface ──────────────────────────

/// An app or folder (not a group) with id `id`.
pub open spec fn leaf_with_id(id: ItemId) -> spec_fn(ItemView) -> bool {
    |v: ItemView| !(v is Group) && v.id() == id
}

/// A group directly holding an app or folder with id `id`.
pub open spec fn holds_leaf(id: ItemId) -> spec_fn(ItemView) -> bool {
    |v: ItemView| v is Group && exists_where(sub_items(v), leaf_with_id(id))
}

/// Whether the item with id `id` has a custom icon: the first root item with
/// that id; otherwise the first app or folder with it inside the first root
/// group holding one; false if there is none.
pub open spec fn custom_icon_spec(s: Seq<ItemView>, id: ItemId) -> bool {
    if has_id(s, id) {
        s[first_id(s, id)].icon() is Some
    } else if exists_where(s, holds_leaf(id)) {
        let sub = sub_items(s[first_where(s, holds_leaf(id))]);
        sub[first_where(sub, leaf_with_id(id))].icon() is Some
    } else {
        false
    }
}

/// The first app or folder with id `id` in a list.
fn leaf_position(items: &Vec<LaunchItem>, id: ItemId) -> (r: Option<usize>)
    ensures
        match r {
            Some(k) => is_first_where(items_view(items@), leaf_with_id(id), k as int),
            None => !exists_where(items_view(items@), leaf_with_id(id)),
        },
{
    let ghost s = items_view(items@);
    let mut k: usize = 0;
    while k < items.len()
        invariant
            k <= items@.len(),
            s == items_view(items@),
            forall|j: int| 0 <= j < k ==> !leaf_with_id(id)(#[trigger] s[j]),
        decreases items@.len() - k,
    {
        assert(s[k as int] == item_view(items@[k as int]));
        if !items[k].is_group() && items[k].id() == id {
            return Some(k);
        }
        k += 1;
    }
    proof {
        lemma_none_where(s, leaf_with_id(id));
    }
    None
}

/// Whether the item with id `id` carries a custom icon.
pub fn has_custom_icon(config: &Config, id: ItemId) -> (r: bool)
    ensures
        r == custom_icon_spec(config.items_model(), id),
{
    let ghost s = config.items_model();
    match crate::commands::position_of(&config.items, id) {
        Some(i) => {
            proof {
                lemma_first_id(s, id, i as int);
            }
            return config.items[i].has_icon_path();
        },
        None => {},
    }
    let mut g: usize = 0;
    while g < config.items.len()
        invariant
            g <= config.items@.len(),
            s == config.items_model(),
            !has_id(s, id),
            forall|h: int| 0 <= h < g ==> !holds_leaf(id)(#[trigger] s[h]),
        decreases config.items@.len() - g,
    {
        assert(s[g as int] == item_view(config.items@[g as int]));
        if let LaunchItem::Group(gr) = &config.items[g] {
            if let Some(k) = leaf_position(&gr.items, id) {
                proof {
                    assert(sub_items(s[g as int]) == items_view(gr.items@));
                    lemma_first_where(sub_items(s[g as int]), leaf_with_id(id), k as int);
                    lemma_first_where(s, holds_leaf(id), g as int);
                }
                return gr.items[k].has_icon_path();
            }
        }
        g += 1;
    }
    proof {
        lemma_none_where(s, holds_leaf(id));
    }
    false
}

/// The title of the first root group with id `gid`.
pub open spec fn group_title_spec(s: Seq<ItemView>, gid: ItemId) -> Option<Seq<char>> {
    if has_group(s, gid) {
        Some(s[first_group(s, gid)].title())
    } else {
        None
    }
}

/// Looks up a group's title by id (for breadcrumbs).
pub fn find_group_title(config: &Config, gid: ItemId) -> (r: Option<String>)
    ensures
        match r {
            Some(t) => group_title_spec(config.items_model(), gid) == Some(t@),
            None => group_title_spec(config.items_model(), gid) is None,
        },
{
    match group_position(&config.items, gid) {
        Some(g) => {
            proof {
                lemma_first_group(config.items_model(), gid, g as int);
            }
            Some(config.items[g].title().to_owned())
        },
        None => None,
    }
}

/// A group's title by id, or the empty string if there is no such root group.
pub fn group_name(config: &Config, gid: ItemId) -> (r: String)
    ensures
        r@ == match group_title_spec(config.items_model(), gid) {
            Some(t) => t,
            None => Seq::<char>::empty(),
        },
{
    match find_group_title(config, gid) {
        Some(t) => t,
        None => String::new(),
    }
}

/// The number of items in the first root group with id `gid` (0 if none).
pub fn group_item_count(config: &Config, gid: ItemId) -> (r: usize)
    ensures
        r == if has_group(config.items_model(), gid) {
            sub_items(config.items_model()[first_group(config.items_model(), gid)]).len()
        } else {
            0
        },
{
    match group_position(&config.items, gid) {
        Some(g) => {
            proof {
                lemma_first_group(config.items_model(), gid, g as int);
            }
            assert(config.items_model()[g as int] == item_view(config.items@[g as int]));
            match &config.items[g] {
                LaunchItem::Group(gr) => {
                    assert(sub_items(config.items_model()[g as int]) == items_view(gr.items@));
                    gr.items.len()
                },
                _ => 0,
            }
        },
        None => 0,
    }
}

/// What a breadcrumb entry stands for.
#[derive(Debug, Clone, Copy, PartialEq, Eq, Structural)]
pub enum CrumbKind {
    Group,
    Folder,
    Unknown,
}

/// A root group or folder with id `id`.
pub open spec fn crumb_target(id: ItemId) -> spec_fn(ItemView) -> bool {
    |v: ItemView| (v is Group || v is Folder) && v.id() == id
}

/// The breadcrumb label of a navigation entry: the title and kind of the
/// first root group or folder with that id; empty and unknown if none.
pub fn group_name_with_kind(config: &Config, id: ItemId) -> (r: (String, CrumbKind))
    ensures
        ({
            let s = config.items_model();
            if exists_where(s, crumb_target(id)) {
                let v = s[first_where(s, crumb_target(id))];
                r.0@ == v.title() && r.1 == (if v is Group {
                    CrumbKind::Group
                } else {
                    CrumbKind::Folder
                })
            } else {
                r.0@ == Seq::<char>::empty() && r.1 == CrumbKind::Unknown
            }
        }),
{
    let ghost s = config.items_model();
    let mut i: usize = 0;
    while i < config.items.len()
        invariant
            i <= config.items@.len(),
            s == config.items_model(),
            forall|j: int| 0 <= j < i ==> !crumb_target(id)(#[trigger] s[j]),
        decreases config.items@.len() - i,
    {
        assert(s[i as int] == item_view(config.items@[i as int]));
        match &config.items[i] {
            LaunchItem::Group(g) => {
                if g.id == id {
                    proof {
                        lemma_first_where(s, crumb_target(id), i as int);
                    }
                    return (g.title.clone(), CrumbKind::Group);
                }
            },
            LaunchItem::Folder(f) => {
                if f.id == id {
                    proof {
                        lemma_first_where(s, crumb_target(id), i as int);
                    }
                    return (f.title.clone(), CrumbKind::Folder);
                }
            },
            _ => {},
        }
        i += 1;
    }
    proof {
        lemma_none_where(s, crumb_target(id));
    }
    (String::new(), CrumbKind::Unknown)
}

/// The ids and titles of the root groups, in order.
pub open spec fn group_choices_spec(s: Seq<ItemView>) -> Seq<(ItemId, Seq<char>)>
    decreases s.len(),
{
    if s.len() == 0 {
        Seq::empty()
    } else {
        let rest = group_choices_spec(s.drop_last());
        if s.last() is Group {
            rest.push((s.last().id(), s.last().title()))
        } else {
            rest
        }
    }
}

pub open spec fn choices_view(v: Seq<(ItemId, String)>) -> Seq<(ItemId, Seq<char>)> {
    v.map_values(|c: (ItemId, String)| (c.0, c.1@))
}

/// The groups an item can be moved into: every root group, in order.
pub fn group_choices(config: &Config) -> (r: Vec<(ItemId, String)>)
    ensures
        choices_view(r@) == group_choices_spec(config.items_model()),
{
    let ghost s = config.items_model();
    let mut r: Vec<(ItemId, String)> = Vec::new();
    let mut i: usize = 0;
    while i < config.items.len()
        invariant
            i <= config.items@.len(),
            s == config.items_model(),
            choices_view(r@) == group_choices_spec(s.take(i as int)),
        decreases config.items@.len() - i,
    {
        assert(s.take(i + 1).drop_last() =~= s.take(i as int));
        assert(s[i as int] == item_view(config.items@[i as int]));
        let ghost before = r@;
        if let LaunchItem::Group(g) = &config.items[i] {
            r.push((g.id, g.title.clone()));
            assert(choices_view(r@) =~= choices_view(before).push((g.id, g.title@)));
        }
        i += 1;
    }
    assert(s.take(s.len() as int) =~= s);
    r
}

// ─── Names for new groups ───────────────────────────────

pub open spec fn digit_char(d: nat) -> char {
    (48 + d) as char
}

/// The decimal text of a natural number.
pub open spec fn decimal_digits(n: nat) -> Seq<char>
    decreases n,
{
    if n < 10 {
        seq![digit_char(n)]
    } else {
        decimal_digits(n / 10).push(digit_char(n % 10))
    }
}

fn digit_str(d: usize) -> (r: &'static str)
    requires
        d < 10,
    ensures
        r@ == seq![digit_char(d as nat)],
{
    match d {
        0 => {
            proof {
                reveal_strlit("0");
            }
            "0"
        },
        1 => {
            proof {
                reveal_strlit("1");
            }
            "1"
        },
        2 => {
            proof {
                reveal_strlit("2");
            }
            "2"
        },
        3 => {
            proof {
                reveal_strlit("3");
            }
            "3"
        },
        4 => {
            proof {
                reveal_strlit("4");
            }
            "4"
        },
        5 => {
            proof {
                reveal_strlit("5");
            }
            "5"
        },
        6 => {
            proof {
                reveal_strlit("6");
            }
            "6"
        },
        7 => {
            proof {
                reveal_strlit("7");
            }
            "7"
        },
        8 => {
            proof {
                reveal_strlit("8");
            }
            "8"
        },
        9 => {
            proof {
                reveal_strlit("9");
            }
            "9"
        },
        _ => {
            proof {
                assert(false);
            }
            "9"
        },
    }
}

/// The decimal text of `n`.
pub fn decimal_text(n: usize) -> (r: String)
    ensures
        r@ == decimal_digits(n as nat),
    decreases n,
{
    if n < 10 {
        String::from_str(digit_str(n))
    } else {
        let mut s = decimal_text(n / 10);
        s.append(digit_str(n % 10));
        s
    }
}

pub open spec fn strings_view(v: Seq<String>) -> Seq<Seq<char>> {
    v.map_values(|s: String| s@)
}

pub open spec fn names_contain(names: Seq<Seq<char>>, n: Seq<char>) -> bool {
    exists|i: int| 0 <= i < names.len() && names[i] == n
}

/// `base`, a space, and the number `i`.
pub open spec fn numbered_name(base: Seq<char>, i: int) -> Seq<char> {
    base + " "@ + decimal_digits(i as nat)
}

/// `i` is the smallest number in `1..100` whose numbered name is free.
pub open spec fn is_first_free(base: Seq<char>, names: Seq<Seq<char>>, i: int) -> bool {
    &&& 1 <= i < 100
    &&& !names_contain(names, numbered_name(base, i))
    &&& forall|j: int| 1 <= j < i ==> names_contain(names, #[trigger] numbered_name(base, j))
}

/// `base` if it is free; else `base N` for the smallest free `N` in `1..100`;
/// else `base` followed by one more than the number of names.
pub open spec fn unique_name_spec(base: Seq<char>, names: Seq<Seq<char>>) -> Seq<char> {
    if !names_contain(names, base) {
        base
    } else if exists|i: int| is_first_free(base, names, i) {
        numbered_name(base, choose|i: int| is_first_free(base, names, i))
    } else {
        numbered_name(base, names.len() + 1int)
    }
}

fn contains_name(names: &[String], n: &String) -> (r: bool)
    ensures
        r == names_contain(strings_view(names@), n@),
{
    let ghost v = strings_view(names@);
    let mut k: usize = 0;
    while k < names.len()
        invariant
            k <= names@.len(),
            v == strings_view(names@),
            forall|j: int| 0 <= j < k ==> v[j] != n@,
        decreases names@.len() - k,
    {
        if names[k] == *n {
            assert(v[k as int] == n@);
            return true;
        }
        k += 1;
    }
    false
}

fn numbered(base: &str, i: usize) -> (r: String)
    ensures
        r@ == numbered_name(base@, i as int),
{
    let mut s = String::from_str(base);
    s.append(" ");
    let d = decimal_text(i);
    s.append(d.as_str());
    s
}

/// A name based on `base` that none of `existing` has (see `unique_name_spec`).
pub fn unique_name(base: &str, existing: &[String]) -> (r: String)
    requires
        existing@.len() < usize::MAX,
    ensures
        r@ == unique_name_spec(base@, strings_view(existing@)),
{
    let ghost names = strings_view(existing@);
    let b = String::from_str(base);
    if !contains_name(existing, &b) {
        return b;
    }
    let mut i: usize = 1;
    while i < 100
        invariant
            1 <= i <= 100,
            names == strings_view(existing@),
            names_contain(names, base@),
            forall|j: int| 1 <= j < i ==> names_contain(names, #[trigger] numbered_name(base@, j)),
        decreases 100 - i,
    {
        let c = numbered(base, i);
        if !contains_name(existing, &c) {
            proof {
                let k = choose|k: int| is_first_free(base@, names, k);
                assert(is_first_free(base@, names, i as int));
                if k < i {
                    assert(names_contain(names, numbered_name(base@, k)));
                } else if i < k {
                    assert(names_contain(names, numbered_name(base@, i as int)));
                }
            }
            return c;
        }
        i += 1;
    }
    proof {
        if exists|k: int| is_first_free(base@, names, k) {
            let k = choose|k: int| is_first_free(base@, names, k);
            assert(names_contain(names, numbered_name(base@, k)));
        }
    }
    numbered(base, existing.len() + 1)
}

/// The titles of the root groups, in order.
fn group_titles(config: &Config) -> (r: Vec<String>)
    ensures
        strings_view(r@) == group_choices_spec(config.items_model()).map_values(
            |c: (ItemId, Seq<char>)| c.1,
        ),
{
    let choices = group_choices(config);
    let ghost cv = choices_view(choices@);
    let mut r: Vec<String> = Vec::new();
    let mut i: usize = 0;
    while i < choices.len()
        invariant
            i <= choices@.len(),
            cv == choices_view(choices@),
            cv == group_choices_spec(config.items_model()),
            strings_view(r@) == cv.take(i as int).map_values(|c: (ItemId, Seq<char>)| c.1),
        decreases choices@.len() - i,
    {
        let ghost before = r@;
        r.push(choices[i].1.clone());
        assert(strings_view(r@) =~= strings_view(before).push(cv[i as int].1));
        assert(cv.take(i + 1).map_values(|c: (ItemId, Seq<char>)| c.1) =~= cv.take(
            i as int,
        ).map_values(|c: (ItemId, Seq<char>)| c.1).push(cv[i as int].1));
        i += 1;
    }
    assert(cv.take(cv.len() as int) =~= cv);
    r
}

/// The items after "+ Create New Group" on the model: a group named after the
/// existing groups is added at the root, then the item is moved into it.
pub open spec fn move_into_new_group_spec(
    s: Seq<ItemView>,
    item_id: ItemId,
    gid: ItemId,
) -> (Seq<ItemView>, Result<(), Seq<char>>) {
    let titles = group_choices_spec(s).map_values(|c: (ItemId, Seq<char>)| c.1);
    let name = unique_name_spec("New Group"@, titles);
    move_spec(
        s.push(ItemView::Group { id: gid, title: name, icon: None, items: Seq::empty() }),
        item_id,
        gid,
    )
}

/// Creates a new group with a name no root group has and moves the item into
/// it. Returns the new group's id and the outcome of the move.
pub fn move_into_new_group(config: &mut Config, item_id: ItemId) -> (r: (ItemId, Result<
    (),
    String,
>))
    requires
        old(config).items@.len() < usize::MAX,
    ensures
        is_random_uuid(r.0.0),
        final(config).same_settings(*old(config)),
        final(config).items_model() == move_into_new_group_spec(
            old(config).items_model(),
            item_id,
            r.0,
        ).0,
        match move_into_new_group_spec(old(config).items_model(), item_id, r.0).1 {
            Ok(()) => r.1 is Ok,
            Err(m) => r.1 matches Err(e) && e@ == m,
        },
{
    let titles = group_titles(config);
    proof {
        assert(group_choices_spec(config.items_model()).len() <= config.items_model().len()) by {
            lemma_choices_len(config.items_model());
        }
    }
    proof {
        assert(strings_view(titles@).len() == titles@.len());
        assert(config.items_model().len() == config.items@.len());
    }
    let name = unique_name("New Group", titles.as_slice());
    let gid = add_group(config, name);
    let res = move_to_group(config, item_id, gid);
    (gid, res)
}

pub proof fn lemma_choices_len(s: Seq<ItemView>)
    ensures
        group_choices_spec(s).len() <= s.len(),
    decreases s.len(),
{
    if s.len() > 0 {
        lemma_choices_len(s.drop_last());
    }
}

// ─── Reordering ─────────────────────────────────────────

/// `s` with the entries at `a` and `b` exchanged.
pub open spec fn swapped(s: Seq<ItemView>, a: int, b: int) -> Seq<ItemView> {
    s.update(a, s[b]).update(b, s[a])
}

/// The items and the dirty flag after asking to swap positions `a` and `b`
/// at a navigation level. The level is the first root group with the id on
/// top of the stack, or the root when the stack is empty or that group is
/// gone; out-of-range positions change nothing.
pub open spec fn reorder_spec(s: Seq<ItemView>, nav: Seq<ItemId>, a: int, b: int) -> (
    Seq<ItemView>,
    bool,
) {
    if nav.len() > 0 && has_group(s, nav.last()) {
        let g = first_group(s, nav.last());
        let sub = sub_items(s[g]);
        if a < sub.len() && b < sub.len() {
            (s.update(g, s[g].with_items(swapped(sub, a, b))), true)
        } else {
            (s, false)
        }
    } else if a < s.len() && b < s.len() {
        (swapped(s, a, b), true)
    } else {
        (s, false)
    }
}

pub proof fn lemma_items_view_insert(s: Seq<LaunchItem>, i: int, x: LaunchItem)
    requires
        0 <= i <= s.len(),
    ensures
        items_view(s.insert(i, x)) == items_view(s).insert(i, item_view(x)),
{
    assert(items_view(s.insert(i, x)) =~= items_view(s).insert(i, item_view(x)));
}

/// Exchanges two entries of a list.
fn swap_entries(v: &mut Vec<LaunchItem>, a: usize, b: usize)
    requires
        a < old(v)@.len(),
        b < old(v)@.len(),
    ensures
        items_view(final(v)@) == swapped(items_view(old(v)@), a as int, b as int),
{
    let ghost s = v@;
    let ghost sv = items_view(s);
    if a == b {
        assert(swapped(sv, a as int, b as int) =~= sv);
        return ;
    }
    let (lo, hi) = if a < b {
        (a, b)
    } else {
        (b, a)
    };
    let x_hi = v.remove(hi);
    let x_lo = v.remove(lo);
    let ghost s2 = v@;
    v.insert(lo, x_hi);
    let ghost s3 = v@;
    v.insert(hi, x_lo);
    proof {
        lemma_items_view_remove(s, hi as int);
        lemma_items_view_remove(s.remove(hi as int), lo as int);
        lemma_items_view_insert(s2, lo as int, x_hi);
        lemma_items_view_insert(s3, hi as int, x_lo);
        assert(item_view(x_hi) == sv[hi as int]);
        assert(item_view(x_lo) == sv[lo as int]);
        assert(items_view(v@) =~= swapped(sv, lo as int, hi as int));
        assert(swapped(sv, lo as int, hi as int) =~= swapped(sv, a as int, b as int));
    }
}

/// Swaps positions `a` and `b` at the current navigation level (the reorder
/// view's up/down buttons). Returns whether anything changed.
pub fn swap_items(config: &mut Config, nav: &NavState, a: usize, b: usize) -> (r: bool)
    ensures
        final(config).same_settings(*old(config)),
        (final(config).items_model(), r) == reorder_spec(
            old(config).items_model(),
            nav.nav_stack@,
            a as int,
            b as int,
        ),
{
    let ghost s = config.items@;
    let ghost sv = config.items_model();
    let n = nav.nav_stack.len();
    if n > 0 {
        let gid = nav.nav_stack[n - 1];
        if let Some(g) = group_position(&config.items, gid) {
            proof {
                lemma_first_group(sv, gid, g as int);
                assert(sv[g as int] == item_view(s[g as int]));
            }
            let mut changed = false;
            match &mut config.items[g] {
                LaunchItem::Group(gr) => {
                    let ghost before_g = gr.items@;
                    assert(sub_items(sv[g as int]) == items_view(before_g));
                    if a < gr.items.len() && b < gr.items.len() {
                        swap_entries(&mut gr.items, a, b);
                        changed = true;
                    }
                },
                _ => {},
            }
            proof {
                lemma_items_view_update(s, g as int, config.items@[g as int]);
                assert(config.items@ == s.update(g as int, config.items@[g as int]));
                if !changed {
                    assert(config.items@ =~= s);
                }
            }
            return changed;
        }
    }
    if a < config.items.len() && b < config.items.len() {
        swap_entries(&mut config.items, a, b);
        true
    } else {
        false
    }
}

// ─── Dropped files ──────────────────────────────────────

/// `o`'s text, or `d` when it is absent.
pub open spec fn text_or(o: Option<Seq<char>>, d: Seq<char>) -> Seq<char> {
    match o {
        Some(t) => t,
        None => d,
    }
}

/// A dropped file is added as an app when its extension, lower-cased, is
/// `exe` or `lnk`.
pub open spec fn is_launchable(path: Seq<char>) -> bool {
    let ext = lowercase_of(text_or(extension_of(path), Seq::empty()));
    ext == "exe"@ || ext == "lnk"@
}

/// The item a dropped path becomes, given the id it receives: a directory
/// becomes a folder titled by its file name (or "Folder"); a launchable file
/// becomes an app titled by its file stem (or "App"); anything else nothing.
pub open spec fn dropped_item(path: Seq<char>, is_dir: bool, id: ItemId) -> Option<ItemView> {
    if is_dir {
        Some(
            ItemView::Folder {
                id,
                title: text_or(file_name_of(path), "Folder"@),
                icon: None,
                path,
            },
        )
    } else if is_launchable(path) {
        Some(ItemView::App { id, title: text_or(file_stem_of(path), "App"@), icon: None, path })
    } else {
        None
    }
}

fn text_or_default(o: Option<String>, d: &str) -> (r: String)
    ensures
        r@ == text_or(crate::theme::opt_view(o), d@),
{
    match o {
        Some(t) => t,
        None => String::from_str(d),
    }
}

/// Adds a file or directory dropped on the window at the root. Returns the
/// new item's id, or `None` if the file is neither a directory nor launchable.
pub fn add_dropped_path(config: &mut Config, path: String, is_dir: bool) -> (r: Option<ItemId>)
    ensures
        final(config).same_settings(*old(config)),
        match r {
            Some(id) => is_random_uuid(id.0) && (dropped_item(path@, is_dir, id) matches Some(v)
                && final(config).items_model() == old(config).items_model().push(v)),
            None => (forall|id: ItemId| dropped_item(path@, is_dir, id) is None) && final(config).items_model() == old(config).items_model(),
        },
{
    if is_dir {
        let title = text_or_default(path_file_name(path.as_str()), "Folder");
        let id = add_folder(config, title, path);
        return Some(id);
    }
    let ext = text_or_default(path_extension(path.as_str()), "");
    proof {
        reveal_strlit("");
        assert(""@ =~= Seq::<char>::empty());
    }
    let lower = to_lowercase(ext.as_str());
    let exe = String::from_str("exe");
    let lnk = String::from_str("lnk");
    if lower == exe || lower == lnk {
        let title = text_or_default(path_file_stem(path.as_str()), "App");
        let id = add_app(config, title, path);
        Some(id)
    } else {
        None
    }
}

// ─── Context-menu actions ───────────────────────────────

/// The items after removing id `id` wherever the lookup finds it (unchanged if nowhere).
pub open spec fn removed_anywhere(s: Seq<ItemView>, id: ItemId) -> Seq<ItemView> {
    match locate(s, id) {
        Place::Nowhere => s,
        p => remove_at(s, p),
    }
}

/// "Remove from Group": the item is removed wherever it is found, then an app
/// or folder is added back at the root as it is, keeping its id and its
/// custom icon. Returns the item's id (none for a group, which is only removed).
pub fn ungroup_item(config: &mut Config, item: &LaunchItem) -> (r: Option<ItemId>)
    ensures
        final(config).same_settings(*old(config)),
        ({
            let mid = removed_anywhere(old(config).items_model(), item@.id());
            if item@ is Group {
                r is None && final(config).items_model() == mid
            } else {
                r == Some(item@.id()) && final(config).items_model() == mid.push(item@)
            }
        }),
{
    let _ = remove_item(config, item.id());
    match item {
        LaunchItem::Group(_) => None,
        _ => {
            let c = item.clone();
            let ghost before = config.items@;
            config.items.push(c);
            proof {
                lemma_items_view_push(before, c);
            }
            Some(item.id())
        },
    }
}

/// A root group with id `id` that has contents.
pub open spec fn nonempty_group_with(id: ItemId) -> spec_fn(ItemView) -> bool {
    |v: ItemView| v is Group && v.id() == id && sub_items(v).len() > 0
}

/// The navigation stack after deleting group `gid`: up one level if it was
/// the group being shown.
pub open spec fn stack_after_delete(stack: Seq<ItemId>, gid: ItemId) -> Seq<ItemId> {
    if stack.len() > 0 && stack.last() == gid {
        stack.drop_last()
    } else {
        stack
    }
}

/// Deletes group `gid` (after confirmation) and leaves it if it was shown.
pub fn confirm_delete_group(config: &mut Config, nav: &mut NavState, gid: ItemId) -> (r: Result<
    (),
    String,
>)
    ensures
        final(config).same_settings(*old(config)),
        final(config).items_model() == delete_group_spec(old(config).items_model(), gid).0,
        match delete_group_spec(old(config).items_model(), gid).1 {
            Ok(()) => r is Ok,
            Err(m) => r matches Err(e) && e@ == m,
        },
        final(nav).nav_stack@ == stack_after_delete(old(nav).nav_stack@, gid),
        final(nav).nav_stack@ == old(nav).nav_stack@ ==> final(nav).selected_index
            == old(nav).selected_index,
        final(nav).nav_stack@ != old(nav).nav_stack@ ==> final(nav).selected_index is None,
{
    let r = delete_group(config, gid);
    let n = nav.nav_stack.len();
    if n > 0 && nav.nav_stack[n - 1] == gid {
        nav.navigate_back();
    }
    r
}

/// "Remove" or "Delete Group" from the context menu. A group with contents
/// is not deleted: the answer is `true`, asking for confirmation. An empty
/// group is deleted (leaving it if shown); any other item is removed.
pub fn request_delete(config: &mut Config, nav: &mut NavState, id: ItemId, is_group: bool) -> (r:
    bool)
    ensures
        final(config).same_settings(*old(config)),
        ({
            let s = old(config).items_model();
            if is_group {
                if exists_where(s, nonempty_group_with(id)) {
                    r && final(config).items_model() == s && *final(nav) == *old(nav)
                } else {
                    !r && final(config).items_model() == delete_group_spec(s, id).0
                        && final(nav).nav_stack@ == stack_after_delete(old(nav).nav_stack@, id)
                        && (final(nav).nav_stack@ == old(nav).nav_stack@
                        ==> final(nav).selected_index == old(nav).selected_index)
                        && (final(nav).nav_stack@ != old(nav).nav_stack@
                        ==> final(nav).selected_index is None)
                }
            } else {
                !r && final(config).items_model() == removed_anywhere(s, id) && *final(nav)
                    == *old(nav)
            }
        }),
{
    let ghost s = config.items_model();
    if is_group {
        let mut i: usize = 0;
        while i < config.items.len()
            invariant
                i <= config.items@.len(),
                s == config.items_model(),
                is_group,
                *config == *old(config),
                *nav == *old(nav),
                forall|j: int| 0 <= j < i ==> !nonempty_group_with(id)(#[trigger] s[j]),
            decreases config.items@.len() - i,
        {
            assert(s[i as int] == item_view(config.items@[i as int]));
            if let LaunchItem::Group(g) = &config.items[i] {
                assert(sub_items(s[i as int]) == items_view(g.items@));
                if g.id == id && g.items.len() > 0 {
                    assert(nonempty_group_with(id)(s[i as int]));
                    assert(exists_where(s, nonempty_group_with(id)));
                    return true;
                }
            }
            i += 1;
        }
        proof {
            lemma_none_where(s, nonempty_group_with(id));
        }
        let _ = confirm_delete_group(config, nav, id);
        false
    } else {
        let _ = remove_item(config, id);
        false
    }
}

} // verus!
