//! Properties of the library that relate several operations or hold of every
//! state, stated over the models that the operations' contracts use.
use crate::commands::{
    cannot_move_msg, delete_group_spec, first_group, first_holder, first_id, group_holds,
    has_group, has_id, in_a_group, is_first_group, is_first_holder, is_first_id, is_group_with,
    item_at, lemma_first_group, lemma_first_holder, lemma_first_id, lemma_taking_an_app_keeps_groups,
    locate, move_spec,
    push_into_group, remove_at, sub_items, update_at, Place,
};
use crate::config::{lemma_merge_present, merge_themes_spec};
use crate::launcher::{
    after_arrows, after_horizontal, dropped_item, is_first_free, is_launchable, text_or, KeyPresses, names_contain, reorder_spec, step_down,
    step_left, step_right, step_up, swapped, unique_name_spec,
};
use crate::models::{ItemId, ItemView};
use crate::theme::{
    ascii_lower, builtin_themes_view, bytes_eq_ignore_ascii_case, default_theme_view, first_named, has_named,
    is_first_named, lemma_first_named, names_match, parse_hex_bytes, resolve_theme_spec,
    ThemeView,
};
use crate::artwork::red_blue_swapped;
use crate::search::{bytes_contain, occurs_at, search_spec, title_matches};
use crate::paths::{extension_of, lowercase_of};
use vstd::utf8::encode_utf8;
use vstd::multiset::Multiset;
use vstd::prelude::*;

verus! {

// ─── Adding and removing ────────────────────────────────

/// No item of `s`, at the root or inside a root group, has id `id`.
pub open spec fn is_fresh(s: Seq<ItemView>, id: ItemId) -> bool {
    locate(s, id) is Nowhere
}

/// Adding an item with an id not yet in use and then removing that id gives
/// back the items as they were.
pub proof fn law_add_then_remove(s: Seq<ItemView>, v: ItemView)
    requires
        is_fresh(s, v.id()),
    ensures
        locate(s.push(v), v.id()) == Place::Root(s.len() as int),
        remove_at(s.push(v), locate(s.push(v), v.id())) == s,
{
    let t = s.push(v);
    assert(!has_id(s, v.id()));
    assert forall|j: int| 0 <= j < s.len() implies #[trigger] t[j].id() != v.id() by {
        assert(t[j] == s[j]);
    }
    assert(is_first_id(t, v.id(), s.len() as int));
    lemma_first_id(t, v.id(), s.len() as int);
    assert(t.remove(s.len() as int) =~= s);
}

/// Adding a group with an id not yet in use and then deleting it succeeds and
/// gives back the items as they were.
pub proof fn law_add_group_then_delete(s: Seq<ItemView>, v: ItemView)
    requires
        v is Group,
        is_fresh(s, v.id()),
    ensures
        delete_group_spec(s.push(v), v.id()) == (s, Ok::<(), Seq<char>>(())),
{
    law_add_then_remove(s, v);
}

// ─── Lookup is stable under edits ───────────────────────

/// An edit that keeps every item's id and kind, and every group's contents.
pub open spec fn keeps_shape(a: ItemView, b: ItemView) -> bool {
    &&& a.id() == b.id()
    &&& (a is App <==> b is App)
    &&& (a is Group <==> b is Group)
    &&& sub_items(a) == sub_items(b)
}

proof fn lemma_same_ids_same_first(s: Seq<ItemView>, t: Seq<ItemView>, id: ItemId)
    requires
        s.len() == t.len(),
        forall|i: int| 0 <= i < s.len() ==> #[trigger] s[i].id() == t[i].id(),
        has_id(s, id),
    ensures
        has_id(t, id),
        first_id(t, id) == first_id(s, id),
{
    let i = choose|i: int| 0 <= i < s.len() && #[trigger] s[i].id() == id;
    assert(t[i].id() == id);
    let f = first_id(s, id);
    lemma_first_id_exists(s, id);
    assert(is_first_id(s, id, f));
    assert forall|j: int| 0 <= j < f implies #[trigger] t[j].id() != id by {
        assert(s[j].id() != id);
    }
    lemma_first_id(t, id, f);
}

/// When some item has id `id`, there is a first one.
pub proof fn lemma_first_id_exists(s: Seq<ItemView>, id: ItemId)
    requires
        has_id(s, id),
    ensures
        is_first_id(s, id, first_id(s, id)),
    decreases s.len(),
{
    if s[0].id() == id {
        lemma_first_id(s, id, 0);
    } else {
        let t = s.drop_first();
        let i = choose|i: int| 0 <= i < s.len() && #[trigger] s[i].id() == id;
        assert(t[i - 1].id() == id);
        lemma_first_id_exists(t, id);
        let f = first_id(t, id);
        assert forall|j: int| 0 <= j < f + 1 implies #[trigger] s[j].id() != id by {
            if j > 0 {
                assert(s[j] == t[j - 1]);
            }
        }
        lemma_first_id(s, id, f + 1);
    }
}

/// When some root group holds id `id`, there is a first one.
pub proof fn lemma_first_holder_exists(s: Seq<ItemView>, id: ItemId)
    requires
        in_a_group(s, id),
    ensures
        is_first_holder(s, id, first_holder(s, id)),
    decreases s.len(),
{
    if group_holds(s[0], id) {
        lemma_first_holder(s, id, 0);
    } else {
        let t = s.drop_first();
        let g = choose|g: int| 0 <= g < s.len() && group_holds(#[trigger] s[g], id);
        assert(group_holds(t[g - 1], id));
        lemma_first_holder_exists(t, id);
        let f = first_holder(t, id);
        assert forall|h: int| 0 <= h < f + 1 implies !group_holds(#[trigger] s[h], id) by {
            if h > 0 {
                assert(s[h] == t[h - 1]);
            }
        }
        lemma_first_holder(s, id, f + 1);
    }
}

/// When some root item is a group with id `gid`, there is a first one.
pub proof fn lemma_first_group_exists(s: Seq<ItemView>, gid: ItemId)
    requires
        has_group(s, gid),
    ensures
        is_first_group(s, gid, first_group(s, gid)),
    decreases s.len(),
{
    if is_group_with(s[0], gid) {
        lemma_first_group(s, gid, 0);
    } else {
        let t = s.drop_first();
        let g = choose|g: int| 0 <= g < s.len() && is_group_with(#[trigger] s[g], gid);
        assert(is_group_with(t[g - 1], gid));
        lemma_first_group_exists(t, gid);
        let f = first_group(t, gid);
        assert forall|h: int| 0 <= h < f + 1 implies !is_group_with(#[trigger] s[h], gid) by {
            if h > 0 {
                assert(s[h] == t[h - 1]);
            }
        }
        lemma_first_group(s, gid, f + 1);
    }
}

/// Replacing the item at the place `locate` finds by one of the same shape
/// leaves `locate` finding it at the same place.
pub proof fn law_locate_stable_under_edit(s: Seq<ItemView>, id: ItemId, w: ItemView)
    requires
        !(locate(s, id) is Nowhere),
        keeps_shape(item_at(s, locate(s, id)), w),
    ensures
        locate(update_at(s, locate(s, id), w), id) == locate(s, id),
        item_at(update_at(s, locate(s, id), w), locate(s, id)) == w,
{
    let p = locate(s, id);
    let t = update_at(s, p, w);
    if has_id(s, id) {
        let i = first_id(s, id);
        lemma_first_id_exists(s, id);
        assert forall|j: int| 0 <= j < s.len() implies #[trigger] s[j].id() == t[j].id() by {}
        lemma_same_ids_same_first(s, t, id);
    } else {
        lemma_first_holder_exists(s, id);
        let g = first_holder(s, id);
        let sub = sub_items(s[g]);
        let k = first_id(sub, id);
        lemma_first_id_exists(sub, id);
        let nsub = sub.update(k, w);
        assert(t == s.update(g, s[g].with_items(nsub)));
        // root ids unchanged, so the root search still fails
        assert forall|j: int| 0 <= j < t.len() implies #[trigger] t[j].id() != id by {
            if j != g {
                assert(t[j] == s[j]);
            }
            assert(s[j].id() != id);
        }
        assert(!has_id(t, id));
        assert(sub_items(t[g]) == nsub);
        assert forall|j: int| 0 <= j < sub.len() implies #[trigger] sub[j].id() == nsub[j].id() by {}
        lemma_same_ids_same_first(sub, nsub, id);
        assert forall|h: int| 0 <= h < g implies !group_holds(#[trigger] t[h], id) by {
            assert(t[h] == s[h]);
        }
        assert(group_holds(t[g], id));
        lemma_first_holder(t, id, g);
    }
}

/// Renaming an item keeps it where it was found and keeps its id; the item
/// found there afterwards carries the new title.
pub proof fn law_rename_then_lookup(s: Seq<ItemView>, id: ItemId, title: Seq<char>)
    requires
        !(locate(s, id) is Nowhere),
    ensures
        ({
            let p = locate(s, id);
            let t = update_at(s, p, item_at(s, p).with_title(title));
            &&& locate(t, id) == p
            &&& item_at(t, p).title() == title
            &&& item_at(t, p).id() == id
        }),
{
    let p = locate(s, id);
    let w = item_at(s, p).with_title(title);
    lemma_locate_finds(s, id);
    law_locate_stable_under_edit(s, id, w);
}

/// `locate` gives positions within the items.
pub proof fn lemma_locate_valid(s: Seq<ItemView>, id: ItemId)
    ensures
        match locate(s, id) {
            Place::Root(i) => 0 <= i < s.len(),
            Place::InGroup(g, k) => 0 <= g < s.len() && s[g] is Group && 0 <= k < sub_items(
                s[g],
            ).len(),
            Place::Nowhere => true,
        },
{
    if has_id(s, id) {
        lemma_first_id_exists(s, id);
    } else if in_a_group(s, id) {
        lemma_first_holder_exists(s, id);
        let g = first_holder(s, id);
        lemma_first_id_exists(sub_items(s[g]), id);
    }
}

/// The item `locate` finds has the id looked for.
pub proof fn lemma_locate_finds(s: Seq<ItemView>, id: ItemId)
    requires
        !(locate(s, id) is Nowhere),
    ensures
        item_at(s, locate(s, id)).id() == id,
{
    if has_id(s, id) {
        lemma_first_id_exists(s, id);
    } else {
        lemma_first_holder_exists(s, id);
        let g = first_holder(s, id);
        lemma_first_id_exists(sub_items(s[g]), id);
    }
}

/// Clearing an item's icon after setting one is the same as clearing it
/// directly.
pub proof fn law_set_icon_then_clear(s: Seq<ItemView>, id: ItemId, icon: Seq<char>)
    requires
        !(locate(s, id) is Nowhere),
    ensures
        ({
            let p = locate(s, id);
            let t = update_at(s, p, item_at(s, p).with_icon(Some(icon)));
            let p2 = locate(t, id);
            update_at(t, p2, item_at(t, p2).with_icon(None)) == update_at(
                s,
                p,
                item_at(s, p).with_icon(None),
            )
        }),
{
    let p = locate(s, id);
    let w = item_at(s, p).with_icon(Some(icon));
    lemma_locate_valid(s, id);
    lemma_locate_finds(s, id);
    law_locate_stable_under_edit(s, id, w);
    let t = update_at(s, p, w);
    match p {
        Place::Root(i) => {
            assert(t.update(i, w.with_icon(None)) =~= s.update(i, item_at(s, p).with_icon(None)));
        },
        Place::InGroup(g, k) => {
            let sub = sub_items(s[g]);
            assert(sub_items(t[g]) == sub.update(k, w));
            assert(sub.update(k, w).update(k, w.with_icon(None)) =~= sub.update(
                k,
                item_at(s, p).with_icon(None),
            ));
            assert(t.update(g, t[g].with_items(sub_items(t[g]).update(k, w.with_icon(None))))
                =~= s.update(g, s[g].with_items(sub.update(k, item_at(s, p).with_icon(None)))));
        },
        Place::Nowhere => {},
    }
}

// ─── Moving into groups ─────────────────────────────────

/// Only apps move into groups: moving a group or a folder fails.
pub proof fn law_only_apps_move(s: Seq<ItemView>, item_id: ItemId, group_id: ItemId)
    requires
        !(locate(s, item_id) is Nowhere),
        !(item_at(s, locate(s, item_id)) is App),
    ensures
        move_spec(s, item_id, group_id).1 == Err::<(), Seq<char>>(cannot_move_msg()),
{
}

/// A successful move puts the app, unchanged and with its id, at the end of
/// the target group's contents; an app taken from the root leaves the root
/// one item shorter.
pub proof fn law_move_puts_app_last(s: Seq<ItemView>, item_id: ItemId, group_id: ItemId)
    requires
        move_spec(s, item_id, group_id).1 is Ok,
    ensures
        ({
            let p = locate(s, item_id);
            let mid = remove_at(s, p);
            let t = move_spec(s, item_id, group_id).0;
            let g = first_group(mid, group_id);
            &&& t[g] is Group
            &&& t[g].id() == group_id
            &&& sub_items(t[g]).last() == item_at(s, p)
            &&& item_at(s, p).id() == item_id
            &&& (p is Root ==> t.len() == s.len() - 1)
        }),
{
    let p = locate(s, item_id);
    let mid = remove_at(s, p);
    lemma_locate_finds(s, item_id);
    lemma_locate_valid(s, item_id);
    lemma_taking_an_app_keeps_groups(s, p, group_id);
    lemma_first_group_exists(mid, group_id);
    let g = first_group(mid, group_id);
    let t = move_spec(s, item_id, group_id).0;
    assert(t == mid.update(g, mid[g].with_items(sub_items(mid[g]).push(item_at(s, p)))));
}

// ─── Ids ────────────────────────────────────────────────

/// The ids of a list of items, counted.
pub open spec fn ids_bag(t: Seq<ItemView>) -> Multiset<ItemId>
    decreases t.len(),
{
    if t.len() == 0 {
        Multiset::empty()
    } else {
        ids_bag(t.drop_last()).insert(t.last().id())
    }
}

/// The id of an item and the ids of the items directly inside it.
pub open spec fn node_ids(v: ItemView) -> Multiset<ItemId> {
    Multiset::singleton(v.id()).add(ids_bag(sub_items(v)))
}

/// The ids of the root items and of the contents of the root groups, counted.
pub open spec fn tree_ids(s: Seq<ItemView>) -> Multiset<ItemId>
    decreases s.len(),
{
    if s.len() == 0 {
        Multiset::empty()
    } else {
        tree_ids(s.drop_last()).add(node_ids(s.last()))
    }
}

/// No id occurs twice among the root items and the contents of the root groups.
pub open spec fn ids_distinct(s: Seq<ItemView>) -> bool {
    forall|id: ItemId| #[trigger] tree_ids(s).count(id) <= 1
}

proof fn lemma_ids_bag_concat(a: Seq<ItemView>, b: Seq<ItemView>)
    ensures
        ids_bag(a + b) =~= ids_bag(a).add(ids_bag(b)),
    decreases b.len(),
{
    if b.len() == 0 {
        assert(a + b =~= a);
    } else {
        lemma_ids_bag_concat(a, b.drop_last());
        assert((a + b).drop_last() =~= a + b.drop_last());
        assert((a + b).last() == b.last());
    }
}

proof fn lemma_tree_ids_concat(a: Seq<ItemView>, b: Seq<ItemView>)
    ensures
        tree_ids(a + b) =~= tree_ids(a).add(tree_ids(b)),
    decreases b.len(),
{
    if b.len() == 0 {
        assert(a + b =~= a);
    } else {
        lemma_tree_ids_concat(a, b.drop_last());
        assert((a + b).drop_last() =~= a + b.drop_last());
        assert((a + b).last() == b.last());
    }
}

/// The ids of a list, around one position.
proof fn lemma_ids_bag_split(t: Seq<ItemView>, i: int)
    requires
        0 <= i < t.len(),
    ensures
        ids_bag(t) =~= ids_bag(t.take(i)).insert(t[i].id()).add(ids_bag(t.skip(i + 1))),
        ids_bag(t.remove(i)) =~= ids_bag(t.take(i)).add(ids_bag(t.skip(i + 1))),
{
    let one = seq![t[i]];
    assert(t =~= t.take(i) + one + t.skip(i + 1));
    assert(t.remove(i) =~= t.take(i) + t.skip(i + 1));
    lemma_ids_bag_concat(t.take(i) + one, t.skip(i + 1));
    lemma_ids_bag_concat(t.take(i), one);
    lemma_ids_bag_concat(t.take(i), t.skip(i + 1));
    assert(one.drop_last() =~= Seq::<ItemView>::empty());
    assert(ids_bag(one.drop_last()) == Multiset::<ItemId>::empty());
    assert(one.last() == t[i]);
    assert(ids_bag(one) =~= Multiset::<ItemId>::empty().insert(t[i].id()));
    assert(ids_bag(t.take(i) + one) =~= ids_bag(t.take(i)).insert(t[i].id()));
    assert(ids_bag(t) == ids_bag(t.take(i) + one + t.skip(i + 1)));
}

/// The tree's ids, around one root position.
proof fn lemma_tree_ids_split(s: Seq<ItemView>, i: int)
    requires
        0 <= i < s.len(),
    ensures
        tree_ids(s) =~= tree_ids(s.take(i)).add(node_ids(s[i])).add(tree_ids(s.skip(i + 1))),
{
    let one = seq![s[i]];
    assert(s =~= s.take(i) + one + s.skip(i + 1));
    lemma_tree_ids_concat(s.take(i) + one, s.skip(i + 1));
    lemma_tree_ids_concat(s.take(i), one);
    assert(one.drop_last() =~= Seq::<ItemView>::empty());
    assert(tree_ids(one.drop_last()) == Multiset::<ItemId>::empty());
    assert(one.last() == s[i]);
    assert(tree_ids(one) =~= Multiset::<ItemId>::empty().add(node_ids(s[i])));
    assert(tree_ids(s.take(i) + one) =~= tree_ids(s.take(i)).add(node_ids(s[i])));
    assert(tree_ids(s) == tree_ids(s.take(i) + one + s.skip(i + 1)));
}

/// Replacing a root item changes the tree's ids by the two items' own ids.
proof fn lemma_tree_ids_update(s: Seq<ItemView>, i: int, w: ItemView)
    requires
        0 <= i < s.len(),
    ensures
        tree_ids(s.update(i, w)).add(node_ids(s[i])) =~= tree_ids(s).add(node_ids(w)),
{
    let u = s.update(i, w);
    lemma_tree_ids_split(s, i);
    lemma_tree_ids_split(u, i);
    assert(u.take(i) =~= s.take(i));
    assert(u.skip(i + 1) =~= s.skip(i + 1));
}

/// Removing a root item takes away exactly its own ids.
proof fn lemma_tree_ids_remove(s: Seq<ItemView>, i: int)
    requires
        0 <= i < s.len(),
    ensures
        tree_ids(s.remove(i)).add(node_ids(s[i])) =~= tree_ids(s),
{
    lemma_tree_ids_split(s, i);
    assert(s.remove(i) =~= s.take(i) + s.skip(i + 1));
    lemma_tree_ids_concat(s.take(i), s.skip(i + 1));
}

/// A successful move keeps the ids, counted, of the root items and of the
/// contents of the root groups; a failed move changes nothing. So ids that
/// were distinct stay distinct, whatever the outcome.
pub proof fn law_move_keeps_ids(s: Seq<ItemView>, item_id: ItemId, group_id: ItemId)
    ensures
        move_spec(s, item_id, group_id).1 is Ok ==> tree_ids(move_spec(s, item_id, group_id).0)
            == tree_ids(s),
        move_spec(s, item_id, group_id).1 is Err ==> move_spec(s, item_id, group_id).0 == s,
        ids_distinct(s) ==> ids_distinct(move_spec(s, item_id, group_id).0),
{
    let p = locate(s, item_id);
    if !(p is Nowhere) && item_at(s, p) is App && has_group(s, group_id) {
        lemma_locate_valid(s, item_id);
        let it = item_at(s, p);
        let mid = remove_at(s, p);
        assert(sub_items(it) =~= Seq::<ItemView>::empty());
        assert(node_ids(it) =~= Multiset::singleton(it.id()));
        // Taking the app out removes exactly its id.
        match p {
            Place::Root(i) => {
                lemma_tree_ids_remove(s, i);
                assert(it == s[i]);
                assert(mid == s.remove(i));
                assert(tree_ids(mid).insert(it.id()) =~= tree_ids(s));
            },
            Place::InGroup(g, k) => {
                let sub = sub_items(s[g]);
                let w = s[g].with_items(sub.remove(k));
                lemma_ids_bag_split(sub, k);
                assert(it == sub[k]);
                assert(sub_items(w) == sub.remove(k));
                assert(w.id() == s[g].id());
                assert(node_ids(s[g]) =~= node_ids(w).insert(it.id()));
                lemma_tree_ids_update(s, g, w);
                assert(mid == s.update(g, w));
                let a = tree_ids(mid);
                assert(a.add(node_ids(s[g])) == tree_ids(s).add(node_ids(w)));
                assert forall|id: ItemId| #[trigger] a.insert(it.id()).count(id) == tree_ids(
                    s,
                ).count(id) by {
                    assert(a.add(node_ids(s[g])).count(id) == tree_ids(s).add(node_ids(w)).count(
                        id,
                    ));
                    assert(node_ids(s[g]).count(id) == node_ids(w).insert(it.id()).count(id));
                }
                assert(tree_ids(mid).insert(it.id()) =~= tree_ids(s));
            },
            Place::Nowhere => {},
        }
        assert(tree_ids(mid).insert(it.id()) =~= tree_ids(s));
        // Appending it to the target group adds exactly its id.
        lemma_taking_an_app_keeps_groups(s, p, group_id);
        lemma_first_group_exists(mid, group_id);
        let g = first_group(mid, group_id);
        let sub = sub_items(mid[g]);
        let w = mid[g].with_items(sub.push(it));
        assert(sub.push(it).drop_last() =~= sub);
        assert(sub_items(w) == sub.push(it));
        assert(node_ids(w) =~= node_ids(mid[g]).insert(it.id()));
        lemma_tree_ids_update(mid, g, w);
        let t = move_spec(s, item_id, group_id).0;
        assert(t == mid.update(g, w));
        let m = tree_ids(mid);
        assert(m.insert(it.id()) == tree_ids(s));
        assert forall|id: ItemId| #[trigger] tree_ids(t).count(id) == tree_ids(s).count(id) by {
            assert(tree_ids(t).add(node_ids(mid[g])).count(id) == m.add(node_ids(w)).count(id));
            assert(node_ids(w).count(id) == node_ids(mid[g]).insert(it.id()).count(id));
            assert(m.insert(it.id()).count(id) == tree_ids(s).count(id));
        }
        assert(tree_ids(t) =~= tree_ids(s));
    }
}

// ─── Groups stay flat ───────────────────────────────────

/// No group contains a group.
pub open spec fn is_flat(s: Seq<ItemView>) -> bool {
    forall|i: int, k: int|
        #![trigger sub_items(s[i])[k]]
        0 <= i < s.len() && 0 <= k < sub_items(s[i]).len() ==> !(sub_items(s[i])[k] is Group)
}

/// Adding an app, a folder, or an empty group at the root keeps groups flat.
pub proof fn law_flat_after_add(s: Seq<ItemView>, v: ItemView)
    requires
        is_flat(s),
        sub_items(v).len() == 0,
    ensures
        is_flat(s.push(v)),
{
    let t = s.push(v);
    assert forall|i: int, k: int|
        0 <= i < t.len() && 0 <= k < sub_items(t[i]).len() implies !(#[trigger] sub_items(
        t[i],
    )[k] is Group) by {
        if i < s.len() {
            assert(t[i] == s[i]);
        }
    }
}

/// Adding an app or folder to a group keeps groups flat.
pub proof fn law_flat_after_add_to_group(s: Seq<ItemView>, gid: ItemId, v: ItemView)
    requires
        is_flat(s),
        has_group(s, gid),
        !(v is Group),
    ensures
        is_flat(push_into_group(s, gid, v)),
{
    lemma_first_group_exists(s, gid);
    let g = first_group(s, gid);
    let t = push_into_group(s, gid, v);
    assert forall|i: int, k: int|
        0 <= i < t.len() && 0 <= k < sub_items(t[i]).len() implies !(#[trigger] sub_items(
        t[i],
    )[k] is Group) by {
        if i != g {
            assert(t[i] == s[i]);
        } else if k < sub_items(s[g]).len() {
            assert(sub_items(t[i])[k] == sub_items(s[g])[k]);
        }
    }
}

/// Removing an item keeps groups flat.
pub proof fn law_flat_after_remove(s: Seq<ItemView>, id: ItemId)
    requires
        is_flat(s),
    ensures
        is_flat(remove_at(s, locate(s, id))),
{
    let p = locate(s, id);
    let t = remove_at(s, p);
    match p {
        Place::Root(i) => {
            lemma_first_id_exists(s, id);
            assert forall|j: int, k: int|
                0 <= j < t.len() && 0 <= k < sub_items(t[j]).len() implies !(#[trigger] sub_items(
                t[j],
            )[k] is Group) by {
                if j < i {
                    assert(t[j] == s[j]);
                } else {
                    assert(t[j] == s[j + 1]);
                }
            }
        },
        Place::InGroup(g, kk) => {
            lemma_first_holder_exists(s, id);
            lemma_first_id_exists(sub_items(s[g]), id);
            assert forall|j: int, k: int|
                0 <= j < t.len() && 0 <= k < sub_items(t[j]).len() implies !(#[trigger] sub_items(
                t[j],
            )[k] is Group) by {
                if j != g {
                    assert(t[j] == s[j]);
                } else if k < kk {
                    assert(sub_items(t[j])[k] == sub_items(s[g])[k]);
                } else {
                    assert(sub_items(t[j])[k] == sub_items(s[g])[k + 1]);
                }
            }
        },
        Place::Nowhere => {},
    }
}

/// Renaming an item or changing its icon keeps groups flat.
pub proof fn law_flat_after_edit(s: Seq<ItemView>, id: ItemId, w: ItemView)
    requires
        is_flat(s),
        !(locate(s, id) is Nowhere),
        keeps_shape(item_at(s, locate(s, id)), w),
    ensures
        is_flat(update_at(s, locate(s, id), w)),
{
    let p = locate(s, id);
    let t = update_at(s, p, w);
    match p {
        Place::Root(i) => {
            lemma_first_id_exists(s, id);
            assert forall|j: int, k: int|
                0 <= j < t.len() && 0 <= k < sub_items(t[j]).len() implies !(#[trigger] sub_items(
                t[j],
            )[k] is Group) by {
                if j != i {
                    assert(t[j] == s[j]);
                } else {
                    assert(sub_items(t[j]) == sub_items(s[i]));
                }
            }
        },
        Place::InGroup(g, kk) => {
            lemma_first_holder_exists(s, id);
            lemma_first_id_exists(sub_items(s[g]), id);
            assert(!(item_at(s, p) is Group)) by {
                assert(sub_items(s[g])[kk] == item_at(s, p));
            }
            assert forall|j: int, k: int|
                0 <= j < t.len() && 0 <= k < sub_items(t[j]).len() implies !(#[trigger] sub_items(
                t[j],
            )[k] is Group) by {
                if j != g {
                    assert(t[j] == s[j]);
                } else if k != kk {
                    assert(sub_items(t[j])[k] == sub_items(s[g])[k]);
                }
            }
        },
        Place::Nowhere => {},
    }
}

/// Moving an item into a group keeps groups flat, whatever the outcome.
pub proof fn law_flat_after_move(s: Seq<ItemView>, item_id: ItemId, group_id: ItemId)
    requires
        is_flat(s),
    ensures
        is_flat(move_spec(s, item_id, group_id).0),
{
    let p = locate(s, item_id);
    if !(p is Nowhere) && item_at(s, p) is App && has_group(s, group_id) {
        lemma_locate_valid(s, item_id);
        law_flat_after_remove(s, item_id);
        let mid = remove_at(s, p);
        lemma_taking_an_app_keeps_groups(s, p, group_id);
        law_flat_after_add_to_group(mid, group_id, item_at(s, p));
    }
}

/// Deleting a group keeps groups flat, whatever the outcome.
pub proof fn law_flat_after_delete_group(s: Seq<ItemView>, group_id: ItemId)
    requires
        is_flat(s),
    ensures
        is_flat(delete_group_spec(s, group_id).0),
{
    if has_id(s, group_id) {
        lemma_first_id_exists(s, group_id);
        assert(locate(s, group_id) == Place::Root(first_id(s, group_id)));
        law_flat_after_remove(s, group_id);
    }
}

// ─── Reordering ─────────────────────────────────────────

/// Swapping the same two positions twice at a navigation level gives back
/// the items as they were.
pub proof fn law_swap_twice(s: Seq<ItemView>, nav: Seq<ItemId>, a: int, b: int)
    requires
        0 <= a,
        0 <= b,
    ensures
        reorder_spec(reorder_spec(s, nav, a, b).0, nav, a, b).0 == s,
{
    let t = reorder_spec(s, nav, a, b).0;
    if nav.len() > 0 && has_group(s, nav.last()) {
        let gid = nav.last();
        lemma_first_group_exists(s, gid);
        let g = first_group(s, gid);
        let sub = sub_items(s[g]);
        if a < sub.len() && b < sub.len() {
            assert forall|h: int| 0 <= h < g implies !is_group_with(#[trigger] t[h], gid) by {
                assert(t[h] == s[h]);
            }
            assert(is_group_with(t[g], gid));
            lemma_first_group(t, gid, g);
            assert(sub_items(t[g]) == swapped(sub, a, b));
            assert(swapped(swapped(sub, a, b), a, b) =~= sub);
            assert(t[g].with_items(sub) == s[g]);
            assert(t.update(g, t[g].with_items(swapped(swapped(sub, a, b), a, b))) =~= s);
        }
    } else if a < s.len() && b < s.len() {
        assert(t == swapped(s, a, b));
        if nav.len() > 0 && has_group(t, nav.last()) {
            let gid = nav.last();
            let h = choose|h: int| 0 <= h < t.len() && is_group_with(#[trigger] t[h], gid);
            if h == a {
                assert(is_group_with(s[b], gid));
            } else if h == b {
                assert(is_group_with(s[a], gid));
            } else {
                assert(is_group_with(s[h], gid));
            }
        }
        assert(swapped(t, a, b) =~= s);
    }
}

// ─── Keyboard selection ─────────────────────────────────

/// Within the level: `None`, or a cell between the first and the last.
pub open spec fn in_level(sel: Option<int>, max: int) -> bool {
    match sel {
        Some(i) => 0 <= i <= max,
        None => true,
    }
}

/// The arrow keys keep the selection within the level, and any arrow selects
/// a cell.
pub proof fn law_arrows_stay_in_level(
    sel: Option<int>,
    k: crate::launcher::KeyPresses,
    cols: int,
    max: int,
)
    requires
        0 <= max,
        0 <= cols,
        in_level(sel, max),
    ensures
        in_level(after_arrows(sel, k, cols, max), max),
        (k.right || k.left || k.down || k.up) ==> after_arrows(sel, k, cols, max) is Some,
{
}

// ─── Themes ─────────────────────────────────────────────

pub proof fn lemma_names_match_equivalence(a: Seq<char>, b: Seq<char>, c: Seq<char>)
    ensures
        names_match(a, a),
        names_match(a, b) ==> names_match(b, a),
        names_match(a, b) && names_match(b, c) ==> names_match(a, c),
{
}

/// Selecting a theme by either of two names that match ignoring ASCII case
/// resolves to the same theme.
pub proof fn law_theme_selection_ignores_case(themes: Seq<ThemeView>, n1: Seq<char>, n2: Seq<char>)
    requires
        names_match(n1, n2),
    ensures
        resolve_theme_spec(themes, Some(n1)) == resolve_theme_spec(themes, Some(n2)),
{
    if has_named(themes, n1) {
        lemma_first_named_exists(themes, n1);
        let i = choose|i: int| is_first_named(themes, n1, i);
        assert forall|j: int| 0 <= j <= i implies names_match(#[trigger] themes[j].name, n1)
            == names_match(themes[j].name, n2) by {
            lemma_names_match_equivalence(themes[j].name, n1, n2);
            lemma_names_match_equivalence(themes[j].name, n2, n1);
            lemma_names_match_equivalence(n1, n2, n2);
        }
        lemma_first_named(themes, n1, i);
        lemma_first_named(themes, n2, i);
    } else {
        if has_named(themes, n2) {
            let j = choose|j: int| 0 <= j < themes.len() && names_match(#[trigger] themes[j].name, n2);
            lemma_names_match_equivalence(themes[j].name, n2, n1);
            lemma_names_match_equivalence(n1, n2, n2);
            assert(names_match(themes[j].name, n1));
        }
    }
}

/// When some theme has the name, there is a first one.
pub proof fn lemma_first_named_exists(themes: Seq<ThemeView>, n: Seq<char>)
    requires
        has_named(themes, n),
    ensures
        exists|i: int| is_first_named(themes, n, i),
    decreases themes.len(),
{
    if names_match(themes[0].name, n) {
        assert(is_first_named(themes, n, 0));
    } else {
        let t = themes.drop_first();
        let j = choose|j: int| 0 <= j < themes.len() && names_match(#[trigger] themes[j].name, n);
        assert(names_match(t[j - 1].name, n));
        lemma_first_named_exists(t, n);
        let i = choose|i: int| is_first_named(t, n, i);
        assert forall|k: int| 0 <= k < i + 1 implies !names_match(#[trigger] themes[k].name, n) by {
            if k > 0 {
                assert(themes[k] == t[k - 1]);
            }
        }
        assert(is_first_named(themes, n, i + 1));
    }
}

/// An unknown theme name, or no selection, gives the default theme.
pub proof fn law_unknown_theme_is_default(themes: Seq<ThemeView>, n: Option<Seq<char>>)
    requires
        n is None || !has_named(themes, n->0),
    ensures
        resolve_theme_spec(themes, n) == default_theme_view(),
{
}

/// A found theme keeps its name, and every colour and layout field the
/// default theme has is filled in.
pub proof fn law_resolved_theme_is_complete(themes: Seq<ThemeView>, n: Seq<char>)
    requires
        has_named(themes, n),
    ensures
        ({
            let t = resolve_theme_spec(themes, Some(n));
            &&& names_match(t.name, n)
            &&& t.header_color is Some
            &&& t.body_color is Some
            &&& t.widget_color is Some
            &&& t.selection_color is Some
            &&& t.divider_color is Some
            &&& t.corner_radius is Some
            &&& t.grid_spacing is Some
            &&& t.grid_icon_size is Some
        }),
{
    lemma_first_named_exists(themes, n);
    let i = choose|i: int| is_first_named(themes, n, i);
    lemma_first_named(themes, n, i);
}

/// Merging the built-in themes keeps every theme already present, in place.
pub proof fn law_merge_keeps_themes(themes: Seq<ThemeView>, builtins: Seq<ThemeView>)
    ensures
        merge_themes_spec(themes, builtins).len() >= themes.len(),
        merge_themes_spec(themes, builtins).subrange(0, themes.len() as int) == themes,
    decreases builtins.len(),
{
    if builtins.len() > 0 {
        let next = if has_named(themes, builtins[0].name) {
            themes
        } else {
            themes.push(builtins[0])
        };
        law_merge_keeps_themes(next, builtins.drop_first());
        let r = merge_themes_spec(next, builtins.drop_first());
        assert(r.subrange(0, themes.len() as int) =~= r.subrange(0, next.len() as int).subrange(
            0,
            themes.len() as int,
        ));
        assert(next.subrange(0, themes.len() as int) =~= themes);
    } else {
        assert(themes.subrange(0, themes.len() as int) =~= themes);
    }
}

proof fn lemma_named_in_prefix(a: Seq<ThemeView>, b: Seq<ThemeView>, n: Seq<char>)
    requires
        has_named(a, n),
        b.len() >= a.len(),
        b.subrange(0, a.len() as int) == a,
    ensures
        has_named(b, n),
{
    let i = choose|i: int| 0 <= i < a.len() && names_match(#[trigger] a[i].name, n);
    assert(b[i] == b.subrange(0, a.len() as int)[i]);
    assert(names_match(b[i].name, n));
}

/// After merging, every built-in theme's name is present.
pub proof fn law_merge_has_every_builtin(themes: Seq<ThemeView>, builtins: Seq<ThemeView>, k: int)
    requires
        0 <= k < builtins.len(),
    ensures
        has_named(merge_themes_spec(themes, builtins), builtins[k].name),
    decreases builtins.len(),
{
    let next = if has_named(themes, builtins[0].name) {
        themes
    } else {
        themes.push(builtins[0])
    };
    let rest = builtins.drop_first();
    if k == 0 {
        if !has_named(themes, builtins[0].name) {
            lemma_names_match_equivalence(builtins[0].name, builtins[0].name, builtins[0].name);
            assert(next[themes.len() as int] == builtins[0]);
            assert(names_match(next[themes.len() as int].name, builtins[0].name));
        }
        assert(has_named(next, builtins[0].name));
        law_merge_keeps_themes(next, rest);
        lemma_named_in_prefix(next, merge_themes_spec(next, rest), builtins[0].name);
    } else {
        assert(rest[k - 1] == builtins[k]);
        law_merge_has_every_builtin(next, rest, k - 1);
    }
}

/// Merging adds nothing when every built-in name is already present, so
/// merging twice is the same as merging once.
pub proof fn law_merge_twice(themes: Seq<ThemeView>)
    ensures
        merge_themes_spec(merge_themes_spec(themes, builtin_themes_view()), builtin_themes_view())
            == merge_themes_spec(themes, builtin_themes_view()),
{
    let b = builtin_themes_view();
    let m = merge_themes_spec(themes, b);
    assert forall|k: int| 0 <= k < b.len() implies has_named(m, #[trigger] b[k].name) by {
        law_merge_has_every_builtin(themes, b, k);
    }
    lemma_merge_present(m, b);
}

// ─── Colours and names ──────────────────────────────────

/// One leading `#` is optional: it does not change how a colour parses.
pub proof fn law_hash_prefix_optional(bytes: Seq<u8>)
    requires
        !(bytes.len() > 0 && bytes[0] == 35u8),
    ensures
        parse_hex_bytes(seq![35u8] + bytes) == parse_hex_bytes(bytes),
{
    assert((seq![35u8] + bytes).drop_first() =~= bytes);
}

/// A second leading `#` makes the text no colour.
pub proof fn law_one_hash_only(bytes: Seq<u8>)
    ensures
        parse_hex_bytes(seq![35u8, 35u8] + bytes) is None,
{
    let t = seq![35u8, 35u8] + bytes;
    assert(t.drop_first()[0] == 35u8);
}

/// The name chosen for a new group is one no existing group has, unless the
/// base name and all of its numbered forms 1 to 99 are taken.
pub proof fn law_unique_name_is_new(base: Seq<char>, names: Seq<Seq<char>>)
    requires
        !names_contain(names, base) || exists|i: int| is_first_free(base, names, i),
    ensures
        !names_contain(names, unique_name_spec(base, names)),
{
}

// ─── Pixels ─────────────────────────────────────────────

/// Exchanging red and blue twice gives back the pixels as they were.
pub proof fn law_channel_swap_twice(s: Seq<u8>)
    ensures
        red_blue_swapped(red_blue_swapped(s)) == s,
{
    assert(red_blue_swapped(red_blue_swapped(s)) =~= s);
}

// ─── Search ─────────────────────────────────────────────

/// Every search result's title matches the query.
pub proof fn law_search_results_match(s: Seq<ItemView>, query: Seq<char>)
    ensures
        forall|k: int|
            0 <= k < search_spec(s, query).len() ==> title_matches(
                #[trigger] search_spec(s, query)[k].title(),
                query,
            ),
    decreases s,
{
    if s.len() > 0 {
        let v = s.last();
        let a = search_spec(s.drop_last(), query);
        law_search_results_match(s.drop_last(), query);
        let here: Seq<ItemView> = if title_matches(v.title(), query) {
            seq![v]
        } else {
            Seq::empty()
        };
        let inner: Seq<ItemView> = match v {
            ItemView::Group { items, .. } => search_spec(items, query),
            _ => Seq::empty(),
        };
        match v {
            ItemView::Group { items, .. } => {
                assert(decreases_to!(s => s[s.len() - 1]));
                law_search_results_match(items, query);
            },
            _ => {},
        }
        let r = search_spec(s, query);
        assert(r == a + here + inner);
        assert forall|k: int| 0 <= k < r.len() implies title_matches(#[trigger] r[k].title(), query) by {
            if k < a.len() {
                assert(r[k] == a[k]);
            } else if k < a.len() + here.len() {
                assert(r[k] == here[k - a.len()]);
            } else {
                assert(r[k] == inner[k - a.len() - here.len()]);
            }
        }
    }
}

// ─── Search: what a match is ───────────────────────────

/// A query occurring anywhere in a text's bytes is found, the occurrence
/// that ends at the text's last byte included.
pub proof fn law_occurrence_is_found(t: Seq<u8>, q: Seq<u8>, i: int)
    requires
        0 <= i,
        i + q.len() <= t.len(),
        t.subrange(i, i + q.len()) == q,
    ensures
        bytes_contain(t, q),
{
    assert(occurs_at(t, q, i));
}

/// Every title matches itself, and matches any query found at its end.
pub proof fn law_title_matches_itself(title: Seq<char>)
    ensures
        title_matches(title, title),
{
    let b = encode_utf8(lowercase_of(title));
    assert(b.subrange(0, b.len() as int) =~= b);
    law_occurrence_is_found(b, b, 0);
}

/// A root item whose title matches the query is among the search results,
/// and so is an item directly inside a root group whose title matches.
pub proof fn law_matching_items_are_found(s: Seq<ItemView>, query: Seq<char>, k: int)
    requires
        0 <= k < s.len(),
    ensures
        title_matches(s[k].title(), query) ==> search_spec(s, query).contains(s[k]),
        forall|j: int|
            0 <= j < sub_items(s[k]).len() && title_matches(
                #[trigger] sub_items(s[k])[j].title(),
                query,
            ) ==> search_spec(s, query).contains(sub_items(s[k])[j]),
    decreases s,
{
    let v = s.last();
    let a = search_spec(s.drop_last(), query);
    let here: Seq<ItemView> = if title_matches(v.title(), query) {
        seq![v]
    } else {
        Seq::empty()
    };
    let inner: Seq<ItemView> = match v {
        ItemView::Group { items, .. } => search_spec(items, query),
        _ => Seq::empty(),
    };
    let r = search_spec(s, query);
    assert(r == a + here + inner);
    if k < s.len() - 1 {
        law_matching_items_are_found(s.drop_last(), query, k);
        assert(s.drop_last()[k] == s[k]);
        if title_matches(s[k].title(), query) {
            let x = choose|x: int| 0 <= x < a.len() && a[x] == s[k];
            assert(r[x] == s[k]);
        }
        assert forall|j: int|
            0 <= j < sub_items(s[k]).len() && title_matches(
                #[trigger] sub_items(s[k])[j].title(),
                query,
            ) implies r.contains(sub_items(s[k])[j]) by {
            assert(sub_items(s.drop_last()[k])[j] == sub_items(s[k])[j]);
            let x = choose|x: int| 0 <= x < a.len() && a[x] == sub_items(s[k])[j];
            assert(r[x] == sub_items(s[k])[j]);
        }
    } else {
        if title_matches(s[k].title(), query) {
            assert(r[a.len() as int] == s[k]);
        }
        assert forall|j: int|
            0 <= j < sub_items(s[k]).len() && title_matches(
                #[trigger] sub_items(s[k])[j].title(),
                query,
            ) implies r.contains(sub_items(s[k])[j]) by {
            if let ItemView::Group { items, .. } = v {
                assert(decreases_to!(s => s[s.len() - 1]));
                law_matching_items_are_found(items, query, j);
                let x = choose|x: int| 0 <= x < inner.len() && inner[x] == items[j];
                assert(r[a.len() + here.len() + x] == items[j]);
            }
        }
    }
}

// ─── Themes: each field of a resolved theme ─────────────

/// A found theme resolves field by field: its name; each colour, the corner
/// radius and the grid sizes from the theme when it sets them, else from the
/// default theme.
pub proof fn law_resolved_fields(themes: Seq<ThemeView>, n: Seq<char>)
    requires
        has_named(themes, n),
    ensures
        ({
            let t = themes[first_named(themes, n)];
            let d = default_theme_view();
            let r = resolve_theme_spec(themes, Some(n));
            &&& r.name == t.name
            &&& r.header_color == (if t.header_color is Some {
                t.header_color
            } else {
                d.header_color
            })
            &&& r.body_color == (if t.body_color is Some {
                t.body_color
            } else {
                d.body_color
            })
            &&& r.widget_color == (if t.widget_color is Some {
                t.widget_color
            } else {
                d.widget_color
            })
            &&& r.selection_color == (if t.selection_color is Some {
                t.selection_color
            } else {
                d.selection_color
            })
            &&& r.divider_color == (if t.divider_color is Some {
                t.divider_color
            } else {
                d.divider_color
            })
            &&& r.text_color == (if t.text_color is Some {
                t.text_color
            } else {
                d.text_color
            })
            &&& r.corner_radius == (if t.corner_radius is Some {
                t.corner_radius
            } else {
                d.corner_radius
            })
            &&& r.grid_spacing == (if t.grid_spacing is Some {
                t.grid_spacing
            } else {
                d.grid_spacing
            })
            &&& r.grid_icon_size == (if t.grid_icon_size is Some {
                t.grid_icon_size
            } else {
                d.grid_icon_size
            })
        }),
{
}

// ─── Dropped files: the extension's case ────────────────

/// Whether a dropped file becomes an app depends on its extension only up to
/// case: two paths whose extensions lower-case alike are both launchable or
/// neither.
pub proof fn law_launchable_ignores_extension_case(p1: Seq<char>, p2: Seq<char>)
    requires
        lowercase_of(text_or(extension_of(p1), Seq::empty())) == lowercase_of(
            text_or(extension_of(p2), Seq::empty()),
        ),
    ensures
        is_launchable(p1) == is_launchable(p2),
        forall|id: ItemId|
            (#[trigger] dropped_item(p1, false, id)) is Some <==> dropped_item(p2, false, id) is Some,
{
}

// ─── Arrow keys one by one ──────────────────────────────

pub open spec fn only_keys(right: bool, left: bool, down: bool, up: bool) -> KeyPresses {
    KeyPresses { right, left, down, up, enter: false, backspace: false }
}

/// Each arrow alone, from nothing selected or from cell `i` of a level whose
/// last cell is `max` (`cols` cells per row): right goes to `i + 1` but not
/// past `max`, and selects the first cell from nothing; left goes to `i - 1`
/// but not below 0, and selects the last cell from nothing; down goes to
/// `i + cols` but not past `max`, and up to `i - cols` or else the first
/// cell, both selecting the first cell from nothing.
pub proof fn law_single_arrows(sel: Option<int>, cols: int, max: int)
    requires
        0 <= cols,
        0 <= max,
        sel matches Some(i) ==> 0 <= i <= max,
    ensures
        after_arrows(sel, only_keys(true, false, false, false), cols, max) == Some(
            match sel {
                None => 0,
                Some(i) => if i + 1 <= max {
                    i + 1
                } else {
                    max
                },
            },
        ),
        after_arrows(sel, only_keys(false, true, false, false), cols, max) == Some(
            match sel {
                None => max,
                Some(i) => if i >= 1 {
                    i - 1
                } else {
                    0
                },
            },
        ),
        after_arrows(sel, only_keys(false, false, true, false), cols, max) == Some(
            match sel {
                None => 0,
                Some(i) => if i + cols <= max {
                    i + cols
                } else {
                    max
                },
            },
        ),
        after_arrows(sel, only_keys(false, false, false, true), cols, max) == Some(
            match sel {
                None => 0,
                Some(i) => if i >= cols {
                    i - cols
                } else {
                    0
                },
            },
        ),
{
}

} // verus!
