//! Searching the item tree by title.
//!
//! A title matches when its lower-cased text contains the lower-cased query.
//! Texts are compared as UTF-8, where containment of the bytes is containment
//! of the characters.
use crate::models::{item_view, items_view, lemma_items_view, lemma_items_view_push, ItemView, LaunchItem};
use crate::paths::{lowercase_of, to_lowercase};
use vstd::prelude::*;
use vstd::utf8::encode_utf8;

verus! {

broadcast use lemma_items_view;

/// `q` occurs in `t` at position `i`.
pub open spec fn occurs_at(t: Seq<u8>, q: Seq<u8>, i: int) -> bool {
    0 <= i && i + q.len() <= t.len() && t.subrange(i, i + q.len()) == q
}

/// `q` occurs somewhere in `t`.
pub open spec fn bytes_contain(t: Seq<u8>, q: Seq<u8>) -> bool {
    exists|i: int| #[trigger] occurs_at(t, q, i)
}

/// A title matches a query: its lower-cased text contains the lower-cased query.
pub open spec fn title_matches(title: Seq<char>, query: Seq<char>) -> bool {
    bytes_contain(encode_utf8(lowercase_of(title)), encode_utf8(lowercase_of(query)))
}

/// The items matching a query, in tree order: each item that matches,
/// followed by the matches inside it when it is a group.
pub open spec fn search_spec(s: Seq<ItemView>, query: Seq<char>) -> Seq<ItemView>
    decreases s,
{
    if s.len() == 0 {
        Seq::empty()
    } else {
        let v = s.last();
        let here: Seq<ItemView> = if title_matches(v.title(), query) {
            seq![v]
        } else {
            Seq::empty()
        };
        let inner: Seq<ItemView> = match v {
            ItemView::Group { items, .. } => {
                proof {
                    assert(decreases_to!(s => s[s.len() - 1]));
                }
                search_spec(items, query)
            },
            _ => Seq::empty(),
        };
        search_spec(s.drop_last(), query) + here + inner
    }
}

fn occurs_at_exec(t: &[u8], q: &[u8], i: usize) -> (r: bool)
    requires
        i + q@.len() <= t@.len(),
    ensures
        r == occurs_at(t@, q@, i as int),
{
    let n = t.len();
    let mut k: usize = 0;
    while k < q.len()
        invariant
            n == t@.len(),
            i + q@.len() <= t@.len(),
            k <= q@.len(),
            forall|j: int| 0 <= j < k ==> t@[i + j] == q@[j],
        decreases q@.len() - k,
    {
        if t[i + k] != q[k] {
            assert(t@.subrange(i as int, i + q@.len())[k as int] != q@[k as int]);
            return false;
        }
        k += 1;
    }
    assert(t@.subrange(i as int, i + q@.len()) =~= q@);
    true
}

/// Whether `q` occurs in `t`.
fn contains_bytes(t: &[u8], q: &[u8]) -> (r: bool)
    ensures
        r == bytes_contain(t@, q@),
{
    if q.len() > t.len() {
        assert(forall|i: int| !(#[trigger] occurs_at(t@, q@, i)));
        return false;
    }
    let last = t.len() - q.len();
    let mut i: usize = 0;
    while i < last
        invariant
            last == t@.len() - q@.len(),
            q@.len() <= t@.len(),
            i <= last,
            forall|j: int| 0 <= j < i ==> !#[trigger] occurs_at(t@, q@, j),
        decreases last - i,
    {
        if occurs_at_exec(t, q, i) {
            return true;
        }
        i += 1;
    }
    if occurs_at_exec(t, q, last) {
        return true;
    }
    assert(forall|j: int| !(#[trigger] occurs_at(t@, q@, j)));
    false
}

/// Appends the items of `items` matching the query to `out`; `lower_query`
/// holds the lower-cased query's UTF-8 bytes.
fn collect_matches(
    items: &[LaunchItem],
    query: &str,
    lower_query: &[u8],
    out: &mut Vec<LaunchItem>,
)
    requires
        lower_query@ == encode_utf8(lowercase_of(query@)),
    ensures
        items_view(final(out)@) == items_view(old(out)@) + search_spec(items_view(items@), query@),
    decreases items@,
{
    let ghost s = items_view(items@);
    let ghost start = items_view(out@);
    let mut i: usize = 0;
    assert(s.take(0) =~= Seq::<ItemView>::empty());
    assert(start + Seq::<ItemView>::empty() =~= start);
    while i < items.len()
        invariant
            i <= items@.len(),
            s == items_view(items@),
            lower_query@ == encode_utf8(lowercase_of(query@)),
            items_view(out@) == start + search_spec(s.take(i as int), query@),
        decreases items@.len() - i,
    {
        let it = &items[i];
        let ghost v = s[i as int];
        assert(v == item_view(items@[i as int]));
        let ghost before = items_view(out@);
        let lower_title = to_lowercase(it.title());
        let found = contains_bytes(lower_title.as_str().as_bytes(), lower_query);
        if found {
            let c = it.clone();
            let ghost raw = out@;
            out.push(c);
            proof {
                lemma_items_view_push(raw, c);
            }
        }
        let ghost here: Seq<ItemView> = if title_matches(v.title(), query@) {
            seq![v]
        } else {
            Seq::empty()
        };
        assert(items_view(out@) =~= before + here);
        let ghost mid = items_view(out@);
        if let LaunchItem::Group(g) = it {
            proof {
                assert(decreases_to!(items@ => items@[i as int]));
                assert(decreases_to!(g.items => g.items@));
            }
            collect_matches(g.items.as_slice(), query, lower_query, out);
        }
        let ghost inner: Seq<ItemView> = match v {
            ItemView::Group { items, .. } => search_spec(items, query@),
            _ => Seq::empty(),
        };
        assert(items_view(out@) =~= mid + inner);
        proof {
            let t = s.take(i + 1);
            assert(t.drop_last() =~= s.take(i as int));
            assert(t.last() == v);
            assert(search_spec(t, query@) == search_spec(s.take(i as int), query@) + here + inner);
            assert(items_view(out@) =~= start + search_spec(t, query@));
        }
        i += 1;
    }
    assert(s.take(s.len() as int) =~= s);
}

/// All items whose title contains the query, ignoring case: root items and
/// the items inside groups, in tree order (see `search_spec`).
pub fn search_all_items(items: &[LaunchItem], query: &str) -> (r: Vec<LaunchItem>)
    ensures
        items_view(r@) == search_spec(items_view(items@), query@),
{
    let lower_query = to_lowercase(query);
    let mut out: Vec<LaunchItem> = Vec::new();
    assert(items_view(out@) =~= Seq::<ItemView>::empty());
    collect_matches(items, query, lower_query.as_str().as_bytes(), &mut out);
    assert(Seq::<ItemView>::empty() + search_spec(items_view(items@), query@) =~= search_spec(
        items_view(items@),
        query@,
    ));
    out
}

} // verus!
