//! What the launcher screen shows and reports: card titles, and the answer
//! to the clicks of one grid frame.
use crate::models::{ItemId, LaunchItem};
use crate::platform::GridOutput;
use vstd::prelude::*;
use vstd::string::StrSliceExecFns;

verus! {

// ─── Card titles ────────────────────────────────────────

/// A title as a card shows it: one longer than `max` characters is cut to
/// its first `max` characters followed by "…".
pub open spec fn shown_title(title: Seq<char>, max: nat) -> Seq<char> {
    if title.len() > max {
        title.take(max as int) + "…"@
    } else {
        title
    }
}

/// The title of a card, shortened to `max` characters (see `shown_title`).
pub fn display_title(title: &str, max: usize) -> (r: String)
    ensures
        r@ == shown_title(title@, max as nat),
{
    if title.unicode_len() > max {
        let head = title.substring_char(0, max);
        assert(head@ =~= title@.take(max as int));
        let mut s = String::from_str(head);
        s.append("…");
        s
    } else {
        String::from_str(title)
    }
}

// ─── Launcher response ──────────────────────────────────

/// Renders the launcher: a navigation bar and the grid of the current level.
pub struct LauncherUI;

/// What one frame of the launcher reports.
#[derive(Debug, Clone, Copy, PartialEq, Eq, Structural)]
pub struct LauncherResponse {
    pub clicked_index: Option<usize>,
    pub clicked_id: Option<ItemId>,
    pub double_clicked_id: Option<ItemId>,
}

impl Default for LauncherResponse {
    fn default() -> (r: Self)
        ensures
            r == (LauncherResponse { clicked_index: None, clicked_id: None, double_clicked_id: None }),
    {
        LauncherResponse { clicked_index: None, clicked_id: None, double_clicked_id: None }
    }
}

/// The last index in `idx` below `n`, if any.
pub open spec fn last_below(idx: Seq<usize>, n: nat) -> Option<usize>
    decreases idx.len(),
{
    if idx.len() == 0 {
        None
    } else if (idx.last() as nat) < n {
        Some(idx.last())
    } else {
        last_below(idx.drop_last(), n)
    }
}

/// The id of the item at an optional index.
pub open spec fn id_at(items: Seq<LaunchItem>, i: Option<usize>) -> Option<ItemId> {
    match i {
        Some(k) => Some(items[k as int]@.id()),
        None => None,
    }
}

proof fn lemma_last_below_bound(idx: Seq<usize>, n: nat)
    ensures
        last_below(idx, n) matches Some(k) ==> (k as nat) < n,
    decreases idx.len(),
{
    if idx.len() > 0 {
        lemma_last_below_bound(idx.drop_last(), n);
    }
}

/// The last index of `idx` that is below `n`.
fn last_index_below(idx: &Vec<usize>, n: usize) -> (r: Option<usize>)
    ensures
        r == last_below(idx@, n as nat),
{
    let mut k: usize = idx.len();
    assert(idx@.take(k as int) =~= idx@);
    while k > 0
        invariant
            k <= idx@.len(),
            last_below(idx@, n as nat) == last_below(idx@.take(k as int), n as nat),
        decreases k,
    {
        let i = idx[k - 1];
        assert(idx@.take(k as int).drop_last() =~= idx@.take(k - 1));
        if i < n {
            return Some(i);
        }
        k -= 1;
    }
    assert(idx@.take(0) =~= Seq::<usize>::empty());
    None
}

impl LauncherUI {
    /// The launcher's answer to the clicks of a grid frame over `items`: the
    /// last clicked cell that holds an item, with its id, and the id of the
    /// last double-clicked cell that holds an item.
    pub fn response_for(items: &[LaunchItem], output: &GridOutput) -> (r: LauncherResponse)
        ensures
            r.clicked_index == last_below(output.clicks@, items@.len()),
            r.clicked_id == id_at(items@, last_below(output.clicks@, items@.len())),
            r.double_clicked_id == id_at(items@, last_below(output.double_clicks@, items@.len())),
    {
        let n = items.len();
        let c = last_index_below(&output.clicks, n);
        let d = last_index_below(&output.double_clicks, n);
        proof {
            lemma_last_below_bound(output.clicks@, n as nat);
            lemma_last_below_bound(output.double_clicks@, n as nat);
        }
        let clicked_id = match c {
            Some(i) => Some(items[i].id()),
            None => None,
        };
        let double_clicked_id = match d {
            Some(i) => Some(items[i].id()),
            None => None,
        };
        LauncherResponse { clicked_index: c, clicked_id, double_clicked_id }
    }
}

} // verus!
