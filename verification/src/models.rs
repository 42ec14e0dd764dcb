//! Launch items: apps, groups and folders, identified by UUID-valued ids.
use vstd::arithmetic::power2::pow2;
use vstd::prelude::*;

verus! {

// ─── Item identity ──────────────────────────────────────

/// Unique identifier for a launch item: the 128-bit value of a UUID
/// (big-endian, as `uuid::Uuid::as_u128` gives it).
#[derive(Debug, Clone, Copy, PartialEq, Eq, Structural, Hash)]
pub struct ItemId(pub u128);

/// Lower-case hexadecimal digit for a value in `0..16`.
pub open spec fn hex_digit_char(n: int) -> char {
    if n < 10 {
        (48 + n) as char
    } else {
        (87 + n) as char
    }
}

/// The `k`-th hex digit (from the most significant) of a 128-bit value.
pub open spec fn uuid_nibble(v: u128, k: int) -> int {
    (v as int / pow2((4 * (31 - k)) as nat) as int) % 16
}

/// Which of the 32 hex digits stands at position `i` of the hyphenated text.
pub open spec fn uuid_digit_index(i: int) -> int {
    if i < 8 {
        i
    } else if i < 13 {
        i - 1
    } else if i < 18 {
        i - 2
    } else if i < 23 {
        i - 3
    } else {
        i - 4
    }
}

/// The hyphenated lower-case text of a UUID, `xxxxxxxx-xxxx-xxxx-xxxx-xxxxxxxxxxxx`.
pub open spec fn uuid_text(v: u128) -> Seq<char> {
    Seq::new(
        36,
        |i: int|
            if i == 8 || i == 13 || i == 18 || i == 23 {
                '-'
            } else {
                hex_digit_char(uuid_nibble(v, uuid_digit_index(i)))
            },
    )
}

/// A random (version 4) UUID value: the version nibble is 4 and the variant
/// bits are `10` (RFC 4122); the other 122 bits are free.
pub open spec fn is_random_uuid(v: u128) -> bool {
    (v >> 76u128) & 0xfu128 == 4u128 && (v >> 62u128) & 0x3u128 == 2u128
}

/// Calls `uuid::Uuid::new_v4` and reads the UUID as a `u128`. The crate's
/// source masks a random number and sets the version (4) and RFC 4122 variant
/// bits; that is all that is stated, the remaining bits being random.
#[verifier::external_body]
fn random_uuid_value() -> (r: u128)
    ensures
        is_random_uuid(r),
{
    uuid::Uuid::new_v4().as_u128()
}

/// Formats a UUID given by its `u128` value with `uuid::Uuid`'s `Display`
/// (`Uuid::from_u128(v).to_string()`), which the crate documents and implements
/// as the hyphenated lower-case form of the big-endian bytes.
#[verifier::external_body]
fn uuid_hyphenated(v: u128) -> (r: String)
    ensures
        r@ == uuid_text(v),
{
    uuid::Uuid::from_u128(v).to_string()
}

impl ItemId {
    /// A fresh random (version 4) id.
    pub fn new() -> (r: Self)
        ensures
            is_random_uuid(r.0),
    {
        ItemId(random_uuid_value())
    }

    /// The id as hyphenated UUID text, as it appears in messages.
    pub fn to_uuid_string(&self) -> (r: String)
        ensures
            r@ == uuid_text(self.0),
    {
        uuid_hyphenated(self.0)
    }
}

impl Default for ItemId {
    /// The nil UUID.
    fn default() -> (r: Self)
        ensures
            r == ItemId(0),
    {
        ItemId(0)
    }
}

// ─── Items ──────────────────────────────────────────────

/// An application launch item.
#[derive(Debug, Clone)]
pub struct AppItem {
    pub id: ItemId,
    pub title: String,
    /// Custom icon path; `None` means the executable's own icon.
    pub icon_path: Option<String>,
    pub executable_path: String,
}

/// A group of launch items, shown as a navigable sub-grid.
#[derive(Debug)]
pub struct GroupItem {
    pub id: ItemId,
    pub title: String,
    pub icon_path: Option<String>,
    pub items: Vec<LaunchItem>,
}

/// A shortcut to a directory.
#[derive(Debug, Clone)]
pub struct FolderItem {
    pub id: ItemId,
    pub title: String,
    pub icon_path: Option<String>,
    pub folder_path: String,
}

/// A launch item: an app, a group, or a folder.
#[derive(Debug)]
pub enum LaunchItem {
    App(AppItem),
    Group(GroupItem),
    Folder(FolderItem),
}

// ─── Mathematical model ─────────────────────────────────

/// What an item is, with its strings as character sequences.
pub enum ItemView {
    App { id: ItemId, title: Seq<char>, icon: Option<Seq<char>>, path: Seq<char> },
    Group { id: ItemId, title: Seq<char>, icon: Option<Seq<char>>, items: Seq<ItemView> },
    Folder { id: ItemId, title: Seq<char>, icon: Option<Seq<char>>, path: Seq<char> },
}

impl ItemView {
    pub open spec fn id(self) -> ItemId {
        match self {
            ItemView::App { id, .. } => id,
            ItemView::Group { id, .. } => id,
            ItemView::Folder { id, .. } => id,
        }
    }

    pub open spec fn title(self) -> Seq<char> {
        match self {
            ItemView::App { title, .. } => title,
            ItemView::Group { title, .. } => title,
            ItemView::Folder { title, .. } => title,
        }
    }

    pub open spec fn icon(self) -> Option<Seq<char>> {
        match self {
            ItemView::App { icon, .. } => icon,
            ItemView::Group { icon, .. } => icon,
            ItemView::Folder { icon, .. } => icon,
        }
    }

    /// The same item with another title.
    pub open spec fn with_title(self, t: Seq<char>) -> ItemView {
        match self {
            ItemView::App { id, icon, path, .. } => ItemView::App { id, title: t, icon, path },
            ItemView::Group { id, icon, items, .. } => ItemView::Group { id, title: t, icon, items },
            ItemView::Folder { id, icon, path, .. } => ItemView::Folder { id, title: t, icon, path },
        }
    }

    /// The same item with another custom icon.
    pub open spec fn with_icon(self, i: Option<Seq<char>>) -> ItemView {
        match self {
            ItemView::App { id, title, path, .. } => ItemView::App { id, title, icon: i, path },
            ItemView::Group { id, title, items, .. } => ItemView::Group { id, title, icon: i, items },
            ItemView::Folder { id, title, path, .. } => ItemView::Folder { id, title, icon: i, path },
        }
    }

    /// The same group with other contents.
    pub open spec fn with_items(self, s: Seq<ItemView>) -> ItemView
        recommends
            self is Group,
    {
        match self {
            ItemView::Group { id, title, icon, .. } => ItemView::Group { id, title, icon, items: s },
            _ => self,
        }
    }
}

pub open spec fn path_view(p: Option<String>) -> Option<Seq<char>> {
    match p {
        Some(s) => Some(s@),
        None => None,
    }
}

pub open spec fn item_view(it: LaunchItem) -> ItemView
    decreases it,
{
    match it {
        LaunchItem::App(a) => ItemView::App {
            id: a.id,
            title: a.title@,
            icon: path_view(a.icon_path),
            path: a.executable_path@,
        },
        LaunchItem::Group(g) => ItemView::Group {
            id: g.id,
            title: g.title@,
            icon: path_view(g.icon_path),
            items: items_view(g.items@),
        },
        LaunchItem::Folder(f) => ItemView::Folder {
            id: f.id,
            title: f.title@,
            icon: path_view(f.icon_path),
            path: f.folder_path@,
        },
    }
}

/// The model of a list of items.
pub open spec fn items_view(s: Seq<LaunchItem>) -> Seq<ItemView>
    decreases s,
{
    if s.len() == 0 {
        Seq::empty()
    } else {
        items_view(s.drop_last()).push(item_view(s.last()))
    }
}

pub broadcast proof fn lemma_items_view(s: Seq<LaunchItem>)
    ensures
        (#[trigger] items_view(s)).len() == s.len(),
        forall|i: int| 0 <= i < s.len() ==> items_view(s)[i] == item_view(s[i]),
    decreases s.len(),
{
    if s.len() > 0 {
        lemma_items_view(s.drop_last());
    }
}

pub proof fn lemma_items_view_update(s: Seq<LaunchItem>, i: int, x: LaunchItem)
    requires
        0 <= i < s.len(),
    ensures
        items_view(s.update(i, x)) == items_view(s).update(i, item_view(x)),
{
    broadcast use lemma_items_view;

    assert(items_view(s.update(i, x)) =~= items_view(s).update(i, item_view(x)));
}

pub proof fn lemma_items_view_remove(s: Seq<LaunchItem>, i: int)
    requires
        0 <= i < s.len(),
    ensures
        items_view(s.remove(i)) == items_view(s).remove(i),
{
    broadcast use lemma_items_view;

    assert(items_view(s.remove(i)) =~= items_view(s).remove(i));
}

pub proof fn lemma_items_view_push(s: Seq<LaunchItem>, x: LaunchItem)
    ensures
        items_view(s.push(x)) == items_view(s).push(item_view(x)),
{
    broadcast use lemma_items_view;

    assert(items_view(s.push(x)) =~= items_view(s).push(item_view(x)));
}

impl View for LaunchItem {
    type V = ItemView;

    open spec fn view(&self) -> ItemView {
        item_view(*self)
    }
}

impl View for GroupItem {
    type V = ItemView;

    open spec fn view(&self) -> ItemView {
        ItemView::Group {
            id: self.id,
            title: self.title@,
            icon: path_view(self.icon_path),
            items: items_view(self.items@),
        }
    }
}

// ─── Constructors and accessors ─────────────────────────

/// Copies an optional path.
pub fn clone_path(p: &Option<String>) -> (r: Option<String>)
    ensures
        r == *p,
{
    match p {
        Some(s) => Some(s.clone()),
        None => None,
    }
}

impl AppItem {
    /// A new app with a fresh id and no custom icon.
    pub fn new(title: String, executable_path: String) -> (r: Self)
        ensures
            r.title == title,
            r.executable_path == executable_path,
            r.icon_path is None,
            is_random_uuid(r.id.0),
    {
        AppItem { id: ItemId::new(), title, icon_path: None, executable_path }
    }
}

impl FolderItem {
    /// A new folder shortcut with a fresh id and no custom icon.
    pub fn new(title: String, folder_path: String) -> (r: Self)
        ensures
            r.title == title,
            r.folder_path == folder_path,
            r.icon_path is None,
            is_random_uuid(r.id.0),
    {
        FolderItem { id: ItemId::new(), title, icon_path: None, folder_path }
    }
}

impl GroupItem {
    /// A new empty group with a fresh id and no custom icon.
    pub fn new(title: String) -> (r: Self)
        ensures
            r.title == title,
            r.icon_path is None,
            r.items@.len() == 0,
            is_random_uuid(r.id.0),
    {
        GroupItem { id: ItemId::new(), title, icon_path: None, items: Vec::new() }
    }
}

impl LaunchItem {
    /// The display title of this item.
    pub fn title(&self) -> (r: &str)
        ensures
            r@ == self@.title(),
    {
        match self {
            LaunchItem::App(a) => a.title.as_str(),
            LaunchItem::Group(g) => g.title.as_str(),
            LaunchItem::Folder(f) => f.title.as_str(),
        }
    }

    /// The unique id of this item.
    pub fn id(&self) -> (r: ItemId)
        ensures
            r == self@.id(),
    {
        match self {
            LaunchItem::App(a) => a.id,
            LaunchItem::Group(g) => g.id,
            LaunchItem::Folder(f) => f.id,
        }
    }

    /// Whether this item carries a custom icon path.
    pub fn has_icon_path(&self) -> (r: bool)
        ensures
            r == self@.icon() is Some,
    {
        match self {
            LaunchItem::App(a) => a.icon_path.is_some(),
            LaunchItem::Group(g) => g.icon_path.is_some(),
            LaunchItem::Folder(f) => f.icon_path.is_some(),
        }
    }

    /// Whether this item is a group.
    pub fn is_group(&self) -> (r: bool)
        ensures
            r == self@ is Group,
    {
        match self {
            LaunchItem::Group(_) => true,
            _ => false,
        }
    }

    /// A mutable reference to the inner group, if this is a group.
    pub fn as_group_mut(&mut self) -> (r: Option<&mut GroupItem>)
        ensures
            match *old(self) {
                LaunchItem::Group(g) => r matches Some(rg) && *rg == g && *final(self)
                    == LaunchItem::Group(*final(rg)),
                _ => r is None && *final(self) == *old(self),
            },
    {
        match self {
            LaunchItem::Group(g) => Some(g),
            _ => None,
        }
    }
}

impl Clone for GroupItem {
    fn clone(&self) -> (r: Self)
        ensures
            r@ == self@,
        decreases self,
    {
        let mut items: Vec<LaunchItem> = Vec::new();
        let mut i: usize = 0;
        while i < self.items.len()
            invariant
                i <= self.items@.len(),
                items_view(items@) == items_view(self.items@).take(i as int),
            decreases self.items@.len() - i,
        {
            proof {
                broadcast use lemma_items_view;

                let gi = self.items@[i as int];
                assert(decreases_to!(self.items@ => gi));
                assert(decreases_to!(self.items => self.items@));
                assert(decreases_to!(*self => gi));
            }
            let c = self.items[i].clone();
            let ghost before = items@;
            items.push(c);
            i += 1;
            proof {
                broadcast use lemma_items_view;

                assert(items@.drop_last() == before);
                assert(items_view(items@) == items_view(before).push(item_view(c)));
                assert(items_view(items@) =~= items_view(self.items@).take(i as int));
            }
        }
        proof {
            broadcast use lemma_items_view;

            assert(items_view(items@) =~= items_view(self.items@));
        }
        GroupItem { id: self.id, title: self.title.clone(), icon_path: clone_path(&self.icon_path), items }
    }
}

impl Clone for LaunchItem {
    fn clone(&self) -> (r: Self)
        ensures
            r@ == self@,
        decreases self,
    {
        match self {
            LaunchItem::App(a) => LaunchItem::App(
                AppItem {
                    id: a.id,
                    title: a.title.clone(),
                    icon_path: clone_path(&a.icon_path),
                    executable_path: a.executable_path.clone(),
                },
            ),
            LaunchItem::Group(g) => {
                proof {
                    assert(decreases_to!(*self => self->Group_0));
                }
                LaunchItem::Group(g.clone())
            },
            LaunchItem::Folder(f) => LaunchItem::Folder(
                FolderItem {
                    id: f.id,
                    title: f.title.clone(),
                    icon_path: clone_path(&f.icon_path),
                    folder_path: f.folder_path.clone(),
                },
            ),
        }
    }
}

} // verus!
