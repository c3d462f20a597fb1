//! The host: the registered tray items, and what can be asked of them.

use vstd::prelude::*;

use crate::icon::{has_whole_icon, icon_plan, plan_icon, plan_icon_in, IconPlan};
use crate::item::{a_title_is_never_empty, display_title, get_title, ItemModel, StatusNotifierItem};
use crate::listing::{
    by_title, row_models, same_names, sort_by_title, sorting_goes_by_titles,
    sorting_keeps_every_row, RowModel,
};
use crate::menu::{flat_models, flatten_menu, flattened, FlatMenuItem, FlatModel, MenuItem, TrayMenu};
use crate::paths::{cache_dir, opt_bytes};
use crate::text::{clone_opt, copy_text, opt_text, same_text};

verus! {

// ---------------------------------------------------------------------------
// The registered items
// ---------------------------------------------------------------------------

/// A registered item with its D-Bus address (such as `:1.58`) and its menu.
#[derive(Debug)]
pub struct TrayEntry {
    pub address: String,
    pub item: StatusNotifierItem,
    pub menu: Option<TrayMenu>,
}

/// What a registered item holds.
pub struct EntryModel {
    pub address: Seq<char>,
    pub item: ItemModel,
    pub menu: Option<Seq<MenuItem>>,
}

/// The entries of an optional menu.
pub open spec fn menu_entries(menu: Option<TrayMenu>) -> Option<Seq<MenuItem>> {
    match menu {
        Some(m) => Some(m.submenus@),
        None => None,
    }
}

impl View for TrayEntry {
    type V = EntryModel;

    open spec fn view(&self) -> EntryModel {
        EntryModel {
            address: self.address@,
            item: self.item@,
            menu: menu_entries(self.menu),
        }
    }
}

/// Whether no address occurs twice.
pub open spec fn distinct(entries: Seq<EntryModel>) -> bool {
    forall|i: int, j: int|
        0 <= i < j < entries.len() ==> (#[trigger] entries[i]).address != (
        #[trigger] entries[j]).address
}

/// The place of the entry at `address`, or the number of entries where there
/// is none.
pub open spec fn place_of(entries: Seq<EntryModel>, address: Seq<char>) -> int
    decreases entries.len(),
{
    if entries.len() == 0 || entries[0].address == address {
        0
    } else {
        1 + place_of(entries.skip(1), address)
    }
}

/// The entry at `address`.
pub open spec fn entry_at(entries: Seq<EntryModel>, address: Seq<char>) -> Option<EntryModel> {
    let i = place_of(entries, address);
    if 0 <= i < entries.len() {
        Some(entries[i])
    } else {
        None
    }
}

/// The entries once `entry` is registered: in place of the one at its address,
/// or behind all others.
pub open spec fn registered(entries: Seq<EntryModel>, entry: EntryModel) -> Seq<EntryModel> {
    let i = place_of(entries, entry.address);
    if 0 <= i < entries.len() {
        entries.update(i, entry)
    } else {
        entries.push(entry)
    }
}

proof fn lemma_place_of(entries: Seq<EntryModel>, address: Seq<char>, i: int)
    requires
        0 <= i <= entries.len(),
        forall|j: int| 0 <= j < i ==> (#[trigger] entries[j]).address != address,
        i < entries.len() ==> entries[i].address == address,
    ensures
        place_of(entries, address) == i,
    decreases i,
{
    if i > 0 {
        assert(entries[0].address != address);
        assert forall|j: int| 0 <= j < i - 1 implies (#[trigger] entries.skip(1)[j]).address
            != address by {
            assert(entries.skip(1)[j] == entries[j + 1]);
        }
        lemma_place_of(entries.skip(1), address, i - 1);
    }
}

proof fn lemma_place_bounds(entries: Seq<EntryModel>, address: Seq<char>)
    ensures
        0 <= place_of(entries, address) <= entries.len(),
        place_of(entries, address) < entries.len() ==> entries[place_of(entries, address)].address
            == address,
        forall|j: int|
            0 <= j < place_of(entries, address) ==> (#[trigger] entries[j]).address != address,
    decreases entries.len(),
{
    if entries.len() > 0 && entries[0].address != address {
        lemma_place_bounds(entries.skip(1), address);
        assert forall|j: int| 0 <= j < place_of(entries, address) implies (
        #[trigger] entries[j]).address != address by {
            if j > 0 {
                assert(entries[j] == entries.skip(1)[j - 1]);
            }
        }
    }
}

/// A registered entry is found at its address, every other address finds what
/// it found before, and no address comes to occur twice.
pub proof fn registering_sets_one_address(
    entries: Seq<EntryModel>,
    entry: EntryModel,
    address: Seq<char>,
)
    requires
        distinct(entries),
    ensures
        distinct(registered(entries, entry)),
        entry_at(registered(entries, entry), entry.address) == Some(entry),
        address != entry.address ==> entry_at(registered(entries, entry), address) == entry_at(
            entries,
            address,
        ),
{
    let after = registered(entries, entry);
    let i = place_of(entries, entry.address);
    lemma_place_bounds(entries, entry.address);
    lemma_place_bounds(entries, address);
    lemma_place_of(after, entry.address, i);
    if address != entry.address {
        let k = place_of(entries, address);
        if k < entries.len() {
            lemma_place_of(after, address, k);
        } else {
            lemma_place_of(after, address, after.len() as int);
        }
    }
}

/// The entry at an address is the only one there.
pub proof fn entries_have_their_own_address(entries: Seq<EntryModel>, i: int)
    requires
        distinct(entries),
        0 <= i < entries.len(),
    ensures
        entry_at(entries, entries[i].address) == Some(entries[i]),
{
    lemma_place_of(entries, entries[i].address, i);
}

/// The registered items. No address occurs twice.
#[derive(Debug)]
pub struct TrayItems {
    entries: Vec<TrayEntry>,
}

impl View for TrayItems {
    type V = Seq<EntryModel>;

    closed spec fn view(&self) -> Seq<EntryModel> {
        Seq::new(self.entries@.len(), |i: int| self.entries@[i]@)
    }
}

impl TrayItems {
    #[verifier::type_invariant]
    pub closed spec fn wf(self) -> bool {
        distinct(self@)
    }

    /// No items.
    pub fn new() -> (r: Self)
        ensures
            r@ == Seq::<EntryModel>::empty(),
    {
        let r = TrayItems { entries: Vec::new() };
        assert(r@ == Seq::<EntryModel>::empty());
        r
    }

    /// The number of items.
    pub fn len(&self) -> (r: usize)
        ensures
            r == self@.len(),
    {
        self.entries.len()
    }

    /// Registers an item. One that is registered at its address is replaced.
    pub fn insert(&mut self, address: String, item: StatusNotifierItem, menu: Option<TrayMenu>)
        ensures
            final(self)@ == registered(
                old(self)@,
                EntryModel { address: address@, item: item@, menu: menu_entries(menu) },
            ),
    {
        proof {
            use_type_invariant(&*self);
        }
        let ghost before = self@;
        let i: usize = self.position(address.as_str());
        let mut entries: Vec<TrayEntry> = Vec::new();
        std::mem::swap(&mut entries, &mut self.entries);
        let entry = TrayEntry { address, item, menu };
        proof {
            registering_sets_one_address(before, entry@, entry@.address);
            assert(Seq::new(entries@.len(), |k: int| entries@[k]@) == before);
        }
        if i < entries.len() {
            entries.set(i, entry);
        } else {
            entries.push(entry);
        }
        assert(Seq::new(entries@.len(), |k: int| entries@[k]@) == registered(before, entry@));
        self.entries = entries;
    }

    fn position(&self, address: &str) -> (r: usize)
        ensures
            r <= self@.len(),
            r == place_of(self@, address@),
    {
        let mut i: usize = 0;
        while i < self.entries.len() && !same_text(self.entries[i].address.as_str(), address)
            invariant
                i <= self@.len() == self.entries@.len(),
                forall|j: int| 0 <= j < i ==> (#[trigger] self@[j]).address != address@,
            decreases self.entries@.len() - i,
        {
            i += 1;
        }
        proof {
            lemma_place_of(self@, address@, i as int);
        }
        i
    }

    fn find(&self, address: &str) -> (r: Option<&TrayEntry>)
        ensures
            match r {
                Some(entry) => entry_at(self@, address@) == Some(entry@),
                None => entry_at(self@, address@) is None,
            },
    {
        let i: usize = self.position(address);
        if i < self.entries.len() {
            Some(&self.entries[i])
        } else {
            None
        }
    }
}

// ---------------------------------------------------------------------------
// The host
// ---------------------------------------------------------------------------

/// The tray items at one moment, and how they are listed.
#[derive(Debug)]
pub struct Host {
    items: TrayItems,
    sorting: bool,
}

/// What a host holds.
pub struct HostModel {
    pub entries: Seq<EntryModel>,
    pub sorting: bool,
}

impl View for Host {
    type V = HostModel;

    closed spec fn view(&self) -> HostModel {
        HostModel { entries: self.items@, sorting: self.sorting }
    }
}

/// The rows of the list, given what is shown for each icon.
pub open spec fn rows_with(entries: Seq<EntryModel>, icons: Seq<Option<Seq<char>>>) -> Seq<
    RowModel,
> {
    Seq::new(
        entries.len(),
        |i: int|
            RowModel {
                title: display_title(entries[i].item, entries[i].address),
                address: entries[i].address,
                icon: icons[i],
            },
    )
}

/// The names of the icons.
pub open spec fn icon_names(entries: Seq<EntryModel>) -> Seq<Option<Seq<char>>> {
    Seq::new(entries.len(), |i: int| entries[i].item.icon_name)
}

/// The list as a host gives it, given what is shown for each icon: in the order
/// of titles where the host sorts, else as the items are registered.
pub open spec fn listed(host: HostModel, icons: Seq<Option<Seq<char>>>) -> Seq<RowModel> {
    let rows = rows_with(host.entries, icons);
    if host.sorting {
        by_title(rows)
    } else {
        rows
    }
}

/// Every row of the list is the row of an item.
proof fn lemma_listed_row(host: HostModel, icons: Seq<Option<Seq<char>>>, i: int) -> (k: int)
    requires
        0 <= i < listed(host, icons).len(),
    ensures
        0 <= k < host.entries.len(),
        listed(host, icons)[i] == rows_with(host.entries, icons)[k],
{
    let rows = rows_with(host.entries, icons);
    if host.sorting {
        sorting_keeps_every_row(rows);
        assert(rows.contains(by_title(rows)[i]));
        choose|k: int| 0 <= k < rows.len() && rows[k] == by_title(rows)[i]
    } else {
        i
    }
}

/// The list has one row for every registered item, and no title in it is empty.
pub proof fn every_item_is_listed(host: HostModel, icons: Seq<Option<Seq<char>>>)
    requires
        icons.len() == host.entries.len(),
    ensures
        listed(host, icons).to_multiset() == rows_with(host.entries, icons).to_multiset(),
        forall|i: int|
            0 <= i < listed(host, icons).len() ==> (#[trigger] listed(host, icons)[i]).title.len()
                > 0,
{
    let all = listed(host, icons);
    sorting_keeps_every_row(rows_with(host.entries, icons));
    assert forall|i: int| 0 <= i < all.len() implies (#[trigger] all[i]).title.len() > 0 by {
        let k = lemma_listed_row(host, icons, i);
        a_title_is_never_empty(host.entries[k].item, host.entries[k].address);
    }
}

/// The address on a row of the list finds the item that the row is about: the
/// row has its title, and what is shown for its icon.
pub proof fn a_listed_address_finds_its_item(
    host: HostModel,
    icons: Seq<Option<Seq<char>>>,
    i: int,
)
    requires
        distinct(host.entries),
        icons.len() == host.entries.len(),
        0 <= i < listed(host, icons).len(),
    ensures
        entry_at(host.entries, listed(host, icons)[i].address) matches Some(entry) && entry.address
            == listed(host, icons)[i].address && listed(host, icons)[i].title == display_title(
            entry.item,
            entry.address,
        ),
        listed(host, icons)[i].icon == icons[place_of(
            host.entries,
            listed(host, icons)[i].address,
        )],
{
    let k = lemma_listed_row(host, icons, i);
    entries_have_their_own_address(host.entries, k);
    lemma_place_of(host.entries, host.entries[k].address, k);
}

/// What is shown for the icons changes nothing else about the list: the titles
/// and the addresses are the same, in the same order. So the list with resolved
/// icons is the list with icon names but for the icons.
pub proof fn icons_do_not_change_the_list(
    host: HostModel,
    a: Seq<Option<Seq<char>>>,
    b: Seq<Option<Seq<char>>>,
)
    ensures
        same_names(listed(host, a), listed(host, b)),
        same_names(listed(host, a), listed(host, icon_names(host.entries))),
{
    sorting_goes_by_titles(rows_with(host.entries, a), rows_with(host.entries, b));
    sorting_goes_by_titles(
        rows_with(host.entries, a),
        rows_with(host.entries, icon_names(host.entries)),
    );
}

/// The flattened menu of the item at `address`, where it has one.
pub open spec fn menu_of(host: HostModel, address: Seq<char>) -> Option<Seq<FlatModel>> {
    match entry_at(host.entries, address) {
        Some(entry) => match entry.menu {
            Some(menu) => Some(flattened(menu)),
            None => None,
        },
        None => None,
    }
}

/// The D-Bus path of the menu of the item at `address`, where it has one.
pub open spec fn menu_path_of(host: HostModel, address: Seq<char>) -> Option<Seq<char>> {
    match entry_at(host.entries, address) {
        Some(entry) => entry.item.menu,
        None => None,
    }
}

/// The texts of optional strings.
pub open spec fn opt_texts(v: Seq<Option<String>>) -> Seq<Option<Seq<char>>> {
    Seq::new(v.len(), |i: int| opt_text(v[i]))
}

/// Whether `plan` is how the icon of an item comes to be shown: a file is kept
/// exactly where the largest pixmap is a whole image.
pub open spec fn is_plan(plan: IconPlan, item: ItemModel, cache: Option<Seq<u8>>) -> bool {
    &&& plan@ == icon_plan(item, cache)
    &&& plan is Store <==> has_whole_icon(item)
}

/// Whether `plans` holds the address of each entry and how its icon comes to be
/// shown.
pub open spec fn are_plans(
    plans: Seq<(String, IconPlan)>,
    entries: Seq<EntryModel>,
    cache: Option<Seq<u8>>,
) -> bool {
    &&& plans.len() == entries.len()
    &&& forall|i: int|
        0 <= i < plans.len() ==> (#[trigger] plans[i]).0@ == entries[i].address && is_plan(
            plans[i].1,
            entries[i].item,
            cache,
        )
}

/// Whether `plan` is how the icon of the item at `address` comes to be shown.
pub open spec fn is_plan_at(
    plan: Option<IconPlan>,
    entries: Seq<EntryModel>,
    address: Seq<char>,
    cache: Option<Seq<u8>>,
) -> bool {
    match (plan, entry_at(entries, address)) {
        (Some(p), Some(entry)) => is_plan(p, entry.item, cache),
        (None, None) => true,
        _ => false,
    }
}

/// A click on a tray item.
#[derive(Debug)]
pub enum ActivateRequest {
    /// On an entry of its menu.
    MenuItem { address: String, menu_path: String, submenu_id: i32 },
    /// On its icon; `x` and `y` hint where to show windows.
    Default { address: String, x: i32, y: i32 },
}

/// What a click says.
pub enum ClickModel {
    MenuItem { address: Seq<char>, menu_path: Seq<char>, submenu_id: i32 },
    Default { address: Seq<char>, x: i32, y: i32 },
}

impl View for ActivateRequest {
    type V = ClickModel;

    open spec fn view(&self) -> ClickModel {
        match *self {
            ActivateRequest::MenuItem { address, menu_path, submenu_id } => ClickModel::MenuItem {
                address: address@,
                menu_path: menu_path@,
                submenu_id,
            },
            ActivateRequest::Default { address, x, y } => ClickModel::Default {
                address: address@,
                x,
                y,
            },
        }
    }
}

/// The notice that a menu is about to be shown.
#[derive(Debug)]
pub struct MenuNotice {
    pub address: String,
    pub menu_path: String,
    /// The menu's entry; 0 for the whole menu.
    pub id: i32,
}

/// What a notice says.
pub struct NoticeModel {
    pub address: Seq<char>,
    pub menu_path: Seq<char>,
    pub id: i32,
}

impl View for MenuNotice {
    type V = NoticeModel;

    open spec fn view(&self) -> NoticeModel {
        NoticeModel { address: self.address@, menu_path: self.menu_path@, id: self.id }
    }
}

impl Host {
    /// A host of these items, which lists them as they are registered.
    pub fn new(items: TrayItems) -> (r: Self)
        ensures
            r@.entries == items@,
            r@.sorting == false,
    {
        Self::with_sorting(items, false)
    }

    /// A host of these items, which lists them in the order of their titles if
    /// `sorting` is set.
    pub fn with_sorting(items: TrayItems, sorting: bool) -> (r: Self)
        ensures
            r@.entries == items@,
            r@.sorting == sorting,
    {
        Host { items, sorting }
    }

    /// The registered items. No address occurs twice.
    pub fn items(&self) -> (r: &TrayItems)
        ensures
            r@ == self@.entries,
            distinct(r@),
    {
        proof {
            use_type_invariant(&self.items);
        }
        &self.items
    }

    /// Whether the host lists items in the order of their titles.
    pub fn sorting(&self) -> (r: bool)
        ensures
            r == self@.sorting,
    {
        self.sorting
    }

    /// The title, the address and the icon name of every item.
    pub fn list_items(&self) -> (r: Vec<(String, String, Option<String>)>)
        ensures
            row_models(r@) == listed(self@, icon_names(self@.entries)),
    {
        let n: usize = self.items.entries.len();
        let mut icons: Vec<Option<String>> = Vec::new();
        let mut i: usize = 0;
        while i < n
            invariant
                n == self.items.entries@.len(),
                i <= n,
                opt_texts(icons@) == icon_names(self@.entries).take(i as int),
            decreases n - i,
        {
            let ghost names = icon_names(self@.entries);
            icons.push(clone_opt(&self.items.entries[i].item.icon_name));
            i += 1;
            assert(opt_texts(icons@) == names.take(i as int)) by {
                assert(names.take(i as int) == names.take(i - 1).push(names[i - 1]));
                assert(opt_texts(icons@) == opt_texts(icons@.drop_last()).push(
                    opt_text(icons@.last()),
                ));
            }
        }
        assert(icon_names(self@.entries).take(n as int) == icon_names(self@.entries));
        self.list_items_with_icons(icons)
    }

    /// The address of each item and how its icon comes to be shown, in the order
    /// in which the items are registered, given the cache directory.
    pub fn icon_plans_in(&self, cache: &Option<Vec<u8>>) -> (r: Vec<(String, IconPlan)>)
        ensures
            are_plans(r@, self@.entries, opt_bytes(*cache)),
    {
        let n: usize = self.items.entries.len();
        let mut r: Vec<(String, IconPlan)> = Vec::new();
        let mut i: usize = 0;
        while i < n
            invariant
                n == self.items.entries@.len(),
                i <= n,
                are_plans(r@, self@.entries.take(i as int), opt_bytes(*cache)),
            decreases n - i,
        {
            let entry = &self.items.entries[i];
            r.push((entry.address.clone(), plan_icon_in(&entry.item, cache)));
            i += 1;
        }
        assert(self@.entries.take(n as int) == self@.entries);
        r
    }

    /// The address of each item and how its icon comes to be shown, in the order
    /// in which the items are registered.
    pub fn icon_plans(&self) -> (r: Vec<(String, IconPlan)>)
        ensures
            exists|cache: Option<Seq<u8>>| #[trigger] are_plans(r@, self@.entries, cache),
    {
        let cache = cache_dir();
        let r = self.icon_plans_in(&cache);
        assert(are_plans(r@, self@.entries, opt_bytes(cache)));
        r
    }

    /// How the icon of the item at `address` comes to be shown.
    pub fn icon_plan(&self, address: &str) -> (r: Option<IconPlan>)
        ensures
            exists|cache: Option<Seq<u8>>| #[trigger] is_plan_at(
                r,
                self@.entries,
                address@,
                cache,
            ),
    {
        match self.items.find(address) {
            Some(entry) => {
                let plan = plan_icon(&entry.item);
                proof {
                    let cache = choose|cache: Option<Seq<u8>>|
                        plan@ == #[trigger] icon_plan(entry.item@, cache);
                    assert(is_plan_at(Some(plan), self@.entries, address@, cache));
                }
                Some(plan)
            },
            None => {
                assert(is_plan_at(None, self@.entries, address@, None));
                None
            },
        }
    }

    /// The title, the address and the icon of every item. `icons` holds what is
    /// shown for the icon of each, in the order in which they are registered.
    pub fn list_items_with_icons(&self, icons: Vec<Option<String>>) -> (r: Vec<
        (String, String, Option<String>),
    >)
        requires
            icons@.len() == self@.entries.len(),
        ensures
            row_models(r@) == listed(self@, opt_texts(icons@)),
    {
        let n: usize = self.items.entries.len();
        let ghost all = rows_with(self@.entries, opt_texts(icons@));
        let mut rows: Vec<(String, String, Option<String>)> = Vec::new();
        let mut i: usize = 0;
        while i < n
            invariant
                n == self.items.entries@.len() == icons@.len(),
                i <= n,
                all == rows_with(self@.entries, opt_texts(icons@)),
                row_models(rows@) == all.take(i as int),
            decreases n - i,
        {
            let entry = &self.items.entries[i];
            let row = (
                get_title(&entry.item, entry.address.as_str()),
                entry.address.clone(),
                clone_opt(&icons[i]),
            );
            let ghost before = rows@;
            rows.push(row);
            proof {
                assert(row_models(rows@) == row_models(before).push(all[i as int]));
                assert(all.take(i + 1) == all.take(i as int).push(all[i as int]));
            }
            i += 1;
        }
        assert(all.take(n as int) == all);
        if self.sorting {
            sort_by_title(rows)
        } else {
            rows
        }
    }

    /// The flattened menu of the item at `address`. There is none if there is
    /// no such item or it has no menu.
    pub fn get_menu(&self, address: &str) -> (r: Option<Vec<FlatMenuItem>>)
        ensures
            match r {
                Some(menu) => menu_of(self@, address@) == Some(flat_models(menu@)),
                None => menu_of(self@, address@) is None,
            },
    {
        match self.items.find(address) {
            Some(entry) => match &entry.menu {
                Some(menu) => {
                    let mut r: Vec<FlatMenuItem> = Vec::new();
                    flatten_menu(&menu.submenus, &mut r);
                    assert(flat_models(r@) == flattened(menu.submenus@));
                    Some(r)
                },
                None => None,
            },
            None => None,
        }
    }

    /// The D-Bus path of the menu of the item at `address`. There is none if
    /// there is no such item or it has no menu.
    pub fn get_menu_path(&self, address: &str) -> (r: Option<String>)
        ensures
            opt_text(r) == menu_path_of(self@, address@),
    {
        match self.items.find(address) {
            Some(entry) => clone_opt(&entry.item.menu),
            None => None,
        }
    }

    /// A click on an entry of a menu.
    pub fn activate_menu_item(&self, address: &str, menu_path: &str, submenu_id: i32) -> (r:
        ActivateRequest)
        ensures
            r@ == (ClickModel::MenuItem { address: address@, menu_path: menu_path@, submenu_id }),
    {
        ActivateRequest::MenuItem {
            address: copy_text(address),
            menu_path: copy_text(menu_path),
            submenu_id,
        }
    }

    /// A click on the icon of an item.
    pub fn activate_default(&self, address: &str, x: i32, y: i32) -> (r: ActivateRequest)
        ensures
            r@ == (ClickModel::Default { address: address@, x, y }),
    {
        ActivateRequest::Default { address: copy_text(address), x, y }
    }

    /// The notice that a menu is about to be shown.
    pub fn about_to_show_menuitem(&self, address: &str, menu_path: &str, id: i32) -> (r:
        MenuNotice)
        ensures
            r@ == (NoticeModel { address: address@, menu_path: menu_path@, id }),
    {
        MenuNotice { address: copy_text(address), menu_path: copy_text(menu_path), id }
    }
}

} // verus!
