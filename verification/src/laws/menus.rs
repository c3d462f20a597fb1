//! The menu that is given for an item.

use vstd::prelude::*;

use crate::host::{entries_have_their_own_address, menu_of, menu_path_of, HostModel};
use crate::menu::{
    entries_precede_their_menus, flat, flattened, flattening_is_in_order,
    flattening_keeps_every_entry, menu_size, FlatModel, MenuItem, MenuType,
};
use crate::laws::lists::lemma_no_entry;

verus! {

/// Whether `entry` shows what `item` is: its id, its label or nothing, whether it
/// is enabled, and its kind.
pub open spec fn shows(entry: FlatModel, item: MenuItem) -> bool {
    &&& entry.id == item.id
    &&& entry.enabled == item.enabled
    &&& item.label is Some ==> entry.label == item.label->0@
    &&& item.label is None ==> entry.label.len() == 0
    &&& item.menu_type == MenuType::Standard ==> entry.menu_type == "standard"@
    &&& item.menu_type == MenuType::Separator ==> entry.menu_type == "separator"@
}

/// The number of entries of a menu with all its menus.
pub open spec fn total(items: Seq<MenuItem>) -> nat
    decreases items,
{
    if items.len() == 0 {
        0
    } else {
        total(items.drop_last()) + total(items.last().submenu@) + 1
    }
}

proof fn lemma_total(items: Seq<MenuItem>)
    ensures
        menu_size(items) == total(items),
    decreases items,
{
    if items.len() > 0 {
        lemma_total(items.drop_last());
        lemma_total(items.last().submenu@);
    }
}

proof fn lemma_menu_of(host: HostModel, k: int)
    requires
        crate::host::distinct(host.entries),
        0 <= k < host.entries.len(),
    ensures
        menu_of(host, host.entries[k].address) == match host.entries[k].menu {
            Some(menu) => Some(flattened(menu)),
            None => None,
        },
{
    entries_have_their_own_address(host.entries, k);
}

/// A menu is given for the address of an item exactly if the item has a menu, and
/// the menu's path is the item's. For any other address there is neither.
pub proof fn an_item_gives_its_own_menu(host: HostModel, k: int, address: Seq<char>)
    requires
        crate::host::distinct(host.entries),
        0 <= k < host.entries.len(),
        forall|i: int| 0 <= i < host.entries.len() ==> host.entries[i].address != address,
    ensures
        menu_of(host, host.entries[k].address) is Some <==> host.entries[k].menu is Some,
        menu_path_of(host, host.entries[k].address) == host.entries[k].item.menu,
        menu_of(host, address) is None,
        menu_path_of(host, address) is None,
{
    lemma_menu_of(host, k);
    entries_have_their_own_address(host.entries, k);
    lemma_no_entry(host.entries, address);
}

/// No entry of an item's menu is missing from what is given for its address, and
/// none is added: there are as many as the menu has, those of its menus included.
pub proof fn a_given_menu_is_whole(host: HostModel, k: int)
    requires
        crate::host::distinct(host.entries),
        0 <= k < host.entries.len(),
        host.entries[k].menu is Some,
    ensures
        menu_of(host, host.entries[k].address) matches Some(given) && given.len() == total(
            host.entries[k].menu->0,
        ),
{
    lemma_menu_of(host, k);
    flattening_keeps_every_entry(host.entries[k].menu->0);
    lemma_total(host.entries[k].menu->0);
}

/// Every entry of a menu is given right behind all that comes before it, and
/// right before the entries of its own menu: it stands as far from the start as
/// the entries before it have entries in all, and it shows what it is.
pub proof fn a_given_menu_is_in_reading_order(host: HostModel, k: int, i: int)
    requires
        crate::host::distinct(host.entries),
        0 <= k < host.entries.len(),
        host.entries[k].menu is Some,
        0 <= i < host.entries[k].menu->0.len(),
    ensures
        ({
            let items = host.entries[k].menu->0;
            let at = total(items.take(i)) as int;
            menu_of(host, host.entries[k].address) matches Some(given) && 0 <= at < given.len()
                && shows(given[at], items[i])
        }),
{
    let items = host.entries[k].menu->0;
    let front = items.take(i);
    let item = items[i];
    let rest = items.skip(i + 1);
    lemma_menu_of(host, k);
    assert(items == front + (seq![item] + rest));
    flattening_is_in_order(front, seq![item] + rest);
    entries_precede_their_menus(item, rest);
    flattening_keeps_every_entry(front);
    lemma_total(front);
    assert((seq![flat(item)] + flattened(item.submenu@) + flattened(rest))[0] == flat(item));
    assert(flattened(items)[total(front) as int] == flat(item));
}

/// What is given for a menu is its first entry, then what is given for that
/// entry's own menu, then what is given for the rest of the menu. `sub` and `rest`
/// are trays in which the item at the same address has those menus.
pub proof fn a_given_menu_is_made_of_given_menus(
    host: HostModel,
    k: int,
    sub: HostModel,
    k_sub: int,
    rest: HostModel,
    k_rest: int,
)
    requires
        crate::host::distinct(host.entries),
        0 <= k < host.entries.len(),
        host.entries[k].menu is Some,
        host.entries[k].menu->0.len() > 0,
        crate::host::distinct(sub.entries),
        0 <= k_sub < sub.entries.len(),
        sub.entries[k_sub].menu == Some(host.entries[k].menu->0[0].submenu@),
        crate::host::distinct(rest.entries),
        0 <= k_rest < rest.entries.len(),
        rest.entries[k_rest].menu == Some(host.entries[k].menu->0.skip(1)),
    ensures
        ({
            let given = menu_of(host, host.entries[k].address)->0;
            let of_sub = menu_of(sub, sub.entries[k_sub].address)->0;
            let of_rest = menu_of(rest, rest.entries[k_rest].address)->0;
            &&& given.len() > 0
            &&& shows(given[0], host.entries[k].menu->0[0])
            &&& given.skip(1) == of_sub + of_rest
        }),
{
    let items = host.entries[k].menu->0;
    let item = items[0];
    lemma_menu_of(host, k);
    lemma_menu_of(sub, k_sub);
    lemma_menu_of(rest, k_rest);
    entries_precede_their_menus(item, items.skip(1));
    assert(items == seq![item] + items.skip(1));
    let given = flattened(items);
    assert(given == seq![flat(item)] + flattened(item.submenu@) + flattened(items.skip(1)));
    assert(given[0] == flat(item));
    assert(given.skip(1) == flattened(item.submenu@) + flattened(items.skip(1)));
}

/// An empty menu is given as an empty one.
pub proof fn an_empty_menu_is_given_as_such(host: HostModel, k: int)
    requires
        crate::host::distinct(host.entries),
        0 <= k < host.entries.len(),
        host.entries[k].menu == Some(Seq::<MenuItem>::empty()),
    ensures
        menu_of(host, host.entries[k].address) == Some(Seq::<FlatModel>::empty()),
{
    lemma_menu_of(host, k);
}

} // verus!
