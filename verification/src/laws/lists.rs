//! The registered items and the list of them.

use vstd::prelude::*;

use crate::events::{icon_changed_at, Event, UpdateEvent};
use crate::host::{
    entries_have_their_own_address, entry_at, icon_names, listed, place_of, registered, rows_with,
    EntryModel, HostModel,
};
use crate::item::display_title;
use crate::laws::texts::{goes_first_at, texts_are_ordered_as_in_a_dictionary};
use crate::listing::{by_title, sorting_is_stable, sorting_keeps_every_row, titled, RowModel};
use crate::text::text_le;

verus! {

/// Whether no two entries have the same address.
pub open spec fn all_apart(entries: Seq<EntryModel>) -> bool {
    forall|i: int, j: int|
        0 <= i < entries.len() && 0 <= j < entries.len() && i != j ==> (
        #[trigger] entries[i]).address != (#[trigger] entries[j]).address
}

/// The items of a tray are kept apart by their addresses.
pub proof fn distinct_means_apart(entries: Seq<EntryModel>)
    ensures
        crate::host::distinct(entries) <==> all_apart(entries),
{
    if all_apart(entries) {
        assert forall|i: int, j: int| 0 <= i < j < entries.len() implies (
        #[trigger] entries[i]).address != (#[trigger] entries[j]).address by {}
    }
    if crate::host::distinct(entries) {
        assert forall|i: int, j: int|
            0 <= i < entries.len() && 0 <= j < entries.len() && i != j implies (
        #[trigger] entries[i]).address != (#[trigger] entries[j]).address by {
            if i < j {
                assert(entries[i].address != entries[j].address);
            } else {
                assert(entries[j].address != entries[i].address);
            }
        }
    }
}

/// An address at which nothing is registered finds nothing.
pub proof fn lemma_no_entry(entries: Seq<EntryModel>, address: Seq<char>)
    requires
        forall|i: int| 0 <= i < entries.len() ==> entries[i].address != address,
    ensures
        place_of(entries, address) == entries.len(),
        entry_at(entries, address) is None,
    decreases entries.len(),
{
    if entries.len() > 0 {
        let rest = entries.skip(1);
        assert(entries[0].address != address);
        assert forall|i: int| 0 <= i < rest.len() implies rest[i].address != address by {
            assert(rest[i] == entries[i + 1]);
        }
        lemma_no_entry(rest, address);
    }
}

/// Exactly the address of a registered item finds an item, and it finds that
/// one.
pub proof fn an_address_finds_what_is_registered(entries: Seq<EntryModel>, address: Seq<char>)
    requires
        all_apart(entries),
    ensures
        entry_at(entries, address) is None <==> forall|i: int|
            0 <= i < entries.len() ==> entries[i].address != address,
        forall|i: int|
            0 <= i < entries.len() && (#[trigger] entries[i]).address == address ==> entry_at(
                entries,
                address,
            ) == Some(entries[i]) && place_of(entries, address) == i,
{
    distinct_means_apart(entries);
    if forall|i: int| 0 <= i < entries.len() ==> entries[i].address != address {
        lemma_no_entry(entries, address);
    } else {
        let k = choose|k: int| 0 <= k < entries.len() && entries[k].address == address;
        entries_have_their_own_address(entries, k);
    }
    assert forall|i: int|
        0 <= i < entries.len() && (#[trigger] entries[i]).address == address implies entry_at(
        entries,
        address,
    ) == Some(entries[i]) && place_of(entries, address) == i by {
        entries_have_their_own_address(entries, i);
        let p = place_of(entries, address);
        assert(0 <= p < entries.len() && entries[p] == entries[i]);
        if p != i {
            assert(entries[p].address != entries[i].address);
        }
    }
}

/// Registering an item takes the place of the one at its address, or the place
/// behind all others, and leaves every other item where it is.
pub proof fn registering_leaves_the_others(entries: Seq<EntryModel>, entry: EntryModel)
    requires
        all_apart(entries),
    ensures
        (forall|i: int| 0 <= i < entries.len() ==> entries[i].address != entry.address)
            ==> registered(entries, entry) == entries.push(entry),
        forall|i: int|
            0 <= i < entries.len() && (#[trigger] entries[i]).address == entry.address
                ==> registered(entries, entry) == entries.update(i, entry),
{
    if forall|i: int| 0 <= i < entries.len() ==> entries[i].address != entry.address {
        lemma_no_entry(entries, entry.address);
    }
    an_address_finds_what_is_registered(entries, entry.address);
}

/// Whether `row` is the row of `entry` with `icon` for its icon.
pub open spec fn is_row_of(row: RowModel, entry: EntryModel, icon: Option<Seq<char>>) -> bool {
    &&& row.title == display_title(entry.item, entry.address)
    &&& row.address == entry.address
    &&& row.icon == icon
}

/// A tray that does not sort lists its items as they are registered: the row of
/// each in its place, with what is shown for its icon.
pub proof fn an_unsorted_list_is_as_registered(host: HostModel, icons: Seq<Option<Seq<char>>>)
    requires
        !host.sorting,
        icons.len() == host.entries.len(),
    ensures
        listed(host, icons).len() == host.entries.len(),
        forall|i: int|
            0 <= i < host.entries.len() ==> is_row_of(
                #[trigger] listed(host, icons)[i],
                host.entries[i],
                icons[i],
            ),
{
}

/// A tray that sorts lists the rows that it would list unsorted: each as often,
/// in the order of dictionaries by their titles, and those of one title in the
/// order in which they are registered.
pub proof fn a_sorted_list_is_in_order(
    sorting: HostModel,
    plain: HostModel,
    icons: Seq<Option<Seq<char>>>,
    title: Seq<char>,
)
    requires
        sorting.sorting,
        !plain.sorting,
        sorting.entries == plain.entries,
        icons.len() == plain.entries.len(),
    ensures
        listed(sorting, icons).len() == plain.entries.len(),
        listed(sorting, icons).to_multiset() == listed(plain, icons).to_multiset(),
        forall|i: int, j: int|
            0 <= i < j < listed(sorting, icons).len() ==> exists|at: int|
                goes_first_at(
                    (#[trigger] listed(sorting, icons)[i]).title,
                    (#[trigger] listed(sorting, icons)[j]).title,
                    at,
                ),
        listed(sorting, icons).filter(|row: RowModel| row.title == title) == listed(
            plain,
            icons,
        ).filter(|row: RowModel| row.title == title),
{
    broadcast use vstd::seq_lib::group_to_multiset_ensures;

    let rows = rows_with(plain.entries, icons);
    let sorted = by_title(rows);
    sorting_is_stable(rows, title);
    sorting_keeps_every_row(rows);
    assert(sorted.len() == sorted.to_multiset().len());
    assert(rows.len() == rows.to_multiset().len());
    assert forall|i: int, j: int| 0 <= i < j < sorted.len() implies exists|at: int|
        goes_first_at((#[trigger] sorted[i]).title, (#[trigger] sorted[j]).title, at) by {
        assert(text_le(sorted[i].title, sorted[j].title));
        texts_are_ordered_as_in_a_dictionary(sorted[i].title, sorted[j].title);
    }
    assert(titled(sorted, title) == titled(rows, title));
}

/// Without resolved icons, the icon of an item is listed by its name.
pub proof fn icons_are_listed_by_name(entries: Seq<EntryModel>)
    ensures
        icon_names(entries).len() == entries.len(),
        forall|i: int|
            0 <= i < entries.len() ==> #[trigger] icon_names(entries)[i]
                == entries[i].item.icon_name,
{
}

/// An icon is cached anew exactly where an item is new or its icon changed, and
/// it is the icon of the item that the event is about.
pub proof fn icons_are_cached_anew(address: String)
    ensures
        icon_changed_at(Event::Add(address)) == Some(address@),
        icon_changed_at(Event::Update(address, UpdateEvent::Icon)) == Some(address@),
        icon_changed_at(Event::Update(address, UpdateEvent::Other)) is None,
        icon_changed_at(Event::Remove(address)) is None,
{
}

} // verus!
