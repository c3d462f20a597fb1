//! Menus: the tree that an application sends, and the list that a picker
//! shows.

use vstd::prelude::*;

use crate::text::{copy_text, opt_text, or_empty};

verus! {

/// What kind of entry a menu item is.
#[derive(Debug, Clone, Copy, PartialEq, Eq, Structural)]
pub enum MenuType {
    /// A line between entries.
    Separator,
    /// An entry that can be clicked or that opens a menu of its own.
    Standard,
}

/// The name of a kind of entry.
pub open spec fn kind_name(t: MenuType) -> Seq<char> {
    match t {
        MenuType::Separator => "separator"@,
        MenuType::Standard => "standard"@,
    }
}

fn menu_type_name(t: MenuType) -> (r: String)
    ensures
        r@ == kind_name(t),
{
    match t {
        MenuType::Separator => copy_text("separator"),
        MenuType::Standard => copy_text("standard"),
    }
}

/// An entry of a menu, with the entries of its own menu.
#[derive(Debug)]
pub struct MenuItem {
    pub id: i32,
    pub menu_type: MenuType,
    pub label: Option<String>,
    pub enabled: bool,
    pub submenu: Vec<MenuItem>,
}

/// The menu of a tray item.
#[derive(Debug)]
pub struct TrayMenu {
    pub submenus: Vec<MenuItem>,
}

/// A flattened menu item for display and selection.
#[derive(Debug, Clone)]
pub struct FlatMenuItem {
    /// The menu item's D-Bus id.
    pub id: i32,
    /// Human-readable label.
    pub label: String,
    /// Whether the item is enabled (clickable).
    pub enabled: bool,
    /// The kind of entry: "standard" or "separator".
    pub menu_type: String,
}

/// What a flattened menu item holds.
#[verifier::ext_equal]
pub struct FlatModel {
    pub id: i32,
    pub label: Seq<char>,
    pub enabled: bool,
    pub menu_type: Seq<char>,
}

impl View for FlatMenuItem {
    type V = FlatModel;

    open spec fn view(&self) -> FlatModel {
        FlatModel {
            id: self.id,
            label: self.label@,
            enabled: self.enabled,
            menu_type: self.menu_type@,
        }
    }
}

/// What a sequence of flattened menu items holds.
pub open spec fn flat_models(v: Seq<FlatMenuItem>) -> Seq<FlatModel> {
    Seq::new(v.len(), |i: int| v[i]@)
}

/// An entry by itself.
pub open spec fn flat(item: MenuItem) -> FlatModel {
    FlatModel {
        id: item.id,
        label: or_empty(opt_text(item.label)),
        enabled: item.enabled,
        menu_type: kind_name(item.menu_type),
    }
}

/// The entries of a menu in the order in which they are read: each entry is
/// followed by those of its own menu.
pub open spec fn flattened(items: Seq<MenuItem>) -> Seq<FlatModel>
    decreases items,
{
    if items.len() == 0 {
        Seq::empty()
    } else {
        flattened(items.drop_last()).push(flat(items.last())) + flattened(items.last().submenu@)
    }
}

/// Appends the entries of a menu, in reading order.
pub fn flatten_menu(items: &Vec<MenuItem>, out: &mut Vec<FlatMenuItem>)
    ensures
        flat_models(final(out)@) == flat_models(old(out)@) + flattened(items@),
    decreases items,
{
    let mut i: usize = 0;
    assert(flat_models(out@) + flattened(items@.take(0)) == flat_models(out@));
    while i < items.len()
        invariant
            i <= items@.len(),
            flat_models(out@) == flat_models(old(out)@) + flattened(items@.take(i as int)),
        decreases items@.len() - i,
    {
        let item = &items[i];
        let ghost before = flat_models(out@);
        let label: String = match &item.label {
            Some(label) => label.clone(),
            None => String::new(),
        };
        out.push(
            FlatMenuItem {
                id: item.id,
                label,
                enabled: item.enabled,
                menu_type: menu_type_name(item.menu_type),
            },
        );
        assert(flat_models(out@) == before.push(flat(items@[i as int])));
        flatten_menu(&item.submenu, out);
        proof {
            let next = items@.take(i + 1);
            assert(next.drop_last() == items@.take(i as int));
            assert(next.last() == items@[i as int]);
            assert(flat_models(out@) == flat_models(old(out)@) + flattened(next));
        }
        i += 1;
    }
    assert(items@.take(i as int) == items@);
}

/// The number of entries in a menu, those of its menus included.
pub open spec fn menu_size(items: Seq<MenuItem>) -> nat
    decreases items,
{
    if items.len() == 0 {
        0
    } else {
        menu_size(items.drop_last()) + 1 + menu_size(items.last().submenu@)
    }
}

/// Flattening neither drops nor adds an entry.
pub proof fn flattening_keeps_every_entry(items: Seq<MenuItem>)
    ensures
        flattened(items).len() == menu_size(items),
    decreases items,
{
    if items.len() > 0 {
        flattening_keeps_every_entry(items.drop_last());
        flattening_keeps_every_entry(items.last().submenu@);
    }
}

/// Two menus one after the other are flattened one after the other.
pub proof fn flattening_is_in_order(a: Seq<MenuItem>, b: Seq<MenuItem>)
    ensures
        flattened(a + b) == flattened(a) + flattened(b),
    decreases b.len(),
{
    if b.len() == 0 {
        assert(a + b == a);
        assert(flattened(a) + flattened(b) == flattened(a));
    } else {
        assert((a + b).drop_last() == a + b.drop_last());
        flattening_is_in_order(a, b.drop_last());
        assert(flattened(a + b) == flattened(a) + flattened(b));
    }
}

/// Every entry is listed right before the entries of its own menu, and those
/// before the entries that follow it.
pub proof fn entries_precede_their_menus(item: MenuItem, rest: Seq<MenuItem>)
    ensures
        flattened(seq![item] + rest) == seq![flat(item)] + flattened(item.submenu@) + flattened(
            rest,
        ),
{
    flattening_is_in_order(seq![item], rest);
    assert(seq![item].drop_last() == Seq::<MenuItem>::empty());
    assert(flattened(seq![item].drop_last()) == Seq::<FlatModel>::empty());
    assert(flattened(seq![item]) == seq![flat(item)] + flattened(item.submenu@));
}

/// Whether an entry is a standard one or a separator.
pub open spec fn has_kind(entry: FlatModel) -> bool {
    entry.menu_type == kind_name(MenuType::Standard) || entry.menu_type == kind_name(
        MenuType::Separator,
    )
}

/// Every entry of a flattened menu is a standard one or a separator.
pub proof fn every_entry_has_a_kind(items: Seq<MenuItem>)
    ensures
        forall|i: int| 0 <= i < flattened(items).len() ==> has_kind(#[trigger] flattened(items)[i]),
    decreases items,
{
    if items.len() > 0 {
        let head = flattened(items.drop_last());
        let tail = flattened(items.last().submenu@);
        every_entry_has_a_kind(items.drop_last());
        every_entry_has_a_kind(items.last().submenu@);
        assert forall|i: int| 0 <= i < flattened(items).len() implies has_kind(
            #[trigger] flattened(items)[i],
        ) by {
            if i < head.len() {
                assert(flattened(items)[i] == head[i]);
            } else if i == head.len() {
                assert(flattened(items)[i] == flat(items.last()));
            } else {
                assert(flattened(items)[i] == tail[i - head.len() - 1]);
            }
        }
    }
}

} // verus!
