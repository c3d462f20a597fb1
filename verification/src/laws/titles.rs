//! The title under which an item is shown.

use vstd::prelude::*;

use crate::item::{display_title, has_uppercase, ItemModel};

verus! {

/// Whether a name is of no use as a title: there is none, it is empty, it is the
/// name of the icon, or it has an underscore and neither a space nor an
/// upper-case character.
pub open spec fn of_no_use(name: Option<Seq<char>>, icon_name: Option<Seq<char>>) -> bool {
    ||| name is None
    ||| name->0.len() == 0
    ||| icon_name == name
    ||| {
        &&& exists|i: int| 0 <= i < name->0.len() && name->0[i] == '_'
        &&& forall|i: int| 0 <= i < name->0.len() ==> (#[trigger] name->0[i]) != ' '
        &&& forall|i: int|
            0 <= i < name->0.len() ==> !(if (#[trigger] name->0[i]) as int > 127 {
                has_uppercase(name->0[i])
            } else {
                65 <= name->0[i] as int <= 90
            })
    }
}

proof fn lemma_use(item: ItemModel, name: Option<Seq<char>>)
    ensures
        crate::item::names_item(item.icon_name, name) == !of_no_use(name, item.icon_name),
{
    if name is Some {
        let s = name->0;
        assert(s.contains('_') <==> exists|i: int| 0 <= i < s.len() && s[i] == '_');
        if s.contains(' ') {
            let k = choose|k: int| 0 <= k < s.len() && s[k] == ' ';
            assert(s[k] == ' ');
        }
        assert forall|i: int| 0 <= i < s.len() implies crate::item::is_upper(#[trigger] s[i]) == (
        if s[i] as int > 127 {
            has_uppercase(s[i])
        } else {
            65 <= s[i] as int <= 90
        }) by {}
    }
}

/// A title that is of use is the one that is shown, whatever else the item has.
pub proof fn a_title_of_use_is_shown(item: ItemModel, address: Seq<char>)
    requires
        !of_no_use(item.title, item.icon_name),
    ensures
        display_title(item, address) == item.title->0,
{
    lemma_use(item, item.title);
}

/// Behind a title of no use, a tooltip's title that is of use is shown.
pub proof fn a_tooltip_of_use_is_shown(item: ItemModel, address: Seq<char>)
    requires
        of_no_use(item.title, item.icon_name),
        !of_no_use(item.tip_title, item.icon_name),
    ensures
        display_title(item, address) == item.tip_title->0,
{
    lemma_use(item, item.title);
    lemma_use(item, item.tip_title);
}

/// Behind a title and a tooltip of no use, an id that is of use is shown.
pub proof fn an_id_of_use_is_shown(item: ItemModel, address: Seq<char>)
    requires
        of_no_use(item.title, item.icon_name),
        of_no_use(item.tip_title, item.icon_name),
        !of_no_use(Some(item.id), item.icon_name),
    ensures
        display_title(item, address) == item.id,
{
    lemma_use(item, item.title);
    lemma_use(item, item.tip_title);
    lemma_use(item, Some(item.id));
}

/// Only an item whose names are all of no use is shown under its address, or as
/// `Unknown` where it has none.
pub proof fn an_item_without_a_name_is_shown_by_its_address(item: ItemModel, address: Seq<char>)
    requires
        of_no_use(item.title, item.icon_name),
        of_no_use(item.tip_title, item.icon_name),
        of_no_use(Some(item.id), item.icon_name),
    ensures
        address.len() > 0 ==> display_title(item, address) == address,
        address.len() == 0 ==> display_title(item, address) == "Unknown"@,
{
    lemma_use(item, item.title);
    lemma_use(item, item.tip_title);
    lemma_use(item, Some(item.id));
}

/// An id that is neither empty nor the name of the icon and that holds no
/// underscore always stands before the address, whatever characters it has.
pub proof fn a_plain_id_stands_before_the_address(item: ItemModel, address: Seq<char>)
    requires
        item.id.len() > 0,
        item.icon_name != Some(item.id),
        forall|i: int| 0 <= i < item.id.len() ==> item.id[i] != '_',
    ensures
        ({
            let shown = display_title(item, address);
            ||| item.title == Some(shown)
            ||| item.tip_title == Some(shown)
            ||| shown == item.id
        }),
{
    lemma_use(item, item.title);
    lemma_use(item, item.tip_title);
    lemma_use(item, Some(item.id));
}

/// What is shown depends on the names and the icon's name alone: not on the
/// pixmaps and not on the menu, and on the address only where no name is of use.
pub proof fn a_title_depends_on_names_alone(
    a: ItemModel,
    b: ItemModel,
    address_a: Seq<char>,
    address_b: Seq<char>,
)
    requires
        a.title == b.title,
        a.tip_title == b.tip_title,
        a.id == b.id,
        a.icon_name == b.icon_name,
    ensures
        display_title(a, address_a) == display_title(b, address_a),
        !(of_no_use(a.title, a.icon_name) && of_no_use(a.tip_title, a.icon_name) && of_no_use(
            Some(a.id),
            a.icon_name,
        )) ==> display_title(a, address_a) == display_title(b, address_b),
{
    lemma_use(a, a.title);
    lemma_use(a, a.tip_title);
    lemma_use(a, Some(a.id));
}

} // verus!
