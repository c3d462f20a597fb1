//! Tray items: what the host knows of a registered application, and the
//! title under which the item is shown.

use vstd::prelude::*;

use crate::text::{copy_text, opt_text, to_chars};

verus! {

/// An icon as an application sends it: 32 bits per pixel, in the byte order
/// alpha, red, green, blue.
#[derive(Debug)]
pub struct IconPixmap {
    pub width: i32,
    pub height: i32,
    pub pixels: Vec<u8>,
}

/// What a pixmap holds.
pub struct PixmapModel {
    pub width: i32,
    pub height: i32,
    pub pixels: Seq<u8>,
}

impl View for IconPixmap {
    type V = PixmapModel;

    open spec fn view(&self) -> PixmapModel {
        PixmapModel { width: self.width, height: self.height, pixels: self.pixels@ }
    }
}

/// The text that an application shows when the pointer rests on its icon.
#[derive(Debug)]
pub struct Tooltip {
    pub title: String,
}

/// A registered tray item.
#[derive(Debug)]
pub struct StatusNotifierItem {
    /// The name by which the application calls itself.
    pub id: String,
    /// The title that the application gives the item.
    pub title: Option<String>,
    /// The freedesktop name of the icon.
    pub icon_name: Option<String>,
    /// The icon in one or more sizes.
    pub icon_pixmap: Option<Vec<IconPixmap>>,
    pub tool_tip: Option<Tooltip>,
    /// The D-Bus path of the item's menu.
    pub menu: Option<String>,
}

/// What a tray item holds.
#[verifier::ext_equal]
pub struct ItemModel {
    pub id: Seq<char>,
    pub title: Option<Seq<char>>,
    pub icon_name: Option<Seq<char>>,
    pub pixmaps: Option<Seq<PixmapModel>>,
    pub tip_title: Option<Seq<char>>,
    pub menu: Option<Seq<char>>,
}

/// What a sequence of pixmaps holds.
pub open spec fn pixmap_models(v: Seq<IconPixmap>) -> Seq<PixmapModel> {
    Seq::new(v.len(), |i: int| v[i]@)
}

impl View for StatusNotifierItem {
    type V = ItemModel;

    open spec fn view(&self) -> ItemModel {
        ItemModel {
            id: self.id@,
            title: opt_text(self.title),
            icon_name: opt_text(self.icon_name),
            pixmaps: match self.icon_pixmap {
                Some(v) => Some(pixmap_models(v@)),
                None => None,
            },
            tip_title: match self.tool_tip {
                Some(t) => Some(t.title@),
                None => None,
            },
            menu: opt_text(self.menu),
        }
    }
}

/// Whether `c` has the Unicode property `Uppercase`.
pub uninterp spec fn has_uppercase(c: char) -> bool;

/// `char::is_uppercase` tells whether a character has the Unicode property
/// `Uppercase`. Among the ASCII characters those are `A` to `Z`.
pub assume_specification[ char::is_uppercase ](c: char) -> (r: bool)
    ensures
        r == has_uppercase(c),
        (c as int) < 128 ==> r == (65 <= c as int <= 90),
;

/// Whether `c` is an upper-case character: one of `A` to `Z`, or one beyond
/// ASCII with the Unicode property `Uppercase`.
pub open spec fn is_upper(c: char) -> bool {
    if (c as int) < 128 {
        65 <= c as int <= 90
    } else {
        has_uppercase(c)
    }
}

/// Whether `s` looks like the technical name of an icon, as in
/// `chrome_status_icon_1`: an underscore, no space, no upper-case character.
pub open spec fn looks_technical(s: Seq<char>) -> bool {
    &&& !s.contains(' ')
    &&& s.contains('_')
    &&& forall|i: int| 0 <= i < s.len() ==> !is_upper(#[trigger] s[i])
}

/// Whether `s` names the icon of the item rather than the item.
pub open spec fn names_icon(icon_name: Option<Seq<char>>, s: Seq<char>) -> bool {
    icon_name == Some(s) || looks_technical(s)
}

/// Whether `name` can stand for the item: it is there, it is not empty, and it
/// does not only name the icon.
pub open spec fn names_item(icon_name: Option<Seq<char>>, name: Option<Seq<char>>) -> bool {
    name is Some && name->0.len() > 0 && !names_icon(icon_name, name->0)
}

/// The title under which the item at `address` is shown: the first of its
/// title, the title of its tooltip and its id that can stand for it, else its
/// address, else `Unknown`.
pub open spec fn display_title(item: ItemModel, address: Seq<char>) -> Seq<char> {
    if names_item(item.icon_name, item.title) {
        item.title->0
    } else if names_item(item.icon_name, item.tip_title) {
        item.tip_title->0
    } else if names_item(item.icon_name, Some(item.id)) {
        item.id
    } else if address.len() > 0 {
        address
    } else {
        "Unknown"@
    }
}

/// No item is shown without a title.
pub proof fn a_title_is_never_empty(item: ItemModel, address: Seq<char>)
    ensures
        display_title(item, address).len() > 0,
{
    reveal_strlit("Unknown");
}

/// An item is never shown under the name of its icon, unless that is its
/// address or there is no other name for it.
pub proof fn a_title_is_no_icon_name(item: ItemModel, address: Seq<char>)
    ensures
        names_icon(item.icon_name, display_title(item, address)) ==> display_title(item, address)
            == address || display_title(item, address) == "Unknown"@,
{
}

fn is_technical(s: &str) -> (r: bool)
    ensures
        r == looks_technical(s@),
{
    let v = to_chars(s);
    let mut underscore: bool = false;
    let mut i: usize = 0;
    while i < v.len()
        invariant
            i <= v@.len(),
            v@ == s@,
            forall|j: int| 0 <= j < i ==> #[trigger] v@[j] != ' ' && !is_upper(v@[j]),
            underscore == exists|j: int| 0 <= j < i && v@[j] == '_',
        decreases v@.len() - i,
    {
        let c: char = v[i];
        if c == ' ' {
            assert(s@[i as int] == ' ');
            return false;
        }
        if c.is_uppercase() {
            assert(is_upper(s@[i as int]));
            return false;
        }
        if c == '_' {
            assert(v@[i as int] == '_');
            underscore = true;
        }
        i += 1;
    }
    underscore
}

/// Whether `s` can stand for the item.
fn can_stand(item: &StatusNotifierItem, s: &String) -> (r: bool)
    ensures
        r == names_item(item@.icon_name, Some(s@)),
{
    let same: bool = match &item.icon_name {
        Some(name) => *name == *s,
        None => false,
    };
    !s.as_str().is_empty() && !same && !is_technical(s.as_str())
}

/// The title under which the item at `address` is shown. It is never empty.
pub fn get_title(item: &StatusNotifierItem, address: &str) -> (r: String)
    ensures
        r@ == display_title(item@, address@),
        r@.len() > 0,
{
    proof {
        reveal_strlit("Unknown");
    }
    if let Some(title) = &item.title {
        if can_stand(item, title) {
            return title.clone();
        }
    }
    if let Some(tip) = &item.tool_tip {
        if can_stand(item, &tip.title) {
            return tip.title.clone();
        }
    }
    if can_stand(item, &item.id) {
        return item.id.clone();
    }
    if !address.is_empty() {
        return copy_text(address);
    }
    copy_text("Unknown")
}

} // verus!
