//! Events of the tray, and what they mean for the icon cache.

use vstd::prelude::*;

use crate::text::opt_text;

verus! {

/// What changed about an item.
#[derive(Debug, Clone, Copy, PartialEq, Eq, Structural)]
pub enum UpdateEvent {
    /// Its icon.
    Icon,
    /// Anything else, such as its title, its status or its menu.
    Other,
}

/// Something that happened to the item at an address.
#[derive(Debug)]
pub enum Event {
    Add(String),
    Update(String, UpdateEvent),
    Remove(String),
}

/// The address of the item whose icon is to be cached anew: that of a new item,
/// or of one whose icon changed.
pub open spec fn icon_changed_at(event: Event) -> Option<Seq<char>> {
    match event {
        Event::Add(address) => Some(address@),
        Event::Update(address, UpdateEvent::Icon) => Some(address@),
        Event::Update(_, UpdateEvent::Other) => None,
        Event::Remove(_) => None,
    }
}

/// The address of the item whose icon is to be cached anew.
pub fn icon_to_refresh(event: &Event) -> (r: Option<String>)
    ensures
        opt_text(r) == icon_changed_at(*event),
{
    match event {
        Event::Add(address) => Some(address.clone()),
        Event::Update(address, UpdateEvent::Icon) => Some(address.clone()),
        Event::Update(_, UpdateEvent::Other) => None,
        Event::Remove(_) => None,
    }
}

} // verus!
