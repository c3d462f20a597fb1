//! # tray-host
//!
//! A headless StatusNotifierItem host (system tray) for use with external
//! launchers like fuzzel, rofi, or dmenu.
//!
//! ```text
//! tray-host daemon  (background process)
//!   ├── D-Bus StatusNotifierWatcher
//!   ├── Host → the tray items at one moment
//!   └── Unix socket → $XDG_RUNTIME_DIR/tray-host.sock
//!
//! tray-host pick → user picks a tray icon, then a menu item
//! ```
//!
//! This library holds what the program decides and computes: titles, icons,
//! menus, the order of the list, the protocol on the socket, and the dialogue
//! with the picker. It is verified; the program around it moves bytes between
//! D-Bus, the socket, the picker and the file system.
//!
//! Each module states its functions' results over a model of the data:
//!
//! - [`text`] and [`number`]: strings as sequences of characters
//! - [`item`], [`icon`], [`menu`]: what an application registers
//! - [`listing`], [`host`], [`events`]: the registered items
//! - [`socket`], [`connection`]: commands and replies
//! - [`cli`], [`pick`]: the client
//! - [`config`], [`paths`]: settings and places
//! - [`wire`], [`clicks`]: laws about the whole way from an item in the tray to
//!   the click on it
//! - [`laws`]: what each operation is for, told by how its results relate to its
//!   inputs

pub mod cli;
pub mod clicks;
pub mod config;
pub mod connection;
pub mod events;
pub mod host;
pub mod icon;
pub mod item;
pub mod laws;
pub mod listing;
pub mod menu;
pub mod number;
pub mod paths;
pub mod pick;
pub mod socket;
pub mod text;
pub mod wire;

pub use events::{Event, UpdateEvent};
pub use host::{ActivateRequest, Host, TrayItems};
pub use item::{IconPixmap, StatusNotifierItem, Tooltip};
pub use menu::{FlatMenuItem, MenuItem, MenuType, TrayMenu};
