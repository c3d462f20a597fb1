//! The commands of the command line.

use vstd::prelude::*;

use crate::number::{push_signed, signed_decimal};
use crate::text::{contains_text, copy_text, occurs};

verus! {

/// The picker that `pick` uses unless the user names another.
pub const DEFAULT_PICKER: &'static str = "fuzzel --dmenu -d '\t' --with-nth=2";

/// What the program is asked to do.
#[derive(Debug)]
pub enum Command {
    /// Start the background daemon (D-Bus watcher and Unix socket server).
    Daemon,
    /// List tray items, have one picked, show its menu, have an entry picked,
    /// and click on it. An item without a menu is clicked on itself.
    Pick { picker: String },
    /// List all registered tray items.
    List,
    /// List the menu of a tray item.
    Menu { address: String },
    /// Click on an entry of a menu.
    Activate { address: String, menu_id: i32 },
    /// Click on the icon of a tray item.
    ActivateDefault { address: String },
}

/// What the program does: what it is asked to do, or run the daemon.
pub fn command_or_daemon(command: Option<Command>) -> (r: Command)
    ensures
        match command {
            Some(c) => r == c,
            None => r == Command::Daemon,
        },
{
    match command {
        Some(c) => c,
        None => Command::Daemon,
    }
}

/// The line that asks the daemon for the menu at `address`.
pub open spec fn menu_line(address: Seq<char>) -> Seq<char> {
    "MENU "@ + address
}

/// The line that asks the daemon to click on the entry `id` of the menu at
/// `address`.
pub open spec fn activate_line(address: Seq<char>, id: int) -> Seq<char> {
    "ACTIVATE "@ + address.push(' ') + signed_decimal(id)
}

/// The line that asks the daemon to click on the icon at `address`.
pub open spec fn activate_default_line(address: Seq<char>) -> Seq<char> {
    "ACTIVATE_DEFAULT "@ + address
}

/// The line that asks the daemon for the menu at `address`.
pub fn menu_command(address: &str) -> (r: String)
    ensures
        r@ == menu_line(address@),
{
    let mut r = copy_text("MENU ");
    r.append(address);
    r
}

/// The line that asks the daemon to click on an entry of a menu.
pub fn activate_command(address: &str, id: i32) -> (r: String)
    ensures
        r@ == activate_line(address@, id as int),
{
    let mut r = copy_text("ACTIVATE ");
    r.append(address);
    r.push(' ');
    push_signed(&mut r, id);
    assert(r@ == activate_line(address@, id as int));
    r
}

/// The line that asks the daemon to click on an icon.
pub fn activate_default_command(address: &str) -> (r: String)
    ensures
        r@ == activate_default_line(address@),
{
    let mut r = copy_text("ACTIVATE_DEFAULT ");
    r.append(address);
    r
}

/// The line that the program sends to the daemon for a command that is a
/// single request, and whether it prints the reply.
pub open spec fn exchange(command: Command) -> Option<(Seq<char>, bool)> {
    match command {
        Command::Daemon => None,
        Command::Pick { .. } => None,
        Command::List => Some(("LIST"@, true)),
        Command::Menu { address } => Some((menu_line(address@), true)),
        Command::Activate { address, menu_id } => Some(
            (activate_line(address@, menu_id as int), false),
        ),
        Command::ActivateDefault { address } => Some((activate_default_line(address@), false)),
    }
}

/// The line that the program sends to the daemon for a command that is a
/// single request, and whether it prints the reply.
pub fn request_for(command: &Command) -> (r: Option<(String, bool)>)
    ensures
        match r {
            Some((line, print)) => exchange(*command) == Some((line@, print)),
            None => exchange(*command) is None,
        },
{
    match command {
        Command::Daemon => None,
        Command::Pick { .. } => None,
        Command::List => Some((copy_text("LIST"), true)),
        Command::Menu { address } => Some((menu_command(address.as_str()), true)),
        Command::Activate { address, menu_id } => Some(
            (activate_command(address.as_str(), *menu_id), false),
        ),
        Command::ActivateDefault { address } => Some(
            (activate_default_command(address.as_str()), false),
        ),
    }
}

/// What is printed of a reply: the reply on a line of its own, or nothing.
pub open spec fn printed(reply: Seq<char>) -> Seq<char> {
    if reply.len() == 0 {
        reply
    } else {
        reply.push('\n')
    }
}

/// What is printed of a reply.
pub fn print_response(reply: &str) -> (r: String)
    ensures
        r@ == printed(reply@),
{
    let mut r = copy_text(reply);
    if !reply.is_empty() {
        r.push('\n');
    }
    r
}

/// What the user is told when the daemon at `socket` cannot be asked.
pub open spec fn failure(error: Seq<char>, socket: Seq<char>) -> Seq<char> {
    if occurs(error, "connection refused"@) || occurs(error, "No such file"@) {
        "Error: daemon is not running.\nStart it with: tray-host daemon &\n(socket path: "@
            + socket.push(')')
    } else {
        "Error: "@ + error
    }
}

/// What the user is told when the daemon at `socket` cannot be asked.
pub fn failure_message(error: &str, socket: &str) -> (r: String)
    ensures
        r@ == failure(error@, socket@),
{
    if contains_text(error, "connection refused") || contains_text(error, "No such file") {
        let mut r = copy_text(
            "Error: daemon is not running.\nStart it with: tray-host daemon &\n(socket path: ",
        );
        r.append(socket);
        r.push(')');
        assert(r@ == failure(error@, socket@));
        r
    } else {
        let mut r = copy_text("Error: ");
        r.append(error);
        r
    }
}

} // verus!
