//! What the daemon understands and does, and what the command line sends it.

use vstd::prelude::*;

use crate::cli::{activate_default_line, activate_line, exchange, menu_line, Command};
use crate::clicks::{
    a_click_request_arrives, a_default_click_request_arrives, a_menu_request_arrives, arrives,
    the_list_request_arrives,
};
use crate::connection::{line_step, step_reply, LineStepModel};
use crate::host::{
    entries_have_their_own_address, listed, menu_of, menu_path_of, ClickModel, HostModel,
    NoticeModel,
};
use crate::laws::texts::{blank, trimming_takes_the_ends};
use crate::number::{parse_i32, signed_decimal};
use crate::socket::{
    click_reply, command_on, list_reply, menu_reply, request, server_step, RequestModel, StepModel,
};
use crate::text::{is_white, splitn};
use crate::wire::{lemma_three_fields, one_line};

verus! {

proof fn lemma_words_differ()
    ensures
        "LIST"@ != "MENU"@,
        "LIST"@ != "PING"@,
        "LIST"@ != "ACTIVATE"@,
        "LIST"@ != "ACTIVATE_DEFAULT"@,
        "MENU"@ != "PING"@,
        "MENU"@ != "ACTIVATE"@,
        "MENU"@ != "ACTIVATE_DEFAULT"@,
        "PING"@ != "ACTIVATE"@,
        "PING"@ != "ACTIVATE_DEFAULT"@,
        "ACTIVATE"@ != "ACTIVATE_DEFAULT"@,
{
    reveal_strlit("LIST");
    reveal_strlit("MENU");
    reveal_strlit("PING");
    reveal_strlit("ACTIVATE");
    reveal_strlit("ACTIVATE_DEFAULT");
    assert("LIST"@[0] == 'L' && "MENU"@[0] == 'M' && "PING"@[0] == 'P' && "ACTIVATE"@[0] == 'A'
        && "ACTIVATE_DEFAULT"@[0] == 'A');
    assert("ACTIVATE"@.len() != "ACTIVATE_DEFAULT"@.len());
}

/// Whether `word` is one that the daemon knows.
pub open spec fn is_known(word: Seq<char>) -> bool {
    word == "LIST"@ || word == "MENU"@ || word == "ACTIVATE"@ || word == "ACTIVATE_DEFAULT"@ || word
        == "PING"@
}

/// `LIST` and `PING` are understood whatever follows them, and a word that the
/// daemon does not know is refused by name whatever follows it.
pub proof fn what_a_word_has_no_use_for_is_ignored(word: Seq<char>, rest: Seq<char>)
    requires
        !word.contains(' '),
    ensures
        request("LIST"@) == RequestModel::List,
        request("PING"@) == RequestModel::Ping,
        request("LIST"@.push(' ') + rest) == RequestModel::List,
        request("PING"@.push(' ') + rest) == RequestModel::Ping,
        !is_known(word) ==> request(word) == RequestModel::Refused(
            "ERROR: unknown command: "@ + word,
        ) && request(word.push(' ') + rest) == RequestModel::Refused(
            "ERROR: unknown command: "@ + word,
        ),
{
    reveal_strlit("LIST");
    reveal_strlit("PING");
    lemma_words_differ();
    assert(!"LIST"@.contains(' '));
    assert(!"PING"@.contains(' '));
    lemma_first_word("LIST"@, rest);
    lemma_first_word("PING"@, rest);
    lemma_first_word(word, rest);
}

proof fn lemma_first_word(word: Seq<char>, rest: Seq<char>)
    requires
        !word.contains(' '),
    ensures
        splitn(word, 3, ' ') == seq![word],
        splitn(word.push(' ') + rest, 3, ' ').len() >= 2,
        splitn(word.push(' ') + rest, 3, ' ')[0] == word,
{
    lemma_three_fields(word, Seq::empty(), Seq::empty(), ' ');
    crate::wire::lemma_split_at(word, ' ', rest);
    reveal_with_fuel(splitn, 4);
}

/// The request for a menu, for the click on an icon and for the click on an entry
/// carry the address, which ends at the next space. What they lack is named.
pub proof fn requests_carry_their_address(address: Seq<char>, rest: Seq<char>)
    requires
        !address.contains(' '),
    ensures
        request("MENU "@ + address) == RequestModel::Menu(address),
        request("MENU "@ + address.push(' ') + rest) == RequestModel::Menu(address),
        request("MENU"@) == RequestModel::Refused("ERROR: missing address argument"@),
        request("ACTIVATE_DEFAULT "@ + address) == RequestModel::ActivateDefault(address),
        request("ACTIVATE_DEFAULT "@ + address.push(' ') + rest) == RequestModel::ActivateDefault(
            address,
        ),
        request("ACTIVATE_DEFAULT"@) == RequestModel::Refused("ERROR: missing address argument"@),
        request("ACTIVATE"@) == RequestModel::Refused(
            "ERROR: missing address or menu_id argument"@,
        ),
        request("ACTIVATE "@ + address) == RequestModel::Refused(
            "ERROR: missing address or menu_id argument"@,
        ),
        parse_i32(rest) matches Some(id) ==> request("ACTIVATE "@ + address.push(' ') + rest)
            == RequestModel::Activate(address, id),
        parse_i32(rest) is None ==> request("ACTIVATE "@ + address.push(' ') + rest)
            == RequestModel::Refused("ERROR: menu_id must be an integer"@),
{
    reveal_strlit("LIST");
    reveal_strlit("MENU");
    reveal_strlit("MENU ");
    reveal_strlit("ACTIVATE");
    reveal_strlit("ACTIVATE ");
    reveal_strlit("ACTIVATE_DEFAULT");
    reveal_strlit("ACTIVATE_DEFAULT ");
    lemma_words_differ();
    assert("MENU "@ == "MENU"@.push(' '));
    assert("ACTIVATE "@ == "ACTIVATE"@.push(' '));
    assert("ACTIVATE_DEFAULT "@ == "ACTIVATE_DEFAULT"@.push(' '));
    lemma_three_fields("MENU"@, address, rest, ' ');
    lemma_three_fields("ACTIVATE"@, address, rest, ' ');
    lemma_three_fields("ACTIVATE_DEFAULT"@, address, rest, ' ');
}

/// The daemon does what is asked of it, with the item at the address that is
/// asked about.
pub proof fn the_daemon_does_what_is_asked(host: HostModel, command: Seq<char>)
    ensures
        match request(command) {
            RequestModel::List => server_step(host, command) == StepModel::List,
            RequestModel::Ping => server_step(host, command) == StepModel::Reply("PONG"@),
            RequestModel::Refused(reply) => server_step(host, command) == StepModel::Reply(reply),
            RequestModel::Menu(address) => server_step(host, command) == StepModel::Reply(
                menu_reply(menu_of(host, address), address),
            ),
            RequestModel::ActivateDefault(address) => server_step(host, command) == (
            StepModel::Activate { notice: None, click: ClickModel::Default { address, x: 0, y: 0 } }),
            RequestModel::Activate(address, id) => match menu_path_of(host, address) {
                Some(menu_path) => server_step(host, command) == (StepModel::Activate {
                    notice: Some(NoticeModel { address, menu_path, id: 0 }),
                    click: ClickModel::MenuItem { address, menu_path, submenu_id: id as i32 },
                }),
                None => server_step(host, command) == StepModel::Reply(
                    "ERROR: item not found or has no menu: "@ + address,
                ),
            },
        },
{
}

/// A click on an entry of a registered item's menu goes to that item, by its own
/// menu path, with the id that was asked for; a notice of the whole menu goes
/// before it.
pub proof fn an_entry_is_clicked_at_its_item(host: HostModel, k: int, id: i32)
    requires
        crate::host::distinct(host.entries),
        0 <= k < host.entries.len(),
        !host.entries[k].address.contains(' '),
        host.entries[k].item.menu is Some,
    ensures
        ({
            let address = host.entries[k].address;
            let menu_path = host.entries[k].item.menu->0;
            server_step(host, "ACTIVATE "@ + address.push(' ') + signed_decimal(id as int)) == (
            StepModel::Activate {
                notice: Some(NoticeModel { address, menu_path, id: 0 }),
                click: ClickModel::MenuItem { address, menu_path, submenu_id: id },
            })
        }),
{
    let address = host.entries[k].address;
    entries_have_their_own_address(host.entries, k);
    crate::number::decimal_round_trip(id);
    requests_carry_their_address(address, signed_decimal(id as int));
}

/// The line that the command line sends for a command is understood by the daemon
/// as what the command says, and the reply is printed for those that ask for
/// something to see. The daemon itself and picking send no single line.
pub proof fn the_command_line_is_understood(address: String, menu_id: i32, picker: String)
    requires
        address@.len() > 0,
        !is_white(address@.last()),
        !address@.contains(' '),
        one_line(address@),
    ensures
        exchange(Command::Daemon) is None,
        exchange(Command::Pick { picker }) is None,
        exchange(Command::List) matches Some((line, print)) && print && arrives(line) && request(
            line,
        ) == RequestModel::List,
        exchange(Command::Menu { address }) matches Some((line, print)) && print && arrives(line)
            && request(line) == RequestModel::Menu(address@),
        exchange(Command::ActivateDefault { address }) matches Some((line, print)) && !print
            && arrives(line) && request(line) == RequestModel::ActivateDefault(address@),
{
    the_list_request_arrives();
    a_menu_request_arrives(address@);
    a_default_click_request_arrives(address@);
}

/// The line for the click on an entry is understood as the click on exactly that
/// entry at exactly that address.
pub proof fn the_click_on_an_entry_is_understood(address: String, menu_id: i32)
    requires
        !address@.contains(' '),
        one_line(address@),
    ensures
        exchange(Command::Activate { address, menu_id }) matches Some((line, print)) && !print
            && arrives(line) && request(line) == RequestModel::Activate(address@, menu_id as int),
{
    a_click_request_arrives(address@, menu_id);
}

/// The lines that are sent for a command hold its word, the address as it is and
/// the id in decimal.
pub proof fn lines_hold_what_is_asked(address: String, menu_id: i32)
    ensures
        exchange(Command::List) == Some(("LIST"@, true)),
        exchange(Command::Menu { address }) == Some(("MENU "@ + address@, true)),
        exchange(Command::Activate { address, menu_id }) == Some(
            ("ACTIVATE "@ + address@.push(' ') + signed_decimal(menu_id as int), false),
        ),
        exchange(Command::ActivateDefault { address }) == Some(
            ("ACTIVATE_DEFAULT "@ + address@, false),
        ),
        menu_line(address@) == "MENU "@ + address@,
        activate_line(address@, menu_id as int) == "ACTIVATE "@ + address@.push(' ')
            + signed_decimal(menu_id as int),
        activate_default_line(address@) == "ACTIVATE_DEFAULT "@ + address@,
{
}

/// The white space around a command is no part of it, and white space alone is no
/// command. A line is served whatever command it holds; the end of the stream
/// alone closes the connection.
pub proof fn a_line_is_served_by_its_command(
    host: HostModel,
    front: Seq<char>,
    command: Seq<char>,
    back: Seq<char>,
)
    requires
        blank(front),
        blank(back),
        command.len() > 0 ==> !is_white(command[0]) && !is_white(command.last()),
    ensures
        command.len() > 0 ==> command_on(front + command + back) == Some(command),
        command.len() == 0 ==> command_on(front + command + back) is None,
        command.len() > 0 ==> line_step(host, front + command + back) == LineStepModel::Serve(
            server_step(host, command),
        ),
        command.len() == 0 && front.len() + back.len() > 0 ==> line_step(
            host,
            front + command + back,
        ) == LineStepModel::Skip,
        line_step(host, Seq::empty()) == LineStepModel::Close,
{
    trimming_takes_the_ends(front, command, back);
}

/// The reply to a step is its own, or the list with the icons that are shown, or
/// what came of the click.
pub proof fn a_step_is_answered(
    host: HostModel,
    reply: Seq<char>,
    icons: Seq<Option<Seq<char>>>,
    error: Option<Seq<char>>,
    notice: Option<NoticeModel>,
    click: ClickModel,
)
    ensures
        step_reply(host, StepModel::Reply(reply), icons, error) == reply,
        step_reply(host, StepModel::List, icons, error) == list_reply(listed(host, icons)),
        error is None ==> step_reply(host, StepModel::Activate { notice, click }, icons, error)
            == "OK"@,
        error is Some ==> step_reply(host, StepModel::Activate { notice, click }, icons, error)
            == "ERROR: "@ + error->0,
        click_reply(None) == "OK"@,
        error is Some ==> click_reply(error) == "ERROR: "@ + error->0,
{
}

} // verus!
