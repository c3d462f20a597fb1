//! What is picked is clicked: laws about the way from a selection in the picker
//! to the click that the daemon makes.

use vstd::prelude::*;

use crate::cli::{activate_default_line, activate_line, menu_line};
use crate::host::{menu_of, menu_path_of, ClickModel, HostModel, NoticeModel};
use crate::listing::RowModel;
use crate::menu::FlatModel;
use crate::number::{decimal_round_trip, signed_decimal};
use crate::pick::{
    after_reply, after_selection, choice_text, choice_texts, entry_choices, joined_lines,
    no_menu_error, shown, ActionModel, StageModel,
};
use crate::socket::{
    click_reply, command_on, entry_texts, list_reply, menu_reply, no_menu_reply, on_lines, reply,
    request, server_step, RequestModel, StepModel,
};
use crate::text::{
    before, is_white, lemma_find, lemma_find_bounds, lemma_trim_of_trimmed, lemma_trim_start, lines,
    occurs_at, splitn, trim, trim_end,
};
use crate::wire::{
    is_kept, is_readable, is_readable_entry, items_read, items_sent, kept_lines_arrive,
    lemma_contains_add, lemma_contains_push, lemma_entry_is_kept, lemma_number_lacks,
    lemma_number_text, lemma_on_lines_front, lemma_split_at, lemma_three_fields, lemma_trim_break,
    one_line, the_list_arrives, trimmed, wire_lines,
};

verus! {

// ---------------------------------------------------------------------------
// Commands arrive
// ---------------------------------------------------------------------------

/// Whether the line `command` reaches the daemon as it is: it is read as one
/// line, and the command on that line is `command`.
pub open spec fn arrives(command: Seq<char>) -> bool {
    &&& wire_lines(command.push('\n')) == seq![command.push('\n')]
    &&& command_on(command.push('\n')) == Some(command)
}

proof fn lemma_arrives(command: Seq<char>)
    requires
        command.len() > 0,
        one_line(command),
        !is_white(command[0]),
        !is_white(command.last()),
    ensures
        arrives(command),
{
    lemma_trim_break(command);
    lemma_trim_of_trimmed(command);
    let line = command.push('\n');
    assert(line + Seq::<char>::empty() == line);
    lemma_split_at(command, '\n', Seq::empty());
    assert(wire_lines(Seq::<char>::empty()) == Seq::<Seq<char>>::empty());
    assert(wire_lines(line) == seq![line]);
}

/// The request for the list arrives.
pub proof fn the_list_request_arrives()
    ensures
        arrives("LIST"@),
        request("LIST"@) == RequestModel::List,
{
    reveal_strlit("LIST");
    lemma_arrives("LIST"@);
    lemma_three_fields("LIST"@, Seq::empty(), Seq::empty(), ' ');
}

/// The request for a menu arrives with its address, unless the address is
/// empty, ends with white space, or holds a space or a line break.
pub proof fn a_menu_request_arrives(address: Seq<char>)
    requires
        address.len() > 0,
        !is_white(address.last()),
        !address.contains(' '),
        one_line(address),
    ensures
        arrives(menu_line(address)),
        request(menu_line(address)) == RequestModel::Menu(address),
{
    reveal_strlit("MENU ");
    reveal_strlit("MENU");
    reveal_strlit("LIST");
    let line = menu_line(address);
    assert("MENU "@ == "MENU"@.push(' '));
    lemma_contains_add("MENU "@, address, '\n');
    assert(line[0] == 'M');
    assert(line.last() == address.last());
    lemma_arrives(line);
    lemma_three_fields("MENU"@, address, Seq::empty(), ' ');
    assert("MENU"@[0] == 'M' && "LIST"@[0] == 'L');
}

/// The request for a click on an icon arrives with its address, unless the
/// address is empty, ends with white space, or holds a space or a line break.
pub proof fn a_default_click_request_arrives(address: Seq<char>)
    requires
        address.len() > 0,
        !is_white(address.last()),
        !address.contains(' '),
        one_line(address),
    ensures
        arrives(activate_default_line(address)),
        request(activate_default_line(address)) == RequestModel::ActivateDefault(address),
{
    reveal_strlit("ACTIVATE_DEFAULT ");
    reveal_strlit("ACTIVATE_DEFAULT");
    reveal_strlit("ACTIVATE");
    reveal_strlit("MENU");
    reveal_strlit("LIST");
    let word = "ACTIVATE_DEFAULT"@;
    let line = activate_default_line(address);
    assert("ACTIVATE_DEFAULT "@ == word.push(' '));
    lemma_contains_add("ACTIVATE_DEFAULT "@, address, '\n');
    assert(line[0] == 'A');
    assert(line.last() == address.last());
    lemma_arrives(line);
    lemma_three_fields(word, address, Seq::empty(), ' ');
    assert(word[0] == 'A' && "LIST"@[0] == 'L' && "MENU"@[0] == 'M');
    assert(word.len() != "ACTIVATE"@.len());
}

/// The request for a click on an entry arrives with its address and its id,
/// unless the address holds a space or a line break.
pub proof fn a_click_request_arrives(address: Seq<char>, id: i32)
    requires
        !address.contains(' '),
        one_line(address),
    ensures
        arrives(activate_line(address, id as int)),
        request(activate_line(address, id as int)) == RequestModel::Activate(address, id as int),
{
    reveal_strlit("ACTIVATE ");
    reveal_strlit("ACTIVATE");
    reveal_strlit("MENU");
    reveal_strlit("LIST");
    let word = "ACTIVATE"@;
    let number = signed_decimal(id as int);
    let line = activate_line(address, id as int);
    lemma_number_text(id as int);
    lemma_number_lacks(id as int, '\n');
    decimal_round_trip(id);
    assert("ACTIVATE "@ == word.push(' '));
    lemma_contains_push(address, ' ', '\n');
    lemma_contains_add("ACTIVATE "@, address.push(' '), '\n');
    lemma_contains_add("ACTIVATE "@ + address.push(' '), number, '\n');
    assert(line[0] == 'A');
    assert(line.last() == number.last());
    lemma_arrives(line);
    lemma_three_fields(word, address, number, ' ');
    assert(word[0] == 'A' && "LIST"@[0] == 'L' && "MENU"@[0] == 'M');
}

// ---------------------------------------------------------------------------
// Selections
// ---------------------------------------------------------------------------

proof fn lemma_trim_end_keeps(s: Seq<char>, j: int)
    requires
        0 <= j < s.len(),
        !is_white(s[j]),
    ensures
        j < trim_end(s).len() <= s.len(),
        trim_end(s) == s.take(trim_end(s).len() as int),
    decreases s.len(),
{
    if is_white(s.last()) {
        lemma_trim_end_keeps(s.drop_last(), j);
        assert(s.drop_last().take(trim_end(s).len() as int) == s.take(trim_end(s).len() as int));
    } else {
        assert(s.take(s.len() as int) == s);
    }
}

/// The first field of a line is the same once the line is trimmed, if it starts
/// with no white space and something that is none stands at its end or behind
/// it.
proof fn lemma_first_field(key: Seq<char>, rest: Seq<char>, j: int)
    requires
        key.len() > 0,
        !key.contains('\t'),
        !is_white(key[0]),
        key.len() - 1 <= j < key.len() + 1 + rest.len(),
        !is_white((key.push('\t') + rest)[j]),
    ensures
        trim(key.push('\t') + rest).len() > 0,
        before(trim(key.push('\t') + rest), '\t') == key,
{
    let s = key.push('\t') + rest;
    assert(s[0] == key[0]);
    lemma_trim_start(s, 0);
    assert(s.skip(0) == s);
    lemma_trim_end_keeps(s, j);
    let t = trim(s);
    assert(t == s.take(t.len() as int));
    assert forall|i: int| 0 <= i < key.len() implies #[trigger] t[i] != '\t' by {
        assert(t[i] == key[i]);
        assert(key.contains(key[i]));
    }
    lemma_find(t, '\t', key.len() as int);
    assert(before(t, '\t') == key);
}

/// The item that the user selects is the one whose menu is asked for. `rest` is
/// what stands behind the address on the selected line.
pub proof fn the_selected_item_is_asked_for(address: Seq<char>, rest: Seq<char>)
    requires
        address.len() > 0,
        !address.contains('\t'),
        !is_white(address[0]),
        !is_white(address.last()) || exists|i: int| 0 <= i < rest.len() && !is_white(rest[i]),
    ensures
        after_selection(StageModel::ChoosingItem, address.push('\t') + rest) == (
            StageModel::ReadingMenu(address),
            ActionModel::Send(menu_line(address)),
        ),
{
    let line = address.push('\t') + rest;
    if !is_white(address.last()) {
        let j = address.len() - 1;
        assert(line[j] == address.last());
        lemma_first_field(address, rest, j);
    } else {
        let i = choose|i: int| 0 <= i < rest.len() && !is_white(rest[i]);
        let j = address.len() + 1 + i;
        assert(line[j] == rest[i]);
        lemma_first_field(address, rest, j);
    }
}

/// The entry that the user selects is the one that is clicked on. `rest` is
/// what stands behind the id on the selected line.
pub proof fn the_selected_entry_is_clicked(address: Seq<char>, id: i32, rest: Seq<char>)
    ensures
        after_selection(
            StageModel::ChoosingEntry(address),
            signed_decimal(id as int).push('\t') + rest,
        ) == (StageModel::Clicking, ActionModel::Send(activate_line(address, id as int))),
{
    let number = signed_decimal(id as int);
    lemma_number_text(id as int);
    lemma_number_lacks(id as int, '\t');
    decimal_round_trip(id);
    let j = number.len() - 1;
    assert((number.push('\t') + rest)[j] == number[j]);
    assert(45 <= number[0] as int <= 57);
    assert(45 <= number[j] as int <= 57);
    lemma_first_field(number, rest, j);
}

// ---------------------------------------------------------------------------
// Outcomes arrive
// ---------------------------------------------------------------------------

/// The error that the daemon reports is the error that the client has, unless
/// its message is empty, ends with white space, or holds a line break.
pub proof fn an_error_arrives(message: Seq<char>)
    requires
        message.len() > 0,
        !is_white(message.last()),
        one_line(message),
    ensures
        reply(Seq::empty(), wire_lines(click_reply(Some(message)).push('\n'))) == Err::<
            Seq<char>,
            Seq<char>,
        >(message),
{
    reveal_strlit("ERROR: ");
    reveal_strlit("OK");
    let error = click_reply(Some(message));
    lemma_contains_add("ERROR: "@, message, '\n');
    assert(error[0] == 'E');
    assert(error.last() == message.last());
    lemma_arrives(error);
    assert(error.subrange(0, 7) == "ERROR: "@);
    assert(occurs_at(error, "ERROR: "@, 0));
    assert(error.skip(7) == message);
    assert(error != "OK"@) by {
        assert("OK"@[0] == 'O');
    }
}

/// A click that was made is reported as made.
pub proof fn a_success_arrives()
    ensures
        reply(Seq::empty(), wire_lines(click_reply(None).push('\n'))) == Ok::<
            Seq<char>,
            Seq<char>,
        >(Seq::empty()),
{
    reveal_strlit("OK");
    lemma_arrives("OK"@);
}

/// A command that the daemon refuses is answered with an error, and the client
/// has it as one.
pub proof fn a_refusal_is_an_error(host: HostModel, command: Seq<char>)
    requires
        request(command) is Refused,
        one_line(command),
    ensures
        server_step(host, command) matches StepModel::Reply(refusal) && reply(
            Seq::empty(),
            wire_lines(refusal.push('\n')),
        ) is Err,
{
    reveal_strlit("ERROR: missing address argument");
    reveal_strlit("ERROR: missing address or menu_id argument");
    reveal_strlit("ERROR: menu_id must be an integer");
    reveal_strlit("ERROR: unknown command: ");
    reveal_strlit("ERROR: ");
    reveal_strlit("OK");
    let refusal = request(command)->Refused_0;
    let word = splitn(command, 3, ' ')[0];
    lemma_find_bounds(command, ' ');
    assert(one_line(word)) by {
        if word.contains('\n') {
            let k = choose|k: int| 0 <= k < word.len() && word[k] == '\n';
            assert(command[k] == '\n');
        }
    }
    lemma_contains_add("ERROR: unknown command: "@, word, '\n');
    assert(one_line(refusal));
    assert(refusal.len() > 8 && refusal[0] == 'E' && refusal.subrange(0, 7) == "ERROR: "@
        && !is_white(refusal[8]));
    let line = refusal.push('\n');
    assert(line + Seq::<char>::empty() == line);
    lemma_split_at(refusal, '\n', Seq::empty());
    assert(wire_lines(Seq::<char>::empty()) == Seq::<Seq<char>>::empty());
    assert(wire_lines(line) == seq![line]);
    lemma_trim_break(refusal);
    lemma_trim_start(refusal, 0);
    assert(refusal.skip(0) == refusal);
    lemma_trim_end_keeps(refusal, 8);
    let heard = trim(line);
    assert(heard.subrange(0, 7) == refusal.subrange(0, 7));
    assert(occurs_at(heard, "ERROR: "@, 0));
    assert(heard.len() > 8);
}

// ---------------------------------------------------------------------------
// From the selection to the click
// ---------------------------------------------------------------------------

/// An address that the user selects is answered with the menu of the item at
/// that address.
pub proof fn a_picked_item_shows_its_menu(host: HostModel, address: Seq<char>, rest: Seq<char>)
    requires
        address.len() > 0,
        !is_white(address[0]),
        !is_white(address.last()),
        !address.contains('\t'),
        !address.contains(' '),
        one_line(address),
    ensures
        after_selection(StageModel::ChoosingItem, address.push('\t') + rest).1 matches
            ActionModel::Send(command) && arrives(command) && server_step(host, command)
            == StepModel::Reply(menu_reply(menu_of(host, address), address)),
{
    the_selected_item_is_asked_for(address, rest);
    a_menu_request_arrives(address);
}

/// The items of the list are what the picker shows.
pub proof fn the_listed_items_are_shown(rows: Seq<RowModel>)
    requires
        rows.len() > 0,
        forall|i: int| 0 <= i < rows.len() ==> is_readable(#[trigger] rows[i]),
    ensures
        after_reply(
            StageModel::Listing,
            reply(Seq::empty(), wire_lines(list_reply(rows).push('\n'))),
        ) == (
            StageModel::ChoosingItem,
            ActionModel::Choose(
                on_lines(Seq::new(rows.len(), |i: int| choice_text(items_sent(rows)[i]))),
            ),
        ),
{
    the_list_arrives(rows);
    let list = reply(Seq::empty(), wire_lines(list_reply(rows).push('\n')))->Ok_0;
    assert(items_read(list).len() == items_sent(rows).len());
    assert forall|i: int| 0 <= i < rows.len() implies choice_text(items_sent(rows)[i])
        == #[trigger] choice_texts(shown(lines(list)))[i] by {
        assert(items_read(list)[i] == items_sent(rows)[i]);
    }
    assert(choice_texts(shown(lines(list))) == Seq::new(
        rows.len(),
        |i: int| choice_text(items_sent(rows)[i]),
    ));
}

/// The entries of a menu are what the picker shows.
pub proof fn the_entries_of_a_menu_are_shown(menu: Seq<FlatModel>, address: Seq<char>)
    requires
        menu.len() > 0,
        forall|i: int| 0 <= i < menu.len() ==> is_readable_entry(#[trigger] menu[i]),
    ensures
        after_reply(
            StageModel::ReadingMenu(address),
            reply(Seq::empty(), wire_lines(menu_reply(Some(menu), address).push('\n'))),
        ) == (
            StageModel::ChoosingEntry(address),
            ActionModel::Choose(
                joined_lines(
                    Seq::new(
                        menu.len(),
                        |i: int| signed_decimal(menu[i].id as int).push('\t') + menu[i].label,
                    ),
                ),
            ),
        ),
{
    let all = entry_texts(menu);
    assert forall|i: int| 0 <= i < all.len() implies is_kept(#[trigger] all[i]) && trim(all[i])
        == all[i] by {
        assert(is_readable_entry(menu[i]));
        lemma_entry_is_kept(menu[i]);
    }
    kept_lines_arrive(all);
    assert(trimmed(all) == all);
    let text = joined_lines(all);
    let choices = Seq::new(
        menu.len(),
        |i: int| signed_decimal(menu[i].id as int).push('\t') + menu[i].label,
    );
    assert forall|i: int| 0 <= i < menu.len() implies choices[i] == #[trigger] entry_choices(all)[i] by {
        assert(is_readable_entry(menu[i]));
        lemma_entry_is_kept(menu[i]);
    }
    assert(entry_choices(all) == choices);
    // The menu is neither blank nor `OK`: it starts with a number.
    let x = all[0];
    let rest = all.skip(1);
    assert(all == seq![x] + rest);
    lemma_on_lines_front(x, rest);
    lemma_number_text(menu[0].id as int);
    assert(is_readable_entry(menu[0]));
    assert(x[0] == signed_decimal(menu[0].id as int)[0]);
    assert(x.len() > 1);
    assert(on_lines(all)[0] == x[0]);
    assert(text[0] == x[0]);
    lemma_trim_start(text, 0);
    assert(text.skip(0) == text);
    lemma_trim_end_keeps(text, 0);
    reveal_strlit("OK");
    assert("OK"@[0] == 'O');
}

/// An entry that the user selects is the entry on which the daemon clicks, in
/// the menu of the item that was picked.
pub proof fn a_picked_entry_is_clicked(
    host: HostModel,
    address: Seq<char>,
    menu_path: Seq<char>,
    id: i32,
    rest: Seq<char>,
)
    requires
        menu_path_of(host, address) == Some(menu_path),
        !address.contains(' '),
        one_line(address),
    ensures
        after_selection(
            StageModel::ChoosingEntry(address),
            signed_decimal(id as int).push('\t') + rest,
        ).1 matches ActionModel::Send(command) && arrives(command) && server_step(host, command) == (
        StepModel::Activate {
            notice: Some(NoticeModel { address, menu_path, id: 0 }),
            click: ClickModel::MenuItem { address, menu_path, submenu_id: id },
        }),
{
    the_selected_entry_is_clicked(address, id, rest);
    a_click_request_arrives(address, id);
}

/// An item without a menu, and one whose menu is empty, is clicked on itself:
/// the daemon's reply to the request for its menu makes the client ask for a
/// click on the icon, and that is what the daemon does.
pub proof fn an_item_without_menu_is_clicked_on(host: HostModel, address: Seq<char>)
    requires
        menu_of(host, address) is None || menu_of(host, address) == Some(Seq::<FlatModel>::empty()),
        address.len() > 0,
        !is_white(address.last()),
        !address.contains(' '),
        one_line(address),
    ensures
        after_reply(
            StageModel::ReadingMenu(address),
            reply(
                Seq::empty(),
                wire_lines(menu_reply(menu_of(host, address), address).push('\n')),
            ),
        ) == (StageModel::Clicking, ActionModel::Send(activate_default_line(address))),
        arrives(activate_default_line(address)),
        server_step(host, activate_default_line(address)) == (StepModel::Activate {
            notice: None,
            click: ClickModel::Default { address, x: 0, y: 0 },
        }),
{
    a_default_click_request_arrives(address);
    let menu = menu_of(host, address);
    if menu is None {
        reveal_strlit("ERROR: item not found or has no menu: ");
        reveal_strlit("item not found or has no menu: ");
        reveal_strlit("ERROR: ");
        let error = no_menu_error(address);
        lemma_contains_add("item not found or has no menu: "@, address, '\n');
        assert(error.last() == address.last());
        an_error_arrives(error);
        assert(no_menu_reply(address) == click_reply(Some(error)));
    } else {
        assert(entry_texts(Seq::<FlatModel>::empty()) == Seq::<Seq<char>>::empty());
        assert(menu_reply(menu, address) == click_reply(None));
        a_success_arrives();
    }
}

} // verus!
