//! From what the picker shows to what is clicked.

use vstd::prelude::*;

use crate::cli::DEFAULT_PICKER;
use crate::clicks::{
    the_entries_of_a_menu_are_shown, the_listed_items_are_shown, the_selected_entry_is_clicked,
    the_selected_item_is_asked_for,
};
use crate::laws::texts::{blank, the_first_field_is_found, trimming_takes_the_ends};
use crate::listing::RowModel;
use crate::menu::FlatModel;
use crate::number::{parse_i32, signed_decimal};
use crate::pick::{
    after_reply, after_selection, awaits_reply, awaits_selection, choice_text, choice_texts,
    entry_choice, entry_choices, joined_lines, listed_item, picker_arguments,
    picker_program, shown, ActionModel, StageModel,
};
use crate::socket::{list_reply, menu_reply, on_lines, reply};
use crate::text::{is_white, lines, or_empty, trim, words};
use crate::wire::{is_readable, is_readable_entry, items_sent, lemma_three_fields, wire_lines};

verus! {

// ---------------------------------------------------------------------------
// Items
// ---------------------------------------------------------------------------

/// The line that shows an item: its address, a tab, its title, and the icon, if
/// there is one, behind its mark.
pub open spec fn line_of(row: RowModel) -> Seq<char> {
    if row.icon is Some && row.icon->0.len() > 0 {
        row.address + seq!['\t'] + row.title + "\0icon\x1f"@ + row.icon->0
    } else {
        row.address + seq!['\t'] + row.title
    }
}

/// The list that the daemon sends is shown with a line for each row, in its
/// order.
pub proof fn every_listed_row_has_its_line(rows: Seq<RowModel>)
    requires
        rows.len() > 0,
        forall|i: int| 0 <= i < rows.len() ==> is_readable(#[trigger] rows[i]),
    ensures
        after_reply(
            StageModel::Listing,
            reply(Seq::empty(), wire_lines(list_reply(rows).push('\n'))),
        ) == (
            StageModel::ChoosingItem,
            ActionModel::Choose(on_lines(Seq::new(rows.len(), |i: int| line_of(rows[i])))),
        ),
{
    the_listed_items_are_shown(rows);
    let a = Seq::new(rows.len(), |i: int| choice_text(items_sent(rows)[i]));
    let b = Seq::new(rows.len(), |i: int| line_of(rows[i]));
    assert forall|i: int| 0 <= i < rows.len() implies a[i] == b[i] by {
        let row = rows[i];
        assert(items_sent(rows)[i].icon == or_empty(row.icon));
        assert(choice_text(items_sent(rows)[i]) == line_of(row));
    }
    assert(a == b);
}

/// Selecting the line that is shown for a row asks for the menu at that row's own
/// address, whatever icon it has, and whether the picker hands back the mark and
/// the icon or only what it displays.
pub proof fn selecting_a_line_asks_for_its_item(row: RowModel, back: Seq<char>)
    requires
        is_readable(row),
        row.address.len() > 0,
        !is_white(row.address[0]),
        blank(back),
    ensures
        after_selection(StageModel::ChoosingItem, line_of(row) + back) == (
            StageModel::ReadingMenu(row.address),
            ActionModel::Send("MENU "@ + row.address),
        ),
        after_selection(StageModel::ChoosingItem, row.address + seq!['\t'] + row.title + back) == (
            StageModel::ReadingMenu(row.address),
            ActionModel::Send("MENU "@ + row.address),
        ),
{
    let start = row.address.push('\t');
    let plain = row.title + back;
    assert(plain[0] == row.title[0]);
    assert(row.address + seq!['\t'] + row.title + back == start + plain);
    the_selected_item_is_asked_for(row.address, plain);
    if row.icon is Some && row.icon->0.len() > 0 {
        let rest = row.title + "\0icon\x1f"@ + row.icon->0 + back;
        assert(rest[0] == row.title[0]);
        assert(line_of(row) + back == start + rest);
        the_selected_item_is_asked_for(row.address, rest);
    } else {
        assert(line_of(row) + back == start + plain);
    }
}

/// The lines that are shown of a reply: all but empty ones and `OK`, in their
/// order.
pub proof fn empty_lines_are_not_shown(all: Seq<Seq<char>>)
    ensures
        shown(all) == all.filter(|line: Seq<char>| line.len() > 0 && line != "OK"@),
    decreases all.len(),
{
    reveal(Seq::filter);
    if all.len() > 0 {
        empty_lines_are_not_shown(all.drop_last());
    }
}

/// A list is shown line by line, whatever its lines are; a list of no such lines
/// ends the session.
pub proof fn a_list_is_shown_line_by_line(list: Seq<char>)
    ensures
        ({
            let all = lines(list).filter(|line: Seq<char>| line.len() > 0 && line != "OK"@);
            after_reply(StageModel::Listing, Ok(list)) == if all.len() == 0 {
                (StageModel::Over, ActionModel::NoItems)
            } else {
                (
                    StageModel::ChoosingItem,
                    ActionModel::Choose(
                        on_lines(Seq::new(all.len(), |i: int| choice_text(listed_item(all[i])))),
                    ),
                )
            }
        }),
{
    empty_lines_are_not_shown(lines(list));
    let all = lines(list).filter(|line: Seq<char>| line.len() > 0 && line != "OK"@);
    assert(choice_texts(all) == Seq::new(all.len(), |i: int| choice_text(listed_item(all[i]))));
}

/// A line of the list is shown with its second field first and its first field
/// behind a tab; the third, if it is not empty, goes behind the mark of an icon.
/// A field that is not there is empty.
pub proof fn fields_of_a_list_are_shown(title: Seq<char>, address: Seq<char>, icon: Seq<char>)
    requires
        !title.contains('\t'),
        !address.contains('\t'),
    ensures
        choice_text(listed_item(title)) == seq!['\t'] + title,
        choice_text(listed_item(title + seq!['\t'] + address)) == address + seq!['\t'] + title,
        icon.len() == 0 ==> choice_text(
            listed_item(title + seq!['\t'] + address + seq!['\t'] + icon),
        ) == address + seq!['\t'] + title,
        icon.len() > 0 ==> choice_text(
            listed_item(title + seq!['\t'] + address + seq!['\t'] + icon),
        ) == address + seq!['\t'] + title + "\0icon\x1f"@ + icon,
{
    lemma_three_fields(title, address, icon, '\t');
    let two = title.push('\t') + address;
    let three = title.push('\t') + address.push('\t') + icon;
    assert(title + seq!['\t'] + address == two);
    assert(title + seq!['\t'] + address + seq!['\t'] + icon == three);
    assert(choice_text(listed_item(title)) == seq!['\t'] + title);
    assert(choice_text(listed_item(two)) == address + seq!['\t'] + title);
    if icon.len() == 0 {
        assert(choice_text(listed_item(three)) == address + seq!['\t'] + title);
    } else {
        assert(choice_text(listed_item(three)) == address + seq!['\t'] + title + "\0icon\x1f"@
            + icon);
    }
}

// ---------------------------------------------------------------------------
// Entries
// ---------------------------------------------------------------------------

/// The menu that the daemon sends is shown with a line for each entry, in their
/// order: its id, a tab and its label.
pub proof fn every_entry_has_its_line(menu: Seq<FlatModel>, address: Seq<char>)
    requires
        menu.len() > 0,
        forall|i: int| 0 <= i < menu.len() ==> is_readable_entry(#[trigger] menu[i]),
    ensures
        after_reply(
            StageModel::ReadingMenu(address),
            reply(Seq::empty(), wire_lines(menu_reply(Some(menu), address).push('\n'))),
        ) == (
            StageModel::ChoosingEntry(address),
            ActionModel::Choose(
                joined_lines(
                    Seq::new(
                        menu.len(),
                        |i: int| signed_decimal(menu[i].id as int) + seq!['\t'] + menu[i].label,
                    ),
                ),
            ),
        ),
{
    the_entries_of_a_menu_are_shown(menu, address);
    let a = Seq::new(
        menu.len(),
        |i: int| signed_decimal(menu[i].id as int).push('\t') + menu[i].label,
    );
    let b = Seq::new(
        menu.len(),
        |i: int| signed_decimal(menu[i].id as int) + seq!['\t'] + menu[i].label,
    );
    assert forall|i: int| 0 <= i < menu.len() implies a[i] == b[i] by {
        assert(signed_decimal(menu[i].id as int).push('\t') + menu[i].label == signed_decimal(
            menu[i].id as int,
        ) + seq!['\t'] + menu[i].label);
    }
    assert(a == b);
}

/// Selecting the line that is shown for an entry asks for the click on that entry,
/// at the address of the item that was picked.
pub proof fn selecting_a_line_clicks_its_entry(
    address: Seq<char>,
    entry: FlatModel,
    back: Seq<char>,
)
    requires
        blank(back),
    ensures
        after_selection(
            StageModel::ChoosingEntry(address),
            signed_decimal(entry.id as int) + seq!['\t'] + entry.label + back,
        ) == (
            StageModel::Clicking,
            ActionModel::Send(
                "ACTIVATE "@ + address + seq![' '] + signed_decimal(entry.id as int),
            ),
        ),
{
    let id = signed_decimal(entry.id as int);
    the_selected_entry_is_clicked(address, entry.id, entry.label + back);
    assert(id + seq!['\t'] + entry.label + back == id.push('\t') + (entry.label + back));
    assert("ACTIVATE "@ + address + seq![' '] + id == "ACTIVATE "@ + address.push(' ') + id);
}

/// A menu is shown line by line, whatever its lines are. One that is blank or `OK`
/// has nothing to show, and the icon is clicked.
pub proof fn a_menu_is_shown_line_by_line(address: Seq<char>, menu: Seq<char>)
    ensures
        ({
            let all = lines(menu).filter(|line: Seq<char>| line.len() > 0 && line != "OK"@);
            after_reply(StageModel::ReadingMenu(address), Ok(menu)) == if trim(menu).len() == 0
                || trim(menu) == "OK"@ {
                (StageModel::Clicking, ActionModel::Send("ACTIVATE_DEFAULT "@ + address))
            } else {
                (
                    StageModel::ChoosingEntry(address),
                    ActionModel::Choose(
                        joined_lines(Seq::new(all.len(), |i: int| entry_choice(all[i]))),
                    ),
                )
            }
        }),
{
    empty_lines_are_not_shown(lines(menu));
    let all = lines(menu).filter(|line: Seq<char>| line.len() > 0 && line != "OK"@);
    assert(entry_choices(all) == Seq::new(all.len(), |i: int| entry_choice(all[i])));
}

/// A line of a menu is shown with its first two fields, a tab between them; what
/// follows them is left out.
pub proof fn fields_of_a_menu_are_shown(id: Seq<char>, label: Seq<char>, rest: Seq<char>)
    requires
        !id.contains('\t'),
        !label.contains('\t'),
    ensures
        entry_choice(id) == id + seq!['\t'],
        entry_choice(id + seq!['\t'] + label) == id + seq!['\t'] + label,
        entry_choice(id + seq!['\t'] + label + seq!['\t'] + rest) == id + seq!['\t'] + label,
{
    lemma_three_fields(id, label, rest, '\t');
    let two = id.push('\t') + label;
    let three = id.push('\t') + label.push('\t') + rest;
    assert(id + seq!['\t'] + label == two);
    assert(id + seq!['\t'] + label + seq!['\t'] + rest == three);
    assert(entry_choice(id) == id + seq!['\t']);
    assert(entry_choice(two) == two);
    assert(entry_choice(three) == two);
}

// ---------------------------------------------------------------------------
// The session
// ---------------------------------------------------------------------------

/// The key of what the user selects is what stands before the first tab, or all
/// of it. An item is asked for by its key; an entry is clicked by the number that
/// its key is, and a key that is none is reported.
pub proof fn a_selection_is_read_by_its_key(
    address: Seq<char>,
    front: Seq<char>,
    key: Seq<char>,
    rest: Seq<char>,
    back: Seq<char>,
)
    requires
        blank(front),
        blank(back),
        !key.contains('\t'),
        key.len() > 0,
        !is_white(key[0]),
        rest.len() == 0 ==> !is_white(key.last()),
        rest.len() > 0 ==> rest[0] == '\t' && !is_white(rest.last()),
    ensures
        ({
            let output = front + (key + rest) + back;
            let entry = StageModel::ChoosingEntry(address);
            &&& after_selection(StageModel::ChoosingItem, output) == (
                StageModel::ReadingMenu(key),
                ActionModel::Send("MENU "@ + key),
            )
            &&& parse_i32(key) matches Some(id) ==> after_selection(entry, output) == (
                StageModel::Clicking,
                ActionModel::Send("ACTIVATE "@ + address.push(' ') + signed_decimal(id)),
            )
            &&& parse_i32(key) is None ==> after_selection(entry, output) == (
                StageModel::Over,
                ActionModel::Fail("invalid menu id from picker: "@ + key),
            )
        }),
{
    let s = key + rest;
    assert(s[0] == key[0]);
    assert(s.last() == if rest.len() > 0 {
        rest.last()
    } else {
        key.last()
    });
    trimming_takes_the_ends(front, s, back);
    if rest.len() > 0 {
        the_first_field_is_found(key, '\t', rest.skip(1));
        assert(s == key.push('\t') + rest.skip(1));
    } else {
        the_first_field_is_found(key, '\t', rest);
        assert(s == key);
    }
}

/// A selection of nothing but white space ends the session without a click.
pub proof fn selecting_nothing_ends_the_session(stage: StageModel, output: Seq<char>)
    requires
        blank(output),
    ensures
        after_selection(stage, output) == (StageModel::Over, ActionModel::Done),
{
    trimming_takes_the_ends(output, Seq::empty(), Seq::empty());
    assert(output + Seq::<char>::empty() + Seq::<char>::empty() == output);
}

/// An error of the daemon ends a session and is reported as it is, but for the one
/// that an item has no menu: then the icon is clicked. A click that was made ends
/// the session.
pub proof fn errors_are_reported(address: Seq<char>, error: Seq<char>, text: Seq<char>)
    ensures
        after_reply(StageModel::Listing, Err(error)) == (
            StageModel::Over,
            ActionModel::Fail(error),
        ),
        error != "item not found or has no menu: "@ + address ==> after_reply(
            StageModel::ReadingMenu(address),
            Err(error),
        ) == (StageModel::Over, ActionModel::Fail(error)),
        after_reply(
            StageModel::ReadingMenu(address),
            Err("item not found or has no menu: "@ + address),
        ) == (StageModel::Clicking, ActionModel::Send("ACTIVATE_DEFAULT "@ + address)),
        after_reply(StageModel::Clicking, Err(error)) == (
            StageModel::Over,
            ActionModel::Fail(error),
        ),
        after_reply(StageModel::Clicking, Ok(text)) == (StageModel::Over, ActionModel::Done),
{
}

/// A session waits for the daemon when it asked the daemon for something, and for
/// the user when it asked the user.
pub proof fn a_session_waits_for_whom_it_asked(address: Seq<char>)
    ensures
        awaits_reply(StageModel::Listing),
        awaits_reply(StageModel::ReadingMenu(address)),
        awaits_reply(StageModel::Clicking),
        awaits_selection(StageModel::ChoosingItem),
        awaits_selection(StageModel::ChoosingEntry(address)),
        !awaits_selection(StageModel::Listing),
        !awaits_selection(StageModel::ReadingMenu(address)),
        !awaits_selection(StageModel::Clicking),
        !awaits_reply(StageModel::ChoosingItem),
        !awaits_reply(StageModel::ChoosingEntry(address)),
        !awaits_reply(StageModel::Over),
        !awaits_selection(StageModel::Over),
{
}

/// The program of a picker is the first word of its command, and every word behind
/// it is an argument; a blank command is `fuzzel` alone.
pub proof fn a_picker_is_its_words(word: Seq<char>, rest: Seq<char>, empty: Seq<char>)
    requires
        word.len() > 0,
        forall|i: int| 0 <= i < word.len() ==> !is_white(#[trigger] word[i]),
        rest.len() > 0 ==> is_white(rest[0]),
        blank(empty),
    ensures
        picker_program(empty + word + rest) == word,
        picker_arguments(empty + word + rest) == words(rest),
        picker_program(empty) == "fuzzel"@,
        picker_arguments(empty).len() == 0,
{
    lemma_words_behind_space(empty, word + rest);
    lemma_words_behind_space(empty, Seq::empty());
    assert(empty + Seq::<char>::empty() == empty);
    assert(empty + word + rest == empty + (word + rest));
    crate::laws::texts::words_are_read_one_by_one(word, rest, ' ');
    assert((seq![word] + words(rest)).skip(1) == words(rest));
}

/// Unless the user names another, the picker is `fuzzel`, told to read a list, to
/// split its lines at tabs and to show the second field.
pub proof fn the_default_picker_shows_the_second_field()
    ensures
        DEFAULT_PICKER@ == "fuzzel --dmenu -d '\t' --with-nth=2"@,
{
}

proof fn lemma_words_behind_space(space: Seq<char>, s: Seq<char>)
    requires
        blank(space),
    ensures
        words(space + s) == words(s),
    decreases space.len(),
{
    if space.len() > 0 {
        let all = space + s;
        assert(is_white(space[0]));
        assert(all[0] == space[0]);
        assert(all.skip(1) == space.skip(1) + s);
        assert forall|i: int| 0 <= i < space.skip(1).len() implies is_white(
            #[trigger] space.skip(1)[i],
        ) by {
            assert(space.skip(1)[i] == space[i + 1]);
        }
        lemma_words_behind_space(space.skip(1), s);
    } else {
        assert(space + s == s);
    }
}

} // verus!
