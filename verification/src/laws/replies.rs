//! The text of replies, and how a client reads them.

use vstd::prelude::*;

use crate::laws::texts::{a_prefix_is_taken_off, blank, trimming_takes_the_ends};
use crate::listing::RowModel;
use crate::menu::FlatModel;
use crate::number::signed_decimal;
use crate::pick::joined_lines;
use crate::socket::{
    entry_text, entry_texts, list_reply, menu_reply, on_lines, reply, reply_step, row_text,
    row_texts, without_last_break, ReplyStepModel,
};
use crate::text::{is_white, strip_prefix};
use crate::wire::lemma_on_lines_front;

verus! {

/// Texts on lines of their own: each with a line break behind it, in their order.
pub proof fn texts_go_on_lines_one_by_one(x: Seq<char>, rest: Seq<Seq<char>>)
    ensures
        on_lines(Seq::empty()) == Seq::<char>::empty(),
        on_lines(seq![x] + rest) == x.push('\n') + on_lines(rest),
        joined_lines(Seq::empty()) == Seq::<char>::empty(),
        joined_lines(seq![x]) == x,
        rest.len() > 0 ==> joined_lines(seq![x] + rest) == x.push('\n') + joined_lines(rest),
{
    lemma_on_lines_front(x, rest);
    lemma_on_lines_front(x, Seq::empty());
    assert(seq![x] + Seq::<Seq<char>>::empty() == seq![x]);
    assert(on_lines(Seq::empty()) == Seq::<char>::empty());
    assert(x.push('\n') + Seq::<char>::empty() == x.push('\n'));
    assert(on_lines(seq![x]) == x.push('\n'));
    assert(x.push('\n').drop_last() == x);
    if rest.len() > 0 {
        let all = on_lines(rest);
        assert(all == on_lines(rest.drop_last()) + rest.last().push('\n'));
        assert(all.last() == '\n');
        assert((x.push('\n') + all).drop_last() == x.push('\n') + all.drop_last());
    }
}

/// The reply to `LIST` has a line for each row, in their order: title, address and
/// icon with tabs between them, and nothing for an icon that is not there. Then
/// comes `OK`.
pub proof fn the_list_is_sent_row_by_row(row: RowModel, rest: Seq<RowModel>)
    ensures
        list_reply(Seq::empty()) == "OK"@,
        row.icon is Some ==> list_reply(seq![row] + rest) == row.title + seq!['\t'] + row.address
            + seq!['\t'] + row.icon->0 + seq!['\n'] + list_reply(rest),
        row.icon is None ==> list_reply(seq![row] + rest) == row.title + seq!['\t'] + row.address
            + seq!['\t'] + seq!['\n'] + list_reply(rest),
{
    let all = seq![row] + rest;
    assert(row_texts(Seq::empty()) == Seq::<Seq<char>>::empty());
    assert(list_reply(Seq::empty()) == "OK"@);
    assert(row_texts(all) == seq![row_text(row)] + row_texts(rest));
    lemma_on_lines_front(row_text(row), row_texts(rest));
    let text = on_lines(row_texts(rest)) + "OK"@;
    assert(list_reply(all) == row_text(row).push('\n') + text);
    if row.icon is Some {
        assert(row_text(row).push('\n') + text == row.title + seq!['\t'] + row.address + seq!['\t']
            + row.icon->0 + seq!['\n'] + text);
    } else {
        assert(row_text(row).push('\n') + text == row.title + seq!['\t'] + row.address + seq!['\t']
            + seq!['\n'] + text);
    }
}

/// The reply to `MENU` has a line for each entry, in their order: id, label, kind
/// and whether it is enabled, with tabs between them. Then comes `OK`. Without a
/// menu it is an error that names the address.
pub proof fn the_menu_is_sent_entry_by_entry(
    entry: FlatModel,
    rest: Seq<FlatModel>,
    address: Seq<char>,
)
    ensures
        menu_reply(None, address) == "ERROR: item not found or has no menu: "@ + address,
        menu_reply(Some(Seq::empty()), address) == "OK"@,
        entry.enabled ==> menu_reply(Some(seq![entry] + rest), address) == signed_decimal(
            entry.id as int,
        ) + seq!['\t'] + entry.label + seq!['\t'] + entry.menu_type + seq!['\t'] + "true"@ + seq![
            '\n',
        ] + menu_reply(Some(rest), address),
        !entry.enabled ==> menu_reply(Some(seq![entry] + rest), address) == signed_decimal(
            entry.id as int,
        ) + seq!['\t'] + entry.label + seq!['\t'] + entry.menu_type + seq!['\t'] + "false"@ + seq![
            '\n',
        ] + menu_reply(Some(rest), address),
{
    let all = seq![entry] + rest;
    assert(entry_texts(Seq::empty()) == Seq::<Seq<char>>::empty());
    assert(menu_reply(Some(Seq::empty()), address) == "OK"@);
    assert(entry_texts(all) == seq![entry_text(entry)] + entry_texts(rest));
    lemma_on_lines_front(entry_text(entry), entry_texts(rest));
    let text = on_lines(entry_texts(rest)) + "OK"@;
    let id = signed_decimal(entry.id as int);
    assert(menu_reply(Some(all), address) == entry_text(entry).push('\n') + text);
    if entry.enabled {
        assert(entry_text(entry).push('\n') + text == id + seq!['\t'] + entry.label + seq!['\t']
            + entry.menu_type + seq!['\t'] + "true"@ + seq!['\n'] + text);
    } else {
        assert(entry_text(entry).push('\n') + text == id + seq!['\t'] + entry.label + seq!['\t']
            + entry.menu_type + seq!['\t'] + "false"@ + seq!['\n'] + text);
    }
}

/// A client reads on at every line but `OK`, which ends the reply, and one that
/// starts with `ERROR: `, whose rest is the message. The white space around a line
/// does not count.
pub proof fn a_line_of_a_reply_is_understood(
    front: Seq<char>,
    text: Seq<char>,
    back: Seq<char>,
    message: Seq<char>,
)
    requires
        blank(front),
        blank(back),
        text.len() > 0 ==> !is_white(text[0]) && !is_white(text.last()),
    ensures
        text == "OK"@ ==> reply_step(front + text + back) == ReplyStepModel::Done,
        text == "ERROR: "@ + message ==> reply_step(front + text + back) == ReplyStepModel::Failed(
            message,
        ),
        text != "OK"@ && (text.len() < 7 || text.take(7) != "ERROR: "@) ==> reply_step(
            front + text + back,
        ) == ReplyStepModel::More,
{
    trimming_takes_the_ends(front, text, back);
    reveal_strlit("ERROR: ");
    reveal_strlit("OK");
    a_prefix_is_taken_off(text, "ERROR: "@, message);
    if text == "ERROR: "@ + message {
        assert(text[0] == 'E');
        assert("OK"@[0] == 'O');
    }
    if strip_prefix(text, "ERROR: "@) is Some {
        assert(text.take(7) == "ERROR: "@);
    }
}

/// Whether a client reads on behind a line with this text.
pub open spec fn goes_on(text: Seq<char>) -> bool {
    &&& text.len() > 0 ==> !is_white(text[0]) && !is_white(text.last())
    &&& text != "OK"@
    &&& text.len() < 7 || text.take(7) != "ERROR: "@
}

/// What a client has read of a reply grows by the text of every line, without the
/// white space around it, until the reply ends or reports an error. The last line
/// break is no part of the reply.
pub proof fn a_reply_is_read_line_by_line(
    received: Seq<char>,
    front: Seq<char>,
    text: Seq<char>,
    back: Seq<char>,
    message: Seq<char>,
    rest: Seq<Seq<char>>,
)
    requires
        blank(front),
        blank(back),
        goes_on(text),
        message.len() > 0,
        !is_white(message.last()),
    ensures
        reply(received, seq![front + text + back] + rest) == reply(
            received + text.push('\n'),
            rest,
        ),
        reply(received, seq![front + "OK"@ + back] + rest) == reply(received, Seq::empty()),
        reply(received, seq![front + ("ERROR: "@ + message) + back] + rest) == Err::<
            Seq<char>,
            Seq<char>,
        >(message),
        reply(received.push('\n'), Seq::empty()) == Ok::<Seq<char>, Seq<char>>(received),
        reply(Seq::empty(), Seq::empty()) == Ok::<Seq<char>, Seq<char>>(Seq::empty()),
{
    reveal_strlit("ERROR: ");
    reveal_strlit("OK");
    let error = "ERROR: "@ + message;
    assert(error[0] == 'E');
    assert(error.last() == message.last());
    a_line_of_a_reply_is_understood(front, text, back, message);
    a_line_of_a_reply_is_understood(front, "OK"@, back, message);
    a_line_of_a_reply_is_understood(front, error, back, message);
    trimming_takes_the_ends(front, text, back);
    assert((seq![front + text + back] + rest).skip(1) == rest);
    assert(received.push('\n').drop_last() == received);
    assert(without_last_break(Seq::<char>::empty()) == Seq::<char>::empty());
}

/// One line break at the end of what was read is no part of a reply.
pub proof fn one_break_is_cut_off(s: Seq<char>)
    ensures
        without_last_break(s.push('\n')) == s,
        s.len() == 0 || s.last() != '\n' ==> without_last_break(s) == s,
{
    assert(s.push('\n').drop_last() == s);
}

} // verus!
