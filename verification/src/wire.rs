//! What is sent arrives: laws about commands and replies on their way between
//! the daemon, the client and the picker.

use vstd::prelude::*;

use crate::listing::RowModel;
use crate::menu::{has_kind, FlatModel};
use crate::number::{
    decimal, decimal_round_trip, is_digit, lemma_decimal_value, parse_i32, signed_decimal,
};
use crate::pick::{
    after_list, field, is_shown, joined_lines, listed_item, shown, ActionModel, ListedItem,
    StageModel,
};
use crate::socket::{
    entry_text, entry_texts, flag_text, list_reply, menu_reply, on_lines, reply, reply_step,
    row_text, row_texts, without_last_break,
};
use crate::text::{
    after, before, find, is_white, lemma_find, lemma_trim_end, lemma_trim_is_trimmed,
    lemma_trim_of_trimmed, lemma_trim_start, lines, occurs_at, or_empty, splitn, strip_cr,
    strip_prefix, trim, trim_end, trim_start,
};

verus! {

// ---------------------------------------------------------------------------
// Lines
// ---------------------------------------------------------------------------

/// The lines of a stream as they are read: each up to its line break, the
/// break included.
pub open spec fn wire_lines(s: Seq<char>) -> Seq<Seq<char>>
    decreases s.len(),
{
    if s.len() == 0 {
        Seq::empty()
    } else if find(s, '\n') >= s.len() {
        seq![s]
    } else {
        seq![before(s, '\n').push('\n')] + wire_lines(after(s, '\n'))
    }
}

/// Whether `s` stays on one line.
pub open spec fn one_line(s: Seq<char>) -> bool {
    !s.contains('\n')
}

/// The texts of `lines` as they are sent.
pub open spec fn sent(all: Seq<Seq<char>>) -> Seq<Seq<char>> {
    Seq::new(all.len(), |i: int| all[i].push('\n'))
}

/// The texts of `lines` without the white space around them.
pub open spec fn trimmed(all: Seq<Seq<char>>) -> Seq<Seq<char>> {
    Seq::new(all.len(), |i: int| trim(all[i]))
}

pub proof fn lemma_on_lines_front(x: Seq<char>, rest: Seq<Seq<char>>)
    ensures
        on_lines(seq![x] + rest) == x.push('\n') + on_lines(rest),
    decreases rest.len(),
{
    let all = seq![x] + rest;
    if rest.len() == 0 {
        assert(all.drop_last() == Seq::<Seq<char>>::empty());
        assert(all.last() == x);
        assert(on_lines(all.drop_last()) == Seq::<char>::empty());
        assert(on_lines(rest) == Seq::<char>::empty());
        assert(on_lines(all) == x.push('\n') + on_lines(rest));
    } else {
        assert(all.drop_last() == seq![x] + rest.drop_last());
        assert(all.last() == rest.last());
        lemma_on_lines_front(x, rest.drop_last());
        assert(on_lines(all) == x.push('\n') + on_lines(rest));
    }
}

/// Texts that are sent on lines of their own are read line by line.
pub proof fn lines_are_read_as_sent(all: Seq<Seq<char>>)
    requires
        forall|i: int| 0 <= i < all.len() ==> one_line(#[trigger] all[i]),
    ensures
        wire_lines(on_lines(all)) == sent(all),
    decreases all.len(),
{
    if all.len() == 0 {
        assert(sent(all) == Seq::<Seq<char>>::empty());
    } else {
        let x = all[0];
        let rest = all.skip(1);
        assert(all == seq![x] + rest);
        lemma_on_lines_front(x, rest);
        lemma_split_at(x, '\n', on_lines(rest));
        assert forall|i: int| 0 <= i < rest.len() implies one_line(#[trigger] rest[i]) by {
            assert(rest[i] == all[i + 1]);
        }
        lines_are_read_as_sent(rest);
        assert(sent(all) == seq![x.push('\n')] + sent(rest));
    }
}

/// White space behind a text is cut off with the rest.
pub(crate) proof fn lemma_trim_break(s: Seq<char>)
    ensures
        trim(s.push('\n')) == trim(s),
    decreases s.len(),
{
    if s.len() > 0 && is_white(s[0]) {
        assert(s.push('\n').skip(1) == s.skip(1).push('\n'));
        lemma_trim_break(s.skip(1));
    } else if s.len() == 0 {
        assert(s.push('\n').skip(1) == Seq::<char>::empty());
        assert(trim_start(s.push('\n').skip(1)) == Seq::<char>::empty());
        assert(trim_start(s.push('\n')) == trim_start(s.push('\n').skip(1)));
        assert(s == Seq::<char>::empty());
    } else {
        assert(s.push('\n')[0] == s[0]);
        assert(s.push('\n').last() == '\n');
        assert(s.push('\n').drop_last() == s);
    }
}

/// Whether a client keeps a line as part of the reply, and a picker shows it.
pub open spec fn is_kept(line: Seq<char>) -> bool {
    &&& one_line(line)
    &&& trim(line).len() > 0
    &&& reply_step(line) is More
}

proof fn lemma_reply(received: Seq<char>, all: Seq<Seq<char>>)
    requires
        forall|i: int| 0 <= i < all.len() ==> is_kept(#[trigger] all[i]),
    ensures
        reply(received, sent(all.push("OK"@))) == Ok::<Seq<char>, Seq<char>>(
            without_last_break(received + on_lines(trimmed(all))),
        ),
    decreases all.len(),
{
    let stream = sent(all.push("OK"@));
    if all.len() == 0 {
        reveal_strlit("OK");
        lemma_trim_break("OK"@);
        lemma_trim_of_trimmed("OK"@);
        assert(stream[0] == "OK"@.push('\n'));
        assert(received + on_lines(trimmed(all)) == received);
    } else {
        let x = all[0];
        let rest = all.skip(1);
        assert(is_kept(x));
        lemma_trim_break(x);
        assert(stream[0] == x.push('\n'));
        assert(stream.skip(1) == sent(rest.push("OK"@)));
        assert forall|i: int| 0 <= i < rest.len() implies is_kept(#[trigger] rest[i]) by {
            assert(rest[i] == all[i + 1]);
        }
        lemma_reply(received + trim(x).push('\n'), rest);
        assert(trimmed(all) == seq![trim(x)] + trimmed(rest));
        lemma_on_lines_front(trim(x), trimmed(rest));
        assert(received + trim(x).push('\n') + on_lines(trimmed(rest)) == received + on_lines(
            trimmed(all),
        ));
    }
}

proof fn lemma_lines_of_joined(all: Seq<Seq<char>>)
    requires
        forall|i: int|
            0 <= i < all.len() ==> one_line(#[trigger] all[i]) && all[i].len() > 0 && all[i].last()
                != '\r',
    ensures
        lines(joined_lines(all)) == all,
    decreases all.len(),
{
    if all.len() == 0 {
        assert(joined_lines(all) == Seq::<char>::empty());
    } else {
        let x = all[0];
        let rest = all.skip(1);
        assert(one_line(x));
        assert(all == seq![x] + rest);
        lemma_on_lines_front(x, rest);
        if rest.len() == 0 {
            assert(on_lines(rest) == Seq::<char>::empty());
            assert(on_lines(all) == x.push('\n'));
            assert(joined_lines(all) == x);
            lemma_no_split(x, '\n');
            assert(all == seq![x]);
        } else {
            assert forall|i: int| 0 <= i < rest.len() implies one_line(#[trigger] rest[i])
                && rest[i].len() > 0 && rest[i].last() != '\r' by {
                assert(rest[i] == all[i + 1]);
            }
            lemma_lines_of_joined(rest);
            assert(on_lines(rest) == on_lines(rest.drop_last()) + rest.last().push('\n'));
            assert(on_lines(rest).last() == '\n');
            assert(joined_lines(all) == x.push('\n') + joined_lines(rest));
            lemma_split_at(x, '\n', joined_lines(rest));
            assert(strip_cr(x) == x);
        }
    }
}

proof fn lemma_shown(all: Seq<Seq<char>>)
    requires
        forall|i: int| 0 <= i < all.len() ==> is_shown(#[trigger] all[i]),
    ensures
        shown(all) == all,
    decreases all.len(),
{
    if all.len() > 0 {
        let head = all.drop_last();
        assert forall|i: int| 0 <= i < head.len() implies is_shown(#[trigger] head[i]) by {
            assert(head[i] == all[i]);
        }
        lemma_shown(head);
        assert(is_shown(all[all.len() - 1]));
        assert(head.push(all.last()) == all);
    }
}

proof fn lemma_trim_keeps_one_line(s: Seq<char>)
    requires
        one_line(s),
    ensures
        one_line(trim(s)),
{
    lemma_trim_start_part(s);
    lemma_trim_end_part(trim_start(s));
}

proof fn lemma_trim_start_part(s: Seq<char>)
    ensures
        forall|c: char| trim_start(s).contains(c) ==> s.contains(c),
    decreases s.len(),
{
    if s.len() > 0 && is_white(s[0]) {
        lemma_trim_start_part(s.skip(1));
        assert forall|c: char| trim_start(s).contains(c) implies s.contains(c) by {
            assert(s.skip(1).contains(c));
            let k = choose|k: int| 0 <= k < s.skip(1).len() && s.skip(1)[k] == c;
            assert(s[k + 1] == c);
        }
    }
}

proof fn lemma_trim_end_part(s: Seq<char>)
    ensures
        forall|c: char| trim_end(s).contains(c) ==> s.contains(c),
    decreases s.len(),
{
    if s.len() > 0 && is_white(s.last()) {
        lemma_trim_end_part(s.drop_last());
        assert forall|c: char| trim_end(s).contains(c) implies s.contains(c) by {
            assert(s.drop_last().contains(c));
            let k = choose|k: int| 0 <= k < s.drop_last().len() && s.drop_last()[k] == c;
            assert(s[k] == c);
        }
    }
}

/// Lines that a client keeps arrive in the reply without the white space around
/// them, and the picker shows all of them in their order.
pub proof fn kept_lines_arrive(all: Seq<Seq<char>>)
    requires
        forall|i: int| 0 <= i < all.len() ==> is_kept(#[trigger] all[i]),
    ensures
        reply(Seq::empty(), wire_lines((on_lines(all) + "OK"@).push('\n'))) == Ok::<
            Seq<char>,
            Seq<char>,
        >(joined_lines(trimmed(all))),
        lines(joined_lines(trimmed(all))) == trimmed(all),
        shown(lines(joined_lines(trimmed(all)))) == trimmed(all),
{
    let stream = all.push("OK"@);
    assert(stream.drop_last() == all);
    assert(on_lines(stream) == (on_lines(all) + "OK"@).push('\n'));
    assert forall|i: int| 0 <= i < stream.len() implies one_line(#[trigger] stream[i]) by {
        if i < all.len() {
            assert(is_kept(all[i]));
        } else {
            reveal_strlit("OK");
            assert(stream[i] == "OK"@);
        }
    }
    lines_are_read_as_sent(stream);
    lemma_reply(Seq::empty(), all);
    assert(Seq::<char>::empty() + on_lines(trimmed(all)) == on_lines(trimmed(all)));
    let texts = trimmed(all);
    assert forall|i: int| 0 <= i < texts.len() implies one_line(#[trigger] texts[i])
        && texts[i].len() > 0 && texts[i].last() != '\r' && is_shown(texts[i]) by {
        assert(is_kept(all[i]));
        assert(texts[i] == trim(all[i]));
        lemma_trim_keeps_one_line(all[i]);
        lemma_trim_is_trimmed(all[i]);
    }
    lemma_lines_of_joined(texts);
    lemma_shown(texts);
}

// ---------------------------------------------------------------------------
// The list
// ---------------------------------------------------------------------------

/// Whether a row of the list can be read back. Its title and its address hold
/// no tab and no line break, and its icon no line break; it neither starts nor
/// ends with white space; and it is not taken for the end of the reply or for
/// an error.
pub open spec fn is_readable(row: RowModel) -> bool {
    let icon = or_empty(row.icon);
    &&& !row.title.contains('\t') && one_line(row.title)
    &&& !row.address.contains('\t') && one_line(row.address)
    &&& one_line(icon)
    &&& row.title.len() > 0 && !is_white(row.title[0])
    &&& !is_white(
        if icon.len() > 0 {
            icon.last()
        } else if row.address.len() > 0 {
            row.address.last()
        } else {
            row.title.last()
        },
    )
    &&& row.address.len() + icon.len() > 0 || row.title != "OK"@
    &&& strip_prefix(row.title, "ERROR: "@) is None
}

/// The items that a picker reads from a list.
pub open spec fn items_read(list: Seq<char>) -> Seq<ListedItem> {
    Seq::new(shown(lines(list)).len(), |i: int| listed_item(shown(lines(list))[i]))
}

/// The items of a list as a picker reads them: an icon that is not there is
/// empty.
pub open spec fn items_sent(rows: Seq<RowModel>) -> Seq<ListedItem> {
    Seq::new(
        rows.len(),
        |i: int|
            ListedItem {
                title: rows[i].title,
                address: rows[i].address,
                icon: or_empty(rows[i].icon),
            },
    )
}

/// The text before the first separator and the rest behind it.
pub(crate) proof fn lemma_split_at(x: Seq<char>, sep: char, s: Seq<char>)
    requires
        !x.contains(sep),
    ensures
        find(x.push(sep) + s, sep) == x.len(),
        before(x.push(sep) + s, sep) == x,
        after(x.push(sep) + s, sep) == s,
{
    let all = x.push(sep) + s;
    assert forall|j: int| 0 <= j < x.len() implies #[trigger] all[j] != sep by {
        assert(all[j] == x[j]);
        assert(x.contains(x[j]));
    }
    lemma_find(all, sep, x.len() as int);
    assert(before(all, sep) == x);
    assert(after(all, sep) == s);
}

pub(crate) proof fn lemma_no_split(x: Seq<char>, sep: char)
    requires
        !x.contains(sep),
    ensures
        find(x, sep) == x.len(),
        before(x, sep) == x,
{
    assert forall|j: int| 0 <= j < x.len() implies #[trigger] x[j] != sep by {
        assert(x.contains(x[j]));
    }
    lemma_find(x, sep, x.len() as int);
    assert(before(x, sep) == x);
}

/// The fields of a text with separators between them.
pub(crate) proof fn lemma_three_fields(a: Seq<char>, b: Seq<char>, c: Seq<char>, sep: char)
    requires
        !a.contains(sep),
        !b.contains(sep),
    ensures
        splitn(a.push(sep) + b.push(sep) + c, 3, sep) == seq![a, b, c],
        splitn(a.push(sep) + b, 3, sep) == seq![a, b],
        splitn(a, 3, sep) == seq![a],
{
    reveal_with_fuel(splitn, 4);
    let rest = b.push(sep) + c;
    assert(a.push(sep) + b.push(sep) + c == a.push(sep) + rest);
    lemma_split_at(a, sep, rest);
    lemma_split_at(b, sep, c);
    assert(splitn(rest, 2, sep) == seq![b, c]);
    assert(splitn(a.push(sep) + rest, 3, sep) == seq![a, b, c]);
    lemma_split_at(a, sep, b);
    lemma_no_split(b, sep);
    assert(splitn(b, 2, sep) == seq![b]);
    assert(splitn(a.push(sep) + b, 3, sep) == seq![a, b]);
    lemma_no_split(a, sep);
}

/// A readable row without the white space around it.
spec fn row_core(row: RowModel) -> Seq<char> {
    let icon = or_empty(row.icon);
    if icon.len() > 0 {
        row_text(row)
    } else if row.address.len() > 0 {
        row.title.push('\t') + row.address
    } else {
        row.title
    }
}

proof fn lemma_row_core(row: RowModel)
    requires
        is_readable(row),
    ensures
        trim(row_text(row)) == row_core(row),
        row_core(row).len() >= row.title.len() > 0,
        forall|i: int| 0 <= i < row.title.len() ==> row_core(row)[i] == row.title[i],
        row_core(row).len() > row.title.len() ==> row_core(row)[row.title.len() as int] == '\t',
{
    let s = row_text(row);
    let core = row_core(row);
    let n = core.len() as int;
    assert(s[0] == row.title[0]);
    lemma_trim_start(s, 0);
    assert(s.skip(0) == s);
    assert(core == s.take(n));
    assert forall|j: int| n <= j < s.len() implies is_white(#[trigger] s[j]) by {
        assert(s[j] == '\t');
    }
    assert(!is_white(s[n - 1])) by {
        assert(s[n - 1] == core.last());
    }
    lemma_trim_end(s, n);
}

pub(crate) proof fn lemma_contains_add(a: Seq<char>, b: Seq<char>, c: char)
    requires
        !a.contains(c),
        !b.contains(c),
    ensures
        !(a + b).contains(c),
{
    if (a + b).contains(c) {
        let k = choose|k: int| 0 <= k < (a + b).len() && (a + b)[k] == c;
        if k < a.len() {
            assert(a[k] == c);
        } else {
            assert(b[k - a.len()] == c);
        }
    }
}

pub(crate) proof fn lemma_contains_push(a: Seq<char>, x: char, c: char)
    requires
        !a.contains(c),
        x != c,
    ensures
        !a.push(x).contains(c),
{
    if a.push(x).contains(c) {
        let k = choose|k: int| 0 <= k < a.push(x).len() && a.push(x)[k] == c;
        assert(a[k] == c);
    }
}

proof fn lemma_row_is_kept(row: RowModel)
    requires
        is_readable(row),
    ensures
        is_kept(row_text(row)),
        listed_item(trim(row_text(row))) == (ListedItem {
            title: row.title,
            address: row.address,
            icon: or_empty(row.icon),
        }),
{
    let s = row_text(row);
    let core = row_core(row);
    let icon = or_empty(row.icon);
    lemma_row_core(row);
    lemma_three_fields(row.title, row.address, icon, '\t');
    lemma_contains_push(row.title, '\t', '\n');
    lemma_contains_push(row.address, '\t', '\n');
    lemma_contains_add(row.title.push('\t'), row.address.push('\t'), '\n');
    lemma_contains_add(row.title.push('\t') + row.address.push('\t'), icon, '\n');
    // The row is not `OK`.
    reveal_strlit("OK");
    if core == "OK"@ {
        if core.len() > row.title.len() {
            assert(core[row.title.len() as int] == '\t');
        } else {
            assert(row.title == "OK"@);
        }
    }
    // The row is no error.
    reveal_strlit("ERROR: ");
    let prefix = "ERROR: "@;
    if occurs_at(core, prefix, 0) {
        let head = core.subrange(0, 7);
        assert(head == prefix);
        if row.title.len() < 7 {
            let k = row.title.len() as int;
            assert(core[k] == head[k]);
            assert(core[k] == '\t');
        } else {
            assert(row.title.subrange(0, 7) == head);
            assert(occurs_at(row.title, prefix, 0));
        }
    }
    if icon.len() == 0 && row.address.len() == 0 {
        assert(row.address == Seq::<char>::empty());
    }
    assert(icon.len() == 0 ==> icon == Seq::<char>::empty());
}

/// The list that the daemon sends is the list that the picker reads: every row
/// that can be read back arrives with its title, its address and its icon, in
/// its place.
pub proof fn the_list_arrives(rows: Seq<RowModel>)
    requires
        forall|i: int| 0 <= i < rows.len() ==> is_readable(#[trigger] rows[i]),
    ensures
        reply(Seq::empty(), wire_lines(list_reply(rows).push('\n'))) matches Ok(list)
            && items_read(list) == items_sent(rows),
{
    let all = row_texts(rows);
    assert forall|i: int| 0 <= i < all.len() implies is_kept(#[trigger] all[i]) by {
        assert(is_readable(rows[i]));
        lemma_row_is_kept(rows[i]);
    }
    kept_lines_arrive(all);
    let list = joined_lines(trimmed(all));
    assert forall|i: int| 0 <= i < rows.len() implies #[trigger] items_read(list)[i] == items_sent(
        rows,
    )[i] by {
        assert(is_readable(rows[i]));
        lemma_row_is_kept(rows[i]);
        assert(shown(lines(list))[i] == trim(row_text(rows[i])));
    }
    assert(items_read(list) == items_sent(rows));
}

/// A list without items arrives as one, and ends the picking.
pub proof fn an_empty_list_ends_the_picking()
    ensures
        reply(Seq::empty(), wire_lines(list_reply(Seq::empty()).push('\n'))) matches Ok(list)
            && after_list(list) == (StageModel::Over, ActionModel::NoItems),
{
    let rows = Seq::<RowModel>::empty();
    the_list_arrives(rows);
    let list = reply(Seq::empty(), wire_lines(list_reply(rows).push('\n')))->Ok_0;
    assert(items_read(list).len() == items_sent(rows).len());
}

// ---------------------------------------------------------------------------
// The menu
// ---------------------------------------------------------------------------

/// Whether an entry of a menu can be read back: its label holds no tab and no
/// line break.
pub open spec fn is_readable_entry(entry: FlatModel) -> bool {
    &&& !entry.label.contains('\t')
    &&& one_line(entry.label)
    &&& has_kind(entry)
}

/// The ids and labels that a picker reads from a menu.
pub open spec fn entries_read(menu: Seq<char>) -> Seq<(Option<int>, Seq<char>)> {
    Seq::new(
        shown(lines(menu)).len(),
        |i: int|
            {
                let fields = splitn(shown(lines(menu))[i], 3, '\t');
                (parse_i32(field(fields, 0)), field(fields, 1))
            },
    )
}

/// The ids and labels of a menu.
pub open spec fn entries_sent(menu: Seq<FlatModel>) -> Seq<(Option<int>, Seq<char>)> {
    Seq::new(menu.len(), |i: int| (Some(menu[i].id as int), menu[i].label))
}

/// A number has no white space in it and does not start like a word.
pub(crate) proof fn lemma_number_text(n: int)
    ensures
        signed_decimal(n).len() > 0,
        forall|i: int|
            0 <= i < signed_decimal(n).len() ==> 45 <= (#[trigger] signed_decimal(n)[i]) as int
                <= 57,
{
    let s = signed_decimal(n);
    if n < 0 {
        lemma_decimal_value((-n) as nat);
        let d = decimal((-n) as nat);
        assert forall|i: int| 0 <= i < s.len() implies 45 <= (#[trigger] s[i]) as int <= 57 by {
            if i > 0 {
                assert(s[i] == d[i - 1]);
                assert(is_digit(d[i - 1]));
            }
        }
    } else {
        lemma_decimal_value(n as nat);
        assert forall|i: int| 0 <= i < s.len() implies 45 <= (#[trigger] s[i]) as int <= 57 by {
            assert(is_digit(s[i]));
        }
    }
}

pub(crate) proof fn lemma_number_lacks(n: int, c: char)
    requires
        !(45 <= c as int <= 57),
    ensures
        !signed_decimal(n).contains(c),
{
    lemma_number_text(n);
}

pub(crate) proof fn lemma_entry_is_kept(entry: FlatModel)
    requires
        is_readable_entry(entry),
    ensures
        is_kept(entry_text(entry)),
        trim(entry_text(entry)) == entry_text(entry),
        splitn(entry_text(entry), 3, '\t')[0] == signed_decimal(entry.id as int),
        splitn(entry_text(entry), 3, '\t')[1] == entry.label,
        splitn(entry_text(entry), 3, '\t').len() == 3,
{
    let s = entry_text(entry);
    let id = signed_decimal(entry.id as int);
    let flag = flag_text(entry.enabled);
    let tail = entry.menu_type.push('\t') + flag;
    lemma_number_text(entry.id as int);
    lemma_number_lacks(entry.id as int, '\t');
    lemma_number_lacks(entry.id as int, '\n');
    reveal_strlit("true");
    reveal_strlit("false");
    reveal_strlit("standard");
    reveal_strlit("separator");
    reveal_strlit("OK");
    reveal_strlit("ERROR: ");
    assert(s == id.push('\t') + entry.label.push('\t') + tail);
    lemma_three_fields(id, entry.label, tail, '\t');
    // It stays on one line.
    assert(!flag.contains('\n'));
    assert(!entry.menu_type.contains('\n'));
    lemma_contains_push(id, '\t', '\n');
    lemma_contains_push(entry.label, '\t', '\n');
    lemma_contains_push(entry.menu_type, '\t', '\n');
    lemma_contains_add(id.push('\t'), entry.label.push('\t'), '\n');
    lemma_contains_add(entry.menu_type.push('\t'), flag, '\n');
    lemma_contains_add(id.push('\t') + entry.label.push('\t'), tail, '\n');
    // It is trimmed, and neither `OK` nor an error.
    assert(s[0] == id[0]);
    assert(s.last() == flag.last());
    assert(flag.last() == 'e');
    lemma_trim_of_trimmed(s);
    if s == "OK"@ {
        assert(s[0] == 'O');
    }
    if occurs_at(s, "ERROR: "@, 0) {
        assert(s.subrange(0, 7)[0] == s[0]);
        assert("ERROR: "@[0] == 'E');
    }
}

/// The menu that the daemon sends is the menu that the picker reads: every entry
/// that can be read back arrives with its id and its label, in its place.
pub proof fn the_menu_arrives(menu: Seq<FlatModel>, address: Seq<char>)
    requires
        forall|i: int| 0 <= i < menu.len() ==> is_readable_entry(#[trigger] menu[i]),
    ensures
        reply(Seq::empty(), wire_lines(menu_reply(Some(menu), address).push('\n'))) matches Ok(text)
            && entries_read(text) == entries_sent(menu),
{
    let all = entry_texts(menu);
    assert forall|i: int| 0 <= i < all.len() implies is_kept(#[trigger] all[i]) by {
        assert(is_readable_entry(menu[i]));
        lemma_entry_is_kept(menu[i]);
    }
    kept_lines_arrive(all);
    let text = joined_lines(trimmed(all));
    assert forall|i: int| 0 <= i < menu.len() implies #[trigger] entries_read(text)[i]
        == entries_sent(menu)[i] by {
        assert(is_readable_entry(menu[i]));
        lemma_entry_is_kept(menu[i]);
        decimal_round_trip(menu[i].id);
        assert(shown(lines(text))[i] == entry_text(menu[i]));
    }
    assert(entries_read(text) == entries_sent(menu));
}

} // verus!
