//! Picking: the exchange between the daemon, a picker program and the user
//! that ends in a click.
//!
//! The list of items goes to the picker in the format of Rofi's extended dmenu
//! protocol, `address\ttitle\0icon\x1ficon_source\n`. The address comes back as
//! the first field of what the user selects.

use vstd::prelude::*;

use crate::cli::{
    activate_command, activate_default_command, activate_default_line, activate_line, menu_command,
    menu_line,
};
use crate::number::{parse_i32, parse_i32_text};
use crate::socket::{on_lines, reply_result, without_last_break};
use crate::text::{
    before, before_text, copy_text, lines, lines_text, same_text, splitn, splitn_text, texts, trim,
    trim_text, words, words_text,
};

verus! {

// ---------------------------------------------------------------------------
// The picker program
// ---------------------------------------------------------------------------

/// The program of a picker command: its first word, or `fuzzel`.
pub open spec fn picker_program(picker: Seq<char>) -> Seq<char> {
    if words(picker).len() == 0 {
        "fuzzel"@
    } else {
        words(picker)[0]
    }
}

/// The arguments of a picker command: the words behind the program.
pub open spec fn picker_arguments(picker: Seq<char>) -> Seq<Seq<char>> {
    if words(picker).len() == 0 {
        Seq::empty()
    } else {
        words(picker).skip(1)
    }
}

/// The program and the arguments of a picker command.
pub fn picker_command(picker: &str) -> (r: (String, Vec<String>))
    ensures
        r.0@ == picker_program(picker@),
        texts(r.1@) == picker_arguments(picker@),
{
    let mut parts: Vec<String> = words_text(picker);
    let ghost all = parts@;
    if parts.len() == 0 {
        assert(texts(parts@) == picker_arguments(picker@));
        (copy_text("fuzzel"), parts)
    } else {
        let program: String = parts.remove(0);
        proof {
            assert(texts(all)[0] == all[0]@);
            assert(texts(parts@) == texts(all).skip(1));
        }
        (program, parts)
    }
}

// ---------------------------------------------------------------------------
// What the picker shows
// ---------------------------------------------------------------------------

/// Whether a line of a reply is shown.
pub open spec fn is_shown(line: Seq<char>) -> bool {
    line.len() > 0 && line != "OK"@
}

/// The lines that are shown.
pub open spec fn shown(all: Seq<Seq<char>>) -> Seq<Seq<char>>
    decreases all.len(),
{
    if all.len() == 0 {
        Seq::empty()
    } else if is_shown(all.last()) {
        shown(all.drop_last()).push(all.last())
    } else {
        shown(all.drop_last())
    }
}

/// The lines of a reply that are shown.
fn shown_lines(reply: &str) -> (r: Vec<String>)
    ensures
        texts(r@) == shown(lines(reply@)),
{
    let all: Vec<String> = lines_text(reply);
    let ghost model = texts(all@);
    let mut r: Vec<String> = Vec::new();
    let mut i: usize = 0;
    assert(texts(r@) == shown(model.take(0)));
    while i < all.len()
        invariant
            i <= all@.len(),
            model == texts(all@),
            texts(r@) == shown(model.take(i as int)),
        decreases all@.len() - i,
    {
        let ghost kept = texts(r@);
        proof {
            let next = model.take(i + 1);
            assert(next.drop_last() == model.take(i as int));
            assert(next.last() == all@[i as int]@);
        }
        if !all[i].as_str().is_empty() && !same_text(all[i].as_str(), "OK") {
            r.push(all[i].clone());
            assert(texts(r@) == kept.push(all@[i as int]@));
        }
        i += 1;
    }
    assert(model.take(i as int) == model);
    r
}

/// An item as the daemon lists it.
#[verifier::ext_equal]
pub struct ListedItem {
    pub title: Seq<char>,
    pub address: Seq<char>,
    pub icon: Seq<char>,
}

/// The `i`th of some fields, empty where there are fewer.
pub open spec fn field(fields: Seq<Seq<char>>, i: int) -> Seq<char> {
    if 0 <= i < fields.len() {
        fields[i]
    } else {
        Seq::empty()
    }
}

/// The item on a line of the list: title, address and icon with tabs between
/// them. The icon may hold tabs.
pub open spec fn listed_item(line: Seq<char>) -> ListedItem {
    let fields = splitn(line, 3, '\t');
    ListedItem { title: field(fields, 0), address: field(fields, 1), icon: field(fields, 2) }
}

/// An item as it is handed to the picker: address and title with a tab between
/// them, then the icon, if there is one, behind its mark.
pub open spec fn choice_text(item: ListedItem) -> Seq<char> {
    item.address.push('\t') + item.title + if item.icon.len() > 0 {
        "\0icon\x1f"@ + item.icon
    } else {
        Seq::empty()
    }
}

/// The items of a list, as they are handed to the picker.
pub open spec fn choice_texts(all: Seq<Seq<char>>) -> Seq<Seq<char>> {
    Seq::new(all.len(), |i: int| choice_text(listed_item(all[i])))
}

fn field_text(fields: &Vec<String>, i: usize) -> (r: String)
    ensures
        r@ == field(texts(fields@), i as int),
{
    if i < fields.len() {
        assert(texts(fields@)[i as int] == fields@[i as int]@);
        fields[i].clone()
    } else {
        String::new()
    }
}

/// The items of a list, each on a line as it is handed to the picker.
fn choice_lines(all: &Vec<String>) -> (r: String)
    ensures
        r@ == on_lines(choice_texts(texts(all@))),
{
    let ghost model = choice_texts(texts(all@));
    let mut out = String::new();
    let mut i: usize = 0;
    assert(model.take(0) == Seq::<Seq<char>>::empty());
    while i < all.len()
        invariant
            i <= all@.len(),
            model == choice_texts(texts(all@)),
            out@ == on_lines(model.take(i as int)),
        decreases all@.len() - i,
    {
        let fields: Vec<String> = splitn_text(all[i].as_str(), 3, '\t');
        let title: String = field_text(&fields, 0);
        let address: String = field_text(&fields, 1);
        let icon: String = field_text(&fields, 2);
        out.append(address.as_str());
        out.push('\t');
        out.append(title.as_str());
        if !icon.as_str().is_empty() {
            out.append("\0icon\x1f");
            out.append(icon.as_str());
        }
        out.push('\n');
        proof {
            let next = model.take(i + 1);
            assert(next.drop_last() == model.take(i as int));
            assert(next.last() == model[i as int]);
            assert(texts(all@)[i as int] == all@[i as int]@);
            assert(out@ == on_lines(model.take(i as int)) + model[i as int].push('\n'));
        }
        i += 1;
    }
    assert(model.take(i as int) == model);
    out
}

/// An entry of a menu as it is handed to the picker: id and label with a tab
/// between them.
pub open spec fn entry_choice(line: Seq<char>) -> Seq<char> {
    let fields = splitn(line, 3, '\t');
    field(fields, 0).push('\t') + field(fields, 1)
}

/// The entries of a menu, as they are handed to the picker.
pub open spec fn entry_choices(all: Seq<Seq<char>>) -> Seq<Seq<char>> {
    Seq::new(all.len(), |i: int| entry_choice(all[i]))
}

/// The texts of `all`, with line breaks between them.
pub open spec fn joined_lines(all: Seq<Seq<char>>) -> Seq<char> {
    without_last_break(on_lines(all))
}

/// The entries of a menu with line breaks between them.
fn entry_lines(all: &Vec<String>) -> (r: String)
    ensures
        r@ == joined_lines(entry_choices(texts(all@))),
{
    let ghost model = entry_choices(texts(all@));
    let mut out = String::new();
    let mut i: usize = 0;
    assert(model.take(0) == Seq::<Seq<char>>::empty());
    while i < all.len()
        invariant
            i <= all@.len(),
            model == entry_choices(texts(all@)),
            out@ == joined_lines(model.take(i as int)),
        decreases all@.len() - i,
    {
        if i > 0 {
            assert(model.take(i as int).last() == model[i - 1]);
            assert(on_lines(model.take(i as int)).last() == '\n');
            out.push('\n');
            assert(out@ == on_lines(model.take(i as int)));
        }
        assert(out@ == on_lines(model.take(i as int)));
        let fields: Vec<String> = splitn_text(all[i].as_str(), 3, '\t');
        let id: String = field_text(&fields, 0);
        let label: String = field_text(&fields, 1);
        out.append(id.as_str());
        out.push('\t');
        out.append(label.as_str());
        proof {
            let next = model.take(i + 1);
            assert(next.drop_last() == model.take(i as int));
            assert(next.last() == model[i as int]);
            assert(texts(all@)[i as int] == all@[i as int]@);
            assert(out@.push('\n') == on_lines(next));
            assert(out@.push('\n').drop_last() == out@);
        }
        i += 1;
    }
    assert(model.take(i as int) == model);
    out
}

// ---------------------------------------------------------------------------
// The session
// ---------------------------------------------------------------------------

/// How far a session has come.
#[derive(Debug)]
pub enum Stage {
    /// The daemon is asked for the list.
    Listing,
    /// The user is asked for an item.
    ChoosingItem,
    /// The daemon is asked for the menu of the item at this address.
    ReadingMenu(String),
    /// The user is asked for an entry of the menu at this address.
    ChoosingEntry(String),
    /// The daemon is asked to click.
    Clicking,
    /// There is nothing more to do.
    Over,
}

/// What a stage says.
pub enum StageModel {
    Listing,
    ChoosingItem,
    ReadingMenu(Seq<char>),
    ChoosingEntry(Seq<char>),
    Clicking,
    Over,
}

impl View for Stage {
    type V = StageModel;

    open spec fn view(&self) -> StageModel {
        match *self {
            Stage::Listing => StageModel::Listing,
            Stage::ChoosingItem => StageModel::ChoosingItem,
            Stage::ReadingMenu(address) => StageModel::ReadingMenu(address@),
            Stage::ChoosingEntry(address) => StageModel::ChoosingEntry(address@),
            Stage::Clicking => StageModel::Clicking,
            Stage::Over => StageModel::Over,
        }
    }
}

/// What is to be done next.
#[derive(Debug)]
pub enum PickAction {
    /// Send this line to the daemon, and go on with its reply.
    Send(String),
    /// Hand this text to the picker, and go on with what it prints.
    Choose(String),
    /// Nothing: the click is made, or the user selected nothing.
    Done,
    /// Nothing: there are no tray items.
    NoItems,
    /// Report this error.
    Fail(String),
}

/// What an action says.
#[verifier::ext_equal]
pub enum ActionModel {
    Send(Seq<char>),
    Choose(Seq<char>),
    Done,
    NoItems,
    Fail(Seq<char>),
}

impl View for PickAction {
    type V = ActionModel;

    open spec fn view(&self) -> ActionModel {
        match *self {
            PickAction::Send(line) => ActionModel::Send(line@),
            PickAction::Choose(text) => ActionModel::Choose(text@),
            PickAction::Done => ActionModel::Done,
            PickAction::NoItems => ActionModel::NoItems,
            PickAction::Fail(message) => ActionModel::Fail(message@),
        }
    }
}

/// The error with which the daemon says that there is no menu at `address`.
pub open spec fn no_menu_error(address: Seq<char>) -> Seq<char> {
    "item not found or has no menu: "@ + address
}

/// What comes of the list: the user chooses among its items, if it has any.
pub open spec fn after_list(list: Seq<char>) -> (StageModel, ActionModel) {
    if shown(lines(list)).len() == 0 {
        (StageModel::Over, ActionModel::NoItems)
    } else {
        (
            StageModel::ChoosingItem,
            ActionModel::Choose(on_lines(choice_texts(shown(lines(list))))),
        )
    }
}

/// What comes of the menu of the item at `address`: the user chooses among its
/// entries; an item without entries is clicked on itself.
pub open spec fn after_menu(address: Seq<char>, menu: Seq<char>) -> (StageModel, ActionModel) {
    if trim(menu).len() == 0 || trim(menu) == "OK"@ {
        (StageModel::Clicking, ActionModel::Send(activate_default_line(address)))
    } else {
        (
            StageModel::ChoosingEntry(address),
            ActionModel::Choose(joined_lines(entry_choices(shown(lines(menu))))),
        )
    }
}

/// What comes of the daemon's reply, or of the error that it reports. That an
/// item has no menu is no error: the item is clicked on itself.
pub open spec fn after_reply(
    stage: StageModel,
    reply: Result<Seq<char>, Seq<char>>,
) -> (StageModel, ActionModel) {
    match (stage, reply) {
        (StageModel::Listing, Ok(list)) => after_list(list),
        (StageModel::ReadingMenu(address), Ok(menu)) => after_menu(address, menu),
        (StageModel::ReadingMenu(address), Err(error)) => if error == no_menu_error(address) {
            (StageModel::Clicking, ActionModel::Send(activate_default_line(address)))
        } else {
            (StageModel::Over, ActionModel::Fail(error))
        },
        (_, Ok(_)) => (StageModel::Over, ActionModel::Done),
        (_, Err(error)) => (StageModel::Over, ActionModel::Fail(error)),
    }
}

/// What comes of what the picker prints: the first field of the selected line
/// is the item's address or the entry's id. Nothing selected ends the session.
pub open spec fn after_selection(stage: StageModel, output: Seq<char>) -> (
    StageModel,
    ActionModel,
) {
    let selected = trim(output);
    let key = before(selected, '\t');
    if selected.len() == 0 {
        (StageModel::Over, ActionModel::Done)
    } else {
        match stage {
            StageModel::ChoosingEntry(address) => match parse_i32(key) {
                Some(id) => (StageModel::Clicking, ActionModel::Send(activate_line(address, id))),
                None => (
                    StageModel::Over,
                    ActionModel::Fail("invalid menu id from picker: "@ + key),
                ),
            },
            _ => (StageModel::ReadingMenu(key), ActionModel::Send(menu_line(key))),
        }
    }
}

/// How many stages of a session are still to come at most.
pub open spec fn stages_left(stage: StageModel) -> nat {
    match stage {
        StageModel::Listing => 5,
        StageModel::ChoosingItem => 4,
        StageModel::ReadingMenu(_) => 3,
        StageModel::ChoosingEntry(_) => 2,
        StageModel::Clicking => 1,
        StageModel::Over => 0,
    }
}

/// Every reply and every selection brings a session nearer to its end, and it
/// is over exactly when there is nothing more to send or to choose.
pub proof fn every_session_ends(
    stage: StageModel,
    reply: Result<Seq<char>, Seq<char>>,
    output: Seq<char>,
)
    ensures
        awaits_reply(stage) ==> {
            let (next, action) = after_reply(stage, reply);
            &&& stages_left(next) < stages_left(stage)
            &&& action is Send <==> awaits_reply(next)
            &&& action is Choose <==> awaits_selection(next)
            &&& next is Over <==> !(action is Send || action is Choose)
        },
        awaits_selection(stage) ==> {
            let (next, action) = after_selection(stage, output);
            &&& stages_left(next) < stages_left(stage)
            &&& action is Send <==> awaits_reply(next)
            &&& action is Choose <==> awaits_selection(next)
            &&& next is Over <==> !(action is Send || action is Choose)
        },
{
}

/// Whether a session waits for a reply of the daemon.
pub open spec fn awaits_reply(stage: StageModel) -> bool {
    stage is Listing || stage is ReadingMenu || stage is Clicking
}

/// Whether a session waits for what the picker prints.
pub open spec fn awaits_selection(stage: StageModel) -> bool {
    stage is ChoosingItem || stage is ChoosingEntry
}

/// A session with the picker.
#[derive(Debug)]
pub struct PickSession {
    stage: Stage,
}

impl View for PickSession {
    type V = StageModel;

    closed spec fn view(&self) -> StageModel {
        self.stage@
    }
}

impl PickSession {
    /// Starts a session: the daemon is asked for the list.
    pub fn start() -> (r: (Self, PickAction))
        ensures
            r.0@ == StageModel::Listing,
            r.1@ == ActionModel::Send("LIST"@),
    {
        (PickSession { stage: Stage::Listing }, PickAction::Send(copy_text("LIST")))
    }

    /// Goes on with the reply of the daemon, or with the error that it reports.
    pub fn on_reply(&mut self, reply: Result<String, String>) -> (r: PickAction)
        requires
            awaits_reply(old(self)@),
        ensures
            (final(self)@, r@) == after_reply(old(self)@, reply_result(reply)),
            r is Send ==> awaits_reply(final(self)@),
            r is Choose ==> awaits_selection(final(self)@),
    {
        let mut stage = Stage::Over;
        std::mem::swap(&mut stage, &mut self.stage);
        match (stage, reply) {
            (Stage::Listing, Ok(list)) => {
                let items: Vec<String> = shown_lines(list.as_str());
                if items.len() == 0 {
                    PickAction::NoItems
                } else {
                    self.stage = Stage::ChoosingItem;
                    PickAction::Choose(choice_lines(&items))
                }
            },
            (Stage::ReadingMenu(address), Ok(menu)) => {
                let text: String = trim_text(menu.as_str());
                if text.as_str().is_empty() || same_text(text.as_str(), "OK") {
                    let line: String = activate_default_command(address.as_str());
                    self.stage = Stage::Clicking;
                    PickAction::Send(line)
                } else {
                    let entries: Vec<String> = shown_lines(menu.as_str());
                    self.stage = Stage::ChoosingEntry(address);
                    PickAction::Choose(entry_lines(&entries))
                }
            },
            (Stage::ReadingMenu(address), Err(error)) => {
                let mut no_menu = copy_text("item not found or has no menu: ");
                no_menu.append(address.as_str());
                if same_text(error.as_str(), no_menu.as_str()) {
                    self.stage = Stage::Clicking;
                    PickAction::Send(activate_default_command(address.as_str()))
                } else {
                    PickAction::Fail(error)
                }
            },
            (_, Ok(_)) => PickAction::Done,
            (_, Err(error)) => PickAction::Fail(error),
        }
    }

    /// Goes on with what the picker prints.
    pub fn on_selection(&mut self, output: &str) -> (r: PickAction)
        requires
            awaits_selection(old(self)@),
        ensures
            (final(self)@, r@) == after_selection(old(self)@, output@),
            r is Send ==> awaits_reply(final(self)@),
            !(r is Choose),
    {
        let selected: String = trim_text(output);
        let mut stage = Stage::Over;
        std::mem::swap(&mut stage, &mut self.stage);
        if selected.as_str().is_empty() {
            return PickAction::Done;
        }
        let key: String = before_text(selected.as_str(), '\t');
        match stage {
            Stage::ChoosingEntry(address) => match parse_i32_text(key.as_str()) {
                Some(id) => {
                    self.stage = Stage::Clicking;
                    PickAction::Send(activate_command(address.as_str(), id))
                },
                None => {
                    let mut message = copy_text("invalid menu id from picker: ");
                    message.append(key.as_str());
                    PickAction::Fail(message)
                },
            },
            _ => {
                let line: String = menu_command(key.as_str());
                self.stage = Stage::ReadingMenu(key);
                PickAction::Send(line)
            },
        }
    }
}

} // verus!
