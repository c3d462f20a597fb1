//! The protocol between the daemon and its clients.
//!
//! A line of text from the client is a command; the reply is lines of
//! tab-separated values, terminated by `OK` or `ERROR: ...`.
//!
//! | Command                   | Reply                                            |
//! |---------------------------|--------------------------------------------------|
//! | `LIST`                    | `title\taddress\ticon_source\n...` then `OK\n`   |
//! | `MENU <address>`          | `id\tlabel\ttype\tenabled\n...` then `OK\n`      |
//! | `ACTIVATE <addr> <id>`    | `OK\n` or `ERROR: <msg>\n`                       |
//! | `ACTIVATE_DEFAULT <addr>` | `OK\n` or `ERROR: <msg>\n`                       |
//! | `PING`                    | `PONG\n`                                         |

use vstd::prelude::*;

use crate::host::{
    listed, menu_of, menu_path_of, opt_texts, ActivateRequest, ClickModel, Host, HostModel,
    MenuNotice, NoticeModel,
};
use crate::listing::{row_models, RowModel};
use crate::menu::{flat_models, FlatMenuItem, FlatModel};
use crate::number::{parse_i32, parse_i32_text, push_signed, signed_decimal};
use crate::text::{
    copy_text, opt_text, or_empty, same_text, splitn, splitn_text, strip_prefix, strip_prefix_text,
    sub_text, texts, to_chars, trim, trim_text,
};

pub use crate::paths::default_socket_path;

verus! {

// ---------------------------------------------------------------------------
// Commands
// ---------------------------------------------------------------------------

/// What a client asks for.
#[derive(Debug)]
pub enum Request {
    List,
    Menu(String),
    Activate(String, i32),
    ActivateDefault(String),
    Ping,
    /// Nothing that the daemon knows; the reply that says so.
    Refused(String),
}

/// What a request says.
pub enum RequestModel {
    List,
    Menu(Seq<char>),
    Activate(Seq<char>, int),
    ActivateDefault(Seq<char>),
    Ping,
    Refused(Seq<char>),
}

impl View for Request {
    type V = RequestModel;

    open spec fn view(&self) -> RequestModel {
        match *self {
            Request::List => RequestModel::List,
            Request::Menu(address) => RequestModel::Menu(address@),
            Request::Activate(address, id) => RequestModel::Activate(address@, id as int),
            Request::ActivateDefault(address) => RequestModel::ActivateDefault(address@),
            Request::Ping => RequestModel::Ping,
            Request::Refused(reply) => RequestModel::Refused(reply@),
        }
    }
}

/// The request that a command makes. A command is a word, an address and an
/// id, with single spaces between them; what a word has no use for is ignored.
pub open spec fn request(command: Seq<char>) -> RequestModel {
    let parts = splitn(command, 3, ' ');
    if parts[0] == "LIST"@ {
        RequestModel::List
    } else if parts[0] == "MENU"@ {
        if parts.len() < 2 {
            RequestModel::Refused("ERROR: missing address argument"@)
        } else {
            RequestModel::Menu(parts[1])
        }
    } else if parts[0] == "ACTIVATE"@ {
        if parts.len() < 3 {
            RequestModel::Refused("ERROR: missing address or menu_id argument"@)
        } else {
            match parse_i32(parts[2]) {
                Some(id) => RequestModel::Activate(parts[1], id),
                None => RequestModel::Refused("ERROR: menu_id must be an integer"@),
            }
        }
    } else if parts[0] == "ACTIVATE_DEFAULT"@ {
        if parts.len() < 2 {
            RequestModel::Refused("ERROR: missing address argument"@)
        } else {
            RequestModel::ActivateDefault(parts[1])
        }
    } else if parts[0] == "PING"@ {
        RequestModel::Ping
    } else {
        RequestModel::Refused("ERROR: unknown command: "@ + parts[0])
    }
}

/// The request that a command makes.
pub fn parse_request(command: &str) -> (r: Request)
    ensures
        r@ == request(command@),
{
    let parts: Vec<String> = splitn_text(command, 3, ' ');
    let ghost model = splitn(command@, 3, ' ');
    proof {
        assert(model.len() > 0);
        assert(texts(parts@) == model);
        assert forall|i: int| 0 <= i < parts@.len() implies #[trigger] parts@[i]@ == model[i] by {
            assert(texts(parts@)[i] == parts@[i]@);
        }
    }
    let word: &str = parts[0].as_str();
    if same_text(word, "LIST") {
        Request::List
    } else if same_text(word, "MENU") {
        if parts.len() < 2 {
            Request::Refused(copy_text("ERROR: missing address argument"))
        } else {
            Request::Menu(parts[1].clone())
        }
    } else if same_text(word, "ACTIVATE") {
        if parts.len() < 3 {
            Request::Refused(copy_text("ERROR: missing address or menu_id argument"))
        } else {
            match parse_i32_text(parts[2].as_str()) {
                Some(id) => Request::Activate(parts[1].clone(), id),
                None => Request::Refused(copy_text("ERROR: menu_id must be an integer")),
            }
        }
    } else if same_text(word, "ACTIVATE_DEFAULT") {
        if parts.len() < 2 {
            Request::Refused(copy_text("ERROR: missing address argument"))
        } else {
            Request::ActivateDefault(parts[1].clone())
        }
    } else if same_text(word, "PING") {
        Request::Ping
    } else {
        let mut reply = copy_text("ERROR: unknown command: ");
        reply.append(word);
        Request::Refused(reply)
    }
}

/// The command on a line: the line without the white space around it. A line
/// of nothing else holds no command.
pub open spec fn command_on(line: Seq<char>) -> Option<Seq<char>> {
    if trim(line).len() == 0 {
        None
    } else {
        Some(trim(line))
    }
}

/// The command on a line that a client sent.
pub fn read_command(line: &str) -> (r: Option<String>)
    ensures
        opt_text(r) == command_on(line@),
{
    let command: String = trim_text(line);
    if command.as_str().is_empty() {
        None
    } else {
        Some(command)
    }
}

/// A reply or a command as it is sent.
pub fn framed(text: &str) -> (r: String)
    ensures
        r@ == text@.push('\n'),
{
    let mut r = copy_text(text);
    r.push('\n');
    r
}

// ---------------------------------------------------------------------------
// Replies
// ---------------------------------------------------------------------------

/// The texts of `lines`, each on a line of its own.
pub open spec fn on_lines(lines: Seq<Seq<char>>) -> Seq<char>
    decreases lines.len(),
{
    if lines.len() == 0 {
        Seq::empty()
    } else {
        on_lines(lines.drop_last()) + lines.last().push('\n')
    }
}

/// A row of the list: its fields with tabs between them. The icon is empty
/// where there is none.
pub open spec fn row_text(row: RowModel) -> Seq<char> {
    row.title.push('\t') + row.address.push('\t') + or_empty(row.icon)
}

/// The rows of the list.
pub open spec fn row_texts(rows: Seq<RowModel>) -> Seq<Seq<char>> {
    Seq::new(rows.len(), |i: int| row_text(rows[i]))
}

/// The reply to `LIST`: the rows, then `OK`.
pub open spec fn list_reply(rows: Seq<RowModel>) -> Seq<char> {
    on_lines(row_texts(rows)) + "OK"@
}

/// The reply to `LIST`, given the rows of the list.
pub fn render_list(rows: &Vec<(String, String, Option<String>)>) -> (r: String)
    ensures
        r@ == list_reply(row_models(rows@)),
{
    let ghost all = row_texts(row_models(rows@));
    let mut out = String::new();
    let mut i: usize = 0;
    assert(all.take(0) == Seq::<Seq<char>>::empty());
    while i < rows.len()
        invariant
            i <= rows@.len(),
            all == row_texts(row_models(rows@)),
            out@ == on_lines(all.take(i as int)),
        decreases rows@.len() - i,
    {
        let row = &rows[i];
        out.append(row.0.as_str());
        out.push('\t');
        out.append(row.1.as_str());
        out.push('\t');
        match &row.2 {
            Some(icon) => out.append(icon.as_str()),
            None => {},
        }
        out.push('\n');
        proof {
            let next = all.take(i + 1);
            assert(next.drop_last() == all.take(i as int));
            assert(next.last() == all[i as int]);
            assert(out@ == on_lines(all.take(i as int)) + all[i as int].push('\n'));
        }
        i += 1;
    }
    assert(all.take(i as int) == all);
    out.append("OK");
    out
}

/// The reply to `LIST`. `icons` holds what is shown for the icon of each item,
/// in the order in which the items are registered.
pub fn handle_list(host: &Host, icons: Vec<Option<String>>) -> (r: String)
    requires
        icons@.len() == host@.entries.len(),
    ensures
        r@ == list_reply(listed(host@, opt_texts(icons@))),
{
    render_list(&host.list_items_with_icons(icons))
}

/// Whether an entry is enabled, as text.
pub open spec fn flag_text(b: bool) -> Seq<char> {
    if b {
        "true"@
    } else {
        "false"@
    }
}

/// An entry of a menu: its fields with tabs between them.
pub open spec fn entry_text(entry: FlatModel) -> Seq<char> {
    signed_decimal(entry.id as int).push('\t') + entry.label.push('\t') + entry.menu_type.push('\t')
        + flag_text(entry.enabled)
}

/// The entries of a menu.
pub open spec fn entry_texts(menu: Seq<FlatModel>) -> Seq<Seq<char>> {
    Seq::new(menu.len(), |i: int| entry_text(menu[i]))
}

/// The reply that there is no menu at `address`.
pub open spec fn no_menu_reply(address: Seq<char>) -> Seq<char> {
    "ERROR: item not found or has no menu: "@ + address
}

/// The reply to `MENU`: the entries, then `OK`.
pub open spec fn menu_reply(menu: Option<Seq<FlatModel>>, address: Seq<char>) -> Seq<char> {
    match menu {
        Some(entries) => on_lines(entry_texts(entries)) + "OK"@,
        None => no_menu_reply(address),
    }
}

fn no_menu(address: &str) -> (r: String)
    ensures
        r@ == no_menu_reply(address@),
{
    let mut r = copy_text("ERROR: item not found or has no menu: ");
    r.append(address);
    r
}

/// The lines of a menu, then `OK`.
pub fn render_menu(menu: &Vec<FlatMenuItem>) -> (r: String)
    ensures
        r@ == on_lines(entry_texts(flat_models(menu@))) + "OK"@,
{
    let ghost all = entry_texts(flat_models(menu@));
    let mut out = String::new();
    let mut i: usize = 0;
    assert(all.take(0) == Seq::<Seq<char>>::empty());
    while i < menu.len()
        invariant
            i <= menu@.len(),
            all == entry_texts(flat_models(menu@)),
            out@ == on_lines(all.take(i as int)),
        decreases menu@.len() - i,
    {
        let entry = &menu[i];
        push_signed(&mut out, entry.id);
        out.push('\t');
        out.append(entry.label.as_str());
        out.push('\t');
        out.append(entry.menu_type.as_str());
        out.push('\t');
        if entry.enabled {
            out.append("true");
        } else {
            out.append("false");
        }
        out.push('\n');
        proof {
            let next = all.take(i + 1);
            assert(next.drop_last() == all.take(i as int));
            assert(next.last() == all[i as int]);
            assert(out@ == on_lines(all.take(i as int)) + all[i as int].push('\n'));
        }
        i += 1;
    }
    assert(all.take(i as int) == all);
    out.append("OK");
    out
}

/// The reply to `MENU`.
pub fn handle_menu(host: &Host, address: &str) -> (r: String)
    ensures
        r@ == menu_reply(menu_of(host@, address@), address@),
{
    match host.get_menu(address) {
        Some(menu) => render_menu(&menu),
        None => no_menu(address),
    }
}

// ---------------------------------------------------------------------------
// The daemon
// ---------------------------------------------------------------------------

/// What the daemon does for a command.
#[derive(Debug)]
pub enum ServerStep {
    /// Send this reply.
    Reply(String),
    /// Have every icon shown, then reply with the list.
    List,
    /// Send the notice, if there is one, whatever comes of it; then the click;
    /// then reply with what came of the click.
    Activate { notice: Option<MenuNotice>, click: ActivateRequest },
}

/// What a step of the daemon says.
pub enum StepModel {
    Reply(Seq<char>),
    List,
    Activate { notice: Option<NoticeModel>, click: ClickModel },
}

impl View for ServerStep {
    type V = StepModel;

    open spec fn view(&self) -> StepModel {
        match *self {
            ServerStep::Reply(reply) => StepModel::Reply(reply@),
            ServerStep::List => StepModel::List,
            ServerStep::Activate { notice, click } => StepModel::Activate {
                notice: match notice {
                    Some(n) => Some(n@),
                    None => None,
                },
                click: click@,
            },
        }
    }
}

/// What the daemon does for `ACTIVATE`: it tells the application that its menu
/// is about to be shown, then clicks on the entry. Without a menu there is
/// nothing to click on.
pub open spec fn activate_step(host: HostModel, address: Seq<char>, id: int) -> StepModel {
    match menu_path_of(host, address) {
        Some(menu_path) => StepModel::Activate {
            notice: Some(NoticeModel { address, menu_path, id: 0 }),
            click: ClickModel::MenuItem { address, menu_path, submenu_id: id as i32 },
        },
        None => StepModel::Reply(no_menu_reply(address)),
    }
}

/// What the daemon does for `ACTIVATE_DEFAULT`: it clicks on the icon.
pub open spec fn activate_default_step(address: Seq<char>) -> StepModel {
    StepModel::Activate { notice: None, click: ClickModel::Default { address, x: 0, y: 0 } }
}

/// What the daemon does for a command.
pub open spec fn server_step(host: HostModel, command: Seq<char>) -> StepModel {
    match request(command) {
        RequestModel::List => StepModel::List,
        RequestModel::Menu(address) => StepModel::Reply(
            menu_reply(menu_of(host, address), address),
        ),
        RequestModel::Activate(address, id) => activate_step(host, address, id),
        RequestModel::ActivateDefault(address) => activate_default_step(address),
        RequestModel::Ping => StepModel::Reply("PONG"@),
        RequestModel::Refused(reply) => StepModel::Reply(reply),
    }
}

/// What the daemon does for `ACTIVATE`.
pub fn handle_activate(host: &Host, address: &str, menu_id: i32) -> (r: ServerStep)
    ensures
        r@ == activate_step(host@, address@, menu_id as int),
{
    match host.get_menu_path(address) {
        Some(path) => ServerStep::Activate {
            notice: Some(host.about_to_show_menuitem(address, path.as_str(), 0)),
            click: host.activate_menu_item(address, path.as_str(), menu_id),
        },
        None => ServerStep::Reply(no_menu(address)),
    }
}

/// What the daemon does for `ACTIVATE_DEFAULT`.
pub fn handle_activate_default(host: &Host, address: &str) -> (r: ServerStep)
    ensures
        r@ == activate_default_step(address@),
{
    ServerStep::Activate { notice: None, click: host.activate_default(address, 0, 0) }
}

/// What the daemon does for a command.
pub fn process_command(host: &Host, command: &str) -> (r: ServerStep)
    ensures
        r@ == server_step(host@, command@),
{
    match parse_request(command) {
        Request::List => ServerStep::List,
        Request::Menu(address) => ServerStep::Reply(handle_menu(host, address.as_str())),
        Request::Activate(address, id) => handle_activate(host, address.as_str(), id),
        Request::ActivateDefault(address) => handle_activate_default(host, address.as_str()),
        Request::Ping => ServerStep::Reply(copy_text("PONG")),
        Request::Refused(reply) => ServerStep::Reply(reply),
    }
}

/// The reply to a click, given what came of it: nothing, or an error.
pub open spec fn click_reply(error: Option<Seq<char>>) -> Seq<char> {
    match error {
        None => "OK"@,
        Some(message) => "ERROR: "@ + message,
    }
}

/// The reply to a click. `error` is the message of the error that came of it.
pub fn activation_reply(error: &Option<String>) -> (r: String)
    ensures
        r@ == click_reply(opt_text(*error)),
{
    match error {
        None => copy_text("OK"),
        Some(message) => {
            let mut r = copy_text("ERROR: ");
            r.append(message.as_str());
            r
        },
    }
}

// ---------------------------------------------------------------------------
// The client
// ---------------------------------------------------------------------------

/// What a client makes of a line of the reply.
#[derive(Debug)]
pub enum ReplyStep {
    /// There is more to read.
    More,
    /// The reply is complete.
    Done,
    /// The daemon reports an error.
    Failed(String),
}

/// What a step of the client says.
pub enum ReplyStepModel {
    More,
    Done,
    Failed(Seq<char>),
}

impl View for ReplyStep {
    type V = ReplyStepModel;

    open spec fn view(&self) -> ReplyStepModel {
        match *self {
            ReplyStep::More => ReplyStepModel::More,
            ReplyStep::Done => ReplyStepModel::Done,
            ReplyStep::Failed(message) => ReplyStepModel::Failed(message@),
        }
    }
}

/// What a client makes of a line: `OK` ends the reply, `ERROR: ` starts the
/// message of an error, and anything else is part of the reply, without the
/// white space around it.
pub open spec fn reply_step(line: Seq<char>) -> ReplyStepModel {
    if trim(line) == "OK"@ {
        ReplyStepModel::Done
    } else {
        match strip_prefix(trim(line), "ERROR: "@) {
            Some(message) => ReplyStepModel::Failed(message),
            None => ReplyStepModel::More,
        }
    }
}

/// `s` without the line break at its end.
pub open spec fn without_last_break(s: Seq<char>) -> Seq<char> {
    if s.len() > 0 && s.last() == '\n' {
        s.drop_last()
    } else {
        s
    }
}

/// The reply that a client has from the lines that it reads, or the message of
/// the error that the daemon reports. `received` is what it has read before.
pub open spec fn reply(received: Seq<char>, lines: Seq<Seq<char>>) -> Result<Seq<char>, Seq<char>>
    decreases lines.len(),
{
    if lines.len() == 0 {
        Ok(without_last_break(received))
    } else {
        match reply_step(lines[0]) {
            ReplyStepModel::Done => Ok(without_last_break(received)),
            ReplyStepModel::Failed(message) => Err(message),
            ReplyStepModel::More => reply(received + trim(lines[0]).push('\n'), lines.skip(1)),
        }
    }
}

/// A reply as it is being read.
#[derive(Debug)]
pub struct ReplyReader {
    received: String,
}

impl View for ReplyReader {
    type V = Seq<char>;

    closed spec fn view(&self) -> Seq<char> {
        self.received@
    }
}

impl ReplyReader {
    /// Nothing has been read yet.
    pub fn new() -> (r: Self)
        ensures
            r@ == Seq::<char>::empty(),
    {
        ReplyReader { received: String::new() }
    }

    /// Reads a line.
    pub fn feed(&mut self, line: &str) -> (r: ReplyStep)
        ensures
            r@ == reply_step(line@),
            final(self)@ == if r is More {
                old(self)@ + trim(line@).push('\n')
            } else {
                old(self)@
            },
    {
        let line: String = trim_text(line);
        if same_text(line.as_str(), "OK") {
            return ReplyStep::Done;
        }
        match strip_prefix_text(line.as_str(), "ERROR: ") {
            Some(message) => ReplyStep::Failed(message),
            None => {
                self.received.append(line.as_str());
                self.received.push('\n');
                assert(self@ == old(self)@ + line@.push('\n'));
                ReplyStep::More
            },
        }
    }

    /// The reply, once it is complete or there are no more lines.
    pub fn finish(self) -> (r: String)
        ensures
            r@ == without_last_break(self@),
    {
        let v = to_chars(self.received.as_str());
        let n: usize = v.len();
        if n > 0 && v[n - 1] == '\n' {
            assert(v@.subrange(0, n - 1) == v@.drop_last());
            sub_text(&v, 0, n - 1)
        } else {
            self.received
        }
    }
}

/// The result of reading a reply.
pub open spec fn reply_result(r: Result<String, String>) -> Result<Seq<char>, Seq<char>> {
    match r {
        Ok(s) => Ok(s@),
        Err(e) => Err(e@),
    }
}

/// Reads a reply from its lines. What follows its end is not looked at.
pub fn read_reply(lines: &Vec<String>) -> (r: Result<String, String>)
    ensures
        reply_result(r) == reply(Seq::empty(), texts(lines@)),
{
    let mut reader = ReplyReader::new();
    let ghost all = texts(lines@);
    let mut i: usize = 0;
    assert(all.skip(0) == all);
    while i < lines.len()
        invariant
            i <= lines@.len(),
            all == texts(lines@),
            reply(reader@, all.skip(i as int)) == reply(Seq::empty(), all),
        decreases lines@.len() - i,
    {
        assert(all.skip(i as int)[0] == lines@[i as int]@);
        assert(all.skip(i as int).skip(1) == all.skip(i + 1));
        match reader.feed(lines[i].as_str()) {
            ReplyStep::More => {},
            ReplyStep::Done => return Ok(reader.finish()),
            ReplyStep::Failed(message) => return Err(message),
        }
        i += 1;
    }
    Ok(reader.finish())
}

} // verus!
