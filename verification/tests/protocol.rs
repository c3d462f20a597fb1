use tray_host::connection::{on_line, reply_to, LineStep};
use tray_host::socket::{
    activation_reply, framed, handle_list, handle_menu, parse_request, process_command,
    read_command, read_reply, ReplyReader, ReplyStep, Request, ServerStep,
};
use tray_host::{
    ActivateRequest, Host, MenuItem, MenuType, StatusNotifierItem, TrayItems, TrayMenu,
};

fn item(title: &str, menu: Option<&str>) -> StatusNotifierItem {
    StatusNotifierItem {
        id: "id".to_string(),
        title: Some(title.to_string()),
        icon_name: None,
        icon_pixmap: None,
        tool_tip: None,
        menu: menu.map(str::to_string),
    }
}

fn entry(id: i32, label: &str, menu_type: MenuType, enabled: bool) -> MenuItem {
    MenuItem { id, menu_type, label: Some(label.to_string()), enabled, submenu: vec![] }
}

fn host() -> Host {
    let mut items = TrayItems::new();
    let menu = vec![
        entry(1, "Open window", MenuType::Standard, true),
        entry(-2, "", MenuType::Separator, true),
        entry(30, "Quit", MenuType::Standard, false),
    ];
    items.insert(
        ":1.5".to_string(),
        item("Music Player", Some("/MenuBar")),
        Some(TrayMenu { submenus: menu }),
    );
    items.insert(":1.9".to_string(), item("Mail", None), None);
    items.insert(
        ":1.7".to_string(),
        item("Bare", Some("/m")),
        Some(TrayMenu { submenus: vec![] }),
    );
    Host::new(items)
}

fn replied(step: ServerStep) -> String {
    match step {
        ServerStep::Reply(reply) => reply,
        other => panic!("no reply: {other:?}"),
    }
}

/// What the client makes of a reply that the daemon sends.
fn received(reply: &str) -> Result<String, String> {
    let sent = framed(reply);
    let lines: Vec<String> = sent.split_inclusive('\n').map(str::to_string).collect();
    read_reply(&lines)
}

#[test]
fn commands_are_read_from_lines() {
    assert_eq!(read_command("  LIST \r\n"), Some("LIST".to_string()));
    assert_eq!(read_command(" \t\n"), None);
    assert_eq!(read_command("\n"), None);
}

#[test]
fn commands_are_understood() {
    assert!(matches!(parse_request("LIST"), Request::List));
    assert!(matches!(parse_request("LIST all of them"), Request::List));
    assert!(matches!(parse_request("PING"), Request::Ping));
    assert!(matches!(parse_request("MENU :1.5"), Request::Menu(a) if a == ":1.5"));
    assert!(matches!(parse_request("MENU :1.5 x y"), Request::Menu(a) if a == ":1.5"));
    assert!(matches!(parse_request("ACTIVATE :1.5 7"), Request::Activate(a, 7) if a == ":1.5"));
    assert!(matches!(parse_request("ACTIVATE :1.5 -7"), Request::Activate(a, -7) if a == ":1.5"));
    assert!(
        matches!(parse_request("ACTIVATE_DEFAULT :1.5"), Request::ActivateDefault(a) if a == ":1.5")
    );
}

#[test]
fn commands_that_are_no_good_are_refused() {
    for (command, reply) in [
        ("MENU", "ERROR: missing address argument"),
        ("ACTIVATE", "ERROR: missing address or menu_id argument"),
        ("ACTIVATE :1.5", "ERROR: missing address or menu_id argument"),
        ("ACTIVATE :1.5 seven", "ERROR: menu_id must be an integer"),
        ("ACTIVATE :1.5 7 8", "ERROR: menu_id must be an integer"),
        ("ACTIVATE :1.5 2147483648", "ERROR: menu_id must be an integer"),
        ("ACTIVATE_DEFAULT", "ERROR: missing address argument"),
        ("list", "ERROR: unknown command: list"),
        ("NOPE :1.5", "ERROR: unknown command: NOPE"),
    ] {
        assert_eq!(replied(process_command(&host(), command)), reply);
        assert_eq!(received(reply), Err(reply["ERROR: ".len()..].to_string()));
    }
}

#[test]
fn pings_are_answered() {
    assert_eq!(replied(process_command(&host(), "PING")), "PONG");
}

#[test]
fn the_list_waits_for_icons() {
    assert!(matches!(process_command(&host(), "LIST"), ServerStep::List));
    let icons = vec![Some("/cache/a.png".to_string()), None, Some("bare".to_string())];
    assert_eq!(
        handle_list(&host(), icons),
        "Music Player\t:1.5\t/cache/a.png\nMail\t:1.9\t\nBare\t:1.7\tbare\nOK"
    );
    assert_eq!(handle_list(&Host::new(TrayItems::new()), vec![]), "OK");
}

#[test]
fn menus_are_sent() {
    let reply = "1\tOpen window\tstandard\ttrue\n-2\t\tseparator\ttrue\n30\tQuit\tstandard\tfalse\nOK";
    assert_eq!(handle_menu(&host(), ":1.5"), reply);
    assert_eq!(replied(process_command(&host(), "MENU :1.5")), reply);
    assert_eq!(replied(process_command(&host(), "MENU :1.7")), "OK");
    assert_eq!(
        replied(process_command(&host(), "MENU :1.9")),
        "ERROR: item not found or has no menu: :1.9"
    );
    assert_eq!(
        replied(process_command(&host(), "MENU :1.1")),
        "ERROR: item not found or has no menu: :1.1"
    );
}

#[test]
fn entries_are_clicked_after_a_notice() {
    match process_command(&host(), "ACTIVATE :1.5 30") {
        ServerStep::Activate { notice: Some(notice), click } => {
            assert_eq!(notice.address, ":1.5");
            assert_eq!(notice.menu_path, "/MenuBar");
            assert_eq!(notice.id, 0);
            assert!(matches!(
                click,
                ActivateRequest::MenuItem { address, menu_path, submenu_id: 30 }
                    if address == ":1.5" && menu_path == "/MenuBar"
            ));
        }
        other => panic!("no click: {other:?}"),
    }
    assert_eq!(
        replied(process_command(&host(), "ACTIVATE :1.9 1")),
        "ERROR: item not found or has no menu: :1.9"
    );
}

#[test]
fn icons_are_clicked_without_a_notice() {
    assert!(matches!(
        process_command(&host(), "ACTIVATE_DEFAULT :1.9"),
        ServerStep::Activate {
            notice: None,
            click: ActivateRequest::Default { address, x: 0, y: 0 },
        } if address == ":1.9"
    ));
}

#[test]
fn what_comes_of_a_click_is_reported() {
    assert_eq!(activation_reply(&None), "OK");
    assert_eq!(activation_reply(&Some("zbus error".to_string())), "ERROR: zbus error");
    assert_eq!(received("OK"), Ok(String::new()));
    assert_eq!(received("ERROR: zbus error"), Err("zbus error".to_string()));
}

#[test]
fn replies_end_with_ok() {
    assert_eq!(received("a\tb\tc\nd\te\t\nOK"), Ok("a\tb\tc\nd\te".to_string()));
    let lines: Vec<String> =
        ["one\n", "OK\n", "two\n", "ERROR: x\n"].iter().map(|s| s.to_string()).collect();
    assert_eq!(read_reply(&lines), Ok("one".to_string()));
    // The end of the stream ends the reply too.
    assert_eq!(read_reply(&vec!["PONG\n".to_string()]), Ok("PONG".to_string()));
    assert_eq!(read_reply(&vec![]), Ok(String::new()));
}

#[test]
fn replies_are_read_line_by_line() {
    let mut reader = ReplyReader::new();
    assert!(matches!(reader.feed("  1\tOpen \n"), ReplyStep::More));
    assert!(matches!(reader.feed("\n"), ReplyStep::More));
    assert!(matches!(reader.feed("2\tQuit\n"), ReplyStep::More));
    assert!(matches!(reader.feed("OK\n"), ReplyStep::Done));
    assert_eq!(reader.finish(), "1\tOpen\n\n2\tQuit");
    let mut reader = ReplyReader::new();
    assert!(matches!(reader.feed("ERROR: broken\n"), ReplyStep::Failed(m) if m == "broken"));
    assert!(matches!(reader.feed("ERROR:\n"), ReplyStep::More));
}

/// What the daemon writes for the lines that a client sends before it ends the
/// stream. Every icon is shown by name, and every click fails.
fn served(stream: &str) -> String {
    let host = host();
    let mut lines: Vec<&str> = stream.split_inclusive('\n').collect();
    lines.push("");
    let mut written = String::new();
    for line in lines {
        match on_line(&host, line) {
            LineStep::Close => return written,
            LineStep::Skip => {}
            LineStep::Serve(step) => {
                let icons = vec![Some("i".to_string()); host.items().len()];
                let reply = reply_to(&host, step, icons, &Some("zbus error".to_string()));
                written.push_str(&framed(&reply));
            }
        }
    }
    panic!("the connection was not closed");
}

#[test]
fn every_command_has_its_answer_in_turn() {
    assert_eq!(
        served("PING\n\n  \nNOPE\nMENU :1.9\r\n\tACTIVATE_DEFAULT :1.9\nMENU :1.7\n PING"),
        "PONG\nERROR: unknown command: NOPE\nERROR: item not found or has no menu: :1.9\n\
         ERROR: zbus error\nOK\nPONG\n"
    );
    assert_eq!(
        served("LIST\nPING\n"),
        "Music Player\t:1.5\ti\nMail\t:1.9\ti\nBare\t:1.7\ti\nOK\nPONG\n"
    );
    assert_eq!(served(""), "");
    assert_eq!(served("\n\n \n"), "");
}

#[test]
fn only_the_end_of_the_stream_closes() {
    assert!(matches!(on_line(&host(), ""), LineStep::Close));
    assert!(matches!(on_line(&host(), "\n"), LineStep::Skip));
    assert!(matches!(
        on_line(&host(), "MENU\n"),
        LineStep::Serve(ServerStep::Reply(r)) if r == "ERROR: missing address argument"
    ));
    let click = process_command(&host(), "ACTIVATE_DEFAULT :1.9");
    assert_eq!(reply_to(&host(), click, vec![], &None), "OK");
}
