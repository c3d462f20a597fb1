use tray_host::cli::{
    command_or_daemon, failure_message, print_response, request_for, Command, DEFAULT_PICKER,
};
use tray_host::config::{sorting_default, Config, ConfigFile};
use tray_host::paths::{
    config_path_in, get_default_config_path, icon_cache_dir, icon_cache_dir_in, icon_path_in,
    path_to_text, socket_path_in,
};
use tray_host::pick::{picker_command, PickAction, PickSession};
use tray_host::socket::{
    default_socket_path, framed, handle_list, handle_menu, parse_request, read_command, read_reply,
    Request,
};
use tray_host::{Host, MenuItem, MenuType, StatusNotifierItem, TrayItems, TrayMenu};

fn send(action: PickAction) -> String {
    match action {
        PickAction::Send(line) => line,
        other => panic!("nothing to send: {other:?}"),
    }
}

fn shown_to_pick(action: PickAction) -> String {
    match action {
        PickAction::Choose(text) => text,
        other => panic!("nothing to choose: {other:?}"),
    }
}

fn fail(action: PickAction) -> String {
    match action {
        PickAction::Fail(message) => message,
        other => panic!("no failure: {other:?}"),
    }
}

fn ok(s: &str) -> Result<String, String> {
    Ok(s.to_string())
}

fn err(s: &str) -> Result<String, String> {
    Err(s.to_string())
}

const LIST: &str = "Music\t:1.5\t/c/a.png\nMail\t:1.9";

fn at_the_menu() -> PickSession {
    let (mut session, action) = PickSession::start();
    assert_eq!(send(action), "LIST");
    shown_to_pick(session.on_reply(ok(LIST)));
    assert_eq!(send(session.on_selection(":1.5\tMusic\n")), "MENU :1.5");
    session
}

#[test]
fn items_are_handed_to_the_picker() {
    let (mut session, _) = PickSession::start();
    assert_eq!(
        shown_to_pick(session.on_reply(ok(LIST))),
        ":1.5\tMusic\0icon\x1f/c/a.png\n:1.9\tMail\n"
    );
}

#[test]
fn a_session_ends_in_a_click_on_an_entry() {
    let mut session = at_the_menu();
    let menu = "1\tOpen window\tstandard\ttrue\n2\t\tseparator\ttrue\n30\tQuit\tstandard\tfalse";
    assert_eq!(shown_to_pick(session.on_reply(ok(menu))), "1\tOpen window\n2\t\n30\tQuit");
    assert_eq!(send(session.on_selection("30\tQuit\n")), "ACTIVATE :1.5 30");
    assert!(matches!(session.on_reply(ok("")), PickAction::Done));
}

#[test]
fn an_item_without_menu_is_clicked_itself() {
    for reply in [ok(""), ok("OK"), ok(" \n"), err("item not found or has no menu: :1.5")] {
        let mut session = at_the_menu();
        assert_eq!(send(session.on_reply(reply)), "ACTIVATE_DEFAULT :1.5");
        assert!(matches!(session.on_reply(ok("")), PickAction::Done));
    }
}

#[test]
fn errors_end_a_session() {
    let (mut session, _) = PickSession::start();
    assert_eq!(fail(session.on_reply(err("refused"))), "refused");
    assert_eq!(fail(at_the_menu().on_reply(err("zbus error"))), "zbus error");
    let mut session = at_the_menu();
    shown_to_pick(session.on_reply(ok("1\tOpen")));
    assert_eq!(fail(session.on_selection("Open\t1")), "invalid menu id from picker: Open");
    let mut session = at_the_menu();
    send(session.on_reply(ok("")));
    assert_eq!(fail(session.on_reply(err("gone"))), "gone");
}

#[test]
fn selecting_nothing_ends_a_session() {
    let (mut session, _) = PickSession::start();
    shown_to_pick(session.on_reply(ok(LIST)));
    assert!(matches!(session.on_selection(" \n"), PickAction::Done));
    let mut session = at_the_menu();
    shown_to_pick(session.on_reply(ok("1\tOpen")));
    assert!(matches!(session.on_selection(""), PickAction::Done));
}

#[test]
fn an_empty_tray_ends_a_session() {
    for reply in ["", "OK", "\n\nOK\n"] {
        let (mut session, _) = PickSession::start();
        assert!(matches!(session.on_reply(ok(reply)), PickAction::NoItems));
    }
}

/// Sends a command to the daemon and returns what it makes of it.
fn heard(line: &str) -> Request {
    parse_request(&read_command(&framed(line)).unwrap())
}

fn received(reply: &str) -> Result<String, String> {
    let lines: Vec<String> = framed(reply).split_inclusive('\n').map(str::to_string).collect();
    read_reply(&lines)
}

#[test]
fn what_is_picked_is_clicked() {
    let item = |title: &str| StatusNotifierItem {
        id: String::new(),
        title: Some(title.to_string()),
        icon_name: None,
        icon_pixmap: None,
        tool_tip: None,
        menu: Some("/m".to_string()),
    };
    let entry = |id: i32, label: &str, submenu: Vec<MenuItem>| MenuItem {
        id,
        menu_type: MenuType::Standard,
        label: Some(label.to_string()),
        enabled: true,
        submenu,
    };
    let menu = vec![entry(3, "View", vec![entry(-8, "Full screen", vec![])]), entry(5, "Quit", vec![])];
    let mut items = TrayItems::new();
    items.insert(":1.20".to_string(), item("Editor — draft"), None);
    items.insert(":1.21".to_string(), item("Player"), Some(TrayMenu { submenus: menu }));
    let host = Host::with_sorting(items, true);

    let (mut session, action) = PickSession::start();
    assert!(matches!(heard(&send(action)), Request::List));
    let list = handle_list(&host, vec![None, Some("/icons/p.png".to_string())]);
    let shown = shown_to_pick(session.on_reply(received(&list)));
    assert_eq!(shown, ":1.20\tEditor — draft\n:1.21\tPlayer\0icon\x1f/icons/p.png\n");
    let line = send(session.on_selection(":1.21\tPlayer\n"));
    assert!(matches!(heard(&line), Request::Menu(a) if a == ":1.21"));
    let shown = shown_to_pick(session.on_reply(received(&handle_menu(&host, ":1.21"))));
    assert_eq!(shown, "3\tView\n-8\tFull screen\n5\tQuit");
    let line = send(session.on_selection("-8\tFull screen\n"));
    assert!(matches!(heard(&line), Request::Activate(a, -8) if a == ":1.21"));
    assert!(matches!(session.on_reply(received("OK")), PickAction::Done));

    // The other item has no menu.
    let (mut session, _) = PickSession::start();
    shown_to_pick(session.on_reply(received(&list)));
    send(session.on_selection(":1.20\tEditor — draft\n"));
    let line = send(session.on_reply(received(&handle_menu(&host, ":1.20"))));
    assert!(matches!(heard(&line), Request::ActivateDefault(a) if a == ":1.20"));
}

#[test]
fn the_picker_is_split_into_words() {
    let (program, arguments) = picker_command("rofi -dmenu  -show-icons");
    assert_eq!(program, "rofi");
    assert_eq!(arguments, vec!["-dmenu", "-show-icons"]);
    assert_eq!(picker_command(" "), ("fuzzel".to_string(), vec![]));
    assert_eq!(picker_command(DEFAULT_PICKER).0, "fuzzel");
}

#[test]
fn commands_become_requests() {
    let a = || ":1.5".to_string();
    assert_eq!(request_for(&Command::List), Some(("LIST".to_string(), true)));
    assert_eq!(
        request_for(&Command::Menu { address: a() }),
        Some(("MENU :1.5".to_string(), true))
    );
    assert_eq!(
        request_for(&Command::Activate { address: a(), menu_id: -3 }),
        Some(("ACTIVATE :1.5 -3".to_string(), false))
    );
    assert_eq!(
        request_for(&Command::ActivateDefault { address: a() }),
        Some(("ACTIVATE_DEFAULT :1.5".to_string(), false))
    );
    assert_eq!(request_for(&Command::Daemon), None);
    assert_eq!(request_for(&Command::Pick { picker: a() }), None);
}

#[test]
fn the_daemon_is_the_default() {
    assert!(matches!(command_or_daemon(None), Command::Daemon));
    assert!(matches!(command_or_daemon(Some(Command::List)), Command::List));
}

#[test]
fn replies_are_printed_on_a_line() {
    assert_eq!(print_response("a\nb"), "a\nb\n");
    assert_eq!(print_response(""), "");
}

#[test]
fn a_daemon_that_is_not_there_is_explained() {
    let hint = "Error: daemon is not running.\nStart it with: tray-host daemon &\n(socket path: /run/s)";
    assert_eq!(failure_message("No such file or directory (os error 2)", "/run/s"), hint);
    assert_eq!(failure_message("connection refused", "/run/s"), hint);
    assert_eq!(failure_message("zbus error", "/run/s"), "Error: zbus error");
}

fn bytes(s: &str) -> Vec<u8> {
    s.as_bytes().to_vec()
}

#[test]
fn the_configuration_is_loaded() {
    assert!(!sorting_default());
    assert!(!Config::default().sorting);
    let given = Some(bytes("/etc/t.toml"));
    let absent = ConfigFile::Absent("/etc/t.toml".to_string());
    assert!(Config::new(&given, &ConfigFile::Parsed(Some(true))).unwrap().sorting);
    assert!(Config::new(&None, &ConfigFile::Parsed(Some(true))).unwrap().sorting);
    assert!(!Config::new(&None, &ConfigFile::Parsed(Some(false))).unwrap().sorting);
    assert!(!Config::new(&given, &ConfigFile::Parsed(None)).unwrap().sorting);
    assert!(!Config::new(&None, &absent).unwrap().sorting);
    assert_eq!(
        Config::new(&given, &absent).unwrap_err(),
        "configuration file \"/etc/t.toml\" not found"
    );
    assert_eq!(
        Config::new(&None, &ConfigFile::Unreadable("bad".to_string())).unwrap_err(),
        "bad"
    );
}

#[test]
fn the_configuration_file_is_found() {
    let given = Some(bytes("/etc/t.toml"));
    assert_eq!(Config::file_to_load(&given), Ok(bytes("/etc/t.toml")));
    assert_eq!(Config::file_to_load(&None), get_default_config_path());
    assert_eq!(
        config_path_in(&Some(bytes("/home/u/.config"))),
        Ok(bytes("/home/u/.config/tray-host/config.toml"))
    );
    assert_eq!(
        config_path_in(&None),
        Err("Couldn't determine default config directory.".to_string())
    );
}

#[test]
fn paths_are_joined() {
    for base in ["/run/user/1000", "/run/", "/", "relative", ""] {
        let expected = std::path::Path::new(base).join("tray-host.sock");
        let path = socket_path_in(&Some(bytes(base)));
        assert_eq!(path, expected.into_os_string().into_encoded_bytes());
    }
}

#[test]
fn a_directory_need_not_be_text() {
    let dir = Some(vec![b'/', 0xff, 0xfe]);
    assert_eq!(socket_path_in(&dir), b"/\xff\xfe/tray-host.sock".to_vec());
    assert_eq!(icon_cache_dir_in(&dir), b"/\xff\xfe/tray-host/icons".to_vec());
    assert_eq!(config_path_in(&dir), Ok(b"/\xff\xfe/tray-host/config.toml".to_vec()));
}

#[test]
fn the_socket_is_in_the_runtime_directory() {
    assert_eq!(
        socket_path_in(&Some(bytes("/run/user/1000"))),
        bytes("/run/user/1000/tray-host.sock")
    );
    assert_eq!(socket_path_in(&None), bytes("/tmp/tray-host.sock"));
    assert_eq!(
        icon_cache_dir_in(&Some(bytes("/home/u/.cache"))),
        bytes("/home/u/.cache/tray-host/icons")
    );
    assert_eq!(icon_cache_dir_in(&None), bytes("/tmp/tray-host/icons"));
}

#[test]
fn the_base_directories_are_those_of_the_user() {
    let raw = |dir: Option<std::path::PathBuf>| dir.map(|d| d.into_os_string().into_encoded_bytes());
    assert_eq!(default_socket_path(), socket_path_in(&raw(dirs::runtime_dir())));
    assert_eq!(icon_cache_dir(), icon_cache_dir_in(&raw(dirs::cache_dir())));
    assert_eq!(get_default_config_path(), config_path_in(&raw(dirs::config_dir())));
}

#[test]
fn cached_icons_are_below_the_cache_directory() {
    assert_eq!(
        icon_path_in(&Some(bytes("/home/u/.cache/")), "00ff.png"),
        bytes("/home/u/.cache/tray-host/icons/00ff.png")
    );
    assert_eq!(icon_path_in(&None, "00ff.png"), bytes("/tmp/tray-host/icons/00ff.png"));
}

#[test]
fn paths_are_shown_as_text() {
    for path in [&b"/tmp/a"[..], "/home/é/日本".as_bytes(), b"/\xff\xfe/a", b"/\xe2\x82", b""] {
        assert_eq!(path_to_text(&path.to_vec()), String::from_utf8_lossy(path));
    }
    assert_eq!(path_to_text(&vec![b'/', 0xff, b'a']), "/\u{fffd}a");
}
