use tray_host::events::icon_to_refresh;
use tray_host::icon::IconPlan;
use tray_host::menu::flatten_menu;
use tray_host::{
    ActivateRequest, Event, FlatMenuItem, Host, MenuItem, MenuType, StatusNotifierItem, TrayItems,
    TrayMenu, UpdateEvent,
};

fn item(title: &str, icon: Option<&str>, menu: Option<&str>) -> StatusNotifierItem {
    StatusNotifierItem {
        id: "id".to_string(),
        title: Some(title.to_string()),
        icon_name: icon.map(str::to_string),
        icon_pixmap: None,
        tool_tip: None,
        menu: menu.map(str::to_string),
    }
}

fn entry(id: i32, label: Option<&str>, submenu: Vec<MenuItem>) -> MenuItem {
    MenuItem {
        id,
        menu_type: MenuType::Standard,
        label: label.map(str::to_string),
        enabled: true,
        submenu,
    }
}

fn fields(v: &[FlatMenuItem]) -> Vec<(i32, &str, &str, bool)> {
    v.iter().map(|f| (f.id, f.label.as_str(), f.menu_type.as_str(), f.enabled)).collect()
}

fn nested() -> Vec<MenuItem> {
    let mut separator = entry(4, None, vec![]);
    separator.menu_type = MenuType::Separator;
    let mut off = entry(5, Some("Off"), vec![]);
    off.enabled = false;
    let deep = entry(2, Some("Deep"), vec![entry(3, Some("Deeper"), vec![])]);
    vec![entry(1, Some("Open"), vec![deep]), separator, off]
}

#[test]
fn menus_are_flattened_in_reading_order() {
    let mut out = vec![];
    flatten_menu(&nested(), &mut out);
    assert_eq!(
        fields(&out),
        vec![
            (1, "Open", "standard", true),
            (2, "Deep", "standard", true),
            (3, "Deeper", "standard", true),
            (4, "", "separator", true),
            (5, "Off", "standard", false),
        ]
    );
    flatten_menu(&vec![entry(6, Some("More"), vec![])], &mut out);
    assert_eq!(out.len(), 6);
    assert_eq!(out[5].label, "More");
}

fn three() -> TrayItems {
    let mut items = TrayItems::new();
    items.insert(":1.3".to_string(), item("Zulu", Some("z"), None), None);
    items.insert(
        ":1.1".to_string(),
        item("alpha", None, Some("/menu")),
        Some(TrayMenu { submenus: nested() }),
    );
    items.insert(
        ":1.2".to_string(),
        item("Mike", Some("m"), Some("/empty")),
        Some(TrayMenu { submenus: vec![] }),
    );
    items
}

fn titles(rows: &[(String, String, Option<String>)]) -> Vec<&str> {
    rows.iter().map(|r| r.0.as_str()).collect()
}

#[test]
fn items_are_listed_as_registered() {
    let host = Host::new(three());
    assert!(!host.sorting());
    assert_eq!(host.items().len(), 3);
    let rows = host.list_items();
    assert_eq!(
        rows,
        vec![
            ("Zulu".to_string(), ":1.3".to_string(), Some("z".to_string())),
            ("alpha".to_string(), ":1.1".to_string(), None),
            ("Mike".to_string(), ":1.2".to_string(), Some("m".to_string())),
        ]
    );
}

#[test]
fn items_are_sorted_by_title() {
    let host = Host::with_sorting(three(), true);
    assert!(host.sorting());
    assert_eq!(titles(&host.list_items()), vec!["Mike", "Zulu", "alpha"]);
    let icons = vec![Some("/c/z.png".to_string()), None, Some("m".to_string())];
    let rows = host.list_items_with_icons(icons);
    assert_eq!(titles(&rows), vec!["Mike", "Zulu", "alpha"]);
    assert_eq!(rows[1].1, ":1.3");
    assert_eq!(rows[1].2, Some("/c/z.png".to_string()));
    assert_eq!(rows[2].2, None);
    // Titles and addresses are those of the list with icon names.
    let names = |v: Vec<(String, String, Option<String>)>| -> Vec<(String, String)> {
        v.into_iter().map(|(title, address, _)| (title, address)).collect()
    };
    assert_eq!(names(rows), names(host.list_items()));
}

#[test]
fn sorting_keeps_the_order_of_equal_titles() {
    let mut items = TrayItems::new();
    for (address, title) in [(":9", "b"), (":5", "a"), (":7", "b"), (":1", "a"), (":3", "b")] {
        items.insert(address.to_string(), item(title, None, None), None);
    }
    let rows = Host::with_sorting(items, true).list_items();
    let order: Vec<&str> = rows.iter().map(|r| r.1.as_str()).collect();
    assert_eq!(order, vec![":5", ":1", ":9", ":7", ":3"]);
}

#[test]
fn sorting_agrees_with_std() {
    let words = ["pear", "Äpfel", "apple", "", "pea", "日本", "apple", "Zoo", "zoo", "a b", "a\tb"];
    let rows: Vec<(String, String, Option<String>)> = words
        .iter()
        .enumerate()
        .map(|(i, w)| (w.to_string(), i.to_string(), None))
        .collect();
    let mut expected = rows.clone();
    expected.sort_by(|a, b| a.0.cmp(&b.0));
    assert_eq!(tray_host::listing::sort_by_title(rows), expected);
}

#[test]
fn an_empty_tray_lists_nothing() {
    let host = Host::new(TrayItems::new());
    assert!(host.list_items().is_empty());
    assert!(host.list_items_with_icons(vec![]).is_empty());
    assert!(host.icon_plans().is_empty());
}

#[test]
fn an_address_is_registered_once() {
    let mut items = three();
    items.insert(":1.1".to_string(), item("Beta", None, None), None);
    assert_eq!(items.len(), 3);
    let host = Host::new(items);
    assert_eq!(titles(&host.list_items()), vec!["Zulu", "Beta", "Mike"]);
    assert!(host.get_menu(":1.1").is_none());
    assert!(host.get_menu(":1.2").is_some());
}

#[test]
fn menus_are_found_by_address() {
    let host = Host::new(three());
    assert_eq!(host.get_menu(":1.1").unwrap().len(), 5);
    assert_eq!(host.get_menu(":1.2").unwrap().len(), 0);
    assert!(host.get_menu(":1.3").is_none());
    assert!(host.get_menu(":1.4").is_none());
    assert_eq!(host.get_menu_path(":1.1"), Some("/menu".to_string()));
    assert_eq!(host.get_menu_path(":1.3"), None);
    assert_eq!(host.get_menu_path(":1.4"), None);
}

#[test]
fn icons_are_planned_for_every_item() {
    let host = Host::new(three());
    let plans = host.icon_plans();
    assert_eq!(plans.len(), 3);
    assert!(matches!(&plans[0].1, IconPlan::Keep(Some(name)) if name == "z"));
    assert!(matches!(&plans[1].1, IconPlan::Keep(None)));
    let addresses: Vec<&str> = plans.iter().map(|p| p.0.as_str()).collect();
    assert_eq!(addresses, vec![":1.3", ":1.1", ":1.2"]);
    assert!(matches!(host.icon_plan(":1.2"), Some(IconPlan::Keep(Some(name))) if name == "m"));
    assert!(host.icon_plan(":1.4").is_none());
    assert_eq!(host.icon_plans_in(&Some(b"/c".to_vec())).len(), 3);
}

#[test]
fn clicks_are_what_they_are_asked_for() {
    let host = Host::new(three());
    match host.activate_menu_item(":1.1", "/menu", 7) {
        ActivateRequest::MenuItem { address, menu_path, submenu_id } => {
            assert_eq!((address.as_str(), menu_path.as_str(), submenu_id), (":1.1", "/menu", 7));
        }
        ActivateRequest::Default { .. } => panic!("a default click"),
    }
    match host.activate_default(":1.1", 3, 4) {
        ActivateRequest::Default { address, x, y } => {
            assert_eq!((address.as_str(), x, y), (":1.1", 3, 4));
        }
        ActivateRequest::MenuItem { .. } => panic!("a click on a menu"),
    }
    let notice = host.about_to_show_menuitem(":1.1", "/menu", 0);
    assert_eq!((notice.address.as_str(), notice.menu_path.as_str(), notice.id), (":1.1", "/menu", 0));
}

#[test]
fn new_items_and_new_icons_are_cached() {
    let at = |s: &str| s.to_string();
    assert_eq!(icon_to_refresh(&Event::Add(at(":1.1"))), Some(at(":1.1")));
    assert_eq!(icon_to_refresh(&Event::Update(at(":1.2"), UpdateEvent::Icon)), Some(at(":1.2")));
    assert_eq!(icon_to_refresh(&Event::Update(at(":1.2"), UpdateEvent::Other)), None);
    assert_eq!(icon_to_refresh(&Event::Remove(at(":1.3"))), None);
}
