use std::hash::{Hash, Hasher};

use tray_host::icon::{
    argb32_to_png, argb32_to_rgba, content_digest, icon_file_name, largest_pixmap, plan_icon,
    plan_icon_in, plan_with, png_outcome, resolve_icon, IconPlan, PngFault,
};
use tray_host::item::get_title;
use tray_host::{IconPixmap, StatusNotifierItem, Tooltip};

fn item(id: &str, title: Option<&str>, icon: Option<&str>) -> StatusNotifierItem {
    StatusNotifierItem {
        id: id.to_string(),
        title: title.map(str::to_string),
        icon_name: icon.map(str::to_string),
        icon_pixmap: None,
        tool_tip: None,
        menu: None,
    }
}

fn pixmap(width: i32, height: i32, len: usize) -> IconPixmap {
    let pixels: Vec<u8> = (0..len).map(|i| (i * 7 + 3) as u8).collect();
    IconPixmap { width, height, pixels }
}

#[test]
fn the_title_comes_first() {
    assert_eq!(get_title(&item("copyq", Some("CopyQ"), None), ":1.5"), "CopyQ");
}

#[test]
fn the_tooltip_stands_in_for_a_missing_title() {
    let mut i = item("dropbox", None, None);
    i.tool_tip = Some(Tooltip { title: "Up to date".to_string() });
    assert_eq!(get_title(&i, ":1.5"), "Up to date");
    i.title = Some("Dropbox".to_string());
    assert_eq!(get_title(&i, ":1.5"), "Dropbox");
    // An empty title, or one that only names the icon, does not hide it.
    i.title = Some(String::new());
    assert_eq!(get_title(&i, ":1.5"), "Up to date");
    i.title = Some("dropbox_status_icon_1".to_string());
    assert_eq!(get_title(&i, ":1.5"), "Up to date");
    i.title = Some("dropboxstatus".to_string());
    i.icon_name = Some("dropboxstatus".to_string());
    assert_eq!(get_title(&i, ":1.5"), "Up to date");
    // A tooltip of no use is passed over like a title.
    i.tool_tip = Some(Tooltip { title: String::new() });
    assert_eq!(get_title(&i, ":1.5"), "dropbox");
    i.tool_tip = Some(Tooltip { title: "dropboxstatus".to_string() });
    assert_eq!(get_title(&i, ":1.5"), "dropbox");
}

#[test]
fn an_empty_title_falls_back_to_the_tooltip() {
    let mut i = item("volumeicon", Some(""), None);
    i.tool_tip = Some(Tooltip { title: "Volume 50%".to_string() });
    assert_eq!(get_title(&i, ":1.5"), "Volume 50%");
}

#[test]
fn the_id_follows_the_title() {
    assert_eq!(get_title(&item("copyq", None, None), ":1.5"), "copyq");
    assert_eq!(get_title(&item("copyq", Some(""), None), ":1.5"), "copyq");
}

#[test]
fn the_name_of_the_icon_is_no_title() {
    assert_eq!(get_title(&item("Discord", Some("discord"), Some("discord")), ":1.5"), "Discord");
    assert_eq!(get_title(&item("x", Some("x"), Some("x")), ":1.5"), ":1.5");
}

#[test]
fn a_technical_name_is_no_title() {
    let i = item("chrome_status_icon_1", Some("chrome_status_icon_1"), None);
    assert_eq!(get_title(&i, ":1.58"), ":1.58");
    // A space or an upper-case character makes it a title.
    assert_eq!(get_title(&item("i", Some("status icon_1"), None), ":1.5"), "status icon_1");
    assert_eq!(get_title(&item("i", Some("Status_icon"), None), ":1.5"), "Status_icon");
    assert_eq!(get_title(&item("i", Some("Énergie_x"), None), ":1.5"), "Énergie_x");
    assert_eq!(get_title(&item("i", Some("énergie_x"), None), ":1.5"), "i");
    assert_eq!(get_title(&item("i", Some("plain"), None), ":1.5"), "plain");
}

#[test]
fn nothing_at_all_is_unknown() {
    assert_eq!(get_title(&item("", None, None), ""), "Unknown");
    assert_eq!(get_title(&item("", None, None), ":1.7"), ":1.7");
}

#[test]
fn pixels_are_reordered() {
    let argb = vec![1u8, 2, 3, 4, 5, 6, 7, 8];
    assert_eq!(argb32_to_rgba(&argb), vec![2u8, 3, 4, 1, 6, 7, 8, 5]);
    assert_eq!(argb32_to_rgba(&vec![1u8, 2, 3, 4, 5]), vec![2u8, 3, 4, 1]);
    assert_eq!(argb32_to_rgba(&Vec::new()), Vec::<u8>::new());
}

#[test]
fn a_pixmap_becomes_a_png() {
    let p = pixmap(3, 2, 24);
    let png = argb32_to_png(&p).unwrap();
    assert_eq!(&png[..8], &[137, 80, 78, 71, 13, 10, 26, 10]);
    // The picture that the file holds is the picture that was sent.
    let decoder = png::Decoder::new(std::io::Cursor::new(png));
    let mut reader = decoder.read_info().unwrap();
    let mut buf = vec![0; 24];
    let info = reader.next_frame(&mut buf).unwrap();
    assert_eq!((info.width, info.height), (3, 2));
    assert_eq!(info.color_type, png::ColorType::Rgba);
    assert_eq!(info.bit_depth, png::BitDepth::Eight);
    assert_eq!(buf, argb32_to_rgba(&p.pixels));
}

#[test]
fn a_pixmap_of_the_wrong_length_is_refused() {
    assert_eq!(
        argb32_to_png(&pixmap(2, 2, 15)),
        Err("pixmap size mismatch: got 15 bytes, expected 16".to_string())
    );
    assert_eq!(
        argb32_to_png(&pixmap(-1, 1, 4)),
        Err("pixmap size mismatch: got 4 bytes, expected 4294967292".to_string())
    );
}

#[test]
fn a_pixmap_without_size_is_refused() {
    assert_eq!(
        argb32_to_png(&pixmap(0, 5, 0)),
        Err("png header: Zero width not allowed".to_string())
    );
    assert_eq!(
        argb32_to_png(&pixmap(5, 0, 0)),
        Err("png header: Zero height not allowed".to_string())
    );
}

#[test]
fn a_pixmap_that_wraps_around_is_refused() {
    // The length is right in 32-bit arithmetic only.
    let e = argb32_to_png(&pixmap(65536, 65536, 0)).unwrap_err();
    assert!(e.starts_with("png write: "));
    let e = argb32_to_png(&pixmap(-1, -1, 4)).unwrap_err();
    assert_eq!(e, "pixmap too large: 4294967295x4294967295");
}

#[test]
fn faults_of_the_encoder_have_their_messages() {
    assert_eq!(png_outcome(Ok(vec![1, 2])), Ok(vec![1, 2]));
    let fault = |f: PngFault| png_outcome(Err(f)).unwrap_err();
    assert_eq!(fault(PngFault::Header("a".to_string())), "png header: a");
    assert_eq!(fault(PngFault::Write("b".to_string())), "png write: b");
    assert_eq!(fault(PngFault::Finish("c".to_string())), "png finish: c");
}

#[test]
fn the_largest_pixmap_is_chosen() {
    let sizes = |v: &[(i32, i32)]| -> Vec<IconPixmap> {
        v.iter().map(|(w, h)| pixmap(*w, *h, 0)).collect()
    };
    assert_eq!(largest_pixmap(&sizes(&[(16, 16), (48, 48), (32, 32)])), 1);
    // The last of equals.
    assert_eq!(largest_pixmap(&sizes(&[(8, 2), (4, 4), (1, 1)])), 1);
    assert_eq!(largest_pixmap(&sizes(&[(0, 0)])), 0);
    // Areas beyond 32 bits count in full.
    assert_eq!(largest_pixmap(&sizes(&[(65536, 65536), (1, 1)])), 0);
    assert_eq!(largest_pixmap(&sizes(&[(46341, 46341), (i32::MAX, i32::MAX), (2, 2)])), 1);
    assert_eq!(largest_pixmap(&sizes(&[(-1, 5), (-5, -5)])), 1);
}

#[test]
fn the_digest_is_the_default_hash_of_the_bytes() {
    for content in [vec![], vec![0u8], b"some bytes".to_vec(), vec![7; 1000]] {
        let mut hasher = std::collections::hash_map::DefaultHasher::new();
        content.hash(&mut hasher);
        assert_eq!(content_digest(&content), hasher.finish());
    }
}

#[test]
fn cached_icons_are_named_by_their_digest() {
    assert_eq!(icon_file_name(0xab), "00000000000000ab.png");
    assert_eq!(icon_file_name(u64::MAX), "ffffffffffffffff.png");
    assert_ne!(icon_file_name(1), icon_file_name(16));
}

#[test]
fn an_icon_without_pixmap_keeps_its_name() {
    let mut i = item("x", None, Some("mail"));
    assert!(matches!(plan_icon(&i), IconPlan::Keep(Some(name)) if name == "mail"));
    i.icon_pixmap = Some(vec![]);
    assert!(matches!(plan_icon(&i), IconPlan::Keep(Some(name)) if name == "mail"));
    i.icon_name = None;
    assert!(matches!(plan_icon_in(&i, &None), IconPlan::Keep(None)));
}

fn stored(plan: IconPlan) -> (Vec<u8>, Vec<u8>, Option<String>) {
    match plan {
        IconPlan::Store { png, path, fallback } => (png, path, fallback),
        other => panic!("not stored: {other:?}"),
    }
}

#[test]
fn an_icon_with_a_pixmap_is_stored() {
    let mut i = item("x", None, Some("mail"));
    i.icon_pixmap = Some(vec![pixmap(1, 1, 4), pixmap(2, 2, 16)]);
    let cache = Some(b"/home/u/.cache".to_vec());
    let (png, path, fallback) = stored(plan_icon_in(&i, &cache));
    assert_eq!(png, argb32_to_png(&pixmap(2, 2, 16)).unwrap());
    assert_eq!(fallback, Some("mail".to_string()));
    let expected = format!("/home/u/.cache/tray-host/icons/{:016x}.png", content_digest(&png));
    assert_eq!(path, expected.as_bytes());
    assert_eq!(resolve_icon(plan_icon_in(&i, &cache), true), Some(expected));
    // Where there is no cache directory, the file is below `/tmp`.
    let (_, path, _) = stored(plan_icon_in(&i, &None));
    assert!(path.starts_with(b"/tmp/tray-host/icons/"));
    // The user's cache directory is the one that the file is kept in.
    let (_, path, _) = stored(plan_icon(&i));
    assert!(path.starts_with(&tray_host::paths::icon_cache_dir()));
}

#[test]
fn the_same_icon_is_stored_once() {
    let mut i = item("x", Some("Mail"), Some("mail"));
    i.icon_pixmap = Some(vec![pixmap(1, 1, 4), pixmap(2, 2, 16)]);
    let mut j = item("y", None, None);
    j.icon_pixmap = Some(vec![pixmap(2, 2, 16)]);
    let (a, path_a, _) = stored(plan_icon_in(&i, &None));
    let (b, path_b, _) = stored(plan_icon_in(&j, &None));
    assert_eq!((a, path_a), (b, path_b));
    assert_eq!(
        resolve_icon(plan_icon_in(&i, &None), true),
        resolve_icon(plan_icon_in(&j, &None), true)
    );
    // Another icon has another file.
    j.icon_pixmap = Some(vec![pixmap(1, 1, 4)]);
    assert_ne!(stored(plan_icon_in(&i, &None)).1, stored(plan_icon_in(&j, &None)).1);
}

#[test]
fn an_icon_that_cannot_be_converted_keeps_its_name() {
    let mut i = item("x", None, Some("mail"));
    i.icon_pixmap = Some(vec![pixmap(2, 2, 3)]);
    match plan_icon(&i) {
        IconPlan::Refused { error, fallback } => {
            assert_eq!(error, "pixmap size mismatch: got 3 bytes, expected 16");
            assert_eq!(fallback, Some("mail".to_string()));
        }
        other => panic!("not refused: {other:?}"),
    }
    assert_eq!(resolve_icon(plan_icon(&i), false), Some("mail".to_string()));
    let plan = plan_with(Err("any".to_string()), &None, &None);
    assert!(matches!(&plan, IconPlan::Refused { error, fallback: None } if error == "any"));
    assert_eq!(resolve_icon(plan, true), None);
}

#[test]
fn the_stored_file_is_shown() {
    let name = Some("mail".to_string());
    let cache = Some(b"/c".to_vec());
    let plan = || plan_with(Ok(vec![1, 2, 3]), &name, &cache);
    let file = icon_file_name(content_digest(&vec![1, 2, 3]));
    assert_eq!(resolve_icon(plan(), true), Some(format!("/c/tray-host/icons/{file}")));
    assert_eq!(resolve_icon(plan(), false), name);
    assert_eq!(resolve_icon(IconPlan::Keep(None), true), None);
    assert_eq!(resolve_icon(IconPlan::Keep(name.clone()), false), name);
}
