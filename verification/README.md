# tray-host

A headless system tray host (StatusNotifierItem daemon) for external launchers
like fuzzel, rofi, or dmenu.

```
tray-host daemon &    # keeps the tray items, answers on a Unix socket
tray-host pick        # pick a tray icon, then an entry of its menu
```

`pick` lists the tray icons in a picker, then the menu of the selected one, and
sends the click to the application. An icon without a menu is clicked on
itself. Another picker is used with `--picker "rofi -dmenu -show-icons"`.

Optional configuration at `$XDG_CONFIG_HOME/tray-host/config.toml`:

```toml
sorting = false   # sort tray items alphabetically
```

## Layout

- `src/` is the library, verified with Verus. It decides and computes: titles,
  icons, menus, the order of the list, the protocol on the socket, and the
  dialogue with the picker. Every function states its result over a model of
  the data, in which a text is a sequence of characters. `src/connection.rs`
  proves that every command on a connection is answered in its turn;
  `src/wire.rs` and `src/clicks.rs` prove that what the daemon sends arrives at
  the client as it was sent, up to the click on the entry that the user selects.
- `app/` is the program around it: D-Bus, the socket, the picker process, the
  icon files, the command line and the configuration file.
- `tests/` holds the library's tests.

## What is taken on trust

The PNG encoder (`encode_png` in `src/icon.rs`), the base directories
(`src/paths.rs`), and three functions of the standard library: `String::push`,
`String::from_utf8_lossy` and `char::is_uppercase`.
