# trayless

A host for tray indicators (`org.kde.StatusNotifierItem`): it lists the
registered items, reads and filters their `com.canonical.dbusmenu` menus,
and activates, scrolls and clicks them over the session bus; a small GTK
window offers the same as a task switcher.

- `src/` is the library, verified with Verus: splitting and checking item
  paths (`names`), reading a `GetLayout` reply into a menu tree (`layout`,
  `value`, `menu_node`), filtering hidden and disabled entries (`filter`),
  what each command asks of the bus (`cli`, `commands`), the item record
  and the `list --help` text (`tray_item`, `text`), and the choices of the
  GUI (`gui`).
- `app/` is the program around it: command-line parsing, the bus proxies
  and the watcher daemon, JSON output and the GTK windows.
- `tests/` runs the library on concrete values.
