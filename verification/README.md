# kdeconnect_waybar

A [KDE Connect](https://kdeconnect.kde.org/) module for
[Waybar](https://github.com/Alexays/Waybar/): it prints, as JSON, a text and a
tooltip about a phone or tablet (battery, device information, notifications),
rendered from format strings such as
`"{Battery::ChargePercent}% {Battery::ChargeTexts} {Notification::Grouped}"`.

The library under `src/` is verified with Verus:

- `formatter/`: parsing of format strings into text and fields, and their
  rendering (battery ranges, device texts, notifications grouped by
  application in alphabetical order or one by one, HTML escaping). Rendering
  asks for the battery status or the notifications of a device only when a
  format needs them; the caller loads them and renders again.
- `config/`: the configuration and its default values, and which
  configuration a name selects.
- `wrapper/`: object paths and interface names of the KDE Connect daemon on
  D-Bus, reading of D-Bus property maps into battery, device and notification
  data, D-Bus errors, and which device is shown.
- `text.rs`: character-level helpers (decimal notation, lexicographic order).

`app/` holds the program: command line, configuration file and JSON schema,
the D-Bus connection, the file watcher and the main loop.
