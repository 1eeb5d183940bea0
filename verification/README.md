# systray

The `tray` command creates and manages Status Notifier tray items from shell
scripts. It is a client that talks to a small background daemon over a Unix
socket; the daemon publishes the items on the D-Bus session bus.

## Layout

- `src/` — the verified library (Verus):
  - `text.rs`: decimal rendering, the `HH:MM:SS` elapsed-time text, character tests;
  - `protocol.rs`: requests and responses exchanged over the socket;
  - `icon.rs`: how an icon string is checked (PNG decoded with `image`, SVG parsed
    with `usvg`), themed icon names, and ARGB pixmaps;
  - `item.rs`: a tray item, its updates, its timer, and what a tray host is shown;
  - `manager.rs`: the daemon's registry of items and its answer to each request.
    The registry is a `Vec` of entries with the invariant that no id occurs
    twice, rather than a `HashMap` keyed by `String`: vstd's specification of
    `HashMap` gives nothing usable for `String` keys, and a `Vec` also gives
    `list` a definite order that the contracts can state;
  - `client.rs`: the client's requests, what it concludes from answers, what it
    does without a daemon, the socket path, exit statuses;
  - `runner.rs`: the signal-forwarding loop of `tray run`.
- `app/` — the program around it: command-line parsing, sockets, the tokio
  runtime, the D-Bus objects (zbus), signals, and the JSON encoding.
- `tests/` — tests of the library.
