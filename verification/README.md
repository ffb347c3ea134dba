# deepseek_desktop

The verified core of the DeepSeek Harness desktop shell, a Tauri 2 application
that runs the harness web UI (`dsh web`) in a Node.js sidecar process.

`src/` holds the decisions the shell makes, each with a contract proved by Verus:

- `port`: reading the sidecar's listening port from its output (regular
  expressions through the `regex` crate) and the discovery step per event.
- `paths`, `desktop`: the search for the harness entry point `dsh/lib/bin.js`.
- `json`, `profile`: the web profile manifest, read and written through
  `serde_json`, its creation and the upgrade that adds the bundled
  `dshmarket` plugin market (idempotent).
- `market`: where the bundled market and the profile live, and how the
  profile's link to the market is maintained.
- `locks`: the dsh home directory and the stale lock files removed at start.
- `date`, `text`: civil dates for daily log files, decimal text.
- `sidecar`, `status`, `platform`, `capabilities`: the sidecar command line,
  URL and port range, `dsh-status` events, the restart watcher (which
  reports an unexpected exit once and stops when no new sidecar comes
  within a minute), and the platform commands and dialog titles.

`app/` is the Tauri program around it: windows, tray, plugins, processes,
file system and network access, logging.
The sidecar is started on a free port of 52000..52999 so that a restarted
sidecar comes back on the same port; closing the window hides it to the
tray, and the sidecar is stopped with the application (or by `stop_dsh`).
