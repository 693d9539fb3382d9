# tinyshell

The workspace logic of a terminal client with local, SSH and remote desktop
tabs, written in Verus and verified.

- `src/` is the verified library: tab groups and their split-pane layouts
  (`pane_layout`, `terminal_workspace`, `shell_*`), moving groups between
  windows (`tab_transfer`, `shell_transfer`, `shell_receive`, `shell_merge`,
  `transfer_laws`), drag gestures (`tab_drag`, `selector`), the SFTP editor
  and its forms (`sftp_editor*`, `sftp_forms`, `editor_registry`), terminal
  completion and path detection, highlight rules and their settings dialog,
  the settings values, the Docker tool panel, the closing of the main window
  and the updater's status line. Each public function states its result in
  its contract; laws that span several functions are public proof functions.
- A pane layout is described in contracts by `tree_of`, a plain value that
  holds its splits, orientations, ratios and panes, and by `layout_ids`, its
  panes in order.
- `tests/` runs the library on concrete values.
- `app/` holds what the verifier does not see: window geometry in `f32`
  pixels, running the login shell for its environment, the appearance lock,
  and the window actions that spawn backends and move event routes around
  the library's decisions.
- The one outside crate, `uuid`, gives new rules and tabs their ids
  (`ids::random_uuid`).
