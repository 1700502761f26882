# visioflow_cli

The decision logic of the `visioflow` command line — a tool that captures QR
payloads from the screen, routes them through rules and reports the outcome in
desktop toasts — written as a Verus library whose functions carry contracts.

## Layout

- `src/notifications.rs` — toast XML, copy-button labels, the `visioflow:` protocol
  URI (percent encoding and decoding), staging-file names, and fallback over
  the platform's toast backends, which `app/` supplies (on Windows WinRT,
  PowerShell and BurntToast; elsewhere a no-op backend).
- `src/toast_scripts.rs` — PowerShell scripts, registry values and tool error
  messages of the script-based toast backends.
- `src/commands/` — routing decisions and routing toasts (`capture`), stock-rule
  installation and rule edits (`rule`), PID files and daemon control steps
  (`daemon`), encode options (`encode`), the toast smoke test (`notify`).
- `src/screen_bounds.rs`, `src/webcam_preview.rs`, `src/preview_overlay.rs` —
  preview-window placement, frame scaling and the status overlay.
- `src/webcam_session.rs`, `src/exposure_control.rs` — webcam timing and exposure
  bracketing state.
- `src/paths.rs` — Windows path text (prefixes, roots, components) as the toast
  features see it: parent, file name, join of a file name, and path equality.
- `src/text.rs`, `src/numbers.rs`, `src/keyed.rs` — string, number-parsing and
  keyed-list helpers with their specifications.
- `app/` — the `visioflow` binary: argument parsing, files, processes, clipboard,
  windows and the rule engine, calling the library for every decision.
- `tests/` — tests of the library's functions on concrete values.
