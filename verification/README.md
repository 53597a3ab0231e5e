# zellij_cn_ui

A Zellij plugin that draws the tab bar and the status bar with a Chinese
interface, written in Verus.

- `src/` is the verified library. Every function there carries a contract that
  Verus proves: the mode names and key hints (`i18n`), text width handling
  (`width`), styled lines and ribbon rows (`style`), the tab bar (`render_tab`),
  the status bar (`render_status`), the pane count (`pane_count`), the plugin's
  state and its reaction to host events (`plugin`), and the decoding of the UI
  wire format (`ui_decode`). The display widths of `unicode-width` and the UI
  serialization of `zellij-tile` are reached through the trusted items in
  `width` and `ui_text`.
- `app/main.rs` registers the plugin with Zellij, turns host events into the
  library's events and prints what the library renders.
- `tests/` holds the tests.
