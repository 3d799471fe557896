# token_board

The logic of a menu-bar quota board for AI coding plans (Codex, Kimi, GLM,
DeepSeek), written in Verus and proved against its contracts.

- `src/` is the verified library: the board's settings and their normal
  form, the JSON replies of each provider turned into quota lines, reset
  times in the civil calendar, the tray's title, colours and menu, the
  step function that reads the Codex app server, and the dialogs.
  Laws such as "normalizing twice is normalizing once" or "consecutive
  dates are one day apart" are public proof functions there.
- `tests/` runs the library on concrete values.
- `app/` is the Tauri application around it: windows, tray, HTTP, files,
  processes, and drawing the tray image (floating point).
