# FocusTrace

A macOS menu-bar app that logs every change of the active application to a
local SQLite database, with a searchable, sortable log window.

- `src/` is the verified library (Verus): focus events and their database
  rows, instants and their RFC 3339 text, the log's search and stable sort,
  the window's state machine (menu actions, close, relaunch, sort cycling),
  the menu-bar recent-activity lines, settings defaults, and file locations.
- `app/` is the program around it: the eframe window, the tray icon, the
  Objective-C observers, the Accessibility calls, SQLite and the settings
  file.
- `tests/` exercises the library on concrete values.
