# scribe_app

The state and the rules of a tabbed text editor, verified with Verus.

- `src/` is the library. It holds tabs and their texts, edits at the caret, finding and
  replacing, bookmarks, the session that survives a restart, what an outside change of a file
  calls for, the trust in plugins, shortcuts and commands, and the decisions of a frame. Every
  function states what it returns or changes; the functions named `law_…` state what holds of
  several of them together.
- `tests/` runs the library on concrete values.
- `app/` is the desktop shell around it: windows and widgets (egui), dialogs, the clipboard,
  files, and everything measured in floating-point pixels.

Files, clocks and other services are read by the shell and handed to the library as plain
values, so each rule is verified for whatever they return.
