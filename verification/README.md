# universal_launcher

The logic of a desktop launcher, verified with Verus: indexing applications (from
desktop entries or executables) and files, searching them together with a calculator,
a command palette, web searches and system commands, planning how system commands and
applications are started, reading the system overview from `/proc`-style texts and
command outputs, and the keyboard shortcut that shows and hides the window.

- `src/` is the verified library. `text` holds the string primitives (trimming,
  splitting, lines, words, replacing, decimal numbers) with their specifications;
  `desktop`, `index` and `state` the application and file indexes; `calc` (with
  `evaluator`, the expression evaluator's guarded context), `icons`,
  `search` and `fileinfo` the search; `commands` the system commands and application
  launches; `sysinfo` the system overview; `shortcut` the keyboard and tray handling;
  `paths` the searched folders and web search addresses.
- `app/` is the desktop program around it: file system walks, processes, the clipboard,
  autostart, the window and tray, and the figures computed in floating point.
- `tests/` runs the library on concrete inputs.
