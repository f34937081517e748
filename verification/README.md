# win_script_hub

The core of a Windows batch-script manager (a tray application that keeps
`.bat`/`.cmd` scripts in category folders, runs them, and shows its window
on a global shortcut), written in Verus.

- `src/` is the verified library: the configuration model, its edits and
  where it is stored (`config`), global-shortcut parsing (`shortcut`), decoding of what the file
  dialogs print, UTF-8 or GBK (`gbk`, with the GBK code table in `gbk_table`), the rules for discovering, naming, filing,
  moving and running scripts (`paths`), script identifiers (`ids`) and the character
  helpers they share (`text`).
- `app/` is the desktop shell around it: reading and writing `config.json`,
  the file system, starting processes and dialogs, and the Tauri window,
  tray and shortcut registration.
- `tests/` exercises the library on concrete values.
