# Launchpad

The verified core of Launchpad, a small application launcher: a grid of apps,
folders and groups opened by a global hotkey, with themes, drag and drop,
reordering and a tray icon.

- `src/` is the library, checked with Verus: the item tree and its commands
  (`commands`), the configuration and themes (`config`, `theme`), navigation,
  keyboard selection, reordering, dropped files and context-menu actions
  (`launcher`), search (`search`), hotkey text (`hotkey`), icon keys and paths
  (`icons`), the pixel art the launcher draws (`artwork`), card titles and
  grid responses (`ui`), the demo items (`demo`), and laws relating the
  operations (`laws`).
- `app/` is the program around it: the egui window, JSON files, the tray, the
  global hotkey and Windows-specific calls.
- `tests/` exercises the library on concrete values.
