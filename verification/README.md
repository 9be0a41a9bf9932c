# mpt_core

The logic of a set of Linux desktop utilities (My Power Toys), written in
Verus and proved against its contracts: a hosts-file editor, Peek (file
preview), Quick Accent, Light Switch, the mouse utilities, the image resizer,
the screen ruler, the shortcut guide, the key manager's mappings, Paste as
Plain Text, the Text Extractor, and the state machine of the Settings window.

Layout:

- `src/` — the verified library, one module per tool (`hosts`, `hosts_app`,
  `peek`, `accents`, `accent_monitor`, `light_switch`, `mouse`, `resizer`,
  `ruler`, `shortcuts`, `keymap`, `modules`, `settings`, `settings_types`,
  `module_confs`) and shared text and number handling (`text`, `text_facts`,
  `numbers`, `keysyms`). Each public function states in `ensures` what it
  returns; the `law_*` proof functions state properties across calls (for
  example, that a hosts file written and read back parses to the same
  lines).
- `tests/` — tests of the library on concrete values.
- `app/` — a command-line program around the library: reading and writing
  files, the clipboard, `gsettings`, X11 event loops, images, and the
  settings files (TOML).

Floating-point work (sunrise and sunset, opacities, image scaling, media
durations) stays in `app/`.
