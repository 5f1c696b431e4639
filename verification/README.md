# xtop

A terminal system monitor. The library (`src/`) holds the verified core:

- `state`, `keybinding`, `screen`, `style`: the application state machine
  (themes, layouts, fullscreen, search, command palette, key presses), what
  the screen shows (including which processes are listed) and the
  per-widget glyph style.
- `theme`, `jsonc`, `layout`: color themes, JSONC comment stripping, layout
  modes and the built-in layout trees.
- `plugin`, `plugin_host`, `mcp`: plugin capabilities and errors, the host's
  routing decisions, and the MCP server's request reading and handling.
- `commands`: the text edits and argument handling behind `xtop plugin`,
  `xtop widget` and `xtop layout` (manifest and pack-catalog edits, install
  sources, scaffold templates). `commands::workspace` holds the edits of the
  multi-crate workspace layout (members list and CLI manifest); the program
  in `app/` is the single-crate kernel and does not use them.
- `sysparse`, `paths`, `platform`, `assets`, `providers`: parsers of the
  kernel's text interfaces, config locations, seeding decisions.

`app/` is the program around it: the terminal loop and drawing, the system
sampler, the config and theme files, the MCP stdio loop and the commands'
file and process work.
