# herdr theme sync and tab bar, verified

The library (`src/`) holds herdr's logic for applying a theme to the other tools on a
machine and for laying out its tab bar and diff viewer, with contracts proved by Verus:

- `mapping`: which theme each tool gets for a herdr theme name.
- `palette`, `nvim_sync`: colours, and the colour tables and neovim colour scheme made
  from herdr's palette.
- `config_edit`, `text`, `json`: the line-based edits of each tool's config file, and the
  JSON documents read and written through serde_json.
- `theme_sync`: detecting the tools, what each tool's config becomes, the plan of a theme
  application and the global theme state recorded afterwards.
- `clock`: calendar dates and UTC timestamps.
- `tabs`, `tab_bar`: tab titles and widths, hit areas, scrolling and what the tab bar draws.
- `diff_view`: the diff viewer's wrapping file tabs, panels, lines and footer.

`app/` does what cannot be verified: it reads and writes the files, looks at the
environment, signals processes, stores the global theme state as JSON, and draws with
ratatui. The parts of herdr that these files use but do not define (its palettes, its own
config handling, its server, its modal widgets) are reached through the `Host` trait and
through parameters.
