# Carrier

The core of a small desktop client for a web messenger, with its behaviour
stated in contracts and proved by Verus.

- `src/` is the library. `link` decides where a link goes, `download` and
  `filename` what a download may be called and where it may end up, `settings`
  and `theme` what a change of the preferences means, `window`, `apply` and
  `menu` what windows, tray and menu do, `script` what is handed to the page,
  `notify` what a notification shows, `location` and `resolved` where things are
  kept, and `update` what follows from a look at the released versions. `text`, `number`
  and `encoding` hold what these are stated in.
- `app/` is the shell around it: a Tauri app that opens the windows, reads and
  writes the files, and does what the library decides.
- `tests/` runs the library on concrete values.

What the library relies on without proof is in five places: `String::push` in
`text`, `String::from_utf8_lossy` in `filename`, the URL parser in `link`, the
JSON string writer in `script` and the base64 decoder in `encoding`. Each of them
says in its comment what is claimed.
