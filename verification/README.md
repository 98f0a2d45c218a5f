# moviebox_tui subtitles

The subtitle side of the MovieBox terminal player, as a Verus-verified
library. MovieBox captions are read first; Turkish captions (`Türkçe`,
`Turkish`, `tr`, `tur`) move to the top and are selected by default. When
MovieBox has none, a cached download is used, then SubDL, then OpenSubtitles.

Layout:

- `src/` — the library, verified by Verus. Every function states its result
  in its contract; `src/laws.rs` proves properties that span functions (for
  example that a Turkish caption is always the default choice, and that a
  cached subtitle is found again where it was written).
- `app/` — the I/O around it: HTTP clients (`reqwest`), reading settings from
  the environment and the configuration directory, and the subtitle cache on
  disk. The clients run the library's step functions and perform the
  requests they ask for.
- `tests/` — tests of the library on concrete values.
