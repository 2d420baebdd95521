# anicli-es

A terminal client for a Spanish anime catalogue site: it searches the site,
lists the episodes of the chosen series, finds a playable video link for an
episode and starts `mpv` on it.

- `src/` is the library, verified with Verus: reading search pages, series
  pages and episode pages (`search`, `episodes`, `servers`), building the
  `mpv` command (`player`), the menus and the reading of answers (`menu`), and
  the text helpers they rest on (`text`). The calls into `regex` and `base64`
  stand behind the trusted items of `pattern` and `codec`.
- `app/main.rs` is the program: command-line options, keyboard prompts,
  fetching pages with `ureq` (the search page whose address `search_query`
  gives, series pages, episode pages, and the requests that `servers` reads
  from an episode page), and starting `mpv`.
- `tests/` runs the library on concrete pages and answers.
