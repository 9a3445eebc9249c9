# late

The settings, profile, audio-queue and presentation logic of the late.sh
terminal lounge, written in Verus: each function states its behaviour in
`requires`/`ensures` and Verus proves it.

- `src/` — the verified library. `text`, `json` and `ids` model strings,
  the settings JSON document and UUIDs; `prefs`, `profile`, `writeback`,
  `ignore` and `tags` read and write a user's preferences; `settings` and
  `theme_tree` are the settings modal's state machines; `audio` holds the
  audio queue's decisions and views; `booth`, `frame`, `profile_view` and
  `cat` compute what the terminal shows.
- `app/` — the I/O around it: Postgres queries, conversions to and from
  `serde_json`/`uuid`/`chrono`, the websocket message types, the queue's
  driver loop and the ratatui glue. The driver runs the library's steps
  (what plays next, who may skip-vote, what the fallback debounce does)
  and performs what they ask; facts it does not hold itself — whether a
  voter's session listens on YouTube, whether a user is banned from the
  booth, the looked-up YouTube video — are handed in by its callers.
- `tests/` — tests of the library on concrete values.
