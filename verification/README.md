# varied

The logic of the Varied media service (accounts, follows, text posts, video,
audio and image uploads, collections and the feed) as a library whose
behaviour is stated in contracts and proved with Verus.

- `src/` — the verified library. Modules: `strings` and `numbers` (text
  replacement, splitting, joining, decimal formatting and parsing), `settings`
  (settings sections, public identifiers, random codes, the object store and
  core settings), `text` (line/word/byte statistics of text posts), `media`,
  `collection`, `account`, `follow`, `feed`, `task`, `upload`, `auth`.
- `tests/` — tests of the library on concrete values.
- `app/` — the HTTP service around the library: routes, the database, the
  object store, `ffmpeg`/`ffprobe`, authorization tokens and migrations.
