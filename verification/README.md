# replybot

A Discord bot that puts questions to a language model, keeps what was asked and
answered, and adds up what it cost.

- `src/` is the library: it decides what is asked, what is kept, what is shown,
  and how the settings come together. Its functions are verified with Verus
  against their contracts, but for six small wrappers around calls of other
  crates and of std, whose contracts are trusted: `to_lowercase` in `text`,
  `new_header_map` and `append_header` in `headers`, `new_interaction_id` in
  `chat`, `check_image_url` and `image_hash_text` in `stats`. The commands are
  step functions: they take what came of one action and name the next.
- `app/` is the bot itself: it performs the actions (Discord, the language
  model, the table, the secrets manager) and hands back what came of them. The
  price is worked out there, as it is a floating-point number.
- `tests/` runs the library on concrete values.

| module | what it holds |
| --- | --- |
| `chat` | the `chatgpt` command |
| `button` | the button under a shortened reply |
| `stats` | the `stats` command |
| `completion`, `headers` | requests to the language model |
| `db`, `fields` | items of the table of interactions |
| `source`, `extensions` | settings out of the secrets manager |
| `discord` | what Discord is asked to show |
| `events` | what becomes of each event of the gateway |
| `logging` | the lines of the log |
| `text`, `types` | texts, and the plain data |
| `laws` | what holds across the commands |
