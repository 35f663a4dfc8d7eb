# fuzzle

The verified core of FuzzleBot, a Telegram bot that organizes sticker sets
by tags.  The library is written in Verus: each public function states its
result in `requires`/`ensures`, and the laws of the text formats (a text
written by the bot reads back as what it wrote) are proof functions.

Layout:

- `src/` — the library.
  - `chars`, `numbers`: character classes, spans, decimal text, `str::parse`.
  - `callback_data`, `callback_laws`: the text of button presses and its law.
  - `inline_data`, `inline_laws`: the text of inline queries and its law.
  - `result_id`, `pagination`: ids and paging of inline results.
  - `command`, `hidden`, `privacy`, `errors`: command arguments, the start
    parameter, the privacy policy, the messages of user errors.
  - `keyboard`, `tag_layout`: the button layouts; the rows of the tagging
    keyboard.
  - `dialog`, `user_sets`: how the dialogs (recommender, blacklist,
    continuous tag mode, tag creator) change their state; the results that
    offer the user's own sticker sets.
  - `guard`, `commands`, `periodic`: the checks before a button press is
    acted on (admin-only actions, the read-only mode, the tagging
    permission); what each command does from the dialog state; the
    schedule of the periodic discovery of sticker sets.
  - `query_builder`, `pragma`, `export`: SQL text of the tag search, SQLite
    settings, the grouping of the data export.
  - `handler_logic`, `emoji`, `model`: small decisions of the update
    handlers, emoji, settings.
- `tests/` — tests on concrete values.
- `app/` — a command-line front end that prints the data export as JSON,
  and the update handlers, which carry out the library's decisions through
  a trait that stands for Telegram and the database.
