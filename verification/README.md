# shutup-bot

A Telegram bot that keeps one person from spamming memes in a chat. Every forwarded
message from the target counts towards a daily limit; past the limit the message is
forwarded to the subscribed users, deleted, and the target gets a clown in private.
Admins configure the bot with commands (`/add_admin`, `/remove_admin`, `/set_meme_limit`,
`/set_meme_counter`, `/meme_limit`, `/meme_counter`, `/subscribe_forwards`, ...). The
bot can also turn a PDF into a comic book archive of its images.

Layout:

- `src/` is the verified library. `schema.rs` routes a message to its endpoint and holds
  the step function of the bot's state (`BotState::handle_message`, and
  `BotState::handle_message_at`, which first refreshes the daily counter) with the laws
  proved of it; `endpoints.rs` holds what each endpoint does, with the laws of the spam
  handler; `helpers.rs` the daily counter and
  its reset at the start of the Moscow day; `opts.rs` the configuration and command-line
  options; `manga/` the extraction of images from a PDF and their packing into a zip.
- `app/` is the program around it: argument parsing, logging, the configuration file,
  the teloxide dispatcher, and the requests to Telegram that the library returns.
- `tests/` runs the library on concrete messages, documents and archives.
