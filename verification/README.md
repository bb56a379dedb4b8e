# stellaclaw

Channels between people and agents: a Telegram bot, a web interface with live
streams, and terminals in the browser. What the channels decide and compute is a
library that is verified with Verus; reading, writing, listening and waiting stand
around it.

## Layout

- `src/` is the library. Every function states what it returns or changes, and the
  contracts are proved.
  - `text`, `words`, `number`, `utf16`, `paths`, `text_map`, `pair_map`, `json`,
    `json_ops`: texts, numbers, maps and values.
  - `model`, `config`, `loaders/`: configurations, their checks, and the conversion
    of older ones.
  - `chat`, `channels`, `progress`, `clock`, `encoding`, `cache`: messages, events,
    progress texts, times, encodings and previews of images.
  - `telegram/`: Markdown as messages with entities, the splitting of long texts,
    who may use a bot, and what is sent.
  - `web/`: requests, routes, frames, the state of sessions, messages with their
    files, and terminal streams.
  - `web_terminal`, `terminal_sessions`: terminals and their output.
- `app/` does the input and output: connections, the Telegram API, files and
  pseudo terminals. The program around it implements the traits of `app/host.rs`.
- `tests/` runs the library on concrete values.

Laws that relate several functions are public proof functions beside the functions
they speak of. What the library takes from other crates on trust is marked
`external_body` or `assume_specification`, with a comment that says what is trusted.
