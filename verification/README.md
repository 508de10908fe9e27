# testauskameli

A chat bot that runs code snippets (C, Haskell, Idris, JavaScript, Common
Lisp), answers `echo` and `whois`, renders LaTeX, recodes videos that Discord
cannot preview, and draws the "No ...?" meme.

The decisions of the bot are a verified library (`src/`):

- `snippets/`: each handler decides, from the text of a message, whether it
  takes the message and what its runner will do (`MrSnippet`).
- `executor.rs`: which handler gets a message, and what is sent back.
- `cmd.rs`: the sandboxed command line (`sudo`, `timeout`, `s6-softlimit`)
  that runs a snippet, with its limits.
- `runner.rs`, `jobs.rs`: runners, jobs, and the outputs they report.
- `reply.rs`, `bot.rs`, `haskell_bot.rs`: replies on Discord or a terminal,
  what the Discord bot hands over for a message, and the first, Haskell-only bot.
- `text.rs`: string operations (search, trimming, splitting, truncation at
  byte lengths, decimal numbers) with their specifications.

`app/` holds the front ends (the command line by default; `--discord` for the
Discord bot, `--haskell-bot` for the first bot): they read messages, route
them through the library and perform the jobs (processes, downloads, images).
