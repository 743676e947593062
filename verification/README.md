# ECHO CLI

A terminal music player for local files, with its logic written and proved in Verus.

`src/` is the library. Everything the player decides stands there with a contract: which files are
read again by a scan, how search results are ranked and ordered, what a typed line asks for, what
each key does to the prompt, which suggestions it offers, what every command prints and which
single action it asks the terminal to carry out.

- `text`, `paths`, `seqs`, `sorting`: texts, file paths, sequences and a stable sort.
- `library`, `metadata`, `scanner`, `db`, `search`, `targets`: tracks, scanning, storage values,
  ranking, and finding what is to be played.
- `device`, `audio_backend`, `audio_backend_wasapi`, `decoder`, `playback`: output devices, stream
  selection, channel mapping, playback events.
- `commands`: the reports of the command line.
- `shell`: the interactive shell, in modules for the prompt, history, suggestions, results,
  messages, help, the welcome card, volume and position, the playback queue and the session.
- `tui`, `areas`: the full-screen view.

Public proof functions state what holds across several functions, for instance that a saved
history is read back, that `again` repeats the last command, that no edit of the queue takes the
current track away, or that every line of the welcome card has the same width.

`app/` is ordinary Rust around the library: the command line, the SQLite database, the file walk,
tags, sound output and the terminal. It performs the actions that the library asks for and hands
back what came of them. `tests/` runs the library.

What the library calls without a proof of its own is little: lowering the case of a text, the
extension, stem and joining of file paths, pushing a character onto a `String`, and the layout
solver behind the panels. Each stands behind one small function whose comment says what is taken on
trust.
