# Otoha

Otoha is a menu-bar app for macOS. It runs a local Kokoro speech server, reads the current
selection of any app aloud (`⌘⌥S`), stops playback (`⌘⌥X`), and mirrors the state of the Obsidian
reader plugin.

This is its verified core and the app around it.

- `src/` decides: a library in Verus, without effects.
  - `text` — trimming, lines, words, fields
  - `obsidian` — the reader's state: how its pushes are read, when they go stale
  - `ui` — the loop that keeps menu items and status icon in step
  - `menu` — the entries of the menu, what choosing one stands for, the shortcuts
  - `voice` — the voices and their labels
  - `capture` — getting at the selection and putting the clipboard back
  - `speech` — the request to the server, and the course from selection to playback
  - `server`, `playback` — starting, stopping and looking at child processes
  - `net` — the machine's addresses and the server's URLs
  - `settings`, `update` — the settings, and looking for a newer release
- `app/` acts: Tauri, files, processes, the network, the clipboard and the keyboard.
- `tests/` run the library.

A procedure that alternates decisions and effects is a state machine in `src/`. The state says what
is to be done, `app/` does it and hands back what came of it. What holds of every run is stated by
the proof functions named `law_…`: what the clipboard held is put back, text or not, no second
server is started, the spinner never stays, the menu shows what the last round found.
