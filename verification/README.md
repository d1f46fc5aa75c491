# ytm

The logic of a keyboard-driven YouTube Music client for the terminal, written in Verus:
executable Rust whose behaviour is stated in contracts and proved.

## Layout

- `src/` is the library. Nothing in it reads a file, opens a socket or paints a cell: it
  takes plain values, decides, and says what is to be done.
  - State and intents: `app`, `event`, `reducer`, `app_loop`, `edits`, `mutation`, `marks`,
    `tasks`, `event_loop`, `background`, `startup`.
  - The player: `player`, `queue`, `actor`, `resolver`, `storage`, `mpris`.
  - The screen: `screen`, `render`, `sidebar`, `tracklist`, `nowplaying`, `help`, `theme`,
    `art`, `keymap`.
  - Settings: `document`, `outline`, `config`, `config_file`, `kept_lines`, `topped_once`,
    `state_file`, `cli`.
  - Data: `model`, `cache`, `mock`, `search_state`, `text`, `double`, `copied`.
  - `laws` holds what is true of several parts together.
- `app/` is the program: the command line, the terminal, mpv, the downloader and the event
  loop, which performs what the library decides and hands back what came of it.
- `tests/` runs the library against the crates it calls.

## How to read it

Types have a model (`XView`, by `deep_view()` or `@`), and what an operation does is a
function on models: `StateView::after` for an event, `StateView::dispatched` for an intent,
`ActorView::handled` for a command to the player, `QueueView::removed` and the like for the
queue. Executable functions are proved to compute exactly these.

## What is believed without proof

Calls into other crates and into parts of the standard library that have no specification
stand behind small functions, each with a comment that says what is claimed of it: TOML
(`document`, `outline`), the layout, borders and text widths of `ratatui` (`screen`), lower case
(`text`), letters and digits of any script (`config_file`), and quoting (`config`).
