# player_control

Controls a room full of players over SSH: a list of players, a board of actions (shell commands,
with arguments to fill in), and what came of running them.

- `src/` is the library, verified with Verus. `data` is the controller, a state machine from
  messages to commands; `screen` says what is shown of it; `session` runs one command on one
  player, step by step; `client`, `action` and `config` are what it keeps; `arguments` finds the
  placeholders of a command and fills them in; `text` reads and writes numbers.
- `app/` is the desktop program around it: the window, the SSH connections and the configuration
  file. It reads its icon font from `fonts/icons.ttf` in the working
  directory. To build the window, add `iced` 0.9, `iced_aw` 0.5 and `iced_lazy` 0.6 to the
  dependencies: they bring in several hundred packages that nothing else needs.
- `tests/` runs the library on concrete values.
