# fivetris

A block-stacking practice game, with its rules proved correct in Verus.

The library (`src/`) holds everything the game decides:

- `game/` — the board, pieces and rotation with wall kicks, the piece bags
  and queue, hold, line clears and scoring, the practice modes (training,
  cheese, four-wide, perfect clear, master), undo and redo, highlights and
  automatic colouring, and the clipboard formats of a game.
- `control/` — key bindings, the controller that turns key presses and
  held keys into moves, and the commands of the board editor and the
  settings.
- `config/` — settings and their normalisation, key names, skins read from
  INI text, the fixed piece list.
- `media/` — the sound effects and a reader for PCM WAVE files.
- `platform/` — the desktop colour scheme, importing a board read from a
  screenshot, and reading device-independent bitmaps.
- `render/` — the colours and block style the board is drawn with, and the
  block texture strip.

Each public function states in its contract what it returns or changes, and
the properties that span several calls (undo after a change gives the game
back, mirroring twice changes nothing, applied settings settle, ...) are
proof functions whose names begin with `law_`.

`app/` is the program around the library: it reads and writes the settings
file, skins, textures and sounds, talks to the clipboard, and reads boards
out of screenshots, which needs floating point.

The tests under `tests/` run the library on concrete values.
