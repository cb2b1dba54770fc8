# Infestation core

The turn-based core of a small rat-hunting puzzle for the Arduboy, written in
Verus: game state, the player's and rats' moves, the camera, the 128x64
monochrome frame, and the CSV scenario format used to check the game
against recorded fixtures.

- `src/` is the verified library (crate `lib`):
  `position`, `direction`, `grid` and `level` hold the board and the level
  data; `game` resolves turns and proves what every turn keeps; `camera` and
  `app` handle input modes, scrolling and undo; `render` draws the frame
  pixel by pixel; `scenario`, `fixture` and `text` read and write the
  fixtures' CSV and JSON and judge each fixture as passed, failed, or using
  a mechanic the game does not have.
- `app/` is the thin shell around it: the C entry points the Arduino sketch
  calls, and the command-line fixture runner, which reads the files and
  tallies the verdicts.
- `tests/` exercises the library on concrete games.
