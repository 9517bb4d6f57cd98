# demo01

A top-down survival shooter, split in two.

- `src/` is a Verus-verified library with the game's rules: the wave
  targets, spawn sizes and enemy hit points (`rules`), the session state
  machine of hit points, score, waves, pause and restart (`session`), which
  bullet strikes which enemy and which enemies are defeated (`horde`),
  order-preserving removal of flagged items (`selection`), the choice of the
  spawn edge (`edge`) and the integer screen layout (`layout`).
- `app/main.rs` opens the raylib window, reads the keyboard and mouse, does
  the floating-point motion and distance tests, and draws each frame.

Controls: WASD or arrow keys move, the mouse aims, the left button shoots,
P pauses, Enter restarts after the game is over.
