# shared — a verified snake battle royale

Ten snakes on a 40 × 40 grid, one of them the player's; the arena closes in
every few seconds and the last snake alive wins. The rules of the game are a
Verus library whose functions carry `requires` / `ensures` contracts proved by
Verus; a Bevy client draws the game and feeds the library its input.

## Layout

- `src/` — the verified library.
  - `game.rs`: directions, grid positions, snakes, food, arena walls.
  - `tick.rs`: one game tick — movement, collisions, kill credits, eating,
    food refill, end of match.
  - `shrink.rs`, `spawn.rs`, `ai.rs`, `rng.rs`: the closing arena, the
    start of a match, the computer snakes' steering, the random numbers.
  - `ranking.rs`, `menu.rs`, `flow.rs`, `spectate.rs`, `grid.rs`: rankings
    and leaderboard, name entry, screen flow, camera target, cell shading.
  - `text.rs`, `fmt.rs`, `wav.rs`, `autotest.rs`: the game's messages and
    HUD lines, WAV framing, the screenshot test plan.
  - `laws.rs`: properties that span several functions, as proof functions.
- `tests/` — the headless simulation suite and tests of every module.
- `app/` — the Bevy client: windowing, drawing, input, timers, effects.
