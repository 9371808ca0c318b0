# Clodwyr in Space

Space Invaders for the browser, with its game logic verified by Verus.

## Layout

- `src/` — the verified library.
  - `game/` — the game state and its rules: the level table and alien grid
    (`levels`), shooting, collisions and the marching grid (`combat`), the
    UFO (`ufo`), and phase changes such as pause and name entry (`phase`).
    Positions are carried as a type parameter the library never inspects:
    wherever the rules depend on geometry, the caller passes the outcome
    (a hit, a bullet past the floor, the grid at a wall) as a plain value.
  - `controls` — what the keys do each frame, and the name-entry keys.
  - `scoreboard` — the best-first table of the five highest scores.
  - `score_text` — the table's stored text form, and reading it back.
  - `screen_text` — HUD lines, high score rows and sprite names.
  - `effects` — which aliens the CRT glitch and spark effects fall on.
  - `shader/glitch` — the timing of the screen glitch bursts.
  - `sound` — the four-note march and the mute flag.
  - `sprites` — rasterising the pixel-art patterns into image buffers.
- `app/` — the browser front end: canvas drawing, keyboard, Web Audio,
  WebGL, local storage and the frame loop; the floating-point geometry;
  and the sprite generator that writes the PNG files.
- `tests/` — unit tests, run against the compiled library.

## Laws

Besides each function's contract, the library proves properties that span
calls, as `law_*` proof functions: for example that reading back a stored
score table gives the same table, that pausing twice restores the game,
that the high score table stays sorted and never drops a better score for
a worse one, and that the march plays one note per tick interval.
