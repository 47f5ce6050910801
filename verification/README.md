# ant_io

An ant-colony simulation on a grid, the fixed-point physics of a small
space game, and the control decisions of a rocket, written in Verus: every
operation states what it does in its `requires`/`ensures`, and Verus proves
it. Fixed-point operations are defined wherever their results fit in the
32.32 range; their `requires` say exactly that, and `Fixed::checked_*`,
`Spaceship::thrust_fits` and `Orbit::position_fits` test it at run time.

- `src/pos.rs`, `src/pos/dirs.rs`: grid positions and the eight directions.
- `src/map.rs`: the world's cells (terrain and occupant) and the scent grids.
- `src/insect.rs` and `src/insect/`: the insects (ants and their queens,
  centipedes, eggs, pillbugs, spiders, and the player's insect), what each
  kind does on its tick and when the player asks.
- `src/game.rs`: the game: insects by id, spawning, the player's turn and
  the simulation tick.
- `src/physics.rs`, `src/spaceship.rs`, `src/celestial.rs`: 32.32
  fixed-point numbers and vectors (products and quotients through a 128-bit
  intermediate, an exact square root), a ship, bodies, gravity and orbits.
- `src/rocket.rs`: what one frame of keys asks of the player's rocket:
  `A`/`←` and `D`/`→` turn, `Space`/`↑`/`W` fire the main engine (and lift
  off when landed), `Enter` separates the next stage, `R` resets the rocket,
  `M` toggles the map view; and which part the next stage acts on.
- `src/tileset.rs`, `src/draw.rs`: sprite sheet entries and faction names.
- `src/random.rs`: the random draws, from macroquad's generator.
- `app/`: the window (macroquad): input, clock, camera and drawing, and the
  floating-point conversions of the space game.

Not here: the Bevy edition of the space game (its rendering, shaders,
procedural terrain, HUD, rocket editor, part catalogue, rigid-body physics
through avian2d, stage separation and landing detection). It is built from
`f32` values and Bevy's entity systems throughout, which this library does
not model; of it, only the rocket's control and staging decisions stand
in `src/rocket.rs`.
