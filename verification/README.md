# roothold

The logic of a small world-building game, verified with Verus.

- `src/terrain.rs`: height bands and the terrain each is drawn as.
- `src/world.rs`: chunks of 16 by 16 tiles, world sizes, and the grid of chunks
  generated from a height function.
- `src/image.rs`: RGBA pixel layout of the terrain image and of the civilization square.
- `src/input.rs`: reading typed numbers and answers from a line.
- `src/dialog.rs`: the start-up dialog as a state machine, with its invariant.
- `src/seeds.rs`: seeds of the resource, temperature and moisture noises.
- `app/main.rs`: the Bevy program: windows, input, noise sampling and colours in
  floating point.
