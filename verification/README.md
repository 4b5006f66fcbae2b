# NitroXide

Rocket-car soccer for a thirty-two bit console: two cars, a ball and a walled
pitch, stepped sixty times a second in integer fixed point, with a renderer that
draws it in flat and textured quads.

`src/` is a library in which every function is verified with
[Verus](https://github.com/verus-lang/verus): its contract says exactly what it
returns, and on what its arithmetic fits. A tick fits from any state in play, which
`inplay` proves; from anywhere else `Sim::try_advance` says whether it did, and
leaves the match alone where it did not.

- The match: `sim`, `tick` and `play` step it, on top of `car`, `ball`, `drive`,
  `air`, `step`, `flight`, `ramp`, `frame`, `arena`, `contact` and `pads`; `ai`
  drives the opponent. `laws` states what a tick holds to, `place` that nothing
  leaves the arena, `spin` that the ball keeps its spin ceiling, and `steady`, on
  top of `bounds`, that its flight stays in range. `inplay` says what a match in play
  is and that a tick of it fits; `keeps`, on top of `upright`, says that a tick leaves
  it in play as long as it leaves it at the pace of play, and which ticks do.
- The game round it: `game` is the front end and the pause menu, `show` says what
  each phase shows, `pad` reads the controllers, `music` and `sound` follow the
  drive and the voices, `hud`, `overlay` and `panels` lay out type and plates,
  `station` holds fixed places to start from. `game_laws` states what the screens hold to.
- The picture: `camera` and `cull` decide what is seen; `lens` turns points into
  packets; `shell`, `light`, `pitch`, `walls`, `enclosure` and `goals` build the
  arena; `actors`, `sphere`, `blast`, `cars`, `chassis`, `turn` and `dials` build
  what moves in it; `render` puts a frame together; `atlas` checks its texture.

Sines, bearings, text widths, matrix products and the projection come from the
console's own libraries and are handed in: `trig::Trig`, `hud::Type`,
`turn::Product` and `lens::Lens` say what is asked of each.

`app/` is the program: it polls the pads, drives the disc and the sound chip, and
files the packets. `tests/` plays matches and draws frames from outside.
