# teyvat_nav

Decision logic of a map-navigation and task-automation library for an
open-world game, verified with Verus.

The library runs routes (waypoints with movement modes and actions),
teleports through the big map, locates the character on the minimap, and
automates fishing and a few menu chores. The decisions — codes and
parameters read from route files, which steps a waypoint takes and when a
route stops, what each frame of a movement, a cast or entering the fishing
mode leads to, which floor the locator settles on, which recognised text line
is clicked, which bait and fish are chosen, how the tension bar is reeled,
how map features are split into blocks, how file names are ordered — live in
`src/` with their contracts and proofs. Screen capture, image matching,
input devices, timers, the floating-point geometry (distances, angles, the
casting model, the direction of the view sweep while a landing spot is
searched for) and the loops that feed measurements to these decisions stay
outside it, in `app/`.

Layout:

- `src/text.rs` — character-level helpers: trimming, splitting, number parsing.
- `src/geom.rs` — integer rectangles: containment, bounding box, clipping, overlap.
- `src/navigate/` — route codes (`path`), route file header and defaults
  (`route`), waypoint planning (`executor`), movement decisions (`movement`),
  action parameters and handlers' decisions (`action`), screen-state rules
  (`bv`), teleport choices (`tp`), maps and floors (`scene`), locator choices
  (`locate`), feature cache and grid (`map`), camera direction from edge peaks
  (`orient`), the character's arrow on the minimap (`pointer`), errors
  (`error`).
- `src/task/` — fishing rules (`fishing`) and step decisions (`fishing_steps`),
  dialogue options (`choose_talk_option`), clock arithmetic (`common_jobs`),
  menu chore scripts (`chores`).
- `src/utils/sort.rs` — natural, pinyin-aware ordering of file names.
- `tests/` — tests on concrete values.
- `app/` — file formats (serde, bincode), floating-point geometry, the casting
  model, the random escape turn, folder listing, and the loops that run
  routes, fishing rounds and menu chores against drivers for the screen and
  the input device.
