# skogen

The tile-grid logic of an isometric survival game, as a library whose
functions carry contracts that are proved: map generation, the walking rules
and shortest-path search, inventory and looting, buildings and harvestable
things of the wild, and the decisions of walkers and zombies.

- `src/` is the library. `src/laws.rs` holds the properties that relate
  several calls (a door once opened stays open, a container is emptied once).
- `tests/` runs the library on concrete maps and inventories.
- `app/` is the game around it: the window, input, drawing, particles, light
  and the floating-point movement of the survivor and the undead, built on
  macroquad.
