# house_explorer

A small haunted-house exploration game: the player walks a house of rooms, searches them for
items, and fights the monsters that spawn and chase them. The game rules are a library whose
behaviour is stated in Verus contracts and proved; a terminal front end drives it.

## Layout

- `src/` — the verified library.
  - `house.rs`, `exit.rs`: rooms, exits, directions, the position grid and connections.
  - `navigation.rs`: routes through the house's open exits; `next_step_toward` is a
    breadth-first search proved to return the first step of a shortest route, leaving through
    the first such exit in the order North, South, East, West.
  - `map_state.rs`: the map layout of one floor (each room placed along a fewest-step route)
    and the screen cells of its rooms.
  - `item.rs`, `monster.rs`, `player.rs`, `event.rs`, `room_event.rs`: the game's registries
    and the player.
  - `combat.rs`: combat rounds and flight; the dice come from `rand`.
  - `game_state.rs`, `engine.rs`: the world and the turn engine, with the effect of every
    action stated as a relation between the state before and after.
  - `setup.rs`: the starting house, items, monsters and room events.
  - `ui.rs`, `view.rs`: key bindings, inventory selection and the text the screen shows.
  - `text.rs`: decimal numbers and string joining.
  - `laws.rs`: properties that relate several operations.
- `tests/` — tests of the library on concrete values.
- `app/` — the terminal program (ratatui and crossterm): configuration loading, drawing and
  the key loop. It reads `assets/player.toml` with the player's `name`, `health`, `strength`
  and `speed`.
