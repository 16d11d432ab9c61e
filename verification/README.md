# ratamud

A text adventure / MUD engine whose game rules are written in Verus and
proved against their contracts: the world, its maps and people, items and
inventories, quests, trading, combat, scheduled events, and the handling of
player commands.

## Layout

- `src/` — the verified library.
  - `world.rs`, `map.rs`, `person.rs`, `npc_manager.rs`, `inventory.rs`,
    `item.rs`, `item_registry.rs`: the world and what is in it.
  - `command_handler.rs`, `command_processor.rs`, `input.rs`: reading
    command lines into commands.
  - `command_executor.rs`: `execute_command` / `run_command` carry a command
    out in the world; each handler's effect is stated by a `*_done` spec
    function and its precondition by a `*_ready` one.
  - `command_interact.rs`, `combat.rs`, `trade.rs`, `trade_view.rs`,
    `quest.rs`: talking, parties, quests, trading and fighting.
  - `event.rs`, `event_scheduler.rs`, `event_executor.rs`: scripted events,
    when they fire and what they do.
  - `panel.rs`, `world_panel.rs`, `minimap.rs`, `output.rs`, `ui.rs`:
    the text of the panels, the output areas and the menus.
  - `clock.rs`, `random.rs`, `text.rs`: the few calls into std and `rand`
    and `chrono` that the proofs take on trust, each behind a small wrapper.
- `tests/` — tests of the library on concrete worlds.
- `app/` — a line-mode front end: it reads commands from standard input,
  runs them through `execute_command` and prints the answers; it also loads
  and saves quests and settings.

Laws that hold across several functions are stated as `law_*` proof
functions next to the functions they speak of.
