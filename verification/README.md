# tpsbar

The logic of TPSBar, a Pumpkin server plugin that shows each player who asks for it a
boss bar with the server's TPS, MSPT and the player's ping, written in Verus and proved
against its contracts.

- `src/` — the verified library:
  - `metrics.rs`, `display.rs`: ping grades, severity colors.
  - `config.rs`: bar metric, permission and ping settings, the ordered settings checks and
    their messages, operator levels.
  - `text.rs`: character-level text operations (trim, ASCII lower-case, replacement,
    decimal numbers) with their specifications.
  - `i18n.rs`: the built-in catalogs, locale families and message lookup with placeholders.
  - `state.rs`: per-player choices, the state store's paths and the recovery order of a load.
  - `save.rs`: the save protocol as a state machine, with a model of the data folder and
    the proof that an interrupted or failed save never loses the players' choices.
  - `runtime.rs`: the toggle and metric commands' decisions and the book of boss bars.
- `tests/`: tests of the library.
- `app/`: the plugin around it: file I/O, TOML settings and their decimal values, the
  Pumpkin API (commands, events, boss bars, scheduling) and logging.
