# singulari-world

The rules engine of a text world narrated turn by turn by an agent, written in
Verus: every function in `src/` carries a contract that Verus proves.

- `src/` is the library: the ledgers of a world (events, hooks, changes,
  beliefs, consequences, encounter surfaces, extra memory, actor agency, ...),
  the checks an agent's answer must pass, the visible context handed to the
  agent, and the plan of what committing a turn writes. Laws that relate
  several functions stand as `law_*` proof functions beside them.
- `tests/` runs the library on concrete worlds.
- `app/` is the command line around it: it reads and writes the world's JSON
  files and hands plain values to the library.

Reading the clock goes through `clock::now_rfc3339` (chrono); Unicode
lowercasing and alphanumeric tests go through `text::to_lowercase` and
`text::is_alphanumeric_char`. These, and `String::push`, are the only
trusted items.
