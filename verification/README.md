# ox_settings

The logic of a terminal settings screen, verified with Verus: which keys do what
where the focus is, which writes each command asks for, and what each page
shows. Everything is a function of what the store holds. The library performs no
I/O; it reads a `SettingsSnapshot` and returns `Write`s and `ViewNode`s.

- `src/` is the library. Every executable function states what it returns over
  spec functions; properties that span functions are public proof functions.
- `app/` is the host side: reading the store and the configuration file,
  registering the screen, logging.
- `tests/` runs the library on concrete values, with the outside crates linked.

Main modules of `src/`:

| module | what it holds |
| --- | --- |
| `snapshot`, `value`, `types`, `path` | the store's paths, values and records |
| `visible_rows` | the rows of the settings tree |
| `keys`, `binding_registry`, `scopes`, `bindings`, `dispatch` | keys, bindings, and how a key finds its command |
| `command_registry`, `commands` | the commands and their writes |
| `registry`, `view`, `renderers` | the pages and what they show |
| `help`, `hint_laws`, `shortcuts` | key hints, and what they promise |
| `bootstrap`, `install`, `paths` | setting the screen up |
| `text`, `assoc`, `ordered`, `naming` | shared groundwork |

What is believed rather than proved is confined to `String::push`, `String::pop`,
and small wrappers around the crates `unicode-ident`, `namecode` and `toml`; each
says above it what it claims.
