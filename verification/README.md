# finder

Finders are fuzzy pickers that a TOML file defines: a **Source** runs a command
whose lines become **Entries**, and an **Outcome** says what choosing one does.

`src/` is the library. It decides everything that does not need an editor, and
Verus checks it against its contracts:

- `text`, `template`, `json` — text, `{}` and `{n}` templates, and templates
  inside the arguments of actions
- `document`, `decode`, `parse`, `locate`, `config`, `names` — from a TOML file to
  Finders and the reasons why others could not be loaded
- `registry`, `open`, `list` — the Finders that are configured, opening one by
  name, and the picker over all of them
- `child`, `source`, `delegate`, `generation` — a running Source and the picker
  that shows its Entries
- `outcome`, `platform`, `remote`, `diagnostic`, `preview` — acting on an Entry,
  where its path lies, where its command runs, what is shown when it fails, and
  what is previewed

Functions named `law_…` are proofs of what holds of the library as a whole.

`app/` holds the processes, timers and locks around the library, behind traits
that an editor implements. `tests/` runs the library from outside.
