# qb-och

A command line tool and terminal interface for re-running qBittorrent's
on-completion script on completed torrents, tagging each torrent `oc_ok` or
`oc_fail` with the outcome.

## Layout

- `src/` is the library, written in Verus. Every function in it carries a
  contract that Verus proves: the interface state and each key's effect,
  sorting and filtering of the torrent list, the tag bookkeeping, applying
  sync data, merging the execution log, the script's arguments and
  environment, the login and registration decisions, host URLs, and the
  texts the screens show. Properties that span several functions stand as
  `law_` proof functions. `src/bindings.rs` holds the few trusted wrappers
  through which the library calls std and outside crates (`url`, `base64`,
  `chrono`).
- `app/` is the program around it: the command line, the qBittorrent Web API
  client, files on disk, the script's child process and the terminal drawing.
  Two screen texts are computed there, in floating point, and are not
  verified: a run's duration in the log view and a file's progress label.
- `tests/` runs the library on concrete values.
