# clantool

The decisions of a crawler that gathers statistics about clans, as a Verus library, and the
program around it.

- `src/` is the library. It holds no input or output: what takes turns with a database, a web
  site or a clock is a state machine that says what it wants done and is told what came of it.
  - `text`: numbers, flags and filled-in templates
  - `calendar`: days, times of day and their reading, on top of `chrono`
  - `config`, `model`: settings and data
  - `process`: what it means for a state machine to run
  - `update`: a complete crawl with its attempts
  - `crawl`: the update of the members, page by page
  - `clan`: the update of the clan
  - `leave`: leave detection
  - `task`: the work that a crawl entails, and the leave check by hand
  - `timer`: when the daemon crawls
  - `checkdb`, `import`: the search for missing days and the import of accounts
  - `input`: arguments of the command line
- `tests/` runs the library.
- `app/` is the program: the command line, files, mail, and the loops that perform what the
  state machines want. The database, the web site and the import file are behind the traits of
  `app/backend.rs`.

The functions named `law_...` state what holds of the library as a whole.
