# store_create

Creating WSL instances from the Store, or from a file, so that an interrupted
creation can be cleaned up: what is going to be done, what the operation owns on
the way, the journal that records it, and what may be removed afterwards.

The library in `src/` decides and is verified with Verus. It does no input or
output of its own.

- `plan`: requests, plans, journals, ownership and recovery actions
- `locations`, `paths`: where journals, markers and archives stand
- `journal`: which files to write, what to write back, which files are journals
- `commands`, `naming`, `messages`, `terminal`: the parts of an installation
- `install`: an installation as a machine that asks for work and takes replies;
  `install::rules` says what its steps are, `install::laws` what holds of every
  run
- `recovery`, `update_check`: what happens when the application starts
- `text`, `stamp`: text helpers, identifiers and times

`app/` is the desktop side: it writes the files, runs WSL and drives the window.
