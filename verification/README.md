# Ferro Code

A local control surface for `codex app-server`. Projects, threads and
conversations are kept on this machine; turns run in the backend.

- `src/` is the library: the state and its rules, the protocol, the controller
  that answers messages and time, what the interface shows, reading Git's
  output, Markdown layout, and how history is saved and recovered. Verus proves
  the contract of every function but those of the wrappers around outside
  calls, which it believes.
- `tests/` runs the library on concrete values.
- `app/` is a terminal front end: files, processes, threads and the clipboard.

The controller does no work of its own. It collects actions, the front end
carries them out, and what came of them is handed back with the next round.
