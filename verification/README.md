# monitor

A monitor for notes. The server watches a directory and broadcasts the text of every zip archive
in it that changes. The dashboard shows what comes in and answers by updating the notes that the
messages are about.

- `src/` is the library: the rules, each with its contract, proved with Verus. `src/laws.rs`
  states what holds of the monitor as a whole.
- `app/` is the program around it: the command line, the window, the sockets, the file watcher,
  HTTP and JSON.
- `tests/` runs the library.

The program is started as `monitor server <directory>` or `monitor client <server> <router>`.
