# Shepherdr

The core of Shepherdr, a menu bar app for macOS that starts and supervises services, as a library
verified with Verus.

The library decides; it does no I/O. Where the app waits, spawns, signals or writes, a state machine
of the library says what to do next (`directive`) and takes what came of it (`handle`). What each
function returns is stated in its contract, and the `law_*` functions of each module state what
holds of several of them together.

| Module | What it decides |
| --- | --- |
| `config` | what a configuration file means, its defaults, and when it is valid |
| `monitor` | whether and when a service that exited is restarted |
| `supervisor`, `supervisor::service` | the life of one supervised service, and which task a command reaches |
| `reload` | what a changed configuration does to each service |
| `spawn` | what is executed, with which arguments, environment and working directory |
| `stop` | the stop sequence: `SIGTERM`, a grace period, `SIGKILL` |
| `state`, `procinfo` | which processes are recorded, and which orphans are stopped after a crash |
| `logging`, `logging::app` | how logs rotate, where they lie, and what a record looks like |
| `logs`, `logs::tail` | which log the log window shows, and which lines of it |
| `tray`, `tray::menu` | the tray icon, the menu, and what a click asks for |
| `toolbar` | which services the picker offers, and which one is picked |
| `names`, `paths`, `text`, `time` | tables keyed by text, paths, text, and spans of time |

`app/` is the application around it: the user interface, the processes and the files. It runs on
macOS; `tests/` exercises the library.
