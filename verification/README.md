# watchdog

A process watchdog: it starts the processes listed in a JSON configuration
file, starts them again when they exit, and serves a web page and a JSON
interface to stop, restart and inspect them.

## Layout

- `src/` is the library, verified with Verus. It holds the rules of the
  watchdog, each with a contract:
  - `config`: the configured processes and the configuration file's path;
  - `process`: the pid table, the controller (`control`: start steps,
    stop, restart, by name, by alias or all), the status reports and the
    periodic process check;
  - `tools::compare`: how a new process list compares with the current one;
  - `dispatch`: the core, including the reload of a new process list;
  - `webserver`: routing, authentication, the index page, the web and JSON
    handlers, and the first, simpler web server;
  - `client`: the requests of the command line client;
  - `sys`: the calls into `sysinfo`, `chrono`, `base64`, `urlencoding`,
    `json`, `json_pretty` and std, each with the contract it is trusted to
    keep.
- `app/` is the program around the library: options, the configuration
  file, the HTTP server and client, signals, the runner threads that spawn
  and wait for processes, and the system calls that kill processes.
- `tests/` runs the library on concrete values.

Laws of the library are public proof functions, such as
`process::control::lemma_stopped_runners_end` (a stopped process is not
started again) and `dispatch::lemma_reload_same_list` (reloading the loaded
list changes nothing).
