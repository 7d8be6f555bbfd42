# zed-reload

Restarts the Zed editor on Windows and injects a message into its Agent Panel,
so that an agent thread survives the restart and goes on by itself.

Two processes share the work. The launcher resolves which Zed to restart, reads
the user's configuration, writes the message to a file and starts a detached
worker. The worker outlives the old session: it closes the target, starts the
same executable again through `explorer.exe`, waits for the window of the
calling project, brings it to the foreground, pastes the message and sends it.

## Layout

* `src/` is the library, verified with Verus. It holds every decision: reading
  the configuration, parsing key bindings, choosing the target and the window,
  the command line of the worker, and the machines that a run consists of. A
  machine is a function from a state and an event to the next state and a list
  of actions. Laws about whole runs stand at the end of each module.
* `app/` is the program: the command line, the Windows API and the loops that
  perform the actions and report the outcomes.
* `tests/` runs the library on concrete values.

## What is proved of a run

* Only the target process is closed or killed, and it is killed only once its
  time is over (`stop`, `worker`).
* Apart from a phantom F15 that helps to bring the window to the foreground, keys
  are sent only into a visible window of the newly started process whose
  title holds the text asked for, by default the folder name of the calling
  project, and only after a look showed it in front (`wait`, `inject`,
  `worker`).
* The exit code 0 of the worker means that the message was sent (`worker`).
* The clipboard is restored, and the focus is given back unless the user was in
  Zed (`inject`).
* Windows reads the worker's command line back into the values that the launcher
  resolved (`command`).

What is trusted are the values of the key codes and process flags in
`windows_sys` (`codes`) and three functions of the standard library (`text`).
