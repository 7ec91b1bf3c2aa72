# ai-switch

Starts, stops and switches local llama.cpp model servers, one at a time, behind one fixed proxy
port.

- `src/` is the library, verified with Verus: configuration and its validation, the process
  manager, termination and spawning, port lookup, health monitoring, reconciliation, the reverse
  proxy's decisions, log files and their rotation, the log viewer, the use of the context, the
  model cards, the preferences form and the main window's state.
- `app/` is the program around it: files, processes, sockets, HTTP and the GTK4 widgets. It
  carries out the steps that the library names and hands back what came of them.
- `tests/` holds the tests of the library.

Operations that need outside work are sequences of steps. Each step names one piece of work; what
came of it is handed back, and the library says what follows. What holds of whole sequences is
proved in the functions whose names begin with `law_`.
