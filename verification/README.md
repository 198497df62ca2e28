# group29_backup

A backup tool that copies a folder when the user draws a gesture with the
mouse: a rectangle along the screen edges, then a horizontal "minus" stroke.

- `src/` is the verified library (Verus): the gesture trackers
  (`tracker`) and what pointer traces they recognise (`gesture`), the event loop's decisions (`monitor`), backup requests and
  file selection (`backup`), the configuration form and the files it and the
  autorun setup write (`config`), locating the project directory
  (`project_dir`), and text rendering (`text`).
- `app/` is the program around it: reading input events, the screen size,
  sounds, dialogs, the configuration window, file copying and CPU logging.
- `tests/` exercises the library on concrete inputs.

Pointer positions reach the library in whole pixels and times as
nanoseconds on a monotonic clock.
