# vaporwall

A live-wallpaper engine for Wayland: web pages drawn on the background layer of each
monitor, fed with the user's settings and the pywal colour scheme.

- `src/` is the verified library (Verus): settings file reading and writing, colour
  codes, the monitor layout, the process plan at start, paths, and the script handed to
  each page. Each public function states its result in its contract.
- `app/` is the program around it: GTK windows, WebKit views, files, signals and the
  file watcher.
- `tests/` runs the library on concrete values.
