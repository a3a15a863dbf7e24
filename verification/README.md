# althemer

A command line and terminal browser for switching Alacritty colour themes,
with its logic verified by Verus.

- `src/` is the verified library: where the settings file is, which themes a
  directory holds and how they are categorised and ordered, how a theme is
  looked up, how Alacritty's configuration is made to import a theme, how
  colours are read, the browser as a state machine (keys in, actions out),
  the picker's lines, and which files a download fetches and where they go.
  Each public function states its result in `ensures`; the `law_*` proof
  functions state properties that span several calls.
- `app/` is the program around it: command-line parsing, reading and
  writing files, the terminal user interface, the fuzzy picker, and HTTP.
- `tests/` runs the library on concrete values.
