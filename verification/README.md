# rlib

rlib compiles crates once, keeps them in `~/.rlib`, and lets any number of
projects use them: it passes the compiler the flags that make the compiled
libraries of a list file available, so that a project does not compile its
dependencies again.

The rules of the program are a verified library. What touches the system (files,
programs, clocks, the JSON file of the registry) is a small program around it.

## Layout

`src/` is the library. It is built from the bottom up:

- `text`, `search`, `compose`, `order`: texts as sequences of characters, how
  they are taken apart, searched, put together and sorted.
- `config`: the settings in `rlib.config`, and the flags that follow from them.
- `list`: list files, `rlib.list` among them, and their keys.
- `manifest`: what is read from and cleaned out of `Cargo.toml` and `Cargo.lock`.
- `templates`: the files that `init` makes, read back.
- `artifacts`: library files and the flags for them.
- `request`: what is to be compiled, under which key, and how it is printed.
- `registry`: the compiled libraries by their keys.
- `folder`: keys as folders below `~/.rlib`.
- `comptime`: the rules for evaluating a project at compile time.
- `dialog`: questions, answers and lines to print.
- `upkeep`, `making`, `run`, `testing`: the commands, each as a state that asks
  a question and that an answer leads to the next state.
- `session`: the command line, and the state of whatever it asks for.
- `upkeep_laws`, `making_laws`, `run_laws`, `testing_laws`: what holds of the
  commands whatever the answers are. Laws on a single rule stand beside it.

`app/` is the program: it starts a session, carries out what it asks, and
answers it. `tests/` runs the library on concrete values and on whole dialogs.

## How a command is specified

For each kind of command a view of its state is given, with two functions on it:
`question`, what the state asks, and `next`, the state that an answer leads to
and the lines that are printed on the way. `ask` and `advance` are proved to be
exactly these. An answer that does not fit its question leaves the state as it
is, so a command cannot be brought out of step.
