# pomctl

A pomodoro timer for the terminal, as a verified library and the program
around it.

- `src/` is the library, checked by Verus: the cycle of work and breaks
  (`timer`), what a whole session of calls on a timer adds up to
  (`history`), the spans and clock readings it runs on (`time`), reading the
  command line and the decisions a running session makes (`cli`), reading
  keys as commands (`input`), what the desktop is told (`notify`), the block
  font and the layout of a frame (`art`, `text`, `live`), and the string
  helpers they share (`strings`). Each public function states what it returns
  over a model of its inputs; the properties that span functions are stated
  as `law_*` proof functions beside the code they are about.
- `app/` is the program: the terminal, the keyboard, the clock, the
  notifications and the gauge's floating-point share of the phase.
- `tests/` runs the library on concrete values.
