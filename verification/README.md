# ai-jail

The verified core of a program that runs a command in a sandbox, behind a pseudo-terminal
and with a status bar that stays on the last row of the real terminal.

- `src/` is the library, written in Verus. It makes no system calls. What the program does
  is laid out as state machines: each state names one operation, and a step function takes
  its outcome and gives the next state.
  - `launch`: from the command line to the exit of the sandboxed command.
  - `pty`: one run of a command behind a pseudo-terminal.
  - `child`: what the child does between being forked and becoming the command.
  - `ioloop`: the loop that moves bytes in both directions and redraws the bar.
  - `stream`: whether the child's output is inside of a control sequence.
  - `escape`: which control sequences reset the scroll region.
  - `statusbar`: the bar, and what is written to draw it.
  - `window`, `termattrs`, `transfer`, `decimal`, `outbuf`, `bytes`, `sys`: the parts that
    these are made of.
- `app/` is the program around it, in ordinary Rust: it performs the operations.
- `tests/` runs the library.

Functions whose names begin with `law_` state what holds of the library as a whole.
