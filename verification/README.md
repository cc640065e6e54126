# drip

The interactive session of a coding agent, as a verified library.

`src/` holds the logic: the tool pack and the patch journal (`tools/`), and the
terminal session (`tui/`): composer, prompt history, timeline, pickers, surveys,
background jobs, session names, pane titles and inline images. Every function
there carries a contract that Verus checks. A session is a state; each handler
takes one event and lists what is to be done outside as effects.

`app/` is the terminal around it: threads, files, the clock and the tty. It
carries out effects and hands back what came of them.

`tests/` drives the library from outside.
