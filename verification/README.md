# wolfie

The verified core of `wolfie`, a command-line front end for the Wolfram Kernel.

`src/` is the library, proved with Verus:

- `cli` — the command-line grammar (`Args::try_parse_from`) and the text shown for a refused
  command line, the rewriting of a script given directly (as by a `#!` line) into `--file`,
  the merge with the user's configuration (`effective_args`), and the choice of kernel
  connection and run mode.
- `cli_laws` — laws that span those functions, such as: a directly given script reaches the
  parse as the script file, with what followed it as its arguments; normalizing twice changes
  nothing.
- `native_wstp` — the decisions of a WSTP session: packet layouts and kinds, the
  packet-reading state machine, what is shown for an evaluation, and the text sent to the kernel.
- `graphical_output` — choosing and running image viewers for SVG output, and naming the
  temporary SVG file, as decisions.
- `wl` — Wolfram Language text: string literals and the template for input that asks for input.
- `text` — character-level helpers.

`app/` holds the I/O around it: the process's arguments, the configuration file, the WSTP link
and the viewer processes. `tests/` exercises the library.
