# shell_starter_rust

A small interactive shell: a line editor in a raw-mode terminal, a tokenizer for
command lines (words, quotes, options, `>`/`>>` redirections), builtins (`echo`,
`type`, `exit`, `pwd`, `cd`, `history`), tab completion of program names, a
command history kept in a file, and the running of programs with their output
shown or redirected to files.

The library under `src/` holds the shell's logic with contracts proved by Verus:

- `modules/tokenizer`: the tokenizer, as a step function over a scan state, with
  the tokens, their text forms and the argument and redirection checks; laws on
  blanks and quotes in `tokenizer/laws.rs`.
- `modules/history_handler`: the history with its cursor, the history file's
  format (reading and writing); laws in `history_handler/laws.rs`.
- `modules/auto_complete`: the tab-completion state machine and the common
  prefix of names; a law in `auto_complete/laws.rs`.
- `modules/provider`: the builtins, each answering a `CommandStep` (an answer,
  or the outside work it needs: reading the working directory, looking a
  program up, reading or writing a history file).
- `modules/interpreter`: what a command line runs, the arguments a program
  gets, and what a redirection writes where.
- `shell`: the line editor as functions from key presses to terminal commands;
  `shell/interface.rs` holds the traits that the parts implement; a law in
  `shell/laws.rs`.

`app/` is the program around the library: the terminal, the file system, the
search path and the running of programs. `tests/` runs the library on concrete
inputs.
