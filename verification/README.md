# muxrs

`muxrs` launches a reproducible tmux workspace described by a `muxrs.json`
file: a session, its windows, the panes of each window, their directories and
the commands typed into them.

Layout:

- `src/` is the verified library.
  - `config.rs` decides which configuration file is used (`--config`, the
    git root of the selected path, the selected path, the current directory,
    or the fallback `muxrs/muxrs.json` in `$XDG_CONFIG_HOME`, else under
    `~/.config/`).
  - `config/postprocess.rs` expands the `%current_directory%`,
    `%current_directory_short%`, `%selected_directory%` and
    `%selected_directory_short%` placeholders.
  - `config/schema.rs` holds the configuration types and the default
    configuration; `config/utils.rs` joins paths and asks git2 and the
    standard library about repositories and absolute paths.
  - `tmux/command.rs` builds the tmux command lines, `tmux.rs` builds the
    whole plan of commands for a session, `tmux/query.rs` reads what
    `tmux has-session` and `tmux list-windows` report.
  - `text.rs` holds the string routines the rest is written with.
- `app/main.rs` is the command-line program: it parses the arguments, reads
  and writes files, runs tmux and hands the results to the library.
- `tests/` runs the library on concrete inputs.
