# command_tool

Generates a `clap` command-line interface from a directory of command modules.

```rust
generate_commands! {
    src = "src/command",
    exec_func = "exec"
}
```

expands to `pub fn build_cli() -> clap::Command` and `pub fn exec()`, which matches the
command line and calls the `#[run]` function of the chosen command.

- `src/command/mod.rs` begins with `//! router: <name>` and `//! description: <text>`; each
  subdirectory with such a `mod.rs` is a command with subcommands.
- Each other `.rs` file with those two lines is a command. Further lines describe its
  arguments: `//! args: <required> <with:default>(help) [optional](help)`,
  `//! log_level required`, and options `//! --long -s <value>, help` (write `\,` for a comma
  in the help). Its `#[run]` function (or, when no function carries `#[run]`, its
  function named `run`) takes one parameter per argument, by name: `T`,
  `Option<T>`, `Vec<T>` or `Option<Vec<T>>`.

## Layout

- `src/` is the verified library. `text` holds the string operations of the comment format,
  `header` reads the comments, `signature` the `#[run]` function, `commands` a command module,
  `generate` a whole directory and the expansion, `args` the macro's arguments, and `laws` the
  properties of the whole. `syntax` holds the token model and the calls into `proc-macro2` and
  `syn`, which are trusted.
- `app/` holds the macro entry points: it reads the command directory from disk and turns the
  library's tokens into a token stream.
- `tests/` runs the library on concrete modules and directories.
