//! The text that `rlib --help` prints.

use vstd::prelude::*;

verus! {

/// How to use the program.
pub const HELP: &'static str = "rlib — Rust prebuilt-library manager

BUILDING
  rlib <lib_name> [features=a,b,c]
      Build <lib_name> as a release .rlib, copy all deps to
      ~/.rlib/<lib>_<version>_<features>/, and save the rustc
      flags to ~/.rlib/list.json.

      Examples:
        rlib tokio features=full
        rlib serde features=derive,std
        rlib anyhow

RUNNING CARGO WITH RLIB FLAGS
  rlib <rlib.list> <cargo sub-command...> [nightly]
      Read library keys from <rlib.list> (one per line), look them
      up in ~/.rlib/list.json, combine their rustc flags plus the
      settings from rlib.config in the current directory, pass them
      as RUSTFLAGS, then execute the cargo command.
      Lines starting with # are treated as comments and ignored.
      Append 'nightly' to enable nightly-only flags (-Z flags, cranelift).

      Examples:
        rlib mylibs.list cargo run
        rlib mylibs.list cargo check
        rlib mylibs.list cargo build
        rlib mylibs.list cargo run nightly
        rlib mylibs.list cargo build nightly

INITIALISING
  rlib init
      Create both rlib.config and rlib.list in the current directory
      with default values and usage instructions.
      
  rlib init list
      Create rlib.list in the current directory with usage instructions
      as comments inside the file.

  rlib init config
      Create rlib.config in the current directory with default values
      and usage instructions as comments.

INSPECTING
  rlib list
      Print all keys currently stored in ~/.rlib/list.json.

  rlib list <rlib.list>
      Print the active (non-comment) keys in <rlib.list>.

MANAGING list.json
  rlib remove <key>
      Remove <key> from ~/.rlib/list.json AND delete its folder
      ~/.rlib/<key>/ from disk.
      
MANAGING CURRENT DIRECTORY LIST
  rlib this add <key>
      Append <key> to 'rlib.list' in the current directory (no duplicates).

  rlib this remove <key>
      Remove <key> from 'rlib.list' in the current directory.
      
  rlib this print
      Print the active (non-comment) keys in 'rlib.list' in the current directory.
      
  rlib this print for cargo
      Clear the terminal and print all libraries in 'rlib.list' as
      Cargo.toml [dependencies] entries ready to copy-paste.
      
  rlib this <cargo sub-command...> [nightly]
      Shortcut to run cargo commands directly using 'rlib.list' in the
      current directory.

      Examples:
        rlib this cargo run
        rlib this cargo run nightly
        rlib this cargo check

MANAGING A SPECIFIC .list FILE
  rlib <rlib.list> add <key>
      Append <key> to <rlib.list> (no duplicates).

  rlib <rlib.list> remove <key>
      Remove <key> from <rlib.list>.

  rlib <rlib.list> print for cargo
      Clear the terminal and print all libraries in <rlib.list> as
      Cargo.toml [dependencies] entries ready to copy-paste.

OTHER
  rlib --help
      Show this help message.";

} // verus!
