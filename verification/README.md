# gen_rust_project_lib

The verified core of a tool that describes a Bazel workspace to
`rust-analyzer`. It decides which Bazel commands to run (`bazel info`, the
package and target queries, the build that writes the crate specs), reads
what they print, finds the workspace root file and the build file of a
package, and reads the toolchain description; each function carries a
Verus contract.

Layout:

- `src/text.rs`: white space, `trim`, `split` and `lines` with the meaning
  the standard library gives them, and their laws.
- `src/command.rs`: a Bazel command as plain values (`BazelInvocation`,
  `BazelCommand`).
- `src/output.rs`: what a finished command hands back; UTF-8 decoding.
- `src/bazel_info.rs`: the `bazel info` command and the reading of its
  `key: value` output.
- `src/config.rs`, `src/discover_rust_project.rs`, `src/gen_rust_project.rs`:
  the configurations of the tool and its two commands.
- `src/ra_arg.rs`: the `rust-analyzer` argument and the queries for its
  build file and targets.
- `src/crate_info.rs`: the crate-spec build and the toolchain description.
- `src/listing.rs`, `src/paths.rs`: directory listings and path arithmetic.
- `app/`: the process, file-system and command-line side, which runs the
  commands and hands their results to the library.
