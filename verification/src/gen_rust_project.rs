//! The configuration of the command that writes `rust-project.json` for a
//! list of target patterns.

use vstd::prelude::*;

use crate::bazel_info::{bazel_info_args, bazel_info_command};
use crate::command::{dir_or_current, opt_string_view, BazelInvocation};
use crate::config::{as_str_opt, refine_paths, refined_paths};

verus! {

/// The configuration of the command.
#[derive(Clone, Debug)]
pub struct Config {
    /// The path to the Bazel workspace directory.
    pub workspace: String,
    /// The path to the Bazel execution root.
    pub execution_root: String,
    /// The path to the Bazel output user root.
    pub output_base: String,
    /// The path to a Bazel binary.
    pub bazel: String,
    /// The target patterns that come after all other arguments.
    pub targets: Vec<String>,
}

/// The configuration as the command line gave it.
#[derive(Clone, Debug)]
pub struct ConfigParser {
    pub workspace: Option<String>,
    pub execution_root: Option<String>,
    pub output_base: Option<String>,
    pub bazel: String,
    pub targets: Vec<String>,
}

/// Where the configuration stands after the flags were read.
pub enum ConfigStep {
    /// The flags said everything.
    Ready(Config),
    /// Run this `bazel info`, read its output with `read_bazel_info`, check
    /// it with `missing_bazel_info`, then hand the entries, with the flags,
    /// to `Config::from_bazel_info`.
    NeedsBazelInfo(BazelInvocation, ConfigParser),
}

impl ConfigParser {
    /// The flags name all three paths.
    pub open spec fn complete(&self) -> bool {
        self.workspace is Some && self.execution_root is Some && self.output_base is Some
    }

    /// The paths that follow from these flags and the `bazel info` entries.
    pub open spec fn paths_with(&self, entries: Seq<(Seq<char>, Seq<char>)>) -> Result<
        (Seq<char>, Seq<char>, Seq<char>),
        Seq<char>,
    > {
        refined_paths(
            opt_string_view(self.workspace),
            opt_string_view(self.execution_root),
            opt_string_view(self.output_base),
            entries,
        )
    }
}

impl Config {
    /// Takes the flags as they are when they name all three paths; otherwise
    /// asks for the `bazel info` command that supplies them.
    pub fn parse(parsed: ConfigParser) -> (r: ConfigStep)
        ensures
            parsed.complete() ==> (r matches ConfigStep::Ready(c) && Some(c.workspace)
                == parsed.workspace && Some(c.execution_root) == parsed.execution_root && Some(
                c.output_base,
            ) == parsed.output_base && c.bazel == parsed.bazel && c.targets == parsed.targets),
            !parsed.complete() ==> (r matches ConfigStep::NeedsBazelInfo(cmd, p) && p == parsed
                && cmd.is(
                parsed.bazel@,
                dir_or_current(opt_string_view(parsed.workspace)),
                bazel_info_args(opt_string_view(parsed.output_base), None),
            )),
    {
        if parsed.workspace.is_some() && parsed.execution_root.is_some()
            && parsed.output_base.is_some() {
            let ConfigParser { workspace, execution_root, output_base, bazel, targets } = parsed;
            return ConfigStep::Ready(
                Config {
                    workspace: workspace.unwrap(),
                    execution_root: execution_root.unwrap(),
                    output_base: output_base.unwrap(),
                    bazel,
                    targets,
                },
            );
        }
        let cmd = bazel_info_command(
            parsed.bazel.as_str(),
            as_str_opt(&parsed.workspace),
            as_str_opt(&parsed.output_base),
            None,
        );
        ConfigStep::NeedsBazelInfo(cmd, parsed)
    }

    /// Completes the flags with the entries `bazel info` printed: each path
    /// the flags leave out is the last value printed for its key; the paths
    /// the flags give are kept.
    pub fn from_bazel_info(parsed: ConfigParser, entries: &Vec<(String, String)>) -> (r: Config)
        requires
            parsed.paths_with(entries.deep_view()) is Ok,
        ensures
            parsed.paths_with(entries.deep_view()) == Ok::<
                (Seq<char>, Seq<char>, Seq<char>),
                Seq<char>,
            >((r.workspace@, r.execution_root@, r.output_base@)),
            r.bazel == parsed.bazel,
            r.targets == parsed.targets,
    {
        let (workspace, execution_root, output_base) = refine_paths(
            parsed.workspace,
            parsed.execution_root,
            parsed.output_base,
            entries,
        );
        Config { workspace, execution_root, output_base, bazel: parsed.bazel, targets: parsed.targets }
    }
}

} // verus!
