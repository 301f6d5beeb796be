//! The shared configuration: where the workspace, execution root and output
//! base are, which Bazel to run, and which `--config` group to pass. Paths
//! that the flags leave out come from `bazel info`.

use vstd::prelude::*;

use crate::bazel_info::{bazel_info_args, bazel_info_command, last_value, lookup_last};
use crate::command::{dir_or_current, opt_string_view, BazelInvocation};

verus! {

/// The resolved configuration, with the options specific to one binary.
#[derive(Clone, Debug)]
pub struct Config<T> {
    /// The path to the Bazel workspace directory.
    pub workspace: String,
    /// The path to the Bazel execution root.
    pub execution_root: String,
    /// The path to the Bazel output user root.
    pub output_base: String,
    /// The path to a Bazel binary.
    pub bazel: String,
    /// A `--config` directive passed on to Bazel.
    pub config_group: Option<String>,
    /// Binary specific config options.
    pub specific: T,
}

/// The configuration as the command line gave it.
#[derive(Clone, Debug)]
pub struct ConfigParser<T> {
    pub workspace: Option<String>,
    pub execution_root: Option<String>,
    pub output_base: Option<String>,
    pub bazel: String,
    pub config_group: Option<String>,
    pub specific: T,
}

/// Where a configuration stands after the flags were read.
pub enum Refinement<T> {
    /// The flags said everything.
    Ready(Config<T>),
    /// Run this `bazel info`, read its output with `read_bazel_info`, check
    /// it with `missing_bazel_info`, then hand the entries, with the flags,
    /// to `Config::refine_with_bazel_info`.
    NeedsBazelInfo(BazelInvocation, ConfigParser<T>),
}

/// The path from the flags where they give one, else the one `bazel info`
/// prints: `bazel info` is asked only for the paths that were not given.
pub open spec fn refined(flag: Option<Seq<char>>, info: Option<Seq<char>>) -> Option<Seq<char>> {
    match flag {
        Some(v) => Some(v),
        None => info,
    }
}

/// The workspace, execution root and output base that follow from the flags
/// and the `bazel info` entries, or the key of the first one that neither
/// names.
pub open spec fn refined_paths(
    workspace: Option<Seq<char>>,
    execution_root: Option<Seq<char>>,
    output_base: Option<Seq<char>>,
    entries: Seq<(Seq<char>, Seq<char>)>,
) -> Result<(Seq<char>, Seq<char>, Seq<char>), Seq<char>> {
    let w = refined(workspace, last_value(entries, "workspace"@));
    let e = refined(execution_root, last_value(entries, "execution_root"@));
    let o = refined(output_base, last_value(entries, "output_base"@));
    if w is None {
        Err("workspace"@)
    } else if e is None {
        Err("execution_root"@)
    } else if o is None {
        Err("output_base"@)
    } else {
        Ok((w->0, e->0, o->0))
    }
}

/// Law: a path given by the flags is kept whatever `bazel info` prints; a
/// path the flags leave out is the last value printed for its key; and the
/// configuration is missing a path exactly when neither gives it (the first
/// such, in the order workspace, execution root, output base, is named).
pub proof fn lemma_refined_paths(
    workspace: Option<Seq<char>>,
    execution_root: Option<Seq<char>>,
    output_base: Option<Seq<char>>,
    entries: Seq<(Seq<char>, Seq<char>)>,
)
    ensures
        ({
            let w = if workspace is Some { workspace } else { last_value(entries, "workspace"@) };
            let e = if execution_root is Some {
                execution_root
            } else {
                last_value(entries, "execution_root"@)
            };
            let o = if output_base is Some {
                output_base
            } else {
                last_value(entries, "output_base"@)
            };
            let r = refined_paths(workspace, execution_root, output_base, entries);
            &&& (w is Some && e is Some && o is Some) ==> r == Ok::<
                (Seq<char>, Seq<char>, Seq<char>),
                Seq<char>,
            >((w->0, e->0, o->0))
            &&& w is None ==> r == Err::<(Seq<char>, Seq<char>, Seq<char>), Seq<char>>(
                "workspace"@,
            )
            &&& w is Some && e is None ==> r == Err::<
                (Seq<char>, Seq<char>, Seq<char>),
                Seq<char>,
            >("execution_root"@)
            &&& w is Some && e is Some && o is None ==> r == Err::<
                (Seq<char>, Seq<char>, Seq<char>),
                Seq<char>,
            >("output_base"@)
        }),
        forall|k: Seq<char>, v: Seq<char>|
            #![trigger refined(Some(v), last_value(entries, k))]
            refined(Some(v), last_value(entries, k)) == Some(v),
{
}

/// One path: the flag where it is given, else the last value `bazel info`
/// printed for `key`.
fn refine_path(flag: Option<String>, entries: &Vec<(String, String)>, key: &str) -> (r: Option<
    String,
>)
    ensures
        opt_string_view(r) == refined(opt_string_view(flag), last_value(entries.deep_view(), key@)),
{
    match flag {
        Some(v) => Some(v),
        None => lookup_last(entries, key),
    }
}

/// The key of the first path that neither the flags nor the `bazel info`
/// entries give, if any. Where there is one, the configuration cannot be
/// made: the tool stops with "'<key>' must exist in bazel info".
pub fn missing_bazel_info(
    workspace: &Option<String>,
    execution_root: &Option<String>,
    output_base: &Option<String>,
    entries: &Vec<(String, String)>,
) -> (r: Option<String>)
    ensures
        match refined_paths(
            opt_string_view(*workspace),
            opt_string_view(*execution_root),
            opt_string_view(*output_base),
            entries.deep_view(),
        ) {
            Ok(_) => r is None,
            Err(key) => r matches Some(k) && k@ == key,
        },
{
    if refine_path(workspace.clone(), entries, "workspace").is_none() {
        return Some(String::from_str("workspace"));
    }
    if refine_path(execution_root.clone(), entries, "execution_root").is_none() {
        return Some(String::from_str("execution_root"));
    }
    if refine_path(output_base.clone(), entries, "output_base").is_none() {
        return Some(String::from_str("output_base"));
    }
    None
}

/// The three paths that follow from the flags and the `bazel info` entries,
/// when none is missing.
pub fn refine_paths(
    workspace: Option<String>,
    execution_root: Option<String>,
    output_base: Option<String>,
    entries: &Vec<(String, String)>,
) -> (r: (String, String, String))
    requires
        refined_paths(
            opt_string_view(workspace),
            opt_string_view(execution_root),
            opt_string_view(output_base),
            entries.deep_view(),
        ) is Ok,
    ensures
        refined_paths(
            opt_string_view(workspace),
            opt_string_view(execution_root),
            opt_string_view(output_base),
            entries.deep_view(),
        ) == Ok::<(Seq<char>, Seq<char>, Seq<char>), Seq<char>>((r.0@, r.1@, r.2@)),
{
    let w = refine_path(workspace, entries, "workspace");
    let e = refine_path(execution_root, entries, "execution_root");
    let o = refine_path(output_base, entries, "output_base");
    (w.unwrap(), e.unwrap(), o.unwrap())
}

impl<T> ConfigParser<T> {
    /// The flags name all three paths.
    pub open spec fn complete(&self) -> bool {
        self.workspace is Some && self.execution_root is Some && self.output_base is Some
    }

    /// The paths that follow from these flags and the `bazel info` entries.
    pub open spec fn paths_with(&self, entries: Seq<(Seq<char>, Seq<char>)>) -> Result<
        (Seq<char>, Seq<char>, Seq<char>),
        Seq<char>,
    > {
        refined_paths(
            opt_string_view(self.workspace),
            opt_string_view(self.execution_root),
            opt_string_view(self.output_base),
            entries,
        )
    }
}

impl<T> Config<T> {
    /// Takes the flags as they are when they name all three paths; otherwise
    /// asks for the `bazel info` command that supplies them.
    pub fn parse_and_refine(parsed: ConfigParser<T>) -> (r: Refinement<T>)
        ensures
            parsed.complete() ==> (r matches Refinement::Ready(c) && Some(c.workspace)
                == parsed.workspace && Some(c.execution_root) == parsed.execution_root && Some(
                c.output_base,
            ) == parsed.output_base && c.bazel == parsed.bazel && c.config_group
                == parsed.config_group && c.specific == parsed.specific),
            !parsed.complete() ==> (r matches Refinement::NeedsBazelInfo(cmd, p) && p == parsed
                && cmd.is(
                parsed.bazel@,
                dir_or_current(opt_string_view(parsed.workspace)),
                bazel_info_args(
                    opt_string_view(parsed.output_base),
                    opt_string_view(parsed.config_group),
                ),
            )),
    {
        if parsed.workspace.is_some() && parsed.execution_root.is_some()
            && parsed.output_base.is_some() {
            let ConfigParser {
                workspace,
                execution_root,
                output_base,
                bazel,
                config_group,
                specific,
            } = parsed;
            return Refinement::Ready(
                Config {
                    workspace: workspace.unwrap(),
                    execution_root: execution_root.unwrap(),
                    output_base: output_base.unwrap(),
                    bazel,
                    config_group,
                    specific,
                },
            );
        }
        let cmd = bazel_info_command(
            parsed.bazel.as_str(),
            as_str_opt(&parsed.workspace),
            as_str_opt(&parsed.output_base),
            as_str_opt(&parsed.config_group),
        );
        Refinement::NeedsBazelInfo(cmd, parsed)
    }

    /// Completes the flags with the entries `bazel info` printed: each path
    /// the flags leave out is the last value printed for its key; the paths
    /// the flags give are kept.
    pub fn refine_with_bazel_info(parsed: ConfigParser<T>, entries: &Vec<(String, String)>) -> (r:
        Config<T>)
        requires
            parsed.paths_with(entries.deep_view()) is Ok,
        ensures
            parsed.paths_with(entries.deep_view()) == Ok::<
                (Seq<char>, Seq<char>, Seq<char>),
                Seq<char>,
            >((r.workspace@, r.execution_root@, r.output_base@)),
            r.bazel == parsed.bazel,
            r.config_group == parsed.config_group,
            r.specific == parsed.specific,
    {
        let ConfigParser { workspace, execution_root, output_base, bazel, config_group, specific } =
            parsed;
        let (workspace, execution_root, output_base) = refine_paths(
            workspace,
            execution_root,
            output_base,
            entries,
        );
        Config { workspace, execution_root, output_base, bazel, config_group, specific }
    }
}

/// The string inside an optional string, borrowed.
pub fn as_str_opt(o: &Option<String>) -> (r: Option<&str>)
    ensures
        crate::command::opt_view(r) == opt_string_view(*o),
{
    match o {
        Some(s) => Some(s.as_str()),
        None => None,
    }
}

} // verus!
