//! Workspace discovery for `rust-analyzer`: the configuration of the
//! discovery command, and the search for the file that marks a Bazel
//! workspace.

use vstd::prelude::*;

use crate::bazel_info::{bazel_info_args, bazel_info_command};
use crate::command::{dir_or_current, opt_string_view, BazelInvocation};
use crate::config::{as_str_opt, refine_paths, refined_paths};
use crate::listing::{first_fit, lemma_first_fit_from, same_text, DirEntryInfo, DirListing};
use crate::paths::{file_name, path_file_name};
use crate::ra_arg::RustAnalyzerArg;

verus! {

/// The configuration of the discovery command.
#[derive(Clone, Debug)]
pub struct Config {
    /// The path to the Bazel workspace directory.
    pub workspace: String,
    /// The path to the Bazel execution root.
    pub execution_root: String,
    /// The path to the Bazel output user root.
    pub output_base: String,
    /// The path to a Bazel binary.
    pub bazel: String,
    /// The argument that `rust-analyzer` can pass to the binary.
    pub rust_analyzer_argument: Option<RustAnalyzerArg>,
}

/// The configuration as the command line gave it.
#[derive(Clone, Debug)]
pub struct ConfigParser {
    pub workspace: Option<String>,
    pub execution_root: Option<String>,
    pub output_base: Option<String>,
    pub bazel: String,
    pub rust_analyzer_argument: Option<RustAnalyzerArg>,
}

/// Where the configuration stands after the flags were read.
pub enum ConfigStep {
    /// The flags said everything.
    Ready(Config),
    /// Run this `bazel info`, read its output with `read_bazel_info`, check
    /// it with `missing_bazel_info`, then hand the entries, with the flags,
    /// to `Config::from_bazel_info`.
    NeedsBazelInfo(BazelInvocation, ConfigParser),
}

impl ConfigParser {
    /// The flags name all three paths.
    pub open spec fn complete(&self) -> bool {
        self.workspace is Some && self.execution_root is Some && self.output_base is Some
    }

    /// The paths that follow from these flags and the `bazel info` entries.
    pub open spec fn paths_with(&self, entries: Seq<(Seq<char>, Seq<char>)>) -> Result<
        (Seq<char>, Seq<char>, Seq<char>),
        Seq<char>,
    > {
        refined_paths(
            opt_string_view(self.workspace),
            opt_string_view(self.execution_root),
            opt_string_view(self.output_base),
            entries,
        )
    }
}

impl Config {
    /// Takes the flags as they are when they name all three paths; otherwise
    /// asks for the `bazel info` command that supplies them.
    pub fn parse(parsed: ConfigParser) -> (r: ConfigStep)
        ensures
            parsed.complete() ==> (r matches ConfigStep::Ready(c) && Some(c.workspace)
                == parsed.workspace && Some(c.execution_root) == parsed.execution_root && Some(
                c.output_base,
            ) == parsed.output_base && c.bazel == parsed.bazel && c.rust_analyzer_argument
                == parsed.rust_analyzer_argument),
            !parsed.complete() ==> (r matches ConfigStep::NeedsBazelInfo(cmd, p) && p == parsed
                && cmd.is(
                parsed.bazel@,
                dir_or_current(opt_string_view(parsed.workspace)),
                bazel_info_args(opt_string_view(parsed.output_base), None),
            )),
    {
        if parsed.workspace.is_some() && parsed.execution_root.is_some()
            && parsed.output_base.is_some() {
            let ConfigParser {
                workspace,
                execution_root,
                output_base,
                bazel,
                rust_analyzer_argument,
            } = parsed;
            return ConfigStep::Ready(
                Config {
                    workspace: workspace.unwrap(),
                    execution_root: execution_root.unwrap(),
                    output_base: output_base.unwrap(),
                    bazel,
                    rust_analyzer_argument,
                },
            );
        }
        let cmd = bazel_info_command(
            parsed.bazel.as_str(),
            as_str_opt(&parsed.workspace),
            as_str_opt(&parsed.output_base),
            None,
        );
        ConfigStep::NeedsBazelInfo(cmd, parsed)
    }

    /// Completes the flags with the entries `bazel info` printed: each path
    /// the flags leave out is the last value printed for its key; the paths
    /// the flags give are kept.
    pub fn from_bazel_info(parsed: ConfigParser, entries: &Vec<(String, String)>) -> (r: Config)
        requires
            parsed.paths_with(entries.deep_view()) is Ok,
        ensures
            parsed.paths_with(entries.deep_view()) == Ok::<
                (Seq<char>, Seq<char>, Seq<char>),
                Seq<char>,
            >((r.workspace@, r.execution_root@, r.output_base@)),
            r.bazel == parsed.bazel,
            r.rust_analyzer_argument == parsed.rust_analyzer_argument,
    {
        let (workspace, execution_root, output_base) = refine_paths(
            parsed.workspace,
            parsed.execution_root,
            parsed.output_base,
            entries,
        );
        Config { workspace, execution_root, output_base, bazel: parsed.bazel, rust_analyzer_argument: parsed.rust_analyzer_argument }
    }
}

/// The names of the files that mark the root of a Bazel workspace.
pub const WORKSPACE_ROOT_FILE_NAMES: [&'static str; 4] = [
    "MODULE.bazel",
    "REPO.bazel",
    "WORKSPACE.bazel",
    "WORKSPACE",
];

/// The names of the files that mark the root of a Bazel workspace.
pub open spec fn is_workspace_root_file_name(n: Seq<char>) -> bool {
    ||| n == "MODULE.bazel"@
    ||| n == "REPO.bazel"@
    ||| n == "WORKSPACE.bazel"@
    ||| n == "WORKSPACE"@
}

/// Law: a name marks the workspace root exactly when it is one of
/// `WORKSPACE_ROOT_FILE_NAMES`, which holds `MODULE.bazel`, `REPO.bazel`,
/// `WORKSPACE.bazel` and `WORKSPACE`.
pub proof fn lemma_root_file_names(n: Seq<char>)
    ensures
        is_workspace_root_file_name(n) <==> exists|i: int|
            0 <= i < 4 && n == (#[trigger] WORKSPACE_ROOT_FILE_NAMES@[i])@,
        WORKSPACE_ROOT_FILE_NAMES@.len() == 4,
        WORKSPACE_ROOT_FILE_NAMES@[0]@ == "MODULE.bazel"@,
        WORKSPACE_ROOT_FILE_NAMES@[1]@ == "REPO.bazel"@,
        WORKSPACE_ROOT_FILE_NAMES@[2]@ == "WORKSPACE.bazel"@,
        WORKSPACE_ROOT_FILE_NAMES@[3]@ == "WORKSPACE"@,
{
    assert(WORKSPACE_ROOT_FILE_NAMES@[0]@ == "MODULE.bazel"@);
    assert(WORKSPACE_ROOT_FILE_NAMES@[1]@ == "REPO.bazel"@);
    assert(WORKSPACE_ROOT_FILE_NAMES@[2]@ == "WORKSPACE.bazel"@);
    assert(WORKSPACE_ROOT_FILE_NAMES@[3]@ == "WORKSPACE"@);
}

/// Whether `n` names a file that marks the root of a Bazel workspace.
pub fn is_workspace_root_file_name_text(n: &str) -> (r: bool)
    ensures
        r == is_workspace_root_file_name(n@),
{
    same_text(n, "MODULE.bazel") || same_text(n, "REPO.bazel") || same_text(n, "WORKSPACE.bazel")
        || same_text(n, "WORKSPACE")
}

/// An entry that marks the workspace root: a regular file with a UTF-8 path
/// whose final component is a root file name.
pub open spec fn is_root_entry(e: DirEntryInfo) -> bool {
    &&& e.is_file
    &&& e.path matches Some(p) && (path_file_name(p@) matches Some(n)
        && is_workspace_root_file_name(n))
}

/// The position of the first entry of a listing that marks the workspace
/// root, or the listing's length.
pub open spec fn first_root_entry(es: Seq<DirEntryInfo>) -> int {
    first_fit(es, |e: DirEntryInfo| is_root_entry(e))
}

/// What looking for the workspace root file gives: the path of the first
/// listed entry that marks the root; else an error, which says whether the
/// listing failed before its end.
pub open spec fn root_file_outcome(
    r: Result<String, DiscoveryError>,
    workspace: Seq<char>,
    listing: DirListing,
) -> bool {
    let es = listing.entries@;
    let k = first_root_entry(es);
    if k < es.len() {
        r matches Ok(p) && es[k].path == Some(p)
    } else if listing.failed {
        r matches Err(DiscoveryError::ListingFailed)
    } else {
        r matches Err(DiscoveryError::NoRootFile(w)) && w@ == workspace
    }
}

/// Why no workspace root file was found.
pub enum DiscoveryError {
    /// The workspace directory could not be read to its end.
    ListingFailed,
    /// The workspace directory holds no root file (the workspace is held).
    NoRootFile(String),
}

/// Looks within the workspace directory for the file that marks a Bazel
/// workspace: the first regular file with a UTF-8 path whose final
/// component is one of the root file names.
pub fn find_workspace_root_file(workspace: &str, listing: &DirListing) -> (r: Result<
    String,
    DiscoveryError,
>)
    ensures
        root_file_outcome(r, workspace@, *listing),
{
    let ghost es = listing.entries@;
    let ghost p = |e: DirEntryInfo| is_root_entry(e);
    proof {
        lemma_first_fit_from(es, p, 0);
    }
    let mut i: usize = 0;
    while i < listing.entries.len()
        invariant
            es == listing.entries@,
            p == (|e: DirEntryInfo| is_root_entry(e)),
            i <= es.len(),
            first_fit(es, p) >= i,
            forall|k: int| 0 <= k < first_fit(es, p) ==> !p(#[trigger] es[k]),
            first_fit(es, p) < es.len() ==> p(es[first_fit(es, p)]),
        decreases es.len() - i,
    {
        let e = &listing.entries[i];
        if e.is_file {
            if let Some(path) = &e.path {
                let hit = match file_name(path.as_str()) {
                    Some(n) => is_workspace_root_file_name_text(n.as_str()),
                    None => false,
                };
                if hit {
                    assert(p(es[i as int]));
                    assert(first_fit(es, p) == i);
                    return Ok(path.clone());
                }
            }
        }
        assert(!p(es[i as int]));
        i = i + 1;
    }
    if listing.failed {
        Err(DiscoveryError::ListingFailed)
    } else {
        Err(DiscoveryError::NoRootFile(String::from_str(workspace)))
    }
}

/// An entry that is a regular file with a UTF-8 path whose final component
/// is one of `WORKSPACE_ROOT_FILE_NAMES`.
pub open spec fn named_like_root_file(e: DirEntryInfo) -> bool {
    &&& e.is_file
    &&& e.path matches Some(p) && (path_file_name(p@) matches Some(n) && exists|i: int|
        0 <= i < 4 && n == (#[trigger] WORKSPACE_ROOT_FILE_NAMES@[i])@)
}

/// Law: the root file of a workspace is the first listed regular file with a
/// UTF-8 path whose final component is one of `WORKSPACE_ROOT_FILE_NAMES`;
/// no earlier entry is one. Where none is found, no listed entry is one,
/// and the error says whether the listing failed.
pub proof fn lemma_root_file_is_first(r: Result<String, DiscoveryError>, workspace: Seq<char>, listing: DirListing)
    requires
        root_file_outcome(r, workspace, listing),
    ensures
        ({
            let es = listing.entries@;
            &&& r matches Ok(p) ==> exists|k: int|
                0 <= k < es.len() && named_like_root_file(#[trigger] es[k]) && es[k].path == Some(
                    p,
                ) && forall|j: int| 0 <= j < k ==> !named_like_root_file(#[trigger] es[j])
            &&& r is Err ==> forall|k: int| 0 <= k < es.len() ==> !named_like_root_file(#[trigger] es[k])
            &&& r matches Err(DiscoveryError::ListingFailed) ==> listing.failed
            &&& r matches Err(DiscoveryError::NoRootFile(w)) ==> w@ == workspace && !listing.failed
        }),
{
    let es = listing.entries@;
    let p = |e: DirEntryInfo| is_root_entry(e);
    lemma_first_fit_from(es, p, 0);
    assert forall|e: DirEntryInfo| #[trigger] named_like_root_file(e) <==> is_root_entry(e) by {
        if e.path is Some && path_file_name(e.path->0@) is Some {
            lemma_root_file_names(path_file_name(e.path->0@)->0);
        }
    }
    let k = first_root_entry(es);
    if k < es.len() {
        assert(named_like_root_file(es[k]));
        assert forall|j: int| 0 <= j < k implies !named_like_root_file(#[trigger] es[j]) by {
            assert(!p(es[j]));
        }
    } else {
        assert forall|j: int| 0 <= j < es.len() implies !named_like_root_file(#[trigger] es[j]) by {
            assert(!p(es[j]));
        }
    }
}

/// Law: a listing whose only entry is a regular file named like one of
/// `WORKSPACE_ROOT_FILE_NAMES` yields that file as the root file, and as
/// the default build-file argument.
pub proof fn lemma_single_root_file(
    workspace: Seq<char>,
    listing: DirListing,
    path: String,
    i: int,
    r: Result<String, DiscoveryError>,
    d: Result<RustAnalyzerArg, DiscoveryError>,
)
    requires
        0 <= i < 4,
        listing.entries@.len() == 1,
        listing.entries@[0].is_file,
        listing.entries@[0].path == Some(path),
        path_file_name(path@) == Some(WORKSPACE_ROOT_FILE_NAMES@[i]@),
        root_file_outcome(r, workspace, listing),
        default_argument_outcome(d, workspace, listing),
    ensures
        r == Ok::<String, DiscoveryError>(path),
        d == Ok::<RustAnalyzerArg, DiscoveryError>(RustAnalyzerArg::Buildfile(path)),
{
    lemma_root_file_names(WORKSPACE_ROOT_FILE_NAMES@[i]@);
    let es = listing.entries@;
    let p = |e: DirEntryInfo| is_root_entry(e);
    assert(p(es[0]));
    assert(first_fit(es, p) == 0);
}

/// What choosing the default argument gives: the root file as a build file,
/// or the error of the search for it.
pub open spec fn default_argument_outcome(
    r: Result<RustAnalyzerArg, DiscoveryError>,
    workspace: Seq<char>,
    listing: DirListing,
) -> bool {
    let es = listing.entries@;
    let k = first_root_entry(es);
    if k < es.len() {
        r matches Ok(RustAnalyzerArg::Buildfile(b)) && es[k].path == Some(b)
    } else if listing.failed {
        r matches Err(DiscoveryError::ListingFailed)
    } else {
        r matches Err(DiscoveryError::NoRootFile(w)) && w@ == workspace
    }
}

/// The argument to use when `rust-analyzer` passes none: the workspace root
/// file, as a build file.
pub fn default_argument(workspace: &str, listing: &DirListing) -> (r: Result<
    RustAnalyzerArg,
    DiscoveryError,
>)
    ensures
        default_argument_outcome(r, workspace@, *listing),
{
    let root = find_workspace_root_file(workspace, listing)?;
    Ok(RustAnalyzerArg::Buildfile(root))
}

} // verus!
