//! The Bazel build that writes the crate specs `rust-analyzer` needs, and
//! the reading of the toolchain description that comes with them.

use std::collections::BTreeMap;

use vstd::prelude::*;

use crate::bazel_info::{last_value, lookup_last};
use crate::command::{opt_arg, opt_view, BazelInvocation};
use crate::output::{string_from_utf8_lossy, utf8_lossy, CommandOutput};
use crate::text::has_prefix;

verus! {

/// The argument that selects the aspect of `rules_rust` which describes
/// each crate.
pub open spec fn aspect_flag(rules_rust: Seq<char>) -> Seq<char> {
    "--aspects="@ + rules_rust + "//rust:defs.bzl%rust_analyzer_aspect"@
}

/// The output groups the build must produce.
pub open spec fn output_groups_flag() -> Seq<char> {
    "--output_groups=rust_analyzer_crate_spec,rust_generated_srcs,rust_analyzer_proc_macro_dylibs,rust_analyzer_srcs"@
}

/// The arguments of the build that writes the crate specs.
pub open spec fn crate_info_args(
    output_base: Seq<char>,
    config_group: Option<Seq<char>>,
    rules_rust: Seq<char>,
    targets: Seq<Seq<char>>,
) -> Seq<Seq<char>> {
    seq!["--output_base="@ + output_base, "build"@] + opt_arg("--config="@, config_group) + seq![
        "--norun_validations"@,
        aspect_flag(rules_rust),
        output_groups_flag(),
    ] + targets
}

/// Law: the crate-spec build passes the output base, `build`, the
/// configuration group only when one is given (as `--config=<group>`, right
/// after `build`), `--norun_validations`, the aspect of `rules_rust`, the
/// output groups, and then the targets, in their order. No argument before
/// the targets is a `--config=` flag unless a group is given.
pub proof fn lemma_crate_info_args(
    output_base: Seq<char>,
    config_group: Option<Seq<char>>,
    rules_rust: Seq<char>,
    targets: Seq<Seq<char>>,
)
    ensures
        ({
            let a = crate_info_args(output_base, config_group, rules_rust, targets);
            let x: int = if config_group is Some {
                1
            } else {
                0
            };
            &&& a.len() == 5 + x + targets.len()
            &&& a[0] == "--output_base="@ + output_base
            &&& a[1] == "build"@
            &&& config_group matches Some(g) ==> a[2] == "--config="@ + g
            &&& a[2 + x] == "--norun_validations"@
            &&& a[3 + x] == "--aspects="@ + rules_rust + "//rust:defs.bzl%rust_analyzer_aspect"@
            &&& a[4 + x]
                == "--output_groups=rust_analyzer_crate_spec,rust_generated_srcs,rust_analyzer_proc_macro_dylibs,rust_analyzer_srcs"@
            &&& a.subrange(5 + x, a.len() as int) == targets
            &&& forall|i: int|
                0 <= i < 5 + x ==> (has_prefix(#[trigger] a[i], "--config="@) <==> (
                config_group is Some && i == 2))
        }),
{
    reveal_strlit("--config=");
    reveal_strlit("--output_base=");
    reveal_strlit("build");
    reveal_strlit("--norun_validations");
    reveal_strlit("--aspects=");
    reveal_strlit(
        "--output_groups=rust_analyzer_crate_spec,rust_generated_srcs,rust_analyzer_proc_macro_dylibs,rust_analyzer_srcs",
    );
    let a = crate_info_args(output_base, config_group, rules_rust, targets);
    let x: int = if config_group is Some {
        1
    } else {
        0
    };
    assert(a.subrange(5 + x, a.len() as int) =~= targets);
    let c = "--config="@;
    assert forall|i: int| 0 <= i < 5 + x implies (has_prefix(#[trigger] a[i], c) <==> (
    config_group is Some && i == 2)) by {
        if i == 0 {
            assert(a[i][2] == 'o');
        } else if i == 1 {
            assert(a[i].len() < c.len());
        } else if i == 2 && config_group is Some {
            assert(a[i].subrange(0, c.len() as int) =~= c);
        } else if i == 2 + x {
            assert(a[i][2] == 'n');
        } else if i == 3 + x {
            assert(a[i][2] == 'a');
        } else {
            assert(a[i][2] == 'o');
        }
        if has_prefix(a[i], c) {
            assert(a[i][2] == a[i].subrange(0, c.len() as int)[2]);
        }
    }
}

/// The build failed: its exit status and what it wrote to stderr.
pub struct BuildFailed {
    pub status: String,
    pub stderr: String,
}

/// The Bazel build, run in the workspace, that writes the crate specs for
/// `targets` with the aspect of `rules_rust`; hand its output to
/// `crate_info_outcome`.
pub fn generate_crate_info(
    bazel: &str,
    output_base: &str,
    workspace: &str,
    config_group: Option<&str>,
    rules_rust: &str,
    targets: &Vec<String>,
) -> (r: BazelInvocation)
    ensures
        r.is(
            bazel@,
            workspace@,
            crate_info_args(output_base@, opt_view(config_group), rules_rust@, targets.deep_view()),
        ),
{
    let mut cmd = BazelInvocation::bare(bazel, workspace);
    cmd.arg(String::from_str("--output_base=").concat(output_base));
    cmd.arg(String::from_str("build"));
    cmd.opt_arg("--config=", config_group);
    cmd.arg(String::from_str("--norun_validations"));
    cmd.arg(
        String::from_str("--aspects=").concat(rules_rust).concat(
            "//rust:defs.bzl%rust_analyzer_aspect",
        ),
    );
    cmd.arg(
        String::from_str(
            "--output_groups=rust_analyzer_crate_spec,rust_generated_srcs,rust_analyzer_proc_macro_dylibs,rust_analyzer_srcs",
        ),
    );
    let ghost head = cmd.args.deep_view();
    let mut i: usize = 0;
    assert(targets.deep_view().take(0) =~= seq![]);
    while i < targets.len()
        invariant
            i <= targets.len(),
            cmd.is(bazel@, workspace@, head + targets.deep_view().take(i as int)),
        decreases targets.len() - i,
    {
        cmd.arg(targets[i].clone());
        assert(head + targets.deep_view().take(i + 1) =~= (head + targets.deep_view().take(
            i as int,
        )).push(targets[i as int]@));
        i = i + 1;
    }
    assert(targets.deep_view().take(targets.len() as int) =~= targets.deep_view());
    assert(head + targets.deep_view() =~= crate_info_args(
        output_base@,
        opt_view(config_group),
        rules_rust@,
        targets.deep_view(),
    ));
    cmd
}

/// Whether the crate-spec build succeeded; when it failed, its exit status
/// (as displayed) and what it wrote to stderr.
pub fn crate_info_outcome(output: &CommandOutput) -> (r: Result<(), BuildFailed>)
    ensures
        output.success ==> r is Ok,
        !output.success ==> (r matches Err(f) && f.status@ == output.status_display@ && f.stderr@
            == utf8_lossy(output.stderr@)),
{
    if output.success {
        Ok(())
    } else {
        Err(
            BuildFailed {
                status: output.status_display.clone(),
                stderr: string_from_utf8_lossy(output.stderr.as_slice()),
            },
        )
    }
}

#[verifier::external_type_specification]
#[verifier::external_body]
pub struct ExJsonError(serde_json::Error);

/// What `serde_json::from_str` makes of `text` when it reads a JSON object
/// whose values are all strings: its entries ordered by key (a later
/// duplicate key replaces an earlier one), or nothing when `text` is no
/// such object.
pub uninterp spec fn json_string_map(text: Seq<char>) -> Option<Seq<(Seq<char>, Seq<char>)>>;

/// `serde_json::from_str` into a map of strings; the entries come ordered by
/// key. The contract names the result.
#[verifier::external_body]
fn parse_json_string_map(text: &str) -> (r: Result<Vec<(String, String)>, serde_json::Error>)
    ensures
        r is Ok <==> json_string_map(text@) is Some,
        r matches Ok(m) ==> json_string_map(text@) == Some(m.deep_view()),
{
    match serde_json::from_str::<BTreeMap<String, String>>(text) {
        Ok(m) => Ok(m.into_iter().collect()),
        Err(e) => Err(e),
    }
}

/// The sysroot and its sources, as the toolchain description names them.
pub struct Sysroots {
    pub sysroot: String,
    pub sysroot_src: String,
}

/// Reads the toolchain description: a JSON object of strings, whose entries
/// come ordered by key; an error when the text is no such object.
pub fn read_toolchain_info(text: &str) -> (r: Result<Vec<(String, String)>, serde_json::Error>)
    ensures
        r is Ok <==> json_string_map(text@) is Some,
        r matches Ok(m) ==> json_string_map(text@) == Some(m.deep_view()),
{
    parse_json_string_map(text)
}

/// The first of `sysroot_src` and `sysroot` that the toolchain description
/// lacks, if any. Where there is one, the tool stops (a missing key).
pub fn missing_toolchain_key(info: &Vec<(String, String)>) -> (r: Option<String>)
    ensures
        last_value(info.deep_view(), "sysroot_src"@) is None ==> (r matches Some(k) && k@
            == "sysroot_src"@),
        last_value(info.deep_view(), "sysroot_src"@) is Some && last_value(
            info.deep_view(),
            "sysroot"@,
        ) is None ==> (r matches Some(k) && k@ == "sysroot"@),
        last_value(info.deep_view(), "sysroot_src"@) is Some && last_value(
            info.deep_view(),
            "sysroot"@,
        ) is Some ==> r is None,
{
    if lookup_last(info, "sysroot_src").is_none() {
        return Some(String::from_str("sysroot_src"));
    }
    if lookup_last(info, "sysroot").is_none() {
        return Some(String::from_str("sysroot"));
    }
    None
}

/// The sysroot and its sources, as the toolchain description names them.
pub fn toolchain_sysroots(info: &Vec<(String, String)>) -> (r: Sysroots)
    requires
        last_value(info.deep_view(), "sysroot_src"@) is Some,
        last_value(info.deep_view(), "sysroot"@) is Some,
    ensures
        Some(r.sysroot_src@) == last_value(info.deep_view(), "sysroot_src"@),
        Some(r.sysroot@) == last_value(info.deep_view(), "sysroot"@),
{
    let sysroot_src = lookup_last(info, "sysroot_src").unwrap();
    let sysroot = lookup_last(info, "sysroot").unwrap();
    Sysroots { sysroot, sysroot_src }
}

} // verus!
