//! A Bazel command line as plain values: the program, the directory it runs
//! in, the environment variables it must not inherit, and its arguments.

use vstd::prelude::*;

verus! {

/// A command that runs Bazel; whoever runs it starts `program` in
/// `current_dir`, without the variables in `env_remove`, with `args`.
#[derive(Clone, Debug)]
pub struct BazelInvocation {
    pub program: String,
    pub current_dir: String,
    pub env_remove: Vec<String>,
    pub args: Vec<String>,
}

/// The variables that a Bazel command must not inherit from the process
/// that starts it (a `bazel run` sets them, and they would change what the
/// nested Bazel does).
pub open spec fn removed_env_vars() -> Seq<Seq<char>> {
    seq!["BAZELISK_SKIP_WRAPPER"@, "BUILD_WORKING_DIRECTORY"@, "BUILD_WORKSPACE_DIRECTORY"@]
}

/// `--output_base=<path>`.
pub open spec fn output_base_flag(path: Seq<char>) -> Seq<char> {
    "--output_base="@ + path
}

/// `--config=<group>`.
pub open spec fn config_flag(group: Seq<char>) -> Seq<char> {
    "--config="@ + group
}

/// The view of an optional string.
pub open spec fn opt_view(o: Option<&str>) -> Option<Seq<char>> {
    match o {
        Some(s) => Some(s@),
        None => None,
    }
}

/// The view of an optional owned string.
pub open spec fn opt_string_view(o: Option<String>) -> Option<Seq<char>> {
    match o {
        Some(s) => Some(s@),
        None => None,
    }
}

/// No argument, or the one argument `flag(v)`.
pub open spec fn opt_arg(prefix: Seq<char>, v: Option<Seq<char>>) -> Seq<Seq<char>> {
    match v {
        Some(x) => seq![prefix + x],
        None => seq![],
    }
}

impl BazelInvocation {
    /// The command as plain values: program, directory, removed variables
    /// and arguments.
    pub open spec fn is(
        &self,
        program: Seq<char>,
        current_dir: Seq<char>,
        args: Seq<Seq<char>>,
    ) -> bool {
        &&& self.program@ == program
        &&& self.current_dir@ == current_dir
        &&& self.env_remove.deep_view() == removed_env_vars()
        &&& self.args.deep_view() == args
    }

    /// A command with no arguments yet.
    pub fn bare(program: &str, current_dir: &str) -> (r: Self)
        ensures
            r.is(program@, current_dir@, seq![]),
    {
        let mut env_remove: Vec<String> = Vec::new();
        env_remove.push(String::from_str("BAZELISK_SKIP_WRAPPER"));
        env_remove.push(String::from_str("BUILD_WORKING_DIRECTORY"));
        env_remove.push(String::from_str("BUILD_WORKSPACE_DIRECTORY"));
        let r = BazelInvocation {
            program: String::from_str(program),
            current_dir: String::from_str(current_dir),
            env_remove,
            args: Vec::new(),
        };
        assert(r.env_remove.deep_view() =~= removed_env_vars());
        assert(r.args.deep_view() =~= seq![]);
        r
    }

    /// Appends one argument.
    pub fn arg(&mut self, a: String)
        ensures
            final(self).program == old(self).program,
            final(self).current_dir == old(self).current_dir,
            final(self).env_remove == old(self).env_remove,
            final(self).args.deep_view() == old(self).args.deep_view().push(a@),
    {
        let ghost before = self.args.deep_view();
        self.args.push(a);
        assert(self.args.deep_view() =~= before.push(a@));
    }

    /// Appends `prefix` followed by `v`, when there is a `v`.
    pub fn opt_arg(&mut self, prefix: &str, v: Option<&str>)
        ensures
            final(self).program == old(self).program,
            final(self).current_dir == old(self).current_dir,
            final(self).env_remove == old(self).env_remove,
            final(self).args.deep_view() == old(self).args.deep_view() + opt_arg(prefix@, opt_view(v)),
    {
        match v {
            Some(x) => {
                self.arg(String::from_str(prefix).concat(x));
                assert(old(self).args.deep_view().push(prefix@ + x@) =~= old(self).args.deep_view()
                    + opt_arg(prefix@, opt_view(v)));
            },
            None => {
                assert(old(self).args.deep_view() =~= old(self).args.deep_view() + opt_arg(
                    prefix@,
                    opt_view(v),
                ));
            },
        }
    }
}

/// Builds the commands that invoke Bazel, keeping their builder form.
pub trait BazelCommand: Sized {
    /// A command that runs `bazel` in `workspace` (or in the current
    /// directory when there is none), with `--output_base` set when an
    /// output base is given.
    fn new_bazel_command(bazel: &str, workspace: Option<&str>, output_base: Option<&str>) -> Self;
}

/// The directory a Bazel command runs in: the workspace, else `.`.
pub open spec fn dir_or_current(workspace: Option<Seq<char>>) -> Seq<char> {
    match workspace {
        Some(w) => w,
        None => "."@,
    }
}

/// Law: a Bazel command runs in the workspace when one is given, else in
/// `.`; it never inherits `BAZELISK_SKIP_WRAPPER`,
/// `BUILD_WORKING_DIRECTORY` or `BUILD_WORKSPACE_DIRECTORY`; and an optional
/// value becomes exactly one argument, `<prefix><value>`, or none.
pub proof fn lemma_bazel_command_shape(
    workspace: Option<Seq<char>>,
    prefix: Seq<char>,
    value: Option<Seq<char>>,
)
    ensures
        workspace matches Some(w) ==> dir_or_current(workspace) == w,
        workspace is None ==> dir_or_current(workspace) == "."@,
        removed_env_vars().len() == 3,
        removed_env_vars()[0] == "BAZELISK_SKIP_WRAPPER"@,
        removed_env_vars()[1] == "BUILD_WORKING_DIRECTORY"@,
        removed_env_vars()[2] == "BUILD_WORKSPACE_DIRECTORY"@,
        value is None ==> opt_arg(prefix, value).len() == 0,
        value matches Some(v) ==> opt_arg(prefix, value).len() == 1 && opt_arg(prefix, value)[0]
            == prefix + v,
{
}

impl BazelCommand for BazelInvocation {
    fn new_bazel_command(bazel: &str, workspace: Option<&str>, output_base: Option<&str>) -> (r:
        Self)
        ensures
            r.is(
                bazel@,
                dir_or_current(opt_view(workspace)),
                opt_arg("--output_base="@, opt_view(output_base)),
            ),
    {
        let dir = match workspace {
            Some(w) => w,
            None => ".",
        };
        let mut cmd = BazelInvocation::bare(bazel, dir);
        cmd.opt_arg("--output_base=", output_base);
        assert(cmd.args.deep_view() =~= opt_arg("--output_base="@, opt_view(output_base)));
        cmd
    }
}

} // verus!
