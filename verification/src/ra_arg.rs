//! The argument that `rust-analyzer` passes (a source file or a build file)
//! and the Bazel queries that turn it into a build file and its targets.

use vstd::prelude::*;
use vstd::utf8::{decode_utf8, valid_utf8};

use crate::command::{opt_arg, opt_string_view, BazelInvocation};
use crate::config::as_str_opt;
use crate::listing::{first_fit, lemma_first_fit_from, same_text, DirEntryInfo, DirListing};
use crate::output::string_from_utf8;
use crate::paths::{join, parent, path_join, path_parent, path_strip_prefix, strip_prefix};
use crate::text::{has_prefix, lines, lines_of};

verus! {

/// The argument that `rust-analyzer` can pass to the command.
#[derive(Clone, Debug)]
pub enum RustAnalyzerArg {
    /// A source file of the workspace.
    Path(String),
    /// A build file of the workspace.
    Buildfile(String),
}

/// What the queries need to know: which Bazel, its output base, the
/// workspace, and the `--config` group.
#[derive(Clone, Debug)]
pub struct QueryContext {
    pub bazel: String,
    pub output_base: String,
    pub workspace: String,
    pub config_group: Option<String>,
}

/// Why no build file or targets could be found.
pub enum QueryError {
    /// The path lies outside the workspace (the path is held).
    NotPartOfWorkspace(String),
    /// A query printed output that is not UTF-8.
    InvalidUtf8(std::string::FromUtf8Error),
    /// The package query printed more than one package for this file.
    MultiplePackages(String),
    /// The package query printed no package for this file.
    NoPackage(String),
    /// The package directory could not be read to its end.
    ListingFailed,
    /// The package's build file has a path that is not UTF-8.
    NonUtf8Buildfile,
    /// The package directory holds no build file (the source file is held).
    NoBuildfile(String),
}

/// The next query to run for a `rust-analyzer` argument.
pub enum TargetQuery {
    /// Run `invocation`, which asks for the package of `file` (given
    /// relative to the workspace as `relative`); hand what it prints to
    /// `package_from_query_output`.
    Package { file: String, relative: String, invocation: BazelInvocation },
    /// Run `invocation`, which asks for the Rust targets beside `buildfile`;
    /// hand what it prints to `targets_from_query_output`.
    Targets { buildfile: String, invocation: BazelInvocation },
}

/// The names a build file can have.
pub const BUILD_FILE_NAMES: [&'static str; 2] = ["BUILD.bazel", "BUILD"];

/// The names a build file can have.
pub open spec fn is_build_file_name(n: Seq<char>) -> bool {
    n == "BUILD.bazel"@ || n == "BUILD"@
}

/// Law: a name is a build file name exactly when it is one of
/// `BUILD_FILE_NAMES`, which holds `BUILD.bazel` and `BUILD`.
pub proof fn lemma_build_file_names(n: Seq<char>)
    ensures
        is_build_file_name(n) <==> exists|i: int|
            0 <= i < 2 && n == (#[trigger] BUILD_FILE_NAMES@[i])@,
        BUILD_FILE_NAMES@.len() == 2,
        BUILD_FILE_NAMES@[0]@ == "BUILD.bazel"@,
        BUILD_FILE_NAMES@[1]@ == "BUILD"@,
{
    assert(BUILD_FILE_NAMES@[0]@ == "BUILD.bazel"@);
    assert(BUILD_FILE_NAMES@[1]@ == "BUILD"@);
}

/// An entry that is a build file, by its own name.
pub open spec fn is_build_entry(e: DirEntryInfo) -> bool {
    e.file_name matches Some(n) && is_build_file_name(n@)
}

/// The query pattern for the targets beside a build file: everything below
/// its directory, or the whole workspace when the build file sits at the
/// root.
pub open spec fn target_pattern(parent_dir: Option<Seq<char>>) -> Seq<char> {
    match parent_dir {
        Some(p) => if p.len() > 0 {
            p + "/..."@
        } else {
            "//..."@
        },
        None => "//..."@,
    }
}

/// The query expression that selects the Rust targets of `pattern`.
pub open spec fn rust_kind_query(pattern: Seq<char>) -> Seq<char> {
    "kind(\"rust_(library|binary|proc_macro|test)\", "@ + pattern + ")"@
}

/// The arguments shared by both queries, up to the query expression.
pub open spec fn query_prefix(output_base: Seq<char>, config_group: Option<Seq<char>>) -> Seq<
    Seq<char>,
> {
    seq!["--output_base="@ + output_base, "query"@] + opt_arg("--config="@, config_group)
}

/// The arguments of the query for the package of a file.
pub open spec fn package_query_args(
    output_base: Seq<char>,
    config_group: Option<Seq<char>>,
    relative: Seq<char>,
) -> Seq<Seq<char>> {
    query_prefix(output_base, config_group) + seq!["--output=package"@, relative]
}

/// The arguments of the query for the Rust targets below a directory.
pub open spec fn targets_query_args(
    output_base: Seq<char>,
    config_group: Option<Seq<char>>,
    parent_dir: Option<Seq<char>>,
) -> Seq<Seq<char>> {
    query_prefix(output_base, config_group) + seq![rust_kind_query(target_pattern(parent_dir))]
}

/// Law: the pattern for a build file's targets is everything below its
/// directory (`<dir>/...`) whenever that directory is not empty, whatever
/// lies above it; only an empty or absent directory (a build file at the
/// workspace root) gives the whole workspace, `//...`.
pub proof fn lemma_target_pattern(dir: Seq<char>)
    ensures
        dir.len() > 0 ==> target_pattern(Some(dir)) == dir + "/..."@,
        dir.len() == 0 ==> target_pattern(Some(dir)) == "//..."@,
        target_pattern(None) == "//..."@,
{
}

/// Law: the package query and the targets query share their leading
/// arguments: the output base, `query`, and `--config=<group>` only when a
/// group is given. The package query then asks for `--output=package` of
/// the relative file; the targets query ends with its `kind(...)`
/// expression. Apart from the file itself, no argument is a `--config=`
/// flag unless a group is given.
pub proof fn lemma_query_args(
    output_base: Seq<char>,
    config_group: Option<Seq<char>>,
    relative: Seq<char>,
    parent_dir: Option<Seq<char>>,
)
    ensures
        ({
            let p = package_query_args(output_base, config_group, relative);
            let t = targets_query_args(output_base, config_group, parent_dir);
            let x: int = if config_group is Some {
                1
            } else {
                0
            };
            &&& p.len() == 4 + x
            &&& t.len() == 3 + x
            &&& p[0] == "--output_base="@ + output_base
            &&& p[1] == "query"@
            &&& config_group matches Some(g) ==> p[2] == "--config="@ + g
            &&& p[2 + x] == "--output=package"@
            &&& p[3 + x] == relative
            &&& forall|i: int| 0 <= i < 2 + x ==> #[trigger] p[i] == t[i]
            &&& t[2 + x] == "kind(\"rust_(library|binary|proc_macro|test)\", "@ + target_pattern(
                parent_dir,
            ) + ")"@
            &&& forall|i: int|
                0 <= i < 3 + x ==> (has_prefix(#[trigger] p[i], "--config="@) <==> (config_group
                    is Some && i == 2))
            &&& forall|i: int|
                0 <= i < 3 + x ==> (has_prefix(#[trigger] t[i], "--config="@) <==> (config_group
                    is Some && i == 2))
        }),
{
    reveal_strlit("--config=");
    reveal_strlit("--output_base=");
    reveal_strlit("query");
    reveal_strlit("--output=package");
    reveal_strlit("kind(\"rust_(library|binary|proc_macro|test)\", ");
    let p = package_query_args(output_base, config_group, relative);
    let t = targets_query_args(output_base, config_group, parent_dir);
    let x: int = if config_group is Some {
        1
    } else {
        0
    };
    let c = "--config="@;
    assert forall|i: int| 0 <= i < 3 + x implies (has_prefix(#[trigger] p[i], c) <==> (
    config_group is Some && i == 2)) by {
        if i == 0 {
            assert(p[i][2] == 'o');
        } else if i == 1 {
            assert(p[i].len() < c.len());
        } else if i == 2 && config_group is Some {
            assert(p[i].subrange(0, c.len() as int) =~= c);
        } else {
            assert(p[i][2] == 'o');
        }
        if has_prefix(p[i], c) {
            assert(p[i][2] == p[i].subrange(0, c.len() as int)[2]);
        }
    }
    assert forall|i: int| 0 <= i < 3 + x implies (has_prefix(#[trigger] t[i], c) <==> (
    config_group is Some && i == 2)) by {
        if i == 0 {
            assert(t[i][2] == 'o');
        } else if i == 1 {
            assert(t[i].len() < c.len());
        } else if i == 2 && config_group is Some {
            assert(t[i].subrange(0, c.len() as int) =~= c);
        } else {
            assert(t[i][0] == 'k');
        }
        if has_prefix(t[i], c) {
            assert(t[i][0] == t[i].subrange(0, c.len() as int)[0]);
            assert(t[i][2] == t[i].subrange(0, c.len() as int)[2]);
        }
    }
}

/// Law: the targets query for a build file inside the workspace ends with
/// the `kind(...)` expression over `<dir>/...`, where `<dir>` is the build
/// file's directory relative to the workspace, whenever that directory is
/// not empty.
pub proof fn lemma_targets_query_below_directory(ctx: QueryContext, buildfile: Seq<char>, dir: Seq<char>)
    requires
        path_strip_prefix(buildfile, ctx.workspace@) matches Some(rel) && path_parent(rel) == Some(
            dir,
        ),
        dir.len() > 0,
    ensures
        targets_args_for(ctx, buildfile) matches Some(a) && a.last()
            == "kind(\"rust_(library|binary|proc_macro|test)\", "@ + (dir + "/..."@) + ")"@,
{
}

/// The arguments of the targets query for a build file: the Rust targets
/// below its directory relative to the workspace; nothing when the build
/// file lies outside the workspace.
pub open spec fn targets_args_for(ctx: QueryContext, buildfile: Seq<char>) -> Option<
    Seq<Seq<char>>,
> {
    match path_strip_prefix(buildfile, ctx.workspace@) {
        Some(rel) => Some(
            targets_query_args(ctx.output_base@, opt_string_view(ctx.config_group), path_parent(rel)),
        ),
        None => None,
    }
}

impl QueryContext {
    /// `cmd` is the query with these arguments, run in the workspace.
    pub open spec fn runs(&self, cmd: BazelInvocation, args: Seq<Seq<char>>) -> bool {
        cmd.is(self.bazel@, self.workspace@, args)
    }

    /// A query command with the shared arguments.
    fn query_command(&self) -> (r: BazelInvocation)
        ensures
            self.runs(r, query_prefix(self.output_base@, opt_string_view(self.config_group))),
    {
        let mut cmd = BazelInvocation::bare(self.bazel.as_str(), self.workspace.as_str());
        cmd.arg(String::from_str("--output_base=").concat(self.output_base.as_str()));
        cmd.arg(String::from_str("query"));
        cmd.opt_arg("--config=", as_str_opt(&self.config_group));
        assert(cmd.args.deep_view() =~= query_prefix(
            self.output_base@,
            opt_string_view(self.config_group),
        ));
        cmd
    }

    /// The query for the package of a file given relative to the workspace.
    pub fn package_query(&self, relative: &str) -> (r: BazelInvocation)
        ensures
            self.runs(
                r,
                package_query_args(self.output_base@, opt_string_view(self.config_group), relative@),
            ),
    {
        let mut cmd = self.query_command();
        cmd.arg(String::from_str("--output=package"));
        cmd.arg(String::from_str(relative));
        assert(cmd.args.deep_view() =~= package_query_args(
            self.output_base@,
            opt_string_view(self.config_group),
            relative@,
        ));
        cmd
    }

    /// The query for the Rust targets below the directory of a build file,
    /// given that directory relative to the workspace (if it has one).
    pub fn targets_query(&self, parent_dir: Option<&str>) -> (r: BazelInvocation)
        ensures
            self.runs(
                r,
                targets_query_args(
                    self.output_base@,
                    opt_string_view(self.config_group),
                    crate::command::opt_view(parent_dir),
                ),
            ),
    {
        let pattern = match parent_dir {
            Some(p) => if p.unicode_len() > 0 {
                String::from_str(p).concat("/...")
            } else {
                String::from_str("//...")
            },
            None => String::from_str("//..."),
        };
        let expr = String::from_str("kind(\"rust_(library|binary|proc_macro|test)\", ").concat(
            pattern.as_str(),
        ).concat(")");
        let mut cmd = self.query_command();
        cmd.arg(expr);
        assert(cmd.args.deep_view() =~= targets_query_args(
            self.output_base@,
            opt_string_view(self.config_group),
            crate::command::opt_view(parent_dir),
        ));
        cmd
    }

    /// The package query for a source file: an error exactly when the file
    /// lies outside the workspace, else the file relative to the workspace
    /// and the query for its package.
    pub fn package_query_command(&self, file: &str) -> (r: Result<
        (String, BazelInvocation),
        QueryError,
    >)
        ensures
            r is Err <==> path_strip_prefix(file@, self.workspace@) is None,
            r matches Ok((rel, cmd)) ==> path_strip_prefix(file@, self.workspace@) == Some(rel@)
                && self.runs(
                cmd,
                package_query_args(self.output_base@, opt_string_view(self.config_group), rel@),
            ),
            r matches Err(e) ==> (e matches QueryError::NotPartOfWorkspace(f) && f@ == file@),
    {
        match strip_prefix(file, self.workspace.as_str()) {
            Some(rel) => {
                let cmd = self.package_query(rel.as_str());
                Ok((rel, cmd))
            },
            None => Err(QueryError::NotPartOfWorkspace(String::from_str(file))),
        }
    }

    /// The targets query for a build file: an error exactly when the build
    /// file lies outside the workspace, else the query for the Rust targets
    /// below its directory.
    pub fn targets_query_command(&self, buildfile: &str) -> (r: Result<BazelInvocation, QueryError>)
        ensures
            r is Err <==> targets_args_for(*self, buildfile@) is None,
            r matches Ok(cmd) ==> (targets_args_for(*self, buildfile@) matches Some(a) && self.runs(
                cmd,
                a,
            )),
            r matches Err(e) ==> (e matches QueryError::NotPartOfWorkspace(f) && f@ == buildfile@),
    {
        match strip_prefix(buildfile, self.workspace.as_str()) {
            Some(rel) => {
                let dir = parent(rel.as_str());
                let cmd = self.targets_query(as_str_opt(&dir));
                Ok(cmd)
            },
            None => Err(QueryError::NotPartOfWorkspace(String::from_str(buildfile))),
        }
    }

    /// After the package directory was listed: the build file it holds and
    /// the targets query for that build file. The errors are those of
    /// `buildfile_from_listing`, then of `targets_query_command`.
    pub fn targets_after_listing(&self, file: &str, listing: &DirListing) -> (r: Result<
        (String, BazelInvocation),
        QueryError,
    >)
        ensures
            match listed_buildfile(listing.entries@) {
                Some(b) => match targets_args_for(*self, b) {
                    Some(a) => r matches Ok((bf, cmd)) && bf@ == b && self.runs(cmd, a),
                    None => r matches Err(QueryError::NotPartOfWorkspace(f)) && f@ == b,
                },
                None => r matches Err(e) && buildfile_outcome(Err(e), file@, *listing),
            },
    {
        let buildfile = buildfile_from_listing(file, listing)?;
        let cmd = self.targets_query_command(buildfile.as_str())?;
        Ok((buildfile, cmd))
    }

    /// Reads what the package query printed: the one package it names, and
    /// the directory of that package. An error when the output is not UTF-8
    /// or does not hold exactly one line.
    pub fn package_from_query_output(&self, relative: &str, stdout: Vec<u8>) -> (r: Result<
        (String, String),
        QueryError,
    >)
        ensures
            !valid_utf8(stdout@) ==> r matches Err(QueryError::InvalidUtf8(_)),
            valid_utf8(stdout@) ==> ({
                let ls = lines(decode_utf8(stdout@));
                &&& ls.len() == 1 ==> (r matches Ok((package, dir)) && package@ == ls[0] && dir@
                    == path_join(self.workspace@, ls[0]))
                &&& ls.len() > 1 ==> (r matches Err(QueryError::MultiplePackages(f)) && f@
                    == relative@)
                &&& ls.len() == 0 ==> (r matches Err(QueryError::NoPackage(f)) && f@ == relative@)
            }),
    {
        let text = match string_from_utf8(stdout) {
            Ok(t) => t,
            Err(e) => return Err(QueryError::InvalidUtf8(e)),
        };
        let ls = lines_of(text.as_str());
        if ls.len() == 0 {
            return Err(QueryError::NoPackage(String::from_str(relative)));
        }
        if ls.len() > 1 {
            return Err(QueryError::MultiplePackages(String::from_str(relative)));
        }
        let package = ls[0].clone();
        let dir = join(self.workspace.as_str(), package.as_str());
        Ok((package, dir))
    }
}

/// Reads what the targets query printed: one target per line.
pub fn targets_from_query_output(stdout: Vec<u8>) -> (r: Result<Vec<String>, QueryError>)
    ensures
        !valid_utf8(stdout@) ==> r matches Err(QueryError::InvalidUtf8(_)),
        valid_utf8(stdout@) ==> (r matches Ok(ts) && ts.deep_view() == lines(
            decode_utf8(stdout@),
        )),
{
    match string_from_utf8(stdout) {
        Ok(t) => Ok(lines_of(t.as_str())),
        Err(e) => Err(QueryError::InvalidUtf8(e)),
    }
}

/// The first entry of the listing that is a build file, by its own name.
pub open spec fn first_build_entry(entries: Seq<DirEntryInfo>) -> int {
    first_fit(entries, |e: DirEntryInfo| is_build_entry(e))
}

/// The path of the first build file of a listing, when that path is UTF-8.
pub open spec fn listed_buildfile(es: Seq<DirEntryInfo>) -> Option<Seq<char>> {
    let k = first_build_entry(es);
    if k < es.len() {
        match es[k].path {
            Some(p) => Some(p@),
            None => None,
        }
    } else {
        None
    }
}

/// What looking for the build file of a listing gives: the first entry
/// named `BUILD.bazel` or `BUILD`; an error when that entry's path is not
/// UTF-8, when the listing failed before any build file, or when there is
/// none (the source file `file` is held).
pub open spec fn buildfile_outcome(r: Result<String, QueryError>, file: Seq<char>, listing: DirListing) -> bool {
    let es = listing.entries@;
    let k = first_build_entry(es);
    if k < es.len() {
        match es[k].path {
            Some(p) => r matches Ok(b) && b@ == p@,
            None => r matches Err(QueryError::NonUtf8Buildfile),
        }
    } else if listing.failed {
        r matches Err(QueryError::ListingFailed)
    } else {
        r matches Err(QueryError::NoBuildfile(f)) && f@ == file
    }
}

/// An entry named like one of `BUILD_FILE_NAMES`.
pub open spec fn named_like_build_file(e: DirEntryInfo) -> bool {
    e.file_name matches Some(n) && exists|i: int|
        0 <= i < 2 && n@ == (#[trigger] BUILD_FILE_NAMES@[i])@
}

/// Law: the build file of a listing is the first entry named like one of
/// `BUILD_FILE_NAMES`, with its path; no earlier entry is so named. Where
/// there is no build file, no entry is so named, and the error says whether
/// the listing failed.
pub proof fn lemma_buildfile_is_first(r: Result<String, QueryError>, file: Seq<char>, listing: DirListing)
    requires
        buildfile_outcome(r, file, listing),
    ensures
        ({
            let es = listing.entries@;
            &&& r matches Ok(b) ==> exists|k: int|
                0 <= k < es.len() && named_like_build_file(#[trigger] es[k]) && (es[k].path matches Some(
                    q,
                ) && q@ == b@) && forall|j: int| 0 <= j < k ==> !named_like_build_file(#[trigger] es[j])
            &&& r matches Err(QueryError::NonUtf8Buildfile) ==> exists|k: int|
                0 <= k < es.len() && named_like_build_file(#[trigger] es[k]) && es[k].path is None
                    && forall|j: int| 0 <= j < k ==> !named_like_build_file(#[trigger] es[j])
            &&& r matches Err(QueryError::ListingFailed) ==> listing.failed && forall|k: int|
                0 <= k < es.len() ==> !named_like_build_file(#[trigger] es[k])
            &&& r matches Err(QueryError::NoBuildfile(f)) ==> f@ == file && !listing.failed
                && forall|k: int| 0 <= k < es.len() ==> !named_like_build_file(#[trigger] es[k])
        }),
{
    let es = listing.entries@;
    let p = |e: DirEntryInfo| is_build_entry(e);
    lemma_first_fit_from(es, p, 0);
    assert forall|e: DirEntryInfo| #[trigger] named_like_build_file(e) <==> is_build_entry(e) by {
        if e.file_name is Some {
            lemma_build_file_names(e.file_name->0@);
        }
    }
    let k = first_build_entry(es);
    if k < es.len() {
        assert(named_like_build_file(es[k]));
        assert forall|j: int| 0 <= j < k implies !named_like_build_file(#[trigger] es[j]) by {
            assert(!p(es[j]));
        }
    } else {
        assert forall|j: int| 0 <= j < es.len() implies !named_like_build_file(#[trigger] es[j]) by {
            assert(!p(es[j]));
        }
    }
}

/// Whether `n` is a build file name.
pub fn is_build_file_name_text(n: &str) -> (r: bool)
    ensures
        r == is_build_file_name(n@),
{
    same_text(n, "BUILD.bazel") || same_text(n, "BUILD")
}

/// The build file of a package directory: the first entry named
/// `BUILD.bazel` or `BUILD`. An error when that entry's path is not UTF-8,
/// when the listing failed before any build file, or when there is none.
pub fn buildfile_from_listing(file: &str, listing: &DirListing) -> (r: Result<String, QueryError>)
    ensures
        buildfile_outcome(r, file@, *listing),
{
    let ghost es = listing.entries@;
    let ghost p = |e: DirEntryInfo| is_build_entry(e);
    proof {
        lemma_first_fit_from(es, p, 0);
    }
    let mut i: usize = 0;
    while i < listing.entries.len()
        invariant
            es == listing.entries@,
            p == (|e: DirEntryInfo| is_build_entry(e)),
            i <= es.len(),
            first_fit(es, p) >= i,
            forall|k: int| 0 <= k < first_fit(es, p) ==> !p(#[trigger] es[k]),
            first_fit(es, p) < es.len() ==> p(es[first_fit(es, p)]),
        decreases es.len() - i,
    {
        let e = &listing.entries[i];
        let hit = match &e.file_name {
            Some(n) => is_build_file_name_text(n.as_str()),
            None => false,
        };
        if hit {
            assert(p(es[i as int]));
            assert(first_fit(es, p) == i);
            return match &e.path {
                Some(path) => Ok(path.clone()),
                None => Err(QueryError::NonUtf8Buildfile),
            };
        }
        assert(!p(es[i as int]));
        i = i + 1;
    }
    if listing.failed {
        Err(QueryError::ListingFailed)
    } else {
        Err(QueryError::NoBuildfile(String::from_str(file)))
    }
}

/// Law: the targets query for a build file depends on the context and the
/// build file alone, so the query that `targets_after_listing` makes for the
/// build file found beside a source file is the query that
/// `query_target_details` makes when given that build file.
pub proof fn lemma_targets_query_determined(
    ctx: QueryContext,
    buildfile: Seq<char>,
    from_listing: BazelInvocation,
    from_buildfile: BazelInvocation,
)
    requires
        targets_args_for(ctx, buildfile) matches Some(a) && ctx.runs(from_listing, a) && ctx.runs(
            from_buildfile,
            a,
        ),
    ensures
        from_listing.program@ == from_buildfile.program@,
        from_listing.current_dir@ == from_buildfile.current_dir@,
        from_listing.env_remove.deep_view() == from_buildfile.env_remove.deep_view(),
        from_listing.args.deep_view() == from_buildfile.args.deep_view(),
{
}

impl RustAnalyzerArg {
    /// The first query for this argument: for a source file, the query for
    /// its package; for a build file, the query for the targets beside it.
    /// An error when the path lies outside the workspace.
    pub fn query_target_details(self, ctx: &QueryContext) -> (r: Result<TargetQuery, QueryError>)
        ensures
            match self {
                RustAnalyzerArg::Path(file) => {
                    &&& r is Err <==> path_strip_prefix(file@, ctx.workspace@) is None
                    &&& r matches Ok(q) ==> (q matches TargetQuery::Package {
                        file: f,
                        relative,
                        invocation,
                    } && f == file && path_strip_prefix(file@, ctx.workspace@) == Some(relative@)
                        && ctx.runs(
                        invocation,
                        package_query_args(
                            ctx.output_base@,
                            opt_string_view(ctx.config_group),
                            relative@,
                        ),
                    ))
                    &&& r matches Err(e) ==> (e matches QueryError::NotPartOfWorkspace(f) && f@
                        == file@)
                },
                RustAnalyzerArg::Buildfile(buildfile) => {
                    &&& r is Err <==> targets_args_for(*ctx, buildfile@) is None
                    &&& r matches Ok(q) ==> (q matches TargetQuery::Targets {
                        buildfile: b,
                        invocation,
                    } && b == buildfile && (targets_args_for(*ctx, buildfile@) matches Some(a)
                        && ctx.runs(invocation, a)))
                    &&& r matches Err(e) ==> (e matches QueryError::NotPartOfWorkspace(f) && f@
                        == buildfile@)
                },
            },
    {
        match self {
            RustAnalyzerArg::Path(file) => {
                let (relative, invocation) = ctx.package_query_command(file.as_str())?;
                Ok(TargetQuery::Package { file, relative, invocation })
            },
            RustAnalyzerArg::Buildfile(buildfile) => {
                let invocation = ctx.targets_query_command(buildfile.as_str())?;
                Ok(TargetQuery::Targets { buildfile, invocation })
            },
        }
    }
}

} // verus!
