use gen_rust_project_lib::crate_info::{crate_info_outcome, generate_crate_info, missing_toolchain_key, read_toolchain_info, toolchain_sysroots};
use gen_rust_project_lib::discover_rust_project::{default_argument, find_workspace_root_file, DiscoveryError};
use gen_rust_project_lib::listing::{DirEntryInfo, DirListing};
use gen_rust_project_lib::output::CommandOutput;
use gen_rust_project_lib::ra_arg::{buildfile_from_listing, targets_from_query_output, QueryContext, QueryError, RustAnalyzerArg, TargetQuery};

fn strings(v: &[&str]) -> Vec<String> {
    v.iter().map(|s| s.to_string()).collect()
}

fn ctx(group: Option<&str>) -> QueryContext {
    QueryContext {
        bazel: "bazel".to_string(),
        output_base: "/ob".to_string(),
        workspace: "/ws".to_string(),
        config_group: group.map(String::from),
    }
}

fn entry(name: Option<&str>, path: Option<&str>, is_file: bool) -> DirEntryInfo {
    DirEntryInfo { file_name: name.map(String::from), path: path.map(String::from), is_file }
}

const KIND: &str = "kind(\"rust_(library|binary|proc_macro|test)\", ";

#[test]
fn source_file_starts_with_package_query() {
    match RustAnalyzerArg::Path("/ws/pkg/src/lib.rs".to_string()).query_target_details(&ctx(Some("dbg"))) {
        Ok(TargetQuery::Package { file, relative, invocation }) => {
            assert_eq!(file, "/ws/pkg/src/lib.rs");
            assert_eq!(relative, "pkg/src/lib.rs");
            assert_eq!(invocation.current_dir, "/ws");
            assert_eq!(
                invocation.args,
                strings(&["--output_base=/ob", "query", "--config=dbg", "--output=package", "pkg/src/lib.rs"])
            );
        }
        _ => panic!("expected a package query"),
    }
}

#[test]
fn file_outside_workspace_is_an_error() {
    match RustAnalyzerArg::Path("/elsewhere/lib.rs".to_string()).query_target_details(&ctx(None)) {
        Err(QueryError::NotPartOfWorkspace(f)) => assert_eq!(f, "/elsewhere/lib.rs"),
        _ => panic!("expected an error"),
    }
    assert!(matches!(ctx(None).targets_query_command("/other/BUILD"), Err(QueryError::NotPartOfWorkspace(f)) if f == "/other/BUILD"));
}

#[test]
fn buildfile_queries_targets_below_its_directory() {
    match RustAnalyzerArg::Buildfile("/ws/a/b/BUILD.bazel".to_string()).query_target_details(&ctx(None)) {
        Ok(TargetQuery::Targets { buildfile, invocation }) => {
            assert_eq!(buildfile, "/ws/a/b/BUILD.bazel");
            assert_eq!(invocation.args, strings(&["--output_base=/ob", "query", &format!("{KIND}a/b/...)")]));
        }
        _ => panic!("expected a targets query"),
    }
}

#[test]
fn root_buildfile_queries_whole_workspace() {
    let cmd = match ctx(None).targets_query_command("/ws/BUILD.bazel") {
        Ok(c) => c,
        Err(_) => panic!("expected a query"),
    };
    assert_eq!(cmd.args[2], format!("{KIND}//...)"));
    let cmd = ctx(Some("x")).targets_query(None);
    assert_eq!(cmd.args, strings(&["--output_base=/ob", "query", "--config=x", &format!("{KIND}//...)")]));
    let cmd = ctx(None).targets_query(Some(""));
    assert_eq!(cmd.args[2], format!("{KIND}//...)"));
}

#[test]
fn package_output_must_name_one_package() {
    let c = ctx(None);
    match c.package_from_query_output("pkg/lib.rs", b"pkg\n".to_vec()) {
        Ok((package, dir)) => {
            assert_eq!(package, "pkg");
            assert_eq!(dir, "/ws/pkg");
        }
        _ => panic!("expected one package"),
    }
    assert!(matches!(c.package_from_query_output("f.rs", b"a\nb\n".to_vec()), Err(QueryError::MultiplePackages(f)) if f == "f.rs"));
    assert!(matches!(c.package_from_query_output("f.rs", Vec::new()), Err(QueryError::NoPackage(f)) if f == "f.rs"));
    assert!(matches!(c.package_from_query_output("f.rs", vec![0xff]), Err(QueryError::InvalidUtf8(_))));
}

#[test]
fn targets_are_the_output_lines() {
    match targets_from_query_output(b"//a:lib\n//a:bin\r\n".to_vec()) {
        Ok(ts) => assert_eq!(ts, strings(&["//a:lib", "//a:bin"])),
        Err(_) => panic!("expected targets"),
    }
    assert!(matches!(targets_from_query_output(vec![0xc3]), Err(QueryError::InvalidUtf8(_))));
}

#[test]
fn first_build_file_is_chosen() {
    let listing = DirListing {
        entries: vec![
            entry(Some("src"), Some("/ws/p/src"), false),
            entry(Some("BUILD"), Some("/ws/p/BUILD"), true),
            entry(Some("BUILD.bazel"), Some("/ws/p/BUILD.bazel"), true),
        ],
        failed: false,
    };
    assert!(matches!(buildfile_from_listing("f.rs", &listing), Ok(b) if b == "/ws/p/BUILD"));
}

#[test]
fn build_file_errors() {
    let none = DirListing { entries: vec![entry(Some("lib.rs"), Some("/p/lib.rs"), true)], failed: false };
    assert!(matches!(buildfile_from_listing("/p/lib.rs", &none), Err(QueryError::NoBuildfile(f)) if f == "/p/lib.rs"));
    let failed = DirListing { entries: vec![], failed: true };
    assert!(matches!(buildfile_from_listing("f", &failed), Err(QueryError::ListingFailed)));
    let bad = DirListing { entries: vec![entry(Some("BUILD.bazel"), None, true)], failed: true };
    assert!(matches!(buildfile_from_listing("f", &bad), Err(QueryError::NonUtf8Buildfile)));
    let before_failure = DirListing { entries: vec![entry(Some("BUILD"), Some("/p/BUILD"), true)], failed: true };
    assert!(matches!(buildfile_from_listing("f", &before_failure), Ok(b) if b == "/p/BUILD"));
}

#[test]
fn workspace_root_file_is_found() {
    let listing = DirListing {
        entries: vec![
            entry(None, None, true),
            entry(Some("MODULE.bazel"), Some("/ws/MODULE.bazel"), false),
            entry(Some("x"), Some("/ws/README.md"), true),
            entry(Some("y"), Some("/ws/WORKSPACE"), true),
        ],
        failed: false,
    };
    assert!(matches!(find_workspace_root_file("/ws", &listing), Ok(p) if p == "/ws/WORKSPACE"));
}

#[test]
fn workspace_root_file_errors() {
    let listing = DirListing { entries: vec![entry(Some("a"), Some("/ws/a.txt"), true)], failed: false };
    assert!(matches!(find_workspace_root_file("/ws", &listing), Err(DiscoveryError::NoRootFile(w)) if w == "/ws"));
    let listing = DirListing { entries: vec![], failed: true };
    assert!(matches!(find_workspace_root_file("/ws", &listing), Err(DiscoveryError::ListingFailed)));
}

#[test]
fn default_argument_is_the_root_file() {
    let listing = DirListing {
        entries: vec![
            entry(None, Some("/ws/WORKSPACE"), false),
            entry(None, Some("/ws/MODULE.bazel"), true),
        ],
        failed: true,
    };
    assert!(matches!(default_argument("/ws", &listing), Ok(RustAnalyzerArg::Buildfile(b)) if b == "/ws/MODULE.bazel"));
    let listing = DirListing { entries: vec![entry(None, Some("/ws/BUILD"), true)], failed: false };
    assert!(matches!(default_argument("/ws", &listing), Err(DiscoveryError::NoRootFile(w)) if w == "/ws"));
}

#[test]
fn source_file_chain_reaches_the_build_file_query() {
    let c = ctx(Some("x"));
    let listing = DirListing {
        entries: vec![entry(Some("lib.rs"), Some("/ws/a/lib.rs"), true), entry(Some("BUILD.bazel"), Some("/ws/a/BUILD.bazel"), true)],
        failed: false,
    };
    let (bf, cmd) = match c.targets_after_listing("/ws/a/lib.rs", &listing) {
        Ok(found) => found,
        Err(_) => panic!("expected a build file"),
    };
    assert_eq!(bf, "/ws/a/BUILD.bazel");
    match RustAnalyzerArg::Buildfile(bf.clone()).query_target_details(&c) {
        Ok(TargetQuery::Targets { buildfile, invocation }) => {
            assert_eq!(buildfile, bf);
            assert_eq!(invocation.args, cmd.args);
            assert_eq!(invocation.current_dir, cmd.current_dir);
        }
        _ => panic!("expected a targets query"),
    }
    let outside = DirListing { entries: vec![entry(Some("BUILD"), Some("/elsewhere/BUILD"), true)], failed: false };
    assert!(matches!(c.targets_after_listing("/ws/a/lib.rs", &outside), Err(QueryError::NotPartOfWorkspace(f)) if f == "/elsewhere/BUILD"));
}

#[test]
fn crate_info_build_arguments() {
    let cmd = generate_crate_info("bazel", "/ob", "/ws", Some("ci"), "@rules_rust", &strings(&["//a:b", "//c/..."]));
    assert_eq!(cmd.current_dir, "/ws");
    assert_eq!(
        cmd.args,
        strings(&[
            "--output_base=/ob",
            "build",
            "--config=ci",
            "--norun_validations",
            "--aspects=@rules_rust//rust:defs.bzl%rust_analyzer_aspect",
            "--output_groups=rust_analyzer_crate_spec,rust_generated_srcs,rust_analyzer_proc_macro_dylibs,rust_analyzer_srcs",
            "//a:b",
            "//c/...",
        ])
    );
}

#[test]
fn crate_info_outcome_reports_failure() {
    let out = CommandOutput {
        success: false,
        status_display: "exit status: 1".to_string(),
        status_debug: String::new(),
        stdout: Vec::new(),
        stderr: b"ERROR: no such target".to_vec(),
    };
    match crate_info_outcome(&out) {
        Err(f) => {
            assert_eq!(f.status, "exit status: 1");
            assert_eq!(f.stderr, "ERROR: no such target");
        }
        Ok(()) => panic!("the build failed"),
    }
    let ok = CommandOutput { success: true, ..out };
    assert!(crate_info_outcome(&ok).is_ok());
}

#[test]
fn toolchain_sysroots_are_read() {
    let info = match read_toolchain_info(r#"{"sysroot": "/sr", "sysroot_src": "/sr/lib/src", "other": "x"}"#) {
        Ok(i) => i,
        Err(_) => panic!("expected a map"),
    };
    assert_eq!(missing_toolchain_key(&info), None);
    let s = toolchain_sysroots(&info);
    assert_eq!(s.sysroot, "/sr");
    assert_eq!(s.sysroot_src, "/sr/lib/src");
}

#[test]
fn toolchain_errors() {
    let only_root = read_toolchain_info(r#"{"sysroot": "/sr"}"#).ok().unwrap();
    assert_eq!(missing_toolchain_key(&only_root).as_deref(), Some("sysroot_src"));
    let only_src = read_toolchain_info(r#"{"sysroot_src": "/s"}"#).ok().unwrap();
    assert_eq!(missing_toolchain_key(&only_src).as_deref(), Some("sysroot"));
    assert!(read_toolchain_info(r#"{"sysroot": 1}"#).is_err());
    assert!(read_toolchain_info("not json").is_err());
}

#[test]
fn toolchain_entries_come_ordered_by_key() {
    let info = read_toolchain_info(r#"{"b": "2", "a": "1", "a": "3"}"#).ok().unwrap();
    assert_eq!(info, vec![("a".to_string(), "3".to_string()), ("b".to_string(), "2".to_string())]);
}
