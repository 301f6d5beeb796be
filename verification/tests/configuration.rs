use gen_rust_project_lib::bazel_info::{bazel_info_command, read_bazel_info, BazelInfoError};
use gen_rust_project_lib::command::{BazelCommand, BazelInvocation};
use gen_rust_project_lib::config::{missing_bazel_info, Config, ConfigParser, Refinement};
use gen_rust_project_lib::discover_rust_project as discover;
use gen_rust_project_lib::gen_rust_project as gen;
use gen_rust_project_lib::output::CommandOutput;
use gen_rust_project_lib::ra_arg::RustAnalyzerArg;

fn strings(v: &[&str]) -> Vec<String> {
    v.iter().map(|s| s.to_string()).collect()
}

const ENV: [&str; 3] = ["BAZELISK_SKIP_WRAPPER", "BUILD_WORKING_DIRECTORY", "BUILD_WORKSPACE_DIRECTORY"];

fn ok_output(stdout: &str) -> CommandOutput {
    CommandOutput {
        success: true,
        status_display: "exit status: 0".to_string(),
        status_debug: "ExitStatus(unix_wait_status(0))".to_string(),
        stdout: stdout.as_bytes().to_vec(),
        stderr: Vec::new(),
    }
}

fn parser(w: Option<&str>, e: Option<&str>, o: Option<&str>, group: Option<&str>) -> ConfigParser<u32> {
    ConfigParser {
        workspace: w.map(String::from),
        execution_root: e.map(String::from),
        output_base: o.map(String::from),
        bazel: "bazelisk".to_string(),
        config_group: group.map(String::from),
        specific: 7,
    }
}

#[test]
fn new_bazel_command_defaults_to_current_dir() {
    let cmd = BazelInvocation::new_bazel_command("bazel", None, None);
    assert_eq!(cmd.program, "bazel");
    assert_eq!(cmd.current_dir, ".");
    assert_eq!(cmd.env_remove, strings(&ENV));
    assert!(cmd.args.is_empty());
}

#[test]
fn new_bazel_command_uses_workspace_and_output_base() {
    let cmd = BazelInvocation::new_bazel_command("/bin/bazel", Some("/ws"), Some("/ob"));
    assert_eq!(cmd.current_dir, "/ws");
    assert_eq!(cmd.args, strings(&["--output_base=/ob"]));
}

#[test]
fn bazel_info_command_arguments() {
    let cmd = bazel_info_command("bazel", Some("/ws"), Some("/ob"), Some("ci"));
    assert_eq!(cmd.args, strings(&["--output_base=/ob", "info", "--config=ci"]));
    let cmd = bazel_info_command("bazel", None, None, None);
    assert_eq!(cmd.current_dir, ".");
    assert_eq!(cmd.args, strings(&["info"]));
}

#[test]
fn complete_flags_need_no_bazel_info() {
    match Config::parse_and_refine(parser(Some("/w"), Some("/e"), Some("/o"), Some("g"))) {
        Refinement::Ready(c) => {
            assert_eq!((c.workspace.as_str(), c.execution_root.as_str(), c.output_base.as_str()), ("/w", "/e", "/o"));
            assert_eq!(c.bazel, "bazelisk");
            assert_eq!(c.config_group.as_deref(), Some("g"));
            assert_eq!(c.specific, 7);
        }
        Refinement::NeedsBazelInfo(..) => panic!("flags were complete"),
    }
}

#[test]
fn incomplete_flags_ask_for_bazel_info() {
    match Config::parse_and_refine(parser(Some("/w"), None, Some("/o"), Some("g"))) {
        Refinement::NeedsBazelInfo(cmd, p) => {
            assert_eq!(cmd.program, "bazelisk");
            assert_eq!(cmd.current_dir, "/w");
            assert_eq!(cmd.env_remove, strings(&ENV));
            assert_eq!(cmd.args, strings(&["--output_base=/o", "info", "--config=g"]));
            assert_eq!(p.workspace.as_deref(), Some("/w"));
        }
        Refinement::Ready(_) => panic!("execution root was missing"),
    }
}

fn entries(text: &str) -> Vec<(String, String)> {
    match read_bazel_info(ok_output(text)) {
        Ok(es) => es,
        Err(_) => panic!("expected entries"),
    }
}

#[test]
fn given_paths_are_kept_and_bazel_info_fills_gaps() {
    let es = entries("workspace: /from/info\nexecution_root: /exec\nrelease: 7\n");
    let c = Config::refine_with_bazel_info(parser(Some("/flag/ws"), None, Some("/flag/ob"), None), &es);
    assert_eq!(c.workspace, "/flag/ws");
    assert_eq!(c.execution_root, "/exec");
    assert_eq!(c.output_base, "/flag/ob");
    assert_eq!(c.specific, 7);
}

#[test]
fn missing_path_is_reported_in_order() {
    let es = entries("output_base: /o\n");
    assert_eq!(missing_bazel_info(&None, &None, &None, &es).as_deref(), Some("workspace"));
    let es = entries("workspace: /w\n");
    assert_eq!(missing_bazel_info(&None, &None, &Some("/o".to_string()), &es).as_deref(), Some("execution_root"));
    assert_eq!(missing_bazel_info(&None, &Some("/e".to_string()), &Some("/o".to_string()), &es), None);
    assert_eq!(missing_bazel_info(&Some("/w".to_string()), &Some("/e".to_string()), &None, &es).as_deref(), Some("output_base"));
}

#[test]
fn failed_bazel_info_is_an_error() {
    let mut out = ok_output("");
    out.success = false;
    out.stderr = b"no workspace".to_vec();
    match read_bazel_info(out) {
        Err(BazelInfoError::Failed { status, stderr }) => {
            assert_eq!(status, "ExitStatus(unix_wait_status(0))");
            assert_eq!(stderr, "no workspace");
        }
        _ => panic!("expected the failure"),
    }
}

#[test]
fn discover_config_fills_missing_paths_from_bazel_info() {
    let p = discover::ConfigParser {
        workspace: Some("/flag".to_string()),
        execution_root: None,
        output_base: None,
        bazel: "bazel".to_string(),
        rust_analyzer_argument: Some(RustAnalyzerArg::Buildfile("/w/BUILD".to_string())),
    };
    let p = match discover::Config::parse(p) {
        discover::ConfigStep::NeedsBazelInfo(cmd, p) => {
            assert_eq!(cmd.args, strings(&["info"]));
            assert_eq!(cmd.current_dir, "/flag");
            p
        }
        discover::ConfigStep::Ready(_) => panic!("paths were missing"),
    };
    let es = entries("workspace: /info\nexecution_root: /e\noutput_base: /o\n");
    let c = discover::Config::from_bazel_info(p, &es);
    assert_eq!((c.workspace.as_str(), c.execution_root.as_str(), c.output_base.as_str()), ("/flag", "/e", "/o"));
    assert!(matches!(c.rust_analyzer_argument, Some(RustAnalyzerArg::Buildfile(b)) if b == "/w/BUILD"));
}

#[test]
fn discover_config_ready_when_complete() {
    let p = discover::ConfigParser {
        workspace: Some("/w".to_string()),
        execution_root: Some("/e".to_string()),
        output_base: Some("/o".to_string()),
        bazel: "bazel".to_string(),
        rust_analyzer_argument: None,
    };
    match discover::Config::parse(p) {
        discover::ConfigStep::Ready(c) => {
            assert_eq!(c.workspace, "/w");
            assert!(c.rust_analyzer_argument.is_none());
        }
        _ => panic!("flags were complete"),
    }
}

#[test]
fn gen_config_from_bazel_info() {
    let p = gen::ConfigParser {
        workspace: None,
        execution_root: None,
        output_base: Some("/flag/ob".to_string()),
        bazel: "bazel".to_string(),
        targets: strings(&["@//..."]),
    };
    let p = match gen::Config::parse(p) {
        gen::ConfigStep::NeedsBazelInfo(cmd, p) => {
            assert_eq!(cmd.current_dir, ".");
            assert_eq!(cmd.args, strings(&["--output_base=/flag/ob", "info"]));
            p
        }
        gen::ConfigStep::Ready(_) => panic!("paths were missing"),
    };
    let es = entries("workspace: /w\nexecution_root: /e\noutput_base: /o\n");
    let c = gen::Config::from_bazel_info(p, &es);
    assert_eq!((c.workspace.as_str(), c.execution_root.as_str(), c.output_base.as_str()), ("/w", "/e", "/flag/ob"));
    assert_eq!(c.targets, strings(&["@//..."]));
}
