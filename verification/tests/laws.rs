use gen_rust_project_lib::bazel_info::{lookup_last, parse_bazel_info, read_bazel_info};
use gen_rust_project_lib::config::{Config, ConfigParser, Refinement};
use gen_rust_project_lib::output::CommandOutput;
use gen_rust_project_lib::text::{chars_of, is_white_space_char, lines_of, split_on_char, trim_range};

#[test]
fn split_then_join_gives_text_back() {
    for s in ["", "a", "a\nb\n", "\n\n", "x\ny\r\nz"] {
        let pieces = split_on_char(s, '\n');
        assert!(!pieces.is_empty());
        assert!(pieces.iter().all(|p| !p.contains('\n')));
        assert_eq!(pieces.join("\n"), s);
    }
}

#[test]
fn no_line_holds_a_newline() {
    for s in ["a\nb", "\n\n\n", "a\r\n\r\nb\r", ""] {
        assert!(lines_of(s).iter().all(|l| !l.contains('\n')));
    }
}

#[test]
fn trimmed_text_has_no_white_space_at_its_ends() {
    for s in [" \u{2003}a b\t", "   ", "x"] {
        let v = chars_of(s);
        let (a, b) = trim_range(&v, 0, v.len());
        if a < b {
            assert!(!is_white_space_char(v[a]) && !is_white_space_char(v[b - 1]));
        }
        assert!(a <= b && b <= v.len());
    }
}

#[test]
fn bazel_info_entries_are_well_formed() {
    let es = parse_bazel_info("a:b:c\n x : y \nz\r\nk:\tv\t\n");
    assert_eq!(es.len(), 3);
    for (k, v) in &es {
        assert!(!k.contains(':') && !k.contains('\n') && !v.contains('\n'));
        assert_eq!(v.trim(), v);
    }
}

#[test]
fn later_entry_overrides_earlier() {
    let mut es = vec![("workspace".to_string(), "/a".to_string()), ("x".to_string(), "1".to_string())];
    es.push(("workspace".to_string(), "/b".to_string()));
    assert_eq!(lookup_last(&es, "workspace").as_deref(), Some("/b"));
    assert_eq!(lookup_last(&es, "x").as_deref(), Some("1"));
}

#[test]
fn given_flags_are_kept_and_bazel_info_fills_gaps() {
    let parsed = ConfigParser {
        workspace: Some("/flag/w".to_string()),
        execution_root: Some("/flag/e".to_string()),
        output_base: None,
        bazel: "bazel".to_string(),
        config_group: None,
        specific: (),
    };
    let parsed = match Config::parse_and_refine(parsed) {
        Refinement::NeedsBazelInfo(_, p) => p,
        Refinement::Ready(_) => panic!("output base was missing"),
    };
    let out = CommandOutput {
        success: true,
        status_display: String::new(),
        status_debug: String::new(),
        stdout: b"output_base: /info/o\nworkspace: /info/w\n".to_vec(),
        stderr: Vec::new(),
    };
    let es = match read_bazel_info(out) {
        Ok(es) => es,
        Err(_) => panic!("expected entries"),
    };
    let c = Config::refine_with_bazel_info(parsed, &es);
    assert_eq!(c.workspace, "/flag/w");
    assert_eq!(c.execution_root, "/flag/e");
    assert_eq!(c.output_base, "/info/o");
}

#[test]
fn printed_entries_read_back_as_printed() {
    let entries = vec![
        ("workspace".to_string(), "/home/u/ws".to_string()),
        ("execution_root".to_string(), "/e/x: y".to_string()),
        ("empty".to_string(), String::new()),
        ("".to_string(), "v".to_string()),
        ("last".to_string(), String::new()),
    ];
    let printed: Vec<String> = entries.iter().map(|(k, v)| format!("{k}: {v}")).collect();
    assert_eq!(parse_bazel_info(&printed.join("\n")), entries);
}
