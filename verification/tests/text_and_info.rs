use gen_rust_project_lib::bazel_info::{lookup_last, parse_bazel_info, read_bazel_info, BazelInfoError};
use gen_rust_project_lib::output::CommandOutput;
use gen_rust_project_lib::text::{chars_of, is_white_space_char, lines_of, split_on_char, trim_range};

fn strings(v: &[&str]) -> Vec<String> {
    v.iter().map(|s| s.to_string()).collect()
}

fn pairs(v: &[(&str, &str)]) -> Vec<(String, String)> {
    v.iter().map(|(a, b)| (a.to_string(), b.to_string())).collect()
}

fn output(success: bool, stdout: &[u8], stderr: &[u8]) -> CommandOutput {
    CommandOutput {
        success,
        status_display: "exit status: 1".to_string(),
        status_debug: "ExitStatus(unix_wait_status(256))".to_string(),
        stdout: stdout.to_vec(),
        stderr: stderr.to_vec(),
    }
}

#[test]
fn white_space_follows_unicode() {
    for c in ['\t', '\n', '\u{b}', '\u{c}', '\r', ' ', '\u{85}', '\u{a0}', '\u{1680}', '\u{2000}', '\u{200a}', '\u{2028}', '\u{2029}', '\u{202f}', '\u{205f}', '\u{3000}'] {
        assert!(is_white_space_char(c), "{:?}", c);
    }
    for c in ['a', '\u{8}', '\u{e}', '\u{200b}', '\u{feff}', ':', '0'] {
        assert!(!is_white_space_char(c), "{:?}", c);
    }
}

#[test]
fn white_space_agrees_with_std() {
    for u in 0u32..0x3100 {
        if let Some(c) = char::from_u32(u) {
            assert_eq!(is_white_space_char(c), c.is_whitespace(), "{:?}", c);
        }
    }
}

#[test]
fn chars_of_keeps_every_char() {
    assert_eq!(chars_of("añ€😀"), vec!['a', 'ñ', '€', '😀']);
    assert_eq!(chars_of(""), Vec::<char>::new());
}

#[test]
fn trim_range_matches_str_trim() {
    for s in ["  a b  ", "", "   ", "x", "\u{3000}é\t", "a  ", "  a"] {
        let v = chars_of(s);
        let (a, b) = trim_range(&v, 0, v.len());
        let got: String = v[a..b].iter().collect();
        assert_eq!(got, s.trim(), "{:?}", s);
    }
}

#[test]
fn trim_range_inside_bounds() {
    let v = chars_of("ab  cd  ef");
    assert_eq!(trim_range(&v, 2, 8), (4, 6));
}

#[test]
fn split_matches_str_split() {
    for s in ["", "a", "a\nb", "\n", "a\n\nb\n", "\nx"] {
        let want: Vec<String> = s.split('\n').map(|x| x.to_string()).collect();
        assert_eq!(split_on_char(s, '\n'), want, "{:?}", s);
    }
}

#[test]
fn lines_match_str_lines() {
    for s in ["", "a", "a\n", "a\nb", "a\r\nb\r\n", "\n", "\n\n", "x\r", "a\n\r\nb", "ü\r\nñ"] {
        let want: Vec<String> = s.lines().map(|x| x.to_string()).collect();
        assert_eq!(lines_of(s), want, "{:?}", s);
    }
}

#[test]
fn bazel_info_output_is_read_as_entries() {
    let out = "  workspace: /home/u/ws\nexecution_root: /e/root  \nno colon here\nrelease: release 7.0.0: rc\n\n";
    assert_eq!(
        parse_bazel_info(out),
        pairs(&[
            ("workspace", "/home/u/ws"),
            ("execution_root", "/e/root"),
            ("release", "release 7.0.0: rc"),
        ])
    );
}

#[test]
fn bazel_info_value_keeps_inner_colons_and_drops_cr() {
    assert_eq!(parse_bazel_info("output_base: C:\\b\r\n"), pairs(&[("output_base", "C:\\b")]));
    assert_eq!(parse_bazel_info(""), pairs(&[]));
    assert_eq!(parse_bazel_info(" key :"), pairs(&[("key ", "")]));
}

#[test]
fn last_entry_for_a_key_wins() {
    let es = pairs(&[("workspace", "/a"), ("x", "1"), ("workspace", "/b")]);
    assert_eq!(lookup_last(&es, "workspace"), Some("/b".to_string()));
    assert_eq!(lookup_last(&es, "x"), Some("1".to_string()));
    assert_eq!(lookup_last(&es, "output_base"), None);
}

#[test]
fn failed_bazel_info_reports_status_and_stderr() {
    match read_bazel_info(output(false, b"workspace: /w", b"boom\xff")) {
        Err(BazelInfoError::Failed { status, stderr }) => {
            assert_eq!(status, "ExitStatus(unix_wait_status(256))");
            assert_eq!(stderr, "boom\u{fffd}");
        }
        _ => panic!("expected a failure"),
    }
}

#[test]
fn bazel_info_output_must_be_utf8() {
    assert!(matches!(read_bazel_info(output(true, b"workspace: \xff", b"")), Err(BazelInfoError::InvalidUtf8(_))));
}

#[test]
fn bazel_info_output_is_decoded_and_parsed() {
    match read_bazel_info(output(true, "workspace: /wé\noutput_base: /o\n".as_bytes(), b"")) {
        Ok(es) => assert_eq!(es, pairs(&[("workspace", "/wé"), ("output_base", "/o")])),
        Err(_) => panic!("expected entries"),
    }
    let _ = strings(&[]);
}
