use nrc::runner::{
    entries_from_groups, entry_from_nej, error_entry, file_select, identify, nej_args,
    nej_base_args, nej_file_args, report_attr, system_for, eval_checks_attr, NejLine, PreEntry,
    RunnerError, APPLY, SELECT,
};
use nrc::app::{EntryKind, Status};

#[test]
fn nej_args_target_eval_checks() {
    let args = nej_args(".", "x86_64-linux", 8);
    assert!(args.contains(&"--no-instantiate".to_owned()));
    assert!(args.contains(&"--force-recurse".to_owned()));
    let option_at = args.iter().position(|a| a == "--option").unwrap();
    assert_eq!(args[option_at + 1], "eval-cache");
    assert_eq!(args[option_at + 2], "false");
    assert!(args.contains(&".#resultChecks.x86_64-linux.evalChecks".to_owned()));
    assert!(args.contains(&APPLY.to_owned()));
    assert!(args.contains(&SELECT.to_owned()));
    let workers_at = args.iter().position(|a| a == "--workers").unwrap();
    assert_eq!(args[workers_at + 1], "8");
}

#[test]
fn select_script_is_embedded() {
    assert!(SELECT.contains("mapAttrs"));
    assert!(SELECT.contains("result = entry"));
}

#[test]
fn file_mode_projects_eval_checks_from_the_data_type() {
    let select = file_select();
    assert!(select.starts_with("root: ("));
    assert!(select.ends_with(") root.evalChecks"));

    let args = nej_file_args("./checks.nix", 4);
    assert!(args.contains(&"--no-instantiate".to_owned()));
    assert!(args.contains(&select));
    assert_eq!(args.last().map(String::as_str), Some("./checks.nix"));
}

#[test]
fn report_attr_follows_convention() {
    assert_eq!(
        report_attr("github:foo/bar", "aarch64-darwin"),
        "github:foo/bar#resultChecks.aarch64-darwin.report"
    );
}

fn pre(status: Status, exit_code: &str, stdout: &str, stderr: &str) -> PreEntry {
    PreEntry {
        kind: EntryKind::Eval,
        status,
        exit_code: exit_code.to_owned(),
        stdout: stdout.to_owned(),
        stderr: stderr.to_owned(),
    }
}

fn path(parts: &[&str]) -> Vec<String> {
    parts.iter().map(|p| p.to_string()).collect()
}

#[test]
fn parses_extra_value_into_entry() {
    let line = NejLine {
        attr_path: path(&["fixture", "testFail"]),
        extra_value: Some(pre(
            Status::Fail,
            "1",
            "FAIL: testFail\n  expected: 3\n  got:      2\n",
            "1 test(s) failed\n",
        )),
        error: None,
    };
    let entry = entry_from_nej(line).unwrap();
    assert_eq!(entry.suite.as_deref(), Some("fixture"));
    assert_eq!(entry.name, "testFail");
    assert_eq!(entry.kind, EntryKind::Eval);
    assert_eq!(entry.status, Status::Fail);
    assert_eq!(entry.exit_code, "1");
    assert_eq!(entry.stdout, "FAIL: testFail\n  expected: 3\n  got:      2\n");
    assert_eq!(entry.stderr, "1 test(s) failed\n");
}

#[test]
fn parses_error_line_into_failing_entry() {
    let line = NejLine {
        attr_path: path(&["fixture", "testError"]),
        extra_value: None,
        error: Some("error: boom".to_owned()),
    };
    let entry = entry_from_nej(line).unwrap();
    assert_eq!(entry.suite.as_deref(), Some("fixture"));
    assert_eq!(entry.name, "testError");
    assert_eq!(entry.status, Status::Fail);
    assert_eq!(entry.exit_code, "1");
    assert_eq!(entry.stderr, "error: boom");
}

#[test]
fn rejects_line_without_value_or_error() {
    let line = NejLine { attr_path: path(&["fixture", "x"]), extra_value: None, error: None };
    assert_eq!(entry_from_nej(line).unwrap_err(), RunnerError::NoValueNorError);
}

#[test]
fn parses_eval_json_tree() {
    let groups = vec![(
        "fixture".to_owned(),
        vec![
            ("passes".to_owned(), pre(Status::Pass, "0", "", "")),
            ("skipped".to_owned(), pre(Status::Skip, "", "", "")),
        ],
    )];
    let entries = entries_from_groups(groups);
    assert_eq!(entries.len(), 2);
    assert!(entries.iter().all(|entry| entry.suite.as_deref() == Some("fixture")));
    let skipped = entries.iter().find(|e| e.name == "skipped").unwrap();
    assert_eq!(skipped.status, Status::Skip);
    assert_eq!(skipped.exit_code, "");
}

#[test]
fn identify_takes_suite_and_name_from_the_path() {
    assert_eq!(identify(&path(&["a", "b", "c"])), (Some("a".to_owned()), "b".to_owned()));
    assert_eq!(identify(&path(&["only"])), (None, "only".to_owned()));
    assert_eq!(identify(&path(&[])), (None, String::new()));
}

#[test]
fn error_entry_is_a_failing_eval() {
    let e = error_entry(None, "t".to_owned(), "boom".to_owned());
    assert_eq!(e.kind, EntryKind::Eval);
    assert_eq!(e.status, Status::Fail);
    assert_eq!(e.exit_code, "1");
    assert_eq!(e.stdout, "");
    assert_eq!(e.stderr, "boom");
}

#[test]
fn base_args_spell_workers_in_decimal() {
    let args = nej_base_args(120);
    assert_eq!(
        args,
        ["--option", "eval-cache", "false", "--no-instantiate", "--force-recurse", "--workers", "120"]
    );
    assert_eq!(nej_base_args(0).last().unwrap(), "0");
}

#[test]
fn eval_checks_attr_follows_convention() {
    assert_eq!(eval_checks_attr(".", "x86_64-linux"), ".#resultChecks.x86_64-linux.evalChecks");
}

#[test]
fn system_names() {
    assert_eq!(system_for("x86_64", "linux").unwrap(), "x86_64-linux");
    assert_eq!(system_for("aarch64", "macos").unwrap(), "aarch64-darwin");
    assert_eq!(system_for("riscv64", "linux").unwrap_err(), "unsupported system: riscv64-linux");
}
