use corun::invocation::build_invocation;

fn strings(words: &[&str]) -> Vec<String> {
    words.iter().map(|w| w.to_string()).collect()
}

#[test]
fn shell_mode_builds_bash_dash_c() {
    let inv = build_invocation(true, &strings(&["echo hi", "extra"]));
    assert_eq!(inv.program, "/bin/bash");
    assert_eq!(inv.args, strings(&["-c", "echo hi", "--", "extra"]));
}

#[test]
fn shell_mode_single_token() {
    let inv = build_invocation(true, &strings(&["exit 3"]));
    assert_eq!(inv.program, "/bin/bash");
    assert_eq!(inv.args, strings(&["-c", "exit 3", "--"]));
}

#[test]
fn direct_mode_splits_program_and_args() {
    let inv = build_invocation(false, &strings(&["cargo", "test", "--quiet"]));
    assert_eq!(inv.program, "cargo");
    assert_eq!(inv.args, strings(&["test", "--quiet"]));
}

#[test]
fn direct_mode_single_token_has_no_args() {
    let inv = build_invocation(false, &strings(&["true"]));
    assert_eq!(inv.program, "true");
    assert!(inv.args.is_empty());
}
