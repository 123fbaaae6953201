use corun::engine::{Action, Engine, Event, Phase, RunConfig};
use corun::status::Status;

fn strings(words: &[&str]) -> Vec<String> {
    words.iter().map(|w| w.to_string()).collect()
}

fn config(
    apply_stash: bool,
    shell_command: bool,
    verbose: bool,
    commits: &[&str],
    command: &[&str],
) -> RunConfig {
    RunConfig {
        dir: None,
        apply_stash,
        shell_command,
        verbose,
        commits: strings(commits),
        command: strings(command),
    }
}

/// Drive one commit from dispatch to its final report, returning right after
/// the final report is acknowledged. `exit` is the raw exit information the
/// command run produces.
fn drive_one_commit(
    engine: &mut Engine,
    first: Action,
    hash: &str,
    exit: Option<i32>,
    verbose: bool,
    stash: Option<&str>,
) -> Action {
    match first {
        Action::ResolveCommit(_) => {}
        other => panic!("expected a commit dispatch, got {:?}", other),
    }
    let act = engine.step(Event::CommitHash(Some(hash.to_string())));
    assert_eq!(act, Action::Checkout(hash.to_string()));
    let act = engine.step(Event::StepDone(true));
    assert_eq!(act, Action::Clean);
    let act = engine.step(Event::StepDone(true));
    let act = match stash {
        Some(s) => {
            assert_eq!(act, Action::ApplyStash(s.to_string()));
            engine.step(Event::StepDone(true))
        }
        None => act,
    };
    assert_eq!(act, Action::ReportPending(hash.to_string()));
    let act = engine.step(Event::StepDone(true));
    assert!(matches!(act, Action::RunCommand(_)));
    let act = engine.step(Event::Exited(Some(exit)));
    let status = Status::classify(exit);
    if verbose {
        assert_eq!(act, Action::ReportFinal(hash.to_string(), status));
    } else {
        assert_eq!(act, Action::EraseLine);
        let act = engine.step(Event::StepDone(true));
        assert_eq!(act, Action::ReportFinal(hash.to_string(), status));
    }
    engine.step(Event::StepDone(true))
}

#[test]
fn sequencing_flattens_specifiers_in_order() {
    // Specifiers ["A", "B"]; A expands to [c1, c2], B to [c3]. The run must
    // process c1, c2, c3 in that order and exit with c3's code.
    let mut engine = Engine::new(config(false, false, false, &["A", "B"], &["true"]));
    let act = engine.step(Event::Start);
    assert_eq!(act, Action::LocateRepo);
    let act = engine.step(Event::RepoFound(true));
    assert_eq!(act, Action::ResolveSpec("A".to_string()));
    let act = engine.step(Event::SpecCommits(Some(strings(&["c1", "c2"]))));
    assert_eq!(act, Action::ResolveSpec("B".to_string()));
    let act = engine.step(Event::SpecCommits(Some(strings(&["c3"]))));
    assert_eq!(act, Action::CreateWorkspace);
    let act = engine.step(Event::WorkspaceReady(true));
    assert_eq!(act, Action::CloneRepo);
    let mut act = engine.step(Event::Cloned(true));

    // Outcomes at c1 and c2 do not matter; c3's code is the run's code.
    assert_eq!(act, Action::ResolveCommit("c1".to_string()));
    act = drive_one_commit(&mut engine, act, "h1", Some(1), false, None);
    assert_eq!(act, Action::ResolveCommit("c2".to_string()));
    act = drive_one_commit(&mut engine, act, "h2", Some(125), false, None);
    assert_eq!(act, Action::ResolveCommit("c3".to_string()));
    act = drive_one_commit(&mut engine, act, "h3", Some(7), false, None);
    assert_eq!(act, Action::Finish(7));
    assert_eq!(engine.phase, Phase::Finished);
}

#[test]
fn preparation_order_is_checkout_clean_stash() {
    // With a stash configured, each commit sees checkout, then clean, then
    // stash application, then the pending report, in that exact order.
    let mut engine = Engine::new(config(true, false, false, &["HEAD"], &["true"]));
    assert_eq!(engine.step(Event::Start), Action::LocateRepo);
    let act = engine.step(Event::RepoFound(true));
    assert_eq!(act, Action::ResolveStash);
    let act = engine.step(Event::StashHash(Some("stash-sha".to_string())));
    assert_eq!(act, Action::ResolveSpec("HEAD".to_string()));
    let act = engine.step(Event::SpecCommits(Some(strings(&["c1"]))));
    assert_eq!(act, Action::CreateWorkspace);
    assert_eq!(engine.step(Event::WorkspaceReady(true)), Action::CloneRepo);
    let act = engine.step(Event::Cloned(true));
    assert_eq!(act, Action::ResolveCommit("c1".to_string()));
    let act = engine.step(Event::CommitHash(Some("h1".to_string())));
    assert_eq!(act, Action::Checkout("h1".to_string()));
    let act = engine.step(Event::StepDone(true));
    assert_eq!(act, Action::Clean);
    let act = engine.step(Event::StepDone(true));
    assert_eq!(act, Action::ApplyStash("stash-sha".to_string()));
    let act = engine.step(Event::StepDone(true));
    assert_eq!(act, Action::ReportPending("h1".to_string()));
}

#[test]
fn shell_mode_invocation_reaches_the_runner() {
    let mut engine = Engine::new(config(false, true, false, &["HEAD"], &["echo hi", "extra"]));
    assert_eq!(engine.step(Event::Start), Action::LocateRepo);
    let act = engine.step(Event::RepoFound(true));
    assert_eq!(act, Action::ResolveSpec("HEAD".to_string()));
    let act = engine.step(Event::SpecCommits(Some(strings(&["c1"]))));
    assert_eq!(act, Action::CreateWorkspace);
    assert_eq!(engine.step(Event::WorkspaceReady(true)), Action::CloneRepo);
    let _ = engine.step(Event::Cloned(true));
    let _ = engine.step(Event::CommitHash(Some("h1".to_string())));
    let _ = engine.step(Event::StepDone(true)); // checkout -> clean
    let _ = engine.step(Event::StepDone(true)); // clean -> pending report
    let act = engine.step(Event::StepDone(true)); // pending -> run
    match act {
        Action::RunCommand(inv) => {
            assert_eq!(inv.program, "/bin/bash");
            assert_eq!(inv.args, strings(&["-c", "echo hi", "--", "extra"]));
        }
        other => panic!("expected the command to run, got {:?}", other),
    }
}

#[test]
fn verbose_mode_skips_the_erase() {
    let mut engine = Engine::new(config(false, false, true, &["HEAD"], &["true"]));
    assert_eq!(engine.step(Event::Start), Action::LocateRepo);
    let act = engine.step(Event::RepoFound(true));
    assert_eq!(act, Action::ResolveSpec("HEAD".to_string()));
    let act = engine.step(Event::SpecCommits(Some(strings(&["c1"]))));
    assert_eq!(act, Action::CreateWorkspace);
    assert_eq!(engine.step(Event::WorkspaceReady(true)), Action::CloneRepo);
    let act = engine.step(Event::Cloned(true));
    let act = drive_one_commit(&mut engine, act, "h1", Some(0), true, None);
    assert_eq!(act, Action::Finish(0));
}

#[test]
fn fatal_error_on_commit_two_halts_before_commit_three() {
    // A fatal version-control failure at commit 2 of 3: the engine tells the
    // driver to stop; commit 3 is never prepared and never reported.
    let mut engine = Engine::new(config(false, false, false, &["A"], &["true"]));
    assert_eq!(engine.step(Event::Start), Action::LocateRepo);
    let act = engine.step(Event::RepoFound(true));
    assert_eq!(act, Action::ResolveSpec("A".to_string()));
    let act = engine.step(Event::SpecCommits(Some(strings(&["c1", "c2", "c3"]))));
    assert_eq!(act, Action::CreateWorkspace);
    assert_eq!(engine.step(Event::WorkspaceReady(true)), Action::CloneRepo);
    let act = engine.step(Event::Cloned(true));
    assert_eq!(act, Action::ResolveCommit("c1".to_string()));
    let act = drive_one_commit(&mut engine, act, "h1", Some(0), false, None);
    assert_eq!(act, Action::ResolveCommit("c2".to_string()));
    let act = engine.step(Event::CommitHash(Some("h2".to_string())));
    assert_eq!(act, Action::Checkout("h2".to_string()));
    // The checkout fails: fatal.
    let act = engine.step(Event::StepDone(false));
    assert_eq!(act, Action::Fail);
    assert_eq!(engine.phase, Phase::Failed);
}

#[test]
fn unresolvable_specifier_aborts_before_any_workspace_work() {
    let mut engine = Engine::new(config(false, false, false, &["bogus"], &["true"]));
    assert_eq!(engine.step(Event::Start), Action::LocateRepo);
    let act = engine.step(Event::RepoFound(true));
    assert_eq!(act, Action::ResolveSpec("bogus".to_string()));
    let act = engine.step(Event::SpecCommits(None));
    assert_eq!(act, Action::Fail);
    assert_eq!(engine.phase, Phase::Failed);
}

#[test]
fn empty_commit_list_finishes_with_code_zero() {
    let mut engine = Engine::new(config(false, false, false, &[], &["true"]));
    assert_eq!(engine.step(Event::Start), Action::LocateRepo);
    let act = engine.step(Event::RepoFound(true));
    assert_eq!(act, Action::CreateWorkspace);
    assert_eq!(engine.step(Event::WorkspaceReady(true)), Action::CloneRepo);
    let act = engine.step(Event::Cloned(true));
    assert_eq!(act, Action::Finish(0));
}

#[test]
fn abnormal_termination_remembers_255() {
    let mut engine = Engine::new(config(false, false, false, &["HEAD"], &["true"]));
    assert_eq!(engine.step(Event::Start), Action::LocateRepo);
    let act = engine.step(Event::RepoFound(true));
    assert_eq!(act, Action::ResolveSpec("HEAD".to_string()));
    let act = engine.step(Event::SpecCommits(Some(strings(&["c1"]))));
    assert_eq!(act, Action::CreateWorkspace);
    assert_eq!(engine.step(Event::WorkspaceReady(true)), Action::CloneRepo);
    let act = engine.step(Event::Cloned(true));
    // The command is killed by a signal: no exit code, outcome Abort(None),
    // and the remembered code is 255.
    let act = drive_one_commit(&mut engine, act, "h1", None, false, None);
    assert_eq!(act, Action::Finish(255));
}

#[test]
fn launch_failure_is_fatal() {
    let mut engine = Engine::new(config(false, false, false, &["HEAD"], &["no-such-bin"]));
    assert_eq!(engine.step(Event::Start), Action::LocateRepo);
    let act = engine.step(Event::RepoFound(true));
    assert_eq!(act, Action::ResolveSpec("HEAD".to_string()));
    let act = engine.step(Event::SpecCommits(Some(strings(&["c1"]))));
    assert_eq!(act, Action::CreateWorkspace);
    assert_eq!(engine.step(Event::WorkspaceReady(true)), Action::CloneRepo);
    let _ = engine.step(Event::Cloned(true));
    let _ = engine.step(Event::CommitHash(Some("h1".to_string())));
    let _ = engine.step(Event::StepDone(true)); // checkout -> clean
    let _ = engine.step(Event::StepDone(true)); // clean -> pending report
    let act = engine.step(Event::StepDone(true)); // pending -> run
    assert!(matches!(act, Action::RunCommand(_)));
    let act = engine.step(Event::Exited(None));
    assert_eq!(act, Action::Fail);
}
